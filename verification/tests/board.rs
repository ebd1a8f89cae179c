use truncate_core::board::{Board, Coordinate, GamePlayError, Square, SquareValidity};
use truncate_core::judge::Judge;

#[test]
fn get_rejects_out_of_bounds() {
    let b = Board::new(3, 3);
    assert_eq!(
        b.get(Coordinate { x: 3, y: 0 }),
        Err(GamePlayError::OutsideBoardDimensions { x: 3, y: 0 })
    );
    assert_eq!(
        b.get(Coordinate { x: 0, y: 7 }),
        Err(GamePlayError::OutsideBoardDimensions { x: 0, y: 7 })
    );
    assert_eq!(b.get(Coordinate { x: 2, y: 2 }), Ok(Square::Water { foggy: false }));
}

#[test]
fn set_writes_an_occupied_square() {
    let mut b = Board::new(3, 3);
    assert_eq!(b.set(Coordinate { x: 1, y: 2 }, 0, 'Q'), Ok(()));
    assert_eq!(
        b.get(Coordinate { x: 1, y: 2 }),
        Ok(Square::Occupied {
            player: 0,
            tile: 'Q',
            validity: SquareValidity::Unknown,
            foggy: false
        })
    );
    assert_eq!(
        b.set(Coordinate { x: 9, y: 9 }, 0, 'Q'),
        Err(GamePlayError::OutsideBoardDimensions { x: 9, y: 9 })
    );
}

#[test]
fn neighbors_clip_to_the_board() {
    let b = Board::new(3, 3);
    let corner = b.neighbors_4(Coordinate { x: 0, y: 0 });
    assert_eq!(corner.len(), 2);
    assert!(corner.contains(&Coordinate { x: 1, y: 0 }));
    assert!(corner.contains(&Coordinate { x: 0, y: 1 }));
    let middle = b.neighbors_4(Coordinate { x: 1, y: 1 });
    assert_eq!(middle.len(), 4);
}

#[test]
fn cache_special_squares_tracks_towns_and_artifacts() {
    let mut b = Board::new(3, 3);
    b.squares[0][1] = Square::Town {
        player: 0,
        defeated: false,
        foggy: false,
    };
    b.squares[2][2] = Square::Artifact {
        player: 1,
        defeated: false,
        foggy: false,
    };
    b.cache_special_squares();
    assert_eq!(b.towns, vec![Coordinate { x: 1, y: 0 }]);
    assert_eq!(b.artifacts, vec![Coordinate { x: 2, y: 2 }]);
}

#[test]
fn winner_needs_an_enemy_tile_next_to_a_town() {
    let mut b = Board::new(3, 3);
    b.squares[0][0] = Square::Town {
        player: 1,
        defeated: false,
        foggy: false,
    };
    b.cache_special_squares();
    assert_eq!(Judge::winner(&b), None);

    // The town owner's own tile next to the town does not win.
    b.set(Coordinate { x: 1, y: 0 }, 1, 'A').unwrap();
    assert_eq!(Judge::winner(&b), None);

    // A diagonal enemy tile does not win either.
    b.set(Coordinate { x: 1, y: 1 }, 0, 'B').unwrap();
    assert_eq!(Judge::winner(&b), None);

    // An orthogonal enemy tile does.
    b.set(Coordinate { x: 0, y: 1 }, 0, 'C').unwrap();
    assert_eq!(Judge::winner(&b), Some(0));
}

#[test]
fn reciprocal_coordinate_mirrors_both_axes() {
    let b = Board::new(4, 6);
    assert_eq!(
        b.reciprocal_coordinate(Coordinate { x: 0, y: 0 }),
        Coordinate { x: 3, y: 5 }
    );
    assert_eq!(
        b.reciprocal_coordinate(Coordinate { x: 3, y: 5 }),
        Coordinate { x: 0, y: 0 }
    );
    assert_eq!(
        b.reciprocal_coordinate(Coordinate { x: 1, y: 2 }),
        Coordinate { x: 2, y: 3 }
    );
}
