use truncate_core::board::{Board, Coordinate, Square, SquareValidity};
use truncate_core::client;
use truncate_core::convert;
use truncate_core::moves::Move;
use truncate_core::player::Hand;
use truncate_core::wire;

#[test]
fn wire_coordinates() {
    assert_eq!(
        convert::to_wire_coord(&Coordinate { x: 3, y: 7 }),
        Some(wire::Coordinate { x: 3, y: 7 })
    );
    assert_eq!(
        client::to_coord(&Coordinate { x: 0, y: 1 }),
        Some(wire::Coordinate { x: 0, y: 1 })
    );
}

#[test]
fn place_moves_cross_the_wire() {
    let pm = wire::PlaceMove {
        tile: "Q".to_string(),
        position: Some(wire::Coordinate { x: 2, y: 5 }),
    };
    assert_eq!(
        convert::place_move_to_move(4, &pm),
        Move::Place {
            player: 4,
            tile: 'Q',
            position: Coordinate { x: 2, y: 5 }
        }
    );
}

#[test]
fn swap_moves_cross_the_wire() {
    let sm = wire::SwapMove {
        from: Some(wire::Coordinate { x: 1, y: 1 }),
        to: Some(wire::Coordinate { x: 1, y: 2 }),
    };
    assert_eq!(
        convert::swap_move_to_move(0, &sm),
        Move::Swap {
            player: 0,
            positions: [Coordinate { x: 1, y: 1 }, Coordinate { x: 1, y: 2 }]
        }
    );
}

#[test]
fn move_requests_and_broadcasts_cross_the_wire() {
    let mr = wire::MoveRequest {
        action: Some(wire::MoveChoice::Place(wire::PlaceMove {
            tile: "A".to_string(),
            position: Some(wire::Coordinate { x: 0, y: 0 }),
        })),
    };
    assert_eq!(
        convert::move_request_to_move(1, &mr),
        Some(Move::Place {
            player: 1,
            tile: 'A',
            position: Coordinate { x: 0, y: 0 }
        })
    );
    assert_eq!(
        convert::move_request_to_move(1, &wire::MoveRequest { action: None }),
        None
    );

    // A broadcast built from a move converts back to the same move.
    let mv = Move::Swap {
        player: 1,
        positions: [Coordinate { x: 4, y: 4 }, Coordinate { x: 4, y: 5 }],
    };
    let board = convert::to_board(&Board::new(2, 2));
    let broadcast = convert::move_to_player_move(board, &mv, false);
    assert_eq!(broadcast.player_id, 1);
    assert!(!broadcast.game_over);
    assert_eq!(convert::player_move_to_move(&broadcast), Some(mv));
}

#[test]
fn squares_survive_the_wire_round_trip() {
    let samples = vec![
        Square::Water { foggy: false },
        Square::Land { foggy: true },
        Square::Town {
            player: 2,
            defeated: true,
            foggy: false,
        },
        Square::Obelisk { foggy: false },
        Square::Artifact {
            player: 0,
            defeated: false,
            foggy: true,
        },
        Square::Occupied {
            player: 1,
            tile: 'Z',
            validity: SquareValidity::Partial,
            foggy: false,
        },
        Square::Fog {},
    ];
    for sq in samples {
        let tile = convert::square_to_board_tile(&sq);
        assert_eq!(client::board_tile_to_square(&tile), sq);
    }
}

#[test]
fn occupied_squares_encode_their_letter_and_validity() {
    let sq = Square::Occupied {
        player: 3,
        tile: 'K',
        validity: SquareValidity::Invalid,
        foggy: true,
    };
    let tile = convert::square_to_board_tile(&sq);
    match tile.tile {
        Some(wire::TileKind::Occupied(o)) => {
            assert_eq!(o.player, 3);
            assert_eq!(o.tile, "K");
            assert_eq!(o.validity, 2);
            assert!(o.foggy);
        }
        other => panic!("expected an occupied tile, got {:?}", other),
    }
}

#[test]
fn square_validity_codes() {
    assert_eq!(client::square_validity(0), SquareValidity::Unknown);
    assert_eq!(client::square_validity(1), SquareValidity::Valid);
    assert_eq!(client::square_validity(2), SquareValidity::Invalid);
    assert_eq!(client::square_validity(3), SquareValidity::Partial);
}

#[test]
fn boards_survive_the_wire_round_trip() {
    let mut b = Board::new(3, 2);
    b.squares[0][1] = Square::Town {
        player: 0,
        defeated: false,
        foggy: false,
    };
    b.squares[1][2] = Square::Occupied {
        player: 1,
        tile: 'W',
        validity: SquareValidity::Valid,
        foggy: false,
    };
    b.cache_special_squares();

    let wb = convert::to_board(&b);
    let decoded = client::to_board(&wb, 1);
    assert_eq!(decoded.squares, b.squares);
    // The decoder rebuilds the special-square caches from the grid.
    assert_eq!(decoded.towns, vec![Coordinate { x: 1, y: 0 }]);
}

#[test]
fn first_player_sees_reversed_orientations() {
    let wb = convert::to_board(&Board::new(2, 2));
    let flipped = client::to_board(&wb, 0);
    let unflipped = client::to_board(&wb, 1);
    assert_eq!(flipped.orientations.len(), 2);
    assert_eq!(flipped.orientations[0], unflipped.orientations[1]);
    assert_eq!(flipped.orientations[1], unflipped.orientations[0]);
}

#[test]
fn hands_cross_the_wire_both_ways() {
    let hand = Hand(vec!['A', 'B', 'C']);
    let wire_hand = convert::to_hand(&hand);
    assert_eq!(wire_hand, vec!["A", "B", "C"]);
    assert_eq!(client::to_hand(&wire_hand), hand);
}

#[test]
fn inverted_moves_mirror_their_coordinates() {
    let b = Board::new(9, 9);
    let mv = Move::Place {
        player: 0,
        tile: 'T',
        position: Coordinate { x: 2, y: 3 },
    };
    assert_eq!(
        convert::invert_move(&b, &mv),
        Move::Place {
            player: 0,
            tile: 'T',
            position: Coordinate { x: 6, y: 5 }
        }
    );
    let swap = Move::Swap {
        player: 1,
        positions: [Coordinate { x: 0, y: 0 }, Coordinate { x: 8, y: 8 }],
    };
    assert_eq!(
        convert::invert_move(&b, &swap),
        Move::Swap {
            player: 1,
            positions: [Coordinate { x: 8, y: 8 }, Coordinate { x: 0, y: 0 }]
        }
    );
}

#[test]
fn error_replies_carry_their_message() {
    let reply = convert::error_reply("req-7", "no move was given");
    assert_eq!(reply.request_id, "req-7");
    match reply.reply {
        Some(wire::Reply::Error(e)) => assert_eq!(e.error, "no move was given"),
        other => panic!("expected an error reply, got {:?}", other),
    }
}
