//! Conversions from wire shapes back into the core's types, as a playing
//! client performs them.

use vstd::prelude::*;

use crate::board::{Board, Coordinate, Direction, Square, SquareValidity};
use crate::player::Hand;
use crate::wire;

verus! {

/// A coordinate as it travels on the wire.
pub fn to_coord(c: &Coordinate) -> (r: Option<wire::Coordinate>)
    requires
        crate::convert::coordinate_fits_wire(*c),
    ensures
        r == Some(wire::Coordinate { x: c.x as u32, y: c.y as u32 }),
{
    Some(wire::Coordinate { x: c.x as u32, y: c.y as u32 })
}

/// The square validity a wire integer code stands for.
pub open spec fn spec_square_validity(v: i32) -> SquareValidity {
    if v == 0 {
        SquareValidity::Unknown
    } else if v == 1 {
        SquareValidity::Valid
    } else if v == 2 {
        SquareValidity::Invalid
    } else {
        SquareValidity::Partial
    }
}

/// Decodes a wire validity code; codes outside the known range are refused.
pub fn square_validity(v: i32) -> (r: SquareValidity)
    requires
        0 <= v <= 3,
    ensures
        r == spec_square_validity(v),
{
    match v {
        0 => SquareValidity::Unknown,
        1 => SquareValidity::Valid,
        2 => SquareValidity::Invalid,
        _ => SquareValidity::Partial,
    }
}

/// Whether a wire tile is complete enough to decode: it has a kind, and an
/// occupied tile carries a letter, a known validity code, and a player
/// number that fits.
pub open spec fn decodable_tile(t: wire::Tile) -> bool {
    match t.tile {
        Some(wire::TileKind::Occupied(o)) => {
            &&& o.tile@.len() > 0
            &&& 0 <= o.validity <= 3
            &&& o.player as usize as u32 == o.player
        },
        Some(wire::TileKind::Town(tt)) => tt.player as usize as u32 == tt.player,
        Some(wire::TileKind::Artifact(a)) => a.player as usize as u32 == a.player,
        Some(_) => true,
        None => false,
    }
}

/// The core square a decodable wire tile stands for.
pub open spec fn spec_tile_square(t: wire::Tile) -> Square {
    match t.tile.unwrap() {
        wire::TileKind::Water(w) => Square::Water { foggy: w.foggy },
        wire::TileKind::Land(l) => Square::Land { foggy: l.foggy },
        wire::TileKind::Town(tt) => Square::Town {
            player: tt.player as usize,
            defeated: tt.defeated,
            foggy: tt.foggy,
        },
        wire::TileKind::Obelisk(o) => Square::Obelisk { foggy: o.foggy },
        wire::TileKind::Artifact(a) => Square::Artifact {
            player: a.player as usize,
            defeated: a.defeated,
            foggy: a.foggy,
        },
        wire::TileKind::Occupied(o) => Square::Occupied {
            player: o.player as usize,
            tile: o.tile@[0],
            validity: spec_square_validity(o.validity),
            foggy: o.foggy,
        },
        wire::TileKind::Fog(_) => Square::Fog {},
    }
}

/// Decodes one wire tile into a core square.
pub fn board_tile_to_square(sq: &wire::Tile) -> (r: Square)
    requires
        decodable_tile(*sq),
    ensures
        r == spec_tile_square(*sq),
{
    match &sq.tile {
        Some(t) => match t {
            wire::TileKind::Water(w) => Square::Water { foggy: w.foggy },
            wire::TileKind::Land(l) => Square::Land { foggy: l.foggy },
            wire::TileKind::Town(tt) => Square::Town {
                player: tt.player as usize,
                defeated: tt.defeated,
                foggy: tt.foggy,
            },
            wire::TileKind::Obelisk(o) => Square::Obelisk { foggy: o.foggy },
            wire::TileKind::Artifact(a) => Square::Artifact {
                player: a.player as usize,
                defeated: a.defeated,
                foggy: a.foggy,
            },
            wire::TileKind::Occupied(o) => Square::Occupied {
                player: o.player as usize,
                tile: o.tile.as_str().get_char(0),
                validity: square_validity(o.validity),
                foggy: o.foggy,
            },
            wire::TileKind::Fog(_) => Square::Fog {},
        },
        None => vstd::pervasive::unreached(),
    }
}

/// Decodes one wire row into core squares.
pub fn to_squares(sqs: &wire::Squares) -> (r: Vec<Square>)
    requires
        forall|i: int| 0 <= i < sqs.tiles@.len() ==> decodable_tile(#[trigger] sqs.tiles@[i]),
    ensures
        r@.len() == sqs.tiles@.len(),
        forall|i: int| 0 <= i < sqs.tiles@.len() ==> #[trigger] r@[i] == spec_tile_square(
            sqs.tiles@[i],
        ),
{
    let mut out: Vec<Square> = Vec::new();
    let mut i: usize = 0;
    while i < sqs.tiles.len()
        invariant
            i <= sqs.tiles@.len(),
            out@.len() == i,
            forall|i2: int| 0 <= i2 < sqs.tiles@.len() ==> decodable_tile(#[trigger] sqs.tiles@[i2]),
            forall|j: int| 0 <= j < i ==> #[trigger] out@[j] == spec_tile_square(sqs.tiles@[j]),
        decreases sqs.tiles@.len() - i,
    {
        out.push(board_tile_to_square(&sqs.tiles[i]));
        i = i + 1;
    }
    out
}

/// Whether a wire board is decodable: every tile is, and the rows form a
/// rectangle.
pub open spec fn decodable_board(b: &wire::Board) -> bool {
    &&& forall|y: int, x: int|
        0 <= y < b.squares@.len() && 0 <= x < (#[trigger] b.squares@[y]).tiles@.len()
            ==> decodable_tile(#[trigger] b.squares@[y].tiles@[x])
    &&& forall|y: int|
        0 <= y < b.squares@.len() ==> (#[trigger] b.squares@[y]).tiles@.len()
            == b.squares@[0].tiles@.len()
}

/// Decodes a wire board into a core board with rebuilt caches.
///
/// The board is rebuilt from scratch, so the special-square caches are
/// recomputed; the default orientations are reversed for the first player,
/// whose view the server has flipped.
pub fn to_board(b: &wire::Board, player_id: u32) -> (r: Board)
    requires
        decodable_board(b),
    ensures
        r.wf(),
        r.squares@.len() == b.squares@.len(),
        forall|y: int|
            0 <= y < b.squares@.len() ==> (#[trigger] r.squares@[y])@.len()
                == b.squares@[y].tiles@.len(),
        forall|y: int, x: int|
            0 <= y < b.squares@.len() && 0 <= x < b.squares@[y].tiles@.len()
                ==> #[trigger] r.squares@[y]@[x] == spec_tile_square(b.squares@[y].tiles@[x]),
        player_id == 0 ==> r.orientations@ == seq![Direction::South, Direction::North],
        player_id != 0 ==> r.orientations@ == seq![Direction::North, Direction::South],
    {
        let mut board = Board::new(9, 9);
        let mut squares: Vec<Vec<Square>> = Vec::new();
        let mut y: usize = 0;
        while y < b.squares.len()
            invariant
                y <= b.squares@.len(),
                squares@.len() == y,
                decodable_board(b),
                forall|yy: int|
                    0 <= yy < y ==> (#[trigger] squares@[yy])@.len() == b.squares@[yy].tiles@.len(),
                forall|yy: int, x: int|
                    0 <= yy < y && 0 <= x < b.squares@[yy].tiles@.len()
                        ==> #[trigger] squares@[yy]@[x] == spec_tile_square(
                        b.squares@[yy].tiles@[x],
                    ),
            decreases b.squares@.len() - y,
        {
            squares.push(to_squares(&b.squares[y]));
            y = y + 1;
        }
        board.squares = squares;
        proof {
            assert(board.rectangular());
        }
        board.cache_special_squares();

        if player_id == 0 {
            // The server flips the board for the first player, so flip the
            // default orientations to match.
            let mut reversed: Vec<Direction> = Vec::new();
            reversed.push(Direction::South);
            reversed.push(Direction::North);
            proof {
                assert(reversed@ =~= seq![Direction::South, Direction::North]);
            }
            board.orientations = reversed;
        }
        board
    }

/// The wire round trip loses no square: a core square encoded for the wire
/// decodes back to exactly the square it came from, every variant included.
pub proof fn lemma_tile_round_trip(sq: Square, t: wire::Tile)
    requires
        crate::convert::square_fits_wire(sq),
        crate::convert::wire_tile_for(sq, t),
    ensures
        decodable_tile(t),
        spec_tile_square(t) == sq,
{
}

/// The wire round trip loses no board: a board encoded row by row decodes
/// back to exactly the grid it came from.
pub proof fn lemma_board_round_trip(b: &Board, wb: &wire::Board)
    requires
        b.rectangular(),
        crate::convert::board_fits_wire(b),
        wb.squares@.len() == b.squares@.len(),
        forall|y: int|
            0 <= y < b.squares@.len() ==> (#[trigger] wb.squares@[y]).tiles@.len()
                == b.squares@[y]@.len(),
        forall|y: int, x: int|
            0 <= y < b.squares@.len() && 0 <= x < b.squares@[y]@.len()
                ==> crate::convert::wire_tile_for(
                b.squares@[y]@[x],
                #[trigger] wb.squares@[y].tiles@[x],
            ),
    ensures
        decodable_board(wb),
        forall|y: int, x: int|
            0 <= y < wb.squares@.len() && 0 <= x < wb.squares@[y].tiles@.len()
                ==> spec_tile_square(#[trigger] wb.squares@[y].tiles@[x]) == b.squares@[y]@[x],
{
    assert forall|y: int, x: int|
        0 <= y < wb.squares@.len() && 0 <= x < wb.squares@[y].tiles@.len() implies {
        &&& decodable_tile(#[trigger] wb.squares@[y].tiles@[x])
        &&& spec_tile_square(wb.squares@[y].tiles@[x]) == b.squares@[y]@[x]
    } by {
        lemma_tile_round_trip(b.squares@[y]@[x], wb.squares@[y].tiles@[x]);
    }
}

/// The wire round trip loses no move: a move broadcast to the other players
/// converts back to exactly the move that was made.
pub proof fn lemma_move_round_trip(mv: crate::moves::Move, pm: wire::PlayerMove)
    requires
        crate::convert::move_fits_wire(mv),
        crate::convert::wire_move_for(mv, pm),
    ensures
        crate::convert::convertible_choice(pm.action),
        pm.player_id as usize as u32 == pm.player_id,
        crate::convert::spec_choice_move(pm.player_id as usize, pm.action) == Some(mv),
{
    match mv {
        crate::moves::Move::Place { player, tile, position } => {
            let converted = crate::convert::spec_choice_move(pm.player_id as usize, pm.action)
                .unwrap();
            assert(converted == crate::moves::Move::Place {
                player: pm.player_id as usize,
                tile,
                position,
            });
        },
        crate::moves::Move::Swap { player, positions } => {
            let converted = crate::convert::spec_choice_move(pm.player_id as usize, pm.action)
                .unwrap();
            match converted {
                crate::moves::Move::Swap { player: cp, positions: cpos } => {
                    assert(cpos[0] == positions[0]);
                    assert(cpos[1] == positions[1]);
                    assert(cpos =~= positions);
                },
                _ => {
                    assert(false);
                },
            }
        },
    }
}

/// Decodes a wire hand: the first letter of each tile string.
pub fn to_hand(h: &Vec<String>) -> (r: Hand)
    requires
        forall|i: int| 0 <= i < h@.len() ==> (#[trigger] h@[i])@.len() > 0,
    ensures
        r.0@.len() == h@.len(),
        forall|i: int| 0 <= i < h@.len() ==> #[trigger] r.0@[i] == h@[i]@[0],
{
    let mut out: Vec<char> = Vec::new();
    let mut i: usize = 0;
    while i < h.len()
        invariant
            i <= h@.len(),
            out@.len() == i,
            forall|i2: int| 0 <= i2 < h@.len() ==> (#[trigger] h@[i2])@.len() > 0,
            forall|j: int| 0 <= j < i ==> #[trigger] out@[j] == h@[j]@[0],
        decreases h@.len() - i,
    {
        out.push(h[i].as_str().get_char(0));
        i = i + 1;
    }
    Hand(out)
}

} // verus!
