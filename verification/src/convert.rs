//! Conversions between the core's moves, squares and boards and their wire
//! shapes, as the serving side performs them.

use vstd::prelude::*;

use crate::board::{Board, Coordinate, Square, SquareValidity};
use crate::moves::Move;
use crate::player::Hand;
use crate::wire;

verus! {

/// The move a wire placement stands for.
pub open spec fn spec_place_move(player_id: usize, pm: wire::PlaceMove) -> Move {
    Move::Place {
        player: player_id,
        tile: pm.tile@[0],
        position: Coordinate {
            x: pm.position.unwrap().x as usize,
            y: pm.position.unwrap().y as usize,
        },
    }
}

/// The move a wire swap stands for.
pub open spec fn spec_swap_move(player_id: usize, sm: wire::SwapMove) -> Move {
    Move::Swap {
        player: player_id,
        positions: [
            Coordinate { x: sm.from.unwrap().x as usize, y: sm.from.unwrap().y as usize },
            Coordinate { x: sm.to.unwrap().x as usize, y: sm.to.unwrap().y as usize },
        ],
    }
}

/// Whether a wire move payload is complete enough to convert.
pub open spec fn convertible_choice(choice: Option<wire::MoveChoice>) -> bool {
    match choice {
        Some(wire::MoveChoice::Place(pm)) => pm.position is Some && pm.tile@.len() > 0,
        Some(wire::MoveChoice::Swap(sm)) => sm.from is Some && sm.to is Some,
        None => true,
    }
}

/// The move a complete wire payload stands for, if it carries one.
pub open spec fn spec_choice_move(player_id: usize, choice: Option<wire::MoveChoice>) -> Option<
    Move,
> {
    match choice {
        Some(wire::MoveChoice::Place(pm)) => Some(spec_place_move(player_id, pm)),
        Some(wire::MoveChoice::Swap(sm)) => Some(spec_swap_move(player_id, sm)),
        None => None,
    }
}

/// Converts a wire placement into a move for `player_id`.
pub fn place_move_to_move(player_id: usize, pm: &wire::PlaceMove) -> (r: Move)
    requires
        pm.position is Some,
        pm.tile@.len() > 0,
    ensures
        r == spec_place_move(player_id, *pm),
{
    let pos = match &pm.position {
        Some(p) => *p,
        None => vstd::pervasive::unreached(),
    };
    Move::Place {
        player: player_id,
        tile: pm.tile.as_str().get_char(0),
        position: Coordinate { x: pos.x as usize, y: pos.y as usize },
    }
}

/// Converts a wire swap into a move for `player_id`.
pub fn swap_move_to_move(player_id: usize, sm: &wire::SwapMove) -> (r: Move)
    requires
        sm.from is Some,
        sm.to is Some,
    ensures
        r == spec_swap_move(player_id, *sm),
{
    let from_pos = match &sm.from {
        Some(p) => *p,
        None => vstd::pervasive::unreached(),
    };
    let to_pos = match &sm.to {
        Some(p) => *p,
        None => vstd::pervasive::unreached(),
    };
    Move::Swap {
        player: player_id,
        positions: [
            Coordinate { x: from_pos.x as usize, y: from_pos.y as usize },
            Coordinate { x: to_pos.x as usize, y: to_pos.y as usize },
        ],
    }
}

/// Converts a broadcast player move into a move, if it carries one.
pub fn player_move_to_move(pm: &wire::PlayerMove) -> (r: Option<Move>)
    requires
        convertible_choice(pm.action),
        pm.player_id as usize as u32 == pm.player_id,
    ensures
        r == spec_choice_move(pm.player_id as usize, pm.action),
{
    match &pm.action {
        Some(wire::MoveChoice::Place(pmm)) => Some(
            place_move_to_move(pm.player_id as usize, pmm),
        ),
        Some(wire::MoveChoice::Swap(sm)) => Some(swap_move_to_move(pm.player_id as usize, sm)),
        None => None,
    }
}

/// Converts a move request from `player_id` into a move, if it carries one.
pub fn move_request_to_move(player_id: usize, mr: &wire::MoveRequest) -> (r: Option<Move>)
    requires
        convertible_choice(mr.action),
    ensures
        r == spec_choice_move(player_id, mr.action),
{
    match &mr.action {
        Some(wire::MoveChoice::Place(pm)) => Some(place_move_to_move(player_id, pm)),
        Some(wire::MoveChoice::Swap(sm)) => Some(swap_move_to_move(player_id, sm)),
        None => None,
    }
}

/// Whether a coordinate fits the wire's 32-bit fields.
pub open spec fn coordinate_fits_wire(c: Coordinate) -> bool {
    c.x <= u32::MAX && c.y <= u32::MAX
}

/// A coordinate as it travels on the wire.
pub fn to_wire_coord(c: &Coordinate) -> (r: Option<wire::Coordinate>)
    requires
        coordinate_fits_wire(*c),
    ensures
        r == Some(wire::Coordinate { x: c.x as u32, y: c.y as u32 }),
{
    Some(wire::Coordinate { x: c.x as u32, y: c.y as u32 })
}

/// Whether a move's players and coordinates fit the wire's 32-bit fields.
pub open spec fn move_fits_wire(mv: Move) -> bool {
    match mv {
        Move::Place { player, tile, position } => player <= u32::MAX && coordinate_fits_wire(
            position,
        ),
        Move::Swap { player, positions } => player <= u32::MAX && coordinate_fits_wire(
            positions[0],
        ) && coordinate_fits_wire(positions[1]),
    }
}

/// How a move must appear in a wire broadcast: the mover's number, and the
/// payload with every coordinate carried over.
pub open spec fn wire_move_for(mv: Move, r: wire::PlayerMove) -> bool {
    match mv {
        Move::Place { player, tile, position } => {
            &&& r.player_id == player as u32
            &&& r.action matches Some(wire::MoveChoice::Place(pm))
            &&& pm.tile@ == seq![tile]
            &&& pm.position == Some(
                wire::Coordinate { x: position.x as u32, y: position.y as u32 },
            )
        },
        Move::Swap { player, positions } => {
            &&& r.player_id == player as u32
            &&& r.action matches Some(wire::MoveChoice::Swap(sm))
            &&& sm.from == Some(
                wire::Coordinate { x: positions[0].x as u32, y: positions[0].y as u32 },
            )
            &&& sm.to == Some(
                wire::Coordinate { x: positions[1].x as u32, y: positions[1].y as u32 },
            )
        },
    }
}

/// Wraps a move and the board it produced into the broadcast sent to the
/// other players.
pub fn move_to_player_move(board: wire::Board, mv: &Move, game_over: bool) -> (r: wire::PlayerMove)
    requires
        move_fits_wire(*mv),
    ensures
        r.board == Some(board),
        r.game_over == game_over,
        wire_move_for(*mv, r),
{
    match mv {
        Move::Place { player, tile, position } => wire::PlayerMove {
            player_id: *player as u32,
            board: Some(board),
            action: Some(
                wire::MoveChoice::Place(
                    wire::PlaceMove {
                        tile: crate::letters::char_to_string(*tile),
                        position: to_wire_coord(position),
                    },
                ),
            ),
            game_over,
        },
        Move::Swap { player, positions } => wire::PlayerMove {
            player_id: *player as u32,
            board: Some(board),
            action: Some(
                wire::MoveChoice::Swap(
                    wire::SwapMove {
                        from: to_wire_coord(&positions[0]),
                        to: to_wire_coord(&positions[1]),
                    },
                ),
            ),
            game_over,
        },
    }
}

/// The same move as seen from the other end of the board: every coordinate
/// mirrored through the grid's center.
pub fn invert_move(board: &Board, game_move: &Move) -> (r: Move)
    requires
        board.rectangular(),
        match *game_move {
            Move::Place { player, tile, position } => board.in_bounds(position),
            Move::Swap { player, positions } => board.in_bounds(positions[0]) && board.in_bounds(
                positions[1],
            ),
        },
    ensures
        match (*game_move, r) {
            (
                Move::Place { player, tile, position },
                Move::Place { player: rp, tile: rt, position: rpos },
            ) => {
                &&& rp == player
                &&& rt == tile
                &&& rpos.x + position.x + 1 == board.width()
                &&& rpos.y + position.y + 1 == board.height()
            },
            (Move::Swap { player, positions }, Move::Swap { player: rp, positions: rpos }) => {
                &&& rp == player
                &&& rpos[0].x + positions[0].x + 1 == board.width()
                &&& rpos[0].y + positions[0].y + 1 == board.height()
                &&& rpos[1].x + positions[1].x + 1 == board.width()
                &&& rpos[1].y + positions[1].y + 1 == board.height()
            },
            _ => false,
        },
{
    match game_move {
        Move::Place { player, tile, position } => Move::Place {
            player: *player,
            tile: *tile,
            position: board.reciprocal_coordinate(*position),
        },
        Move::Swap { player, positions } => Move::Swap {
            player: *player,
            positions: [
                board.reciprocal_coordinate(positions[0]),
                board.reciprocal_coordinate(positions[1]),
            ],
        },
    }
}

/// A hand as it travels on the wire: one single-letter string per tile.
pub fn to_hand(h: &Hand) -> (r: Vec<String>)
    ensures
        r@.len() == h.0@.len(),
        forall|i: int| 0 <= i < h.0@.len() ==> (#[trigger] r@[i])@ == seq![h.0@[i]],
{
    let mut out: Vec<String> = Vec::new();
    let mut i: usize = 0;
    while i < h.0.len()
        invariant
            i <= h.0@.len(),
            out@.len() == i,
            forall|j: int| 0 <= j < i ==> (#[trigger] out@[j])@ == seq![h.0@[j]],
        decreases h.0@.len() - i,
    {
        out.push(crate::letters::char_to_string(h.0[i]));
        i = i + 1;
    }
    out
}

/// The wire's integer code for a square validity.
pub open spec fn spec_validity_code(v: SquareValidity) -> i32 {
    match v {
        SquareValidity::Unknown => 0,
        SquareValidity::Valid => 1,
        SquareValidity::Invalid => 2,
        SquareValidity::Partial => 3,
    }
}

/// How a core square must appear on the wire.
pub open spec fn wire_tile_for(sq: Square, t: wire::Tile) -> bool {
    match sq {
        Square::Water { foggy } => t.tile == Some(wire::TileKind::Water(wire::WaterTile { foggy })),
        Square::Land { foggy } => t.tile == Some(wire::TileKind::Land(wire::LandTile { foggy })),
        Square::Town { player, defeated, foggy } => t.tile == Some(
            wire::TileKind::Town(wire::TownTile { player: player as u32, defeated, foggy }),
        ),
        Square::Obelisk { foggy } => t.tile == Some(
            wire::TileKind::Obelisk(wire::ObeliskTile { foggy }),
        ),
        Square::Artifact { player, defeated, foggy } => t.tile == Some(
            wire::TileKind::Artifact(
                wire::ArtifactTile { player: player as u32, defeated, foggy },
            ),
        ),
        Square::Occupied { player, tile, validity, foggy } => {
            &&& t.tile matches Some(wire::TileKind::Occupied(o))
            &&& o.player == player as u32
            &&& o.tile@ == seq![tile]
            &&& o.validity == spec_validity_code(validity)
            &&& o.foggy == foggy
        },
        Square::Fog {} => t.tile == Some(wire::TileKind::Fog(wire::FogTile {})),
    }
}

/// Whether a square's player number fits the wire's 32-bit field.
pub open spec fn square_fits_wire(sq: Square) -> bool {
    match sq {
        Square::Town { player, .. } => player <= u32::MAX,
        Square::Artifact { player, .. } => player <= u32::MAX,
        Square::Occupied { player, .. } => player <= u32::MAX,
        _ => true,
    }
}

/// A core square as it travels on the wire.
pub fn square_to_board_tile(sq: &Square) -> (t: wire::Tile)
    requires
        square_fits_wire(*sq),
    ensures
        wire_tile_for(*sq, t),
{
    wire::Tile {
        tile: Some(
            match sq {
                Square::Water { foggy } => wire::TileKind::Water(wire::WaterTile { foggy: *foggy }),
                Square::Land { foggy } => wire::TileKind::Land(wire::LandTile { foggy: *foggy }),
                Square::Town { player, defeated, foggy } => wire::TileKind::Town(
                    wire::TownTile {
                        player: *player as u32,
                        defeated: *defeated,
                        foggy: *foggy,
                    },
                ),
                Square::Obelisk { foggy } => wire::TileKind::Obelisk(
                    wire::ObeliskTile { foggy: *foggy },
                ),
                Square::Artifact { player, defeated, foggy } => wire::TileKind::Artifact(
                    wire::ArtifactTile {
                        player: *player as u32,
                        defeated: *defeated,
                        foggy: *foggy,
                    },
                ),
                Square::Occupied { player, tile, validity, foggy } => wire::TileKind::Occupied(
                    wire::OccupiedTile {
                        player: *player as u32,
                        tile: crate::letters::char_to_string(*tile),
                        validity: match validity {
                            SquareValidity::Unknown => 0,
                            SquareValidity::Valid => 1,
                            SquareValidity::Invalid => 2,
                            SquareValidity::Partial => 3,
                        },
                        foggy: *foggy,
                    },
                ),
                Square::Fog {} => wire::TileKind::Fog(wire::FogTile {}),
            },
        ),
    }
}

/// A row of core squares as it travels on the wire.
pub fn to_squares(sqs: &Vec<Square>) -> (r: wire::Squares)
    requires
        forall|i: int| 0 <= i < sqs@.len() ==> square_fits_wire(#[trigger] sqs@[i]),
    ensures
        r.tiles@.len() == sqs@.len(),
        forall|i: int| 0 <= i < sqs@.len() ==> wire_tile_for(sqs@[i], #[trigger] r.tiles@[i]),
{
    let mut tiles: Vec<wire::Tile> = Vec::new();
    let mut i: usize = 0;
    while i < sqs.len()
        invariant
            i <= sqs@.len(),
            tiles@.len() == i,
            forall|i2: int| 0 <= i2 < sqs@.len() ==> square_fits_wire(#[trigger] sqs@[i2]),
            forall|j: int| 0 <= j < i ==> wire_tile_for(sqs@[j], #[trigger] tiles@[j]),
        decreases sqs@.len() - i,
    {
        tiles.push(square_to_board_tile(&sqs[i]));
        i = i + 1;
    }
    wire::Squares { tiles }
}

/// Whether every square of the board fits the wire's fields.
pub open spec fn board_fits_wire(b: &Board) -> bool {
    forall|y: int, x: int|
        0 <= y < b.squares@.len() && 0 <= x < b.squares@[y]@.len() ==> square_fits_wire(
            #[trigger] b.squares@[y]@[x],
        )
}

/// A core board as it travels on the wire, row by row.
pub fn to_board(b: &Board) -> (r: wire::Board)
    requires
        board_fits_wire(b),
    ensures
        r.squares@.len() == b.squares@.len(),
        forall|y: int|
            0 <= y < b.squares@.len() ==> (#[trigger] r.squares@[y]).tiles@.len()
                == b.squares@[y]@.len(),
        forall|y: int, x: int|
            0 <= y < b.squares@.len() && 0 <= x < b.squares@[y]@.len() ==> wire_tile_for(
                b.squares@[y]@[x],
                #[trigger] r.squares@[y].tiles@[x],
            ),
{
    let mut squares: Vec<wire::Squares> = Vec::new();
    let mut y: usize = 0;
    while y < b.squares.len()
        invariant
            y <= b.squares@.len(),
            squares@.len() == y,
            board_fits_wire(b),
            forall|yy: int|
                0 <= yy < y ==> (#[trigger] squares@[yy]).tiles@.len() == b.squares@[yy]@.len(),
            forall|yy: int, x: int|
                0 <= yy < y && 0 <= x < b.squares@[yy]@.len() ==> wire_tile_for(
                    b.squares@[yy]@[x],
                    #[trigger] squares@[yy].tiles@[x],
                ),
        decreases b.squares@.len() - y,
    {
        squares.push(to_squares(&b.squares[y]));
        y = y + 1;
    }
    wire::Board { squares }
}

/// An error reply for a request that could not be honored.
pub fn error_reply(request_id: &str, msg: &str) -> (r: wire::PlayGameReply)
    ensures
        r.request_id@ == request_id@,
        r.reply matches Some(wire::Reply::Error(e)) && e.error@ == msg@,
{
    wire::PlayGameReply {
        request_id: request_id.to_owned(),
        reply: Some(wire::Reply::Error(wire::ErrorReply { error: msg.to_owned() })),
    }
}

} // verus!
