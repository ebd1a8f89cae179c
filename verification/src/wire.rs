//! The plain data shapes exchanged with the network transport.
//!
//! The transport ships boards and moves between processes; these types are
//! the canonical in-memory form of its messages, with every square variant
//! (fog-redacted ones included) preserved.  Square validity travels as a
//! small integer code: `0` unknown, `1` valid, `2` invalid, `3` partial.

use vstd::prelude::*;

verus! {

/// A grid position on the wire.
#[derive(Clone, Copy, Debug, PartialEq, Eq, Structural)]
pub struct Coordinate {
    pub x: u32,
    pub y: u32,
}

/// A tile placement on the wire.
#[derive(Clone, Debug, PartialEq, Eq)]
pub struct PlaceMove {
    pub tile: String,
    pub position: Option<Coordinate>,
}

/// A tile swap on the wire.
#[derive(Clone, Copy, Debug, PartialEq, Eq, Structural)]
pub struct SwapMove {
    pub from: Option<Coordinate>,
    pub to: Option<Coordinate>,
}

/// The move payload carried by a request or broadcast.
#[derive(Clone, Debug, PartialEq, Eq)]
pub enum MoveChoice {
    Place(PlaceMove),
    Swap(SwapMove),
}

/// A move made by some player, broadcast to the others.
#[derive(Clone, Debug, PartialEq, Eq)]
pub struct PlayerMove {
    pub player_id: u32,
    pub board: Option<Board>,
    pub action: Option<MoveChoice>,
    pub game_over: bool,
}

/// A move submitted by the player whose turn it is.
#[derive(Clone, Debug, PartialEq, Eq)]
pub struct MoveRequest {
    pub action: Option<MoveChoice>,
}

/// A water square on the wire.
#[derive(Clone, Copy, Debug, PartialEq, Eq, Structural)]
pub struct WaterTile {
    pub foggy: bool,
}

/// A land square on the wire.
#[derive(Clone, Copy, Debug, PartialEq, Eq, Structural)]
pub struct LandTile {
    pub foggy: bool,
}

/// A town square on the wire.
#[derive(Clone, Copy, Debug, PartialEq, Eq, Structural)]
pub struct TownTile {
    pub player: u32,
    pub defeated: bool,
    pub foggy: bool,
}

/// An obelisk square on the wire.
#[derive(Clone, Copy, Debug, PartialEq, Eq, Structural)]
pub struct ObeliskTile {
    pub foggy: bool,
}

/// An artifact square on the wire.
#[derive(Clone, Copy, Debug, PartialEq, Eq, Structural)]
pub struct ArtifactTile {
    pub player: u32,
    pub defeated: bool,
    pub foggy: bool,
}

/// An occupied square on the wire; `validity` is the integer code.
#[derive(Clone, Debug, PartialEq, Eq)]
pub struct OccupiedTile {
    pub player: u32,
    pub tile: String,
    pub validity: i32,
    pub foggy: bool,
}

/// A fog-of-war square on the wire.
#[derive(Clone, Copy, Debug, PartialEq, Eq, Structural)]
pub struct FogTile {}

/// The kind of one wire square.
#[derive(Clone, Debug, PartialEq, Eq)]
pub enum TileKind {
    Water(WaterTile),
    Land(LandTile),
    Town(TownTile),
    Obelisk(ObeliskTile),
    Artifact(ArtifactTile),
    Occupied(OccupiedTile),
    Fog(FogTile),
}

/// One square of a wire board.
#[derive(Clone, Debug, PartialEq, Eq)]
pub struct Tile {
    pub tile: Option<TileKind>,
}

/// One row of a wire board.
#[derive(Clone, Debug, PartialEq, Eq)]
pub struct Squares {
    pub tiles: Vec<Tile>,
}

/// A whole board on the wire, row by row.
#[derive(Clone, Debug, PartialEq, Eq)]
pub struct Board {
    pub squares: Vec<Squares>,
}

/// An error sent back for a request that could not be honored.
#[derive(Clone, Debug, PartialEq, Eq)]
pub struct ErrorReply {
    pub error: String,
}

/// One player as announced to the others.
#[derive(Clone, Debug, PartialEq, Eq)]
pub struct Player {
    pub id: u32,
    pub name: String,
}

/// The opening reply: who the player is, their hand, the board, and their
/// opponents.
#[derive(Clone, Debug, PartialEq, Eq)]
pub struct InitReply {
    pub player_id: u32,
    pub hand: Vec<String>,
    pub board: Option<Board>,
    pub opponents: Vec<Player>,
}

/// The reply to a move: the mover's new hand and view of the board.
#[derive(Clone, Debug, PartialEq, Eq)]
pub struct MoveReply {
    pub hand: Vec<String>,
    pub board: Option<Board>,
    pub game_over: bool,
}

/// A prompt that it is the receiving player's turn to move.
#[derive(Clone, Debug, PartialEq, Eq)]
pub struct MoveSolicitation {
    pub board: Option<Board>,
}

/// The payload of one reply to a playing client.
#[derive(Clone, Debug, PartialEq, Eq)]
pub enum Reply {
    Init(InitReply),
    Move(MoveReply),
    MoveSolicitation(MoveSolicitation),
    PlayerMove(PlayerMove),
    Error(ErrorReply),
}

/// One reply to a playing client, tagged with the request it answers.
#[derive(Clone, Debug, PartialEq, Eq)]
pub struct PlayGameReply {
    pub request_id: String,
    pub reply: Option<Reply>,
}

} // verus!
