//! Data carried by the interactive front end.
//!
//! Rendering itself belongs to the graphics layer outside this crate; these
//! are the widget states it feeds, kept here because they hold the core's
//! own types.

use vstd::prelude::*;

use crate::board::{Coordinate, Square};
use crate::reporting::BattleReport;

verus! {

/// A battle, staged for display.
pub struct BattleUI<'a> {
    battle: &'a BattleReport,
}

impl<'a> BattleUI<'a> {
    /// The staged battle report.
    pub closed spec fn spec_battle(&self) -> &'a BattleReport {
        self.battle
    }

    /// Stages a battle report for display.
    pub fn new(battle: &'a BattleReport) -> (r: Self)
        ensures
            r.spec_battle() == battle,
    {
        Self { battle }
    }
}

/// What the board editor paints onto a clicked square.
#[derive(Clone)]
pub enum BoardEditingMode {
    Land,
    Town(usize),
    Dock(usize),
}

/// One editable square of the board editor.
pub struct EditorSquareUI {
    coord: Coordinate,
    square: Square,
    action: BoardEditingMode,
}

impl EditorSquareUI {
    /// The square's position.
    pub closed spec fn spec_coord(&self) -> Coordinate {
        self.coord
    }

    /// The square currently shown.
    pub closed spec fn spec_square(&self) -> Square {
        self.square
    }

    /// The edit applied on a click.
    pub closed spec fn spec_action(&self) -> &BoardEditingMode {
        &self.action
    }

    /// An editor square at `coord`, initially open water, painting land.
    pub fn new(coord: Coordinate) -> (r: Self)
        ensures
            r.spec_coord() == coord,
            r.spec_square() == (Square::Water { foggy: false }),
            r.spec_action() is Land,
    {
        Self { coord, square: Square::Water { foggy: false }, action: BoardEditingMode::Land }
    }

    /// The same editor square showing `square`.
    pub fn square(self, square: Square) -> (r: Self)
        ensures
            r.spec_coord() == self.spec_coord(),
            r.spec_square() == square,
            r.spec_action() == self.spec_action(),
    {
        Self { square, ..self }
    }

    /// The same editor square painting `action`.
    pub fn action(self, action: BoardEditingMode) -> (r: Self)
        ensures
            r.spec_coord() == self.spec_coord(),
            r.spec_square() == self.spec_square(),
            r.spec_action() == action,
    {
        Self { action, ..self }
    }
}

/// The closing modal shown while resigning.
#[derive(Clone)]
pub struct ResultModalResigning {
    msg: String,
}

impl ResultModalResigning {
    /// The message shown.
    pub closed spec fn spec_msg(&self) -> &String {
        &self.msg
    }

    /// A resigning modal with the given message.
    pub fn new(msg: String) -> (r: Self)
        ensures
            r.spec_msg() == msg,
    {
        Self { msg }
    }
}

/// What the player chose on the closing modal.
pub enum ResultModalAction {
    TryAgain,
    NewPuzzle,
    Dismiss,
    Resign,
}

} // verus!
