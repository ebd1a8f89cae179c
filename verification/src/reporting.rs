//! Reports handed to callers after a battle, for rendering and logging.

use vstd::prelude::*;

verus! {

/// One combatant word as it was judged: the (possibly resolved and re-cased)
/// word, its meanings when a dictionary supplies them, and its validity —
/// `None` when the word was never put to the dictionary.
#[derive(Clone, Debug, PartialEq, Eq)]
pub struct BattleWord {
    pub word: String,
    pub meanings: Option<Vec<String>>,
    pub valid: Option<bool>,
}

/// Everything that happened in one battle: both sides as judged, and the
/// outcome.
#[derive(Clone, Debug, PartialEq, Eq)]
pub struct BattleReport {
    pub attackers: Vec<BattleWord>,
    pub defenders: Vec<BattleWord>,
    pub outcome: crate::judge::Outcome,
}

} // verus!
