//! Configurable game rules that bear on battle adjudication.

use vstd::prelude::*;

verus! {

/// The rules a battle is fought under.
///
/// `length_delta` is the defender's advantage: a defending word is safe from
/// a longer attacker as long as its length plus this margin still exceeds the
/// longest attacker's length.
#[derive(Clone, Copy, Debug, PartialEq, Eq, Structural)]
pub struct BattleRules {
    pub length_delta: isize,
}

} // verus!
