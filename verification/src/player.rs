//! Players' tile hands.

use vstd::prelude::*;

verus! {

/// The ordered letters a player holds and has not yet played.
#[derive(Clone, Debug, PartialEq, Eq)]
pub struct Hand(pub Vec<char>);

} // verus!
