use vstd::prelude::*;

verus! {

/// A row of the `plays` table: one fighter took part in one match.  The
/// pair of fighter fingerprint and match id is the key; the match id is
/// the UUID of the match as a 128-bit number.
pub struct Model {
    pub fighter: String,
    pub match_id: u128,
}

/// A play belongs to one fighter.
#[derive(Clone, Copy, Debug, PartialEq, Eq, Structural)]
pub enum Relation {
    Fighters,
}

} // verus!
