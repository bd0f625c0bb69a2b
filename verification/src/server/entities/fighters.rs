use vstd::prelude::*;

verus! {

/// A row of the `fighters` table, keyed by the device fingerprint; the
/// emoji is unique among fighters.
pub struct Model {
    pub fingerprint: String,
    pub emo: String,
    pub rank: i32,
    pub queued: bool,
}

/// The tables that a fighter row is related to: it has many matches and
/// many plays.
#[derive(Clone, Copy, Debug, PartialEq, Eq, Structural)]
pub enum Relation {
    Matches,
    Plays,
}

} // verus!
