use vstd::prelude::*;

verus! {

/// The query that carries the fingerprint on the websocket URL.
pub const FP_QUERY: &'static str = "?fp=";

// The lines that the arena shows.
pub const WELCOME_TEXT: &'static str = "welcome to the arena";
pub const SEARCHING_TEXT: &'static str = "searching for opponent...";
pub const WON_TEXT: &'static str = "you won!";
pub const LOST_TEXT: &'static str = "you lost.";

/// The websocket URL of a fight: the fingerprint rides in the query, as
/// browsers cannot set headers on a websocket.
pub fn socket_url(ws_base: &str, fingerprint: &str) -> (res: String)
    ensures
        res@ == ws_base@ + FP_QUERY@ + fingerprint@,
{
    let mut u = ws_base.to_owned();
    u.append(FP_QUERY);
    u.append(fingerprint);
    u
}

/// Where the arena stands for the player.
#[derive(Clone, Copy, Debug, PartialEq, Eq, Structural)]
pub enum ArenaStatus {
    /// No message yet: still looking for an opponent.
    Searching,
    /// The server named this player the winner.
    Won,
    /// The server named someone else.
    Lost,
}

/// The arena's status from the last message of the server, which names the
/// winner's fingerprint: none yet means searching.
pub fn arena_status(message: &str, fingerprint: &str) -> (res: ArenaStatus)
    ensures
        message@.len() == 0 ==> res == ArenaStatus::Searching,
        message@.len() > 0 && message@ == fingerprint@ ==> res == ArenaStatus::Won,
        message@.len() > 0 && message@ != fingerprint@ ==> res == ArenaStatus::Lost,
{
    if message.is_empty() {
        ArenaStatus::Searching
    } else if message.to_owned() == fingerprint.to_owned() {
        ArenaStatus::Won
    } else {
        ArenaStatus::Lost
    }
}

/// The line shown for a status.
pub fn status_text(status: ArenaStatus) -> (res: &'static str)
    ensures
        res@ == match status {
            ArenaStatus::Searching => SEARCHING_TEXT@,
            ArenaStatus::Won => WON_TEXT@,
            ArenaStatus::Lost => LOST_TEXT@,
        },
{
    match status {
        ArenaStatus::Searching => SEARCHING_TEXT,
        ArenaStatus::Won => WON_TEXT,
        ArenaStatus::Lost => LOST_TEXT,
    }
}

} // verus!
