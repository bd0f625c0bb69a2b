use vstd::prelude::*;
use crate::seqs::opt_view;
use crate::server::auth::Auth;
use crate::server::entities::fighters;

verus! {

/// Seconds to wait when no opponent is queued.
pub const RETRY_SECONDS: u64 = 5u64;

/// New ranks of a bout between a fighter ranked `mine` and one ranked
/// `theirs`: both gain a point, and the higher-ranked one wins two more; on
/// equal ranks both gain one more.
pub open spec fn bout_ranks(mine: int, theirs: int) -> (int, int) {
    if mine == theirs {
        (mine + 2, theirs + 2)
    } else if theirs < mine {
        (mine + 3, theirs + 1)
    } else {
        (mine + 1, theirs + 3)
    }
}

/// The winner of a bout: the fingerprint of the higher-ranked fighter, none
/// on equal ranks.
pub open spec fn bout_winner(
    my_fingerprint: Seq<char>,
    mine: int,
    enemy_fingerprint: Seq<char>,
    theirs: int,
) -> Option<Seq<char>> {
    if mine == theirs {
        None
    } else if theirs < mine {
        Some(my_fingerprint)
    } else {
        Some(enemy_fingerprint)
    }
}

/// The new ranks of a bout fit in `i32`.
pub open spec fn bout_fits(mine: int, theirs: int) -> bool {
    bout_ranks(mine, theirs).0 <= i32::MAX && bout_ranks(mine, theirs).1 <= i32::MAX
}

/// The outcome of a bout.
pub struct Bout {
    pub my_rank: i32,
    pub enemy_rank: i32,
    pub winner: Option<String>,
}

/// Settles a bout between the caller and a queued opponent.
pub fn settle(my_fingerprint: &String, my_rank: i32, enemy_fingerprint: &String, enemy_rank: i32) -> (b: Bout)
    requires
        bout_fits(my_rank as int, enemy_rank as int),
    ensures
        (b.my_rank as int, b.enemy_rank as int) == bout_ranks(my_rank as int, enemy_rank as int),
        opt_view(b.winner) == bout_winner(
            my_fingerprint@,
            my_rank as int,
            enemy_fingerprint@,
            enemy_rank as int,
        ),
{
    let mut enemy_r = enemy_rank + 1;
    let mut my_r = my_rank + 1;
    let winner = if enemy_rank == my_rank {
        enemy_r = enemy_r + 1;
        my_r = my_r + 1;
        None
    } else if enemy_rank < my_rank {
        my_r = my_r + 2;
        Some(my_fingerprint.clone())
    } else {
        enemy_r = enemy_r + 2;
        Some(enemy_fingerprint.clone())
    };
    Bout { my_rank: my_r, enemy_rank: enemy_r, winner }
}

/// Where a fight over a websocket stands.
pub enum FightPhase {
    /// The socket has just opened.
    Start,
    /// Waiting for the caller to be marked as queued.
    Queueing,
    /// Waiting for the search of a queued opponent.
    Searching,
    /// Waiting for both new ranks to be stored.
    SavingRanks { enemy: String, winner: Option<String> },
    /// Waiting for the match to be recorded.
    SavingMatch { enemy: String, winner: Option<String> },
    /// Waiting for both plays to be recorded.
    SavingPlays { winner: Option<String> },
    /// Waiting for the winner to be sent down the socket.
    Announcing,
    /// Waiting out the pause after finding no opponent.
    Waiting,
    /// The fight is over.
    Done,
}

/// What the outside world reports back to a fight.
pub enum FightEvent {
    Opened,
    Queued,
    /// The opponents found, at most one, or the error of the search.
    Searched(Result<Vec<fighters::Model>, String>),
    RanksSaved,
    /// The match is recorded under this id.
    MatchSaved(u128),
    PlaysSaved,
    Sent,
    Slept,
}

/// What a fight asks the outside world to do next.
#[allow(inconsistent_fields)]
pub enum FightAction {
    /// Mark this fighter as queued.
    MarkQueued { fingerprint: String },
    /// Look for one queued fighter other than this one.
    FindOpponent { fingerprint: String },
    /// Store both new ranks and take both fighters off the queue.
    SaveRanks {
        my_fingerprint: String,
        my_rank: i32,
        enemy_fingerprint: String,
        enemy_rank: i32,
    },
    /// Record a match with this winner (none for a draw) under a new id.
    SaveMatch { winner: Option<String> },
    /// Record that both fighters played the match.
    SavePlays { match_id: u128, my_fingerprint: String, enemy_fingerprint: String },
    /// Send the winner's fingerprint down the socket.
    Announce { winner: String },
    /// Pause before closing.
    Sleep { seconds: u64 },
    /// Close the fight.
    Finish,
}

/// The event that each phase waits for.
pub open spec fn accepts(phase: FightPhase, event: FightEvent) -> bool {
    match phase {
        FightPhase::Start => event is Opened,
        FightPhase::Queueing => event is Queued,
        FightPhase::Searching => event is Searched,
        FightPhase::SavingRanks { .. } => event is RanksSaved,
        FightPhase::SavingMatch { .. } => event is MatchSaved,
        FightPhase::SavingPlays { .. } => event is PlaysSaved,
        FightPhase::Announcing => event is Sent,
        FightPhase::Waiting => event is Slept,
        FightPhase::Done => false,
    }
}

/// The opponent of a search: the first fighter found; a failed search finds none.
pub open spec fn opponent_of(found: Result<Vec<fighters::Model>, String>) -> Option<fighters::Model> {
    match found {
        Ok(v) => if v@.len() > 0 {
            Some(v@[0])
        } else {
            None
        },
        Err(_) => None,
    }
}

/// A step can be taken without failing: when an opponent is found, the
/// caller has a fighter and the new ranks fit in `i32`.
pub open spec fn step_fits(auth: Auth, event: FightEvent) -> bool {
    event matches FightEvent::Searched(found) ==> (opponent_of(found) is Some ==> auth.fighter is Some
        && bout_fits(auth.fighter->0.rank as int, opponent_of(found)->0.rank as int))
}

/// How far a fight has come: every step takes it further, so a fight ends
/// after at most seven steps.
pub open spec fn progress(phase: FightPhase) -> nat {
    match phase {
        FightPhase::Start => 0,
        FightPhase::Queueing => 1,
        FightPhase::Searching => 2,
        FightPhase::SavingRanks { .. } => 3,
        FightPhase::SavingMatch { .. } => 4,
        FightPhase::SavingPlays { .. } => 5,
        FightPhase::Announcing => 6,
        FightPhase::Waiting => 6,
        FightPhase::Done => 7,
    }
}

/// Every bout hands out exactly four rank points in all.
pub proof fn law_bout_hands_out_four_points(mine: int, theirs: int)
    ensures
        (bout_ranks(mine, theirs).0 - mine) + (bout_ranks(mine, theirs).1 - theirs) == 4,
{
}

/// Both fighters gain rank, and the order between them is kept: the higher
/// ranked one wins and its lead grows by two; equal ranks stay equal and
/// the bout is a draw.
pub proof fn law_bout_keeps_order(my_fingerprint: Seq<char>, mine: int, enemy_fingerprint: Seq<char>, theirs: int)
    ensures
        bout_ranks(mine, theirs).0 > mine,
        bout_ranks(mine, theirs).1 > theirs,
        mine > theirs ==> bout_ranks(mine, theirs).0 - bout_ranks(mine, theirs).1 == mine - theirs + 2
            && bout_winner(my_fingerprint, mine, enemy_fingerprint, theirs) == Some(my_fingerprint),
        mine < theirs ==> bout_ranks(mine, theirs).1 - bout_ranks(mine, theirs).0 == theirs - mine + 2
            && bout_winner(my_fingerprint, mine, enemy_fingerprint, theirs) == Some(enemy_fingerprint),
        mine == theirs ==> bout_ranks(mine, theirs).0 == bout_ranks(mine, theirs).1
            && bout_winner(my_fingerprint, mine, enemy_fingerprint, theirs) is None,
{
}

/// Copies an optional string.
fn copy_opt(o: &Option<String>) -> (r: Option<String>)
    ensures
        opt_view(r) == opt_view(*o),
{
    match o {
        Some(s) => Some(s.clone()),
        None => None,
    }
}

/// Takes a fight one step further: from where it stands and what was just
/// reported, to where it stands next and what to do.
pub fn fight_step(auth: &Auth, phase: FightPhase, event: FightEvent) -> (res: (FightPhase, FightAction))
    requires
        accepts(phase, event),
        step_fits(*auth, event),
    ensures
        progress(res.0) > progress(phase),
        event is Opened ==> {
            &&& res.0 is Queueing
            &&& res.1 is MarkQueued
            &&& res.1->MarkQueued_fingerprint@ == auth.fingerprint@
        },
        event is Queued ==> {
            &&& res.0 is Searching
            &&& res.1 is FindOpponent
            &&& res.1->FindOpponent_fingerprint@ == auth.fingerprint@
        },
        event matches FightEvent::Searched(found) ==> match opponent_of(found) {
            None => res.0 is Waiting && res.1 is Sleep && res.1->seconds == RETRY_SECONDS,
            Some(e) => {
                let mine = auth.fighter->0.rank as int;
                &&& res.0 is SavingRanks
                &&& res.0->SavingRanks_enemy@ == e.fingerprint@
                &&& opt_view(res.0->SavingRanks_winner) == bout_winner(
                    auth.fingerprint@,
                    mine,
                    e.fingerprint@,
                    e.rank as int,
                )
                &&& res.1 is SaveRanks
                &&& res.1->SaveRanks_my_fingerprint@ == auth.fingerprint@
                &&& res.1->SaveRanks_enemy_fingerprint@ == e.fingerprint@
                &&& (res.1->SaveRanks_my_rank as int, res.1->SaveRanks_enemy_rank as int)
                    == bout_ranks(mine, e.rank as int)
            },
        },
        event is RanksSaved ==> {
            &&& res.0 is SavingMatch
            &&& res.0->SavingMatch_enemy@ == phase->SavingRanks_enemy@
            &&& opt_view(res.0->SavingMatch_winner) == opt_view(phase->SavingRanks_winner)
            &&& res.1 is SaveMatch
            &&& opt_view(res.1->SaveMatch_winner) == opt_view(phase->SavingRanks_winner)
        },
        event is MatchSaved ==> {
            &&& res.0 is SavingPlays
            &&& opt_view(res.0->SavingPlays_winner) == opt_view(phase->SavingMatch_winner)
            &&& res.1 is SavePlays
            &&& res.1->match_id == event->MatchSaved_0
            &&& res.1->SavePlays_my_fingerprint@ == auth.fingerprint@
            &&& res.1->SavePlays_enemy_fingerprint@ == phase->SavingMatch_enemy@
        },
        event is PlaysSaved ==> match phase->SavingPlays_winner {
            Some(w) => res.0 is Announcing && res.1 is Announce && res.1->Announce_winner@ == w@,
            None => res.0 is Done && res.1 is Finish,
        },
        event is Sent || event is Slept ==> (res.0 is Done && res.1 is Finish),
{
    match event {
        FightEvent::Opened => (
            FightPhase::Queueing,
            FightAction::MarkQueued { fingerprint: auth.fingerprint.clone() },
        ),
        FightEvent::Queued => (
            FightPhase::Searching,
            FightAction::FindOpponent { fingerprint: auth.fingerprint.clone() },
        ),
        FightEvent::Searched(found) => {
            let opponent = match found {
                Ok(v) => {
                    if v.len() > 0 {
                        let mut v = v;
                        let first = v.swap_remove(0);
                        Some(first)
                    } else {
                        None
                    }
                },
                Err(_) => None,
            };
            match opponent {
                None => (FightPhase::Waiting, FightAction::Sleep { seconds: RETRY_SECONDS }),
                Some(enemy) => {
                    let mine = match &auth.fighter {
                        Some(f) => f.rank,
                        None => 0,
                    };
                    let bout = settle(&auth.fingerprint, mine, &enemy.fingerprint, enemy.rank);
                    let winner = copy_opt(&bout.winner);
                    (
                        FightPhase::SavingRanks { enemy: enemy.fingerprint.clone(), winner },
                        FightAction::SaveRanks {
                            my_fingerprint: auth.fingerprint.clone(),
                            my_rank: bout.my_rank,
                            enemy_fingerprint: enemy.fingerprint,
                            enemy_rank: bout.enemy_rank,
                        },
                    )
                },
            }
        },
        FightEvent::RanksSaved => match phase {
            FightPhase::SavingRanks { enemy, winner } => {
                let w = copy_opt(&winner);
                (FightPhase::SavingMatch { enemy, winner }, FightAction::SaveMatch { winner: w })
            },
            _ => (FightPhase::Done, FightAction::Finish),
        },
        FightEvent::MatchSaved(id) => match phase {
            FightPhase::SavingMatch { enemy, winner } => (
                FightPhase::SavingPlays { winner },
                FightAction::SavePlays {
                    match_id: id,
                    my_fingerprint: auth.fingerprint.clone(),
                    enemy_fingerprint: enemy,
                },
            ),
            _ => (FightPhase::Done, FightAction::Finish),
        },
        FightEvent::PlaysSaved => match phase {
            FightPhase::SavingPlays { winner: Some(w) } => (
                FightPhase::Announcing,
                FightAction::Announce { winner: w },
            ),
            _ => (FightPhase::Done, FightAction::Finish),
        },
        FightEvent::Sent => (FightPhase::Done, FightAction::Finish),
        FightEvent::Slept => (FightPhase::Done, FightAction::Finish),
    }
}

/// Whether `phase` waits for `event` (see `accepts`).
pub fn accepts_event(phase: &FightPhase, event: &FightEvent) -> (b: bool)
    ensures
        b == accepts(*phase, *event),
{
    match phase {
        FightPhase::Start => matches!(event, FightEvent::Opened),
        FightPhase::Queueing => matches!(event, FightEvent::Queued),
        FightPhase::Searching => matches!(event, FightEvent::Searched(..)),
        FightPhase::SavingRanks { .. } => matches!(event, FightEvent::RanksSaved),
        FightPhase::SavingMatch { .. } => matches!(event, FightEvent::MatchSaved(..)),
        FightPhase::SavingPlays { .. } => matches!(event, FightEvent::PlaysSaved),
        FightPhase::Announcing => matches!(event, FightEvent::Sent),
        FightPhase::Waiting => matches!(event, FightEvent::Slept),
        FightPhase::Done => false,
    }
}

/// Whether a step on `event` can be taken without failing (see `step_fits`).
pub fn fits_step(auth: &Auth, event: &FightEvent) -> (b: bool)
    ensures
        b == step_fits(*auth, *event),
{
    match event {
        FightEvent::Searched(Ok(v)) => {
            if v.len() == 0 {
                true
            } else {
                match &auth.fighter {
                    None => false,
                    Some(f) => {
                        let mine = f.rank as i64;
                        let theirs = v[0].rank as i64;
                        let max = i32::MAX as i64;
                        if mine == theirs {
                            mine + 2 <= max
                        } else if theirs < mine {
                            mine + 3 <= max
                        } else {
                            theirs + 3 <= max
                        }
                    },
                }
            }
        },
        _ => true,
    }
}

/// Every phase but the last waits for the event that its pending action
/// reports, so no fight stalls: a started socket accepts being opened, a
/// queueing one the queue mark, a searching one any search result, and so
/// on to the announcement and the pause.
pub proof fn law_every_phase_accepts_its_event(
    enemy: String,
    winner: Option<String>,
    found: Result<Vec<fighters::Model>, String>,
    id: u128,
)
    ensures
        accepts(FightPhase::Start, FightEvent::Opened),
        accepts(FightPhase::Queueing, FightEvent::Queued),
        accepts(FightPhase::Searching, FightEvent::Searched(found)),
        accepts(FightPhase::SavingRanks { enemy, winner }, FightEvent::RanksSaved),
        accepts(FightPhase::SavingMatch { enemy, winner }, FightEvent::MatchSaved(id)),
        accepts(FightPhase::SavingPlays { winner }, FightEvent::PlaysSaved),
        accepts(FightPhase::Announcing, FightEvent::Sent),
        accepts(FightPhase::Waiting, FightEvent::Slept),
{
}

/// The opponent of a search is the first fighter it found; a search that
/// found nobody, or failed, has none.
pub proof fn law_opponent_is_first_found(found: Result<Vec<fighters::Model>, String>)
    ensures
        found matches Ok(v) ==> (v@.len() > 0 ==> opponent_of(found) == Some(v@[0])),
        found matches Ok(v) ==> (v@.len() == 0 ==> opponent_of(found) is None),
        found is Err ==> opponent_of(found) is None,
{
}

/// A step fails only where settling a bout would: every event but a search
/// that finds an opponent fits; a found opponent fits exactly when the
/// caller has a fighter and the new ranks stay within `i32` (the winner
/// gains three, the loser one, both two on a draw), whoever is ranked higher.
pub proof fn law_step_fits_exactly_when_ranks_fit(auth: Auth, event: FightEvent)
    ensures
        !(event is Searched) ==> step_fits(auth, event),
        event matches FightEvent::Searched(found) ==> (opponent_of(found) is None ==> step_fits(
            auth,
            event,
        )),
        event matches FightEvent::Searched(found) ==> (opponent_of(found) matches Some(e) ==> (
        step_fits(auth, event) <==> (auth.fighter matches Some(f) && (f.rank == e.rank ==> f.rank
            + 2 <= i32::MAX) && (f.rank > e.rank ==> f.rank + 3 <= i32::MAX) && (f.rank < e.rank
            ==> e.rank + 3 <= i32::MAX)))),
{
}

} // verus!
