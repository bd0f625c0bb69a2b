use ebobo::server::auth::{Auth, Fighter};
use ebobo::server::entities::fighters;
use ebobo::server::handlers::fight::{
    accepts_event, fight_step, fits_step, settle, FightAction, FightEvent, FightPhase,
};

fn me(rank: i32) -> Auth {
    Auth {
        fingerprint: "me".to_string(),
        fighter: Some(Fighter { emo: "\u{1F436}".to_string(), rank }),
    }
}

fn enemy(rank: i32) -> fighters::Model {
    fighters::Model {
        fingerprint: "foe".to_string(),
        emo: "\u{1F431}".to_string(),
        rank,
        queued: true,
    }
}

#[test]
fn higher_rank_wins_three_points() {
    let b = settle(&"me".to_string(), 5, &"foe".to_string(), 3);
    assert_eq!((b.my_rank, b.enemy_rank), (8, 4));
    assert_eq!(b.winner, Some("me".to_string()));
}

#[test]
fn lower_rank_loses() {
    let b = settle(&"me".to_string(), 1, &"foe".to_string(), 3);
    assert_eq!((b.my_rank, b.enemy_rank), (2, 6));
    assert_eq!(b.winner, Some("foe".to_string()));
}

#[test]
fn equal_ranks_draw() {
    let b = settle(&"me".to_string(), 4, &"foe".to_string(), 4);
    assert_eq!((b.my_rank, b.enemy_rank), (6, 6));
    assert_eq!(b.winner, None);
}

#[test]
fn every_bout_hands_out_four_points() {
    for (m, t) in [(0, 0), (9, 2), (-3, 7), (100, 100)] {
        let b = settle(&"me".to_string(), m, &"foe".to_string(), t);
        assert_eq!((b.my_rank - m) + (b.enemy_rank - t), 4);
    }
}

#[test]
fn full_fight_with_winner() {
    let auth = me(5);
    let (p, a) = fight_step(&auth, FightPhase::Start, FightEvent::Opened);
    match a {
        FightAction::MarkQueued { fingerprint } => assert_eq!(fingerprint, "me"),
        _ => panic!("expected queue mark"),
    }
    let (p, a) = fight_step(&auth, p, FightEvent::Queued);
    match a {
        FightAction::FindOpponent { fingerprint } => assert_eq!(fingerprint, "me"),
        _ => panic!("expected search"),
    }
    let (p, a) = fight_step(&auth, p, FightEvent::Searched(Ok(vec![enemy(3)])));
    match a {
        FightAction::SaveRanks { my_fingerprint, my_rank, enemy_fingerprint, enemy_rank } => {
            assert_eq!(my_fingerprint, "me");
            assert_eq!(my_rank, 8);
            assert_eq!(enemy_fingerprint, "foe");
            assert_eq!(enemy_rank, 4);
        }
        _ => panic!("expected ranks"),
    }
    let (p, a) = fight_step(&auth, p, FightEvent::RanksSaved);
    match a {
        FightAction::SaveMatch { winner } => assert_eq!(winner, Some("me".to_string())),
        _ => panic!("expected match record"),
    }
    let (p, a) = fight_step(&auth, p, FightEvent::MatchSaved(42));
    match a {
        FightAction::SavePlays { match_id, my_fingerprint, enemy_fingerprint } => {
            assert_eq!(match_id, 42);
            assert_eq!(my_fingerprint, "me");
            assert_eq!(enemy_fingerprint, "foe");
        }
        _ => panic!("expected plays"),
    }
    let (p, a) = fight_step(&auth, p, FightEvent::PlaysSaved);
    match a {
        FightAction::Announce { winner } => assert_eq!(winner, "me"),
        _ => panic!("expected announcement"),
    }
    let (p, a) = fight_step(&auth, p, FightEvent::Sent);
    assert!(matches!(p, FightPhase::Done));
    assert!(matches!(a, FightAction::Finish));
}

#[test]
fn draw_is_not_announced() {
    let auth = me(4);
    let p = FightPhase::Searching;
    let (p, _) = fight_step(&auth, p, FightEvent::Searched(Ok(vec![enemy(4)])));
    let (p, a) = fight_step(&auth, p, FightEvent::RanksSaved);
    match a {
        FightAction::SaveMatch { winner } => assert_eq!(winner, None),
        _ => panic!("expected match record"),
    }
    let (p, _) = fight_step(&auth, p, FightEvent::MatchSaved(7));
    let (p, a) = fight_step(&auth, p, FightEvent::PlaysSaved);
    assert!(matches!(p, FightPhase::Done));
    assert!(matches!(a, FightAction::Finish));
}

#[test]
fn no_opponent_waits_five_seconds() {
    let auth = me(4);
    let (p, a) = fight_step(&auth, FightPhase::Searching, FightEvent::Searched(Ok(Vec::new())));
    match a {
        FightAction::Sleep { seconds } => assert_eq!(seconds, 5),
        _ => panic!("expected sleep"),
    }
    let (p, a) = fight_step(&auth, p, FightEvent::Slept);
    assert!(matches!(p, FightPhase::Done));
    assert!(matches!(a, FightAction::Finish));
}

#[test]
fn failed_search_counts_as_no_opponent() {
    let auth = Auth { fingerprint: "me".to_string(), fighter: None };
    let (p, a) =
        fight_step(&auth, FightPhase::Searching, FightEvent::Searched(Err("db".to_string())));
    assert!(matches!(p, FightPhase::Waiting));
    assert!(matches!(a, FightAction::Sleep { seconds: 5 }));
}

#[test]
fn step_checks_match_the_machine() {
    assert!(accepts_event(&FightPhase::Start, &FightEvent::Opened));
    assert!(!accepts_event(&FightPhase::Start, &FightEvent::Queued));
    assert!(!accepts_event(&FightPhase::Done, &FightEvent::Sent));
    let nobody = Auth { fingerprint: "me".to_string(), fighter: None };
    assert!(!fits_step(&nobody, &FightEvent::Searched(Ok(vec![enemy(1)]))));
    assert!(fits_step(&nobody, &FightEvent::Searched(Ok(Vec::new()))));
    assert!(fits_step(&me(1), &FightEvent::Searched(Ok(vec![enemy(1)]))));
    assert!(!fits_step(&me(i32::MAX - 2), &FightEvent::Searched(Ok(vec![enemy(0)]))));
    assert!(fits_step(&me(i32::MAX - 3), &FightEvent::Searched(Ok(vec![enemy(0)]))));
    assert!(fits_step(&me(i32::MAX - 2), &FightEvent::Searched(Ok(vec![enemy(i32::MAX - 2)]))));
}
