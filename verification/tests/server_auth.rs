use ebobo::server::auth::{
    begin_auth, finish_auth, fingerprint_from_query, request_fingerprint, AuthError, AuthOutcome,
    AuthStep, Status,
};
use ebobo::server::entities::fighters;

#[test]
fn query_single_fp_pair() {
    assert_eq!(fingerprint_from_query("fp=abc"), Some("abc".to_string()));
}

#[test]
fn query_fp_after_other_pairs() {
    assert_eq!(fingerprint_from_query("a=1&fp=xyz"), Some("xyz".to_string()));
}

#[test]
fn query_first_fp_pair_wins() {
    assert_eq!(fingerprint_from_query("fp=one&fp=two"), Some("one".to_string()));
}

#[test]
fn query_without_fp_gives_none() {
    assert_eq!(fingerprint_from_query(""), None);
    assert_eq!(fingerprint_from_query("a=1&b=2"), None);
    assert_eq!(fingerprint_from_query("fp"), None);
    assert_eq!(fingerprint_from_query("x=fp"), None);
    assert_eq!(fingerprint_from_query("fpx=1"), None);
}

#[test]
fn query_value_splits_at_first_equals() {
    assert_eq!(fingerprint_from_query("fp=a=b"), Some("a=b".to_string()));
    assert_eq!(fingerprint_from_query("fp="), Some("".to_string()));
    assert_eq!(fingerprint_from_query("&&fp=1&"), Some("1".to_string()));
}

#[test]
fn query_keeps_unicode() {
    assert_eq!(fingerprint_from_query("k=\u{e9}&fp=\u{fc}x"), Some("\u{fc}x".to_string()));
}

#[test]
fn header_wins_over_query() {
    assert_eq!(request_fingerprint(Some("h"), Some("fp=q")), Some("h".to_string()));
}

#[test]
fn query_used_without_header() {
    assert_eq!(request_fingerprint(None, Some("fp=q")), Some("q".to_string()));
    assert_eq!(request_fingerprint(None, None), None);
    assert_eq!(request_fingerprint(None, Some("a=b")), None);
}

#[test]
fn missing_fingerprint_is_unauthorized() {
    match begin_auth(None, true) {
        AuthStep::Reject(Status::Unauthorized, AuthError::MissingFingerprint) => {}
        _ => panic!("expected unauthorized"),
    }
}

#[test]
fn missing_state_is_internal_error() {
    match begin_auth(Some("abc".to_string()), false) {
        AuthStep::Reject(Status::InternalServerError, AuthError::InternalServerError(m)) => {
            assert_eq!(m, "missing application state")
        }
        _ => panic!("expected internal error"),
    }
}

#[test]
fn fingerprint_with_state_is_looked_up() {
    match begin_auth(Some("abc".to_string()), true) {
        AuthStep::Lookup(fp) => assert_eq!(fp, "abc"),
        _ => panic!("expected lookup"),
    }
}

#[test]
fn found_fighter_is_attached() {
    let row = fighters::Model {
        fingerprint: "abc".to_string(),
        emo: "\u{1F409}".to_string(),
        rank: 7,
        queued: false,
    };
    match finish_auth("abc".to_string(), Ok(Some(row))) {
        AuthOutcome::Success(auth) => {
            assert_eq!(auth.fingerprint, "abc");
            let f = auth.fighter.expect("fighter");
            assert_eq!(f.emo, "\u{1F409}");
            assert_eq!(f.rank, 7);
        }
        _ => panic!("expected success"),
    }
}

#[test]
fn caller_without_fighter_is_authenticated() {
    match finish_auth("abc".to_string(), Ok(None)) {
        AuthOutcome::Success(auth) => {
            assert_eq!(auth.fingerprint, "abc");
            assert!(auth.fighter.is_none());
        }
        _ => panic!("expected success"),
    }
}

#[test]
fn lookup_error_is_internal_error() {
    match finish_auth("abc".to_string(), Err("db down".to_string())) {
        AuthOutcome::Failure(Status::InternalServerError, AuthError::InternalServerError(m)) => {
            assert_eq!(m, "db down")
        }
        _ => panic!("expected failure"),
    }
}
