use ebobo::server::handlers::admin::device_listing;

#[test]
fn listing_shows_fingerprints_without_fighters() {
    let rows = vec!["a".to_string(), "b".to_string()];
    let list = device_listing(&rows);
    assert_eq!(list.len(), 2);
    assert_eq!(list[0].fingerprint, "a");
    assert_eq!(list[1].fingerprint, "b");
    assert!(list.iter().all(|d| d.fighter.is_none()));
}

#[test]
fn empty_listing() {
    assert!(device_listing(&Vec::new()).is_empty());
}
