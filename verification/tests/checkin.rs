use ebobo::server::handlers::auth::{
    authenticate, fits_visit, registration_reply, visit_device, AuthRequest, Device, Location, Stored, Visit,
    DAY_NANOS, MINUTE_NANOS,
};

const T0: i128 = 1_700_000_000_000_000_000;

fn request(fp: &str, addr: &str) -> AuthRequest {
    AuthRequest { fingerprint: fp.to_string(), addr: addr.to_string() }
}

fn location(addr: &str, seen: i128, hits: u32) -> Location {
    Location {
        address: addr.to_string(),
        is_home: false,
        first_seen_at: seen,
        last_seen_at: seen,
        hits,
    }
}

fn device(active: bool, hits: u32, locations: Vec<Location>) -> Device {
    Device {
        fingerprint: "abc".to_string(),
        hits,
        is_cat: false,
        is_active: active,
        registered_at: T0,
        locations,
    }
}

fn saved(v: Visit) -> (Device, Result<String, String>) {
    match v {
        Visit::Save { device, reply } => (device, reply),
        _ => panic!("expected a device to save"),
    }
}

#[test]
fn unknown_device_is_registered() {
    match authenticate(&request("abc", "1.2.3.4"), Stored::Unknown, T0) {
        Visit::Register { device, welcome } => {
            assert_eq!(welcome, "Welcome, abc! Nice to meet you!");
            assert_eq!(device.fingerprint, "abc");
            assert_eq!(device.hits, 0);
            assert!(device.is_active);
            assert!(!device.is_cat);
            assert_eq!(device.registered_at, T0);
            assert_eq!(device.locations.len(), 1);
            let l = &device.locations[0];
            assert_eq!(l.address, "1.2.3.4");
            assert_eq!(l.hits, 1);
            assert!(!l.is_home);
            assert_eq!(l.first_seen_at, T0);
            assert_eq!(l.last_seen_at, T0);
        }
        _ => panic!("expected registration"),
    }
}

#[test]
fn registration_reply_depends_on_store() {
    assert_eq!(
        registration_reply("Welcome, abc! Nice to meet you!".to_string(), Ok(())),
        Ok("Welcome, abc! Nice to meet you!".to_string())
    );
    assert_eq!(
        registration_reply("w".to_string(), Err("disk full".to_string())),
        Err("disk full".to_string())
    );
}

#[test]
fn unreadable_device_is_refused_with_error() {
    match authenticate(&request("abc", "a"), Stored::Unreadable("bad data".to_string()), T0) {
        Visit::Refused(m) => assert_eq!(m, "bad data"),
        _ => panic!("expected refusal"),
    }
}

#[test]
fn inactive_device_is_refused_and_counts() {
    let d = device(false, 3, vec![location("a", T0, 2)]);
    let (d, reply) = saved(authenticate(&request("abc", "a"), Stored::Loaded(d), T0 + 5));
    assert_eq!(reply, Err("Device is not active".to_string()));
    assert!(!d.is_active);
    assert_eq!(d.hits, 4);
    assert_eq!(d.locations.len(), 1);
    assert_eq!(d.locations[0].hits, 2);
    assert_eq!(d.locations[0].last_seen_at, T0);
}

#[test]
fn inactive_device_wakes_after_eleven_refusals() {
    let mut d = device(false, 0, vec![location("a", T0, 2)]);
    for i in 0..10 {
        let (next, reply) = visit_device(d, &"a".to_string(), T0 + i);
        assert_eq!(reply, Err("Device is not active".to_string()));
        assert!(!next.is_active);
        d = next;
    }
    assert_eq!(d.hits, 10);
    let (d, reply) = visit_device(d, &"a".to_string(), T0 + 10);
    assert_eq!(reply, Err("Device is not active".to_string()));
    assert!(d.is_active);
    assert_eq!(d.hits, 0);
    let (_, reply) = visit_device(d, &"a".to_string(), T0 + 11);
    assert!(reply.is_ok());
}

#[test]
fn new_address_adds_location() {
    let d = device(true, 0, vec![location("a", T0, 2)]);
    let (d, reply) = saved(authenticate(&request("abc", "b"), Stored::Loaded(d), T0 + 7));
    assert_eq!(reply, Ok("Welcome back, abc! You are in a new location!".to_string()));
    assert_eq!(d.locations.len(), 2);
    assert_eq!(d.locations[1].address, "b");
    assert_eq!(d.locations[1].hits, 1);
    assert_eq!(d.locations[1].first_seen_at, T0 + 7);
    assert!(d.is_active);
    assert!(!d.is_cat);
}

#[test]
fn known_address_is_revisited() {
    let d = device(true, 0, vec![location("a", T0, 2), location("b", T0, 1)]);
    let (d, reply) = saved(authenticate(&request("abc", "b"), Stored::Loaded(d), T0 + 9));
    assert_eq!(reply, Ok("Welcome back, abc! You are in a known location!".to_string()));
    assert_eq!(d.locations.len(), 2);
    assert_eq!(d.locations[1].hits, 2);
    assert_eq!(d.locations[1].last_seen_at, T0 + 9);
    assert_eq!(d.locations[1].first_seen_at, T0);
    assert_eq!(d.locations[0].hits, 2);
    assert!(!d.is_cat);
}

#[test]
fn twenty_first_hit_makes_home() {
    let d = device(true, 0, vec![location("a", T0, 20)]);
    let (d, reply) = saved(authenticate(&request("abc", "a"), Stored::Loaded(d), T0 + 1));
    assert!(d.locations[0].is_home);
    assert_eq!(d.locations[0].hits, 21);
    // 21 hits in all: the device is a cat now and is greeted as one.
    assert!(d.is_cat);
    assert_eq!(
        reply,
        Ok("Welcome back, \u{1F431}! You are in a known location! Welcome home!".to_string())
    );
}

#[test]
fn eleventh_hit_makes_cat() {
    let d = device(true, 0, vec![location("a", T0, 5), location("b", T0, 5)]);
    let (d, reply) = saved(authenticate(&request("abc", "b"), Stored::Loaded(d), T0 + 1));
    assert!(d.is_cat);
    assert_eq!(reply, Ok("Welcome back, \u{1F431}! You are in a known location!".to_string()));
}

#[test]
fn tenth_hit_is_not_yet_cat() {
    let d = device(true, 0, vec![location("a", T0, 4), location("b", T0, 5)]);
    let (d, _) = saved(authenticate(&request("abc", "b"), Stored::Loaded(d), T0 + 1));
    assert!(!d.is_cat);
}

#[test]
fn long_absence_is_never_remarked() {
    // The visited address is stamped with the time of the visit, so the
    // latest sighting is never in the past.
    let d = device(true, 0, vec![location("a", T0, 1)]);
    let later = T0 + 2 * DAY_NANOS + MINUTE_NANOS;
    let (d, reply) = saved(authenticate(&request("abc", "a"), Stored::Loaded(d), later));
    assert_eq!(reply, Ok("Welcome back, abc! You are in a known location!".to_string()));
    assert!(d.is_active);
}

#[test]
fn accepted_visits_count_one_hit_each() {
    let mut d = device(true, 0, vec![location("a", T0, 1)]);
    let addrs = ["a", "b", "a", "c", "b"];
    for (i, a) in addrs.iter().enumerate() {
        let before: u32 = d.locations.iter().map(|l| l.hits).sum();
        let (next, _) = visit_device(d, &a.to_string(), T0 + i as i128);
        let after: u32 = next.locations.iter().map(|l| l.hits).sum();
        assert_eq!(after, before + 1);
        d = next;
    }
    let names: Vec<&str> = d.locations.iter().map(|l| l.address.as_str()).collect();
    assert_eq!(names, vec!["a", "b", "c"]);
}

#[test]
fn visit_fit_checks_overflow() {
    let a = "a".to_string();
    assert!(fits_visit(&device(false, 3, Vec::new()), &a));
    assert!(!fits_visit(&device(false, u32::MAX, Vec::new()), &a));
    assert!(fits_visit(&device(true, 0, vec![location("a", T0, 5)]), &a));
    assert!(!fits_visit(&device(true, 0, vec![location("a", T0, u32::MAX - 1), location("b", T0, 1)]), &a));
    assert!(fits_visit(&device(true, 0, vec![location("a", T0, u32::MAX - 1)]), &a));
    // A new address adds one hit at 1 and sums nothing.
    assert!(fits_visit(&device(true, 0, vec![location("b", T0, u32::MAX)]), &a));
}

#[test]
fn cat_and_home_are_kept() {
    let mut home = location("a", T0, 25);
    home.is_home = true;
    let mut d = device(true, 0, vec![home, location("b", T0, 1)]);
    d.is_cat = true;
    let (d, reply) = saved(authenticate(&request("abc", "c"), Stored::Loaded(d), T0 + 3));
    assert!(d.is_cat);
    assert!(d.locations[0].is_home);
    assert_eq!(reply, Ok("Welcome back, \u{1F431}! You are in a new location!".to_string()));
}
