use vstd::prelude::*;

verus! {

/// One minute in nanoseconds; times are nanoseconds since the Unix epoch.
pub const MINUTE_NANOS: i128 = 60_000_000_000i128;

/// One day in nanoseconds.
pub const DAY_NANOS: i128 = 86_400_000_000_000i128;

/// Hits after which an inactive device is let in again.
pub const WAKE_AFTER_HITS: u32 = 10u32;

/// Hits at one address after which it counts as the device's home.
pub const HOME_AFTER_HITS: u32 = 20u32;

/// Total hits over all addresses after which a device is a cat.
pub const CAT_AFTER_HITS: u32 = 10u32;

// The pieces of the answers to a check-in.
pub const NOT_ACTIVE: &'static str = "Device is not active";
pub const NEW_LOCATION: &'static str = "You are in a new location!";
pub const KNOWN_LOCATION: &'static str = "You are in a known location!";
pub const WELCOME_HOME: &'static str = " Welcome home!";
pub const LONG_TIME: &'static str = " Long time no see!";
pub const NOW_INACTIVE: &'static str = " You are not active!";
pub const CAT_NAME: &'static str = "\u{1F431}";
pub const WELCOME_BACK: &'static str = "Welcome back, ";
pub const NAME_END: &'static str = "! ";
pub const WELCOME: &'static str = "Welcome, ";
pub const NICE_TO_MEET: &'static str = "! Nice to meet you!";

/// An address that a device has checked in from.  Times are nanoseconds
/// since the Unix epoch.
pub struct Location {
    pub address: String,
    pub is_home: bool,
    pub first_seen_at: i128,
    pub last_seen_at: i128,
    pub hits: u32,
}

/// A device known by its fingerprint, with the addresses it checked in from.
pub struct Device {
    pub fingerprint: String,
    pub hits: u32,
    pub is_cat: bool,
    pub is_active: bool,
    pub registered_at: i128,
    pub locations: Vec<Location>,
}

/// A location with its address as a sequence of characters.
pub struct LocationModel {
    pub address: Seq<char>,
    pub is_home: bool,
    pub first_seen_at: i128,
    pub last_seen_at: i128,
    pub hits: u32,
}

/// A device with its strings as sequences of characters.
pub struct DeviceModel {
    pub fingerprint: Seq<char>,
    pub hits: u32,
    pub is_cat: bool,
    pub is_active: bool,
    pub registered_at: i128,
    pub locations: Seq<LocationModel>,
}

impl View for Location {
    type V = LocationModel;

    open spec fn view(&self) -> LocationModel {
        LocationModel {
            address: self.address@,
            is_home: self.is_home,
            first_seen_at: self.first_seen_at,
            last_seen_at: self.last_seen_at,
            hits: self.hits,
        }
    }
}

impl View for Device {
    type V = DeviceModel;

    open spec fn view(&self) -> DeviceModel {
        DeviceModel {
            fingerprint: self.fingerprint@,
            hits: self.hits,
            is_cat: self.is_cat,
            is_active: self.is_active,
            registered_at: self.registered_at,
            locations: self.locations@.map_values(|l: Location| l@),
        }
    }
}

/// Position of the first location at `addr`, or `locs.len()` when there is none.
pub open spec fn address_pos(locs: Seq<LocationModel>, addr: Seq<char>) -> nat
    decreases locs.len(),
{
    if locs.len() == 0 {
        0
    } else if locs[0].address == addr {
        0
    } else {
        1 + address_pos(locs.drop_first(), addr)
    }
}

/// Sum of the hits of all locations.
pub open spec fn total_hits(locs: Seq<LocationModel>) -> int
    decreases locs.len(),
{
    if locs.len() == 0 {
        0
    } else {
        total_hits(locs.drop_last()) + locs.last().hits
    }
}

/// The latest time at which any of the locations was seen (0 for none).
pub open spec fn latest_seen(locs: Seq<LocationModel>) -> int
    decreases locs.len(),
{
    if locs.len() == 0 {
        0
    } else if locs.len() == 1 {
        locs[0].last_seen_at as int
    } else {
        let earlier = latest_seen(locs.drop_last());
        let last = locs.last().last_seen_at as int;
        if earlier >= last {
            earlier
        } else {
            last
        }
    }
}

/// The location of a first check-in from `addr` at `now`.
pub open spec fn fresh_location(addr: Seq<char>, now: i128) -> LocationModel {
    LocationModel { address: addr, is_home: false, first_seen_at: now, last_seen_at: now, hits: 1 }
}

/// A location after one more check-in at `now`: it becomes home past
/// `HOME_AFTER_HITS` hits.
pub open spec fn revisited(l: LocationModel, now: i128) -> LocationModel {
    let hits = (l.hits + 1) as u32;
    LocationModel {
        last_seen_at: now,
        hits: hits,
        is_home: l.is_home || hits > HOME_AFTER_HITS,
        ..l
    }
}

/// The device after an accepted check-in from `addr` at `now`, before the
/// absence check: a new address is appended; a known one is revisited, and
/// the device becomes a cat once its hits add up past `CAT_AFTER_HITS`.
pub open spec fn checked_in(d: DeviceModel, addr: Seq<char>, now: i128) -> DeviceModel {
    let k = address_pos(d.locations, addr);
    if k == d.locations.len() {
        DeviceModel { locations: d.locations.push(fresh_location(addr, now)), ..d }
    } else {
        let locs = d.locations.update(k as int, revisited(d.locations[k as int], now));
        DeviceModel { locations: locs, is_cat: d.is_cat || total_hits(locs) > CAT_AFTER_HITS, ..d }
    }
}

/// What a check-in says about the address it came from.
pub open spec fn location_greeting(d: DeviceModel, addr: Seq<char>, now: i128) -> Seq<char> {
    let k = address_pos(d.locations, addr);
    if k == d.locations.len() {
        NEW_LOCATION@
    } else if revisited(d.locations[k as int], now).is_home {
        KNOWN_LOCATION@ + WELCOME_HOME@
    } else {
        KNOWN_LOCATION@
    }
}

/// More than `span` has passed at `now` since the device was last seen anywhere.
pub open spec fn absent_for(d: DeviceModel, now: i128, span: i128) -> bool {
    now - latest_seen(d.locations) > span
}

/// The whole effect of a visit by a stored device: the device to store again
/// and the answer.  An inactive device is refused and counts the refusal,
/// waking up past `WAKE_AFTER_HITS`; an active one checks in, is greeted by
/// name (a cat is greeted as a cat), and is told when it has been away long;
/// away for more than a day, a device that is not a cat becomes inactive.
pub open spec fn visit(d: DeviceModel, addr: Seq<char>, now: i128) -> (
    DeviceModel,
    Result<Seq<char>, Seq<char>>,
) {
    if !d.is_active {
        let hits = (d.hits + 1) as u32;
        let wakes = hits > WAKE_AFTER_HITS;
        (
            DeviceModel { hits: if wakes { 0 } else { hits }, is_active: wakes, ..d },
            Err(NOT_ACTIVE@),
        )
    } else {
        let c = checked_in(d, addr, now);
        let name = if c.is_cat { CAT_NAME@ } else { d.fingerprint };
        let long = absent_for(c, now, MINUTE_NANOS);
        let gone = long && absent_for(c, now, DAY_NANOS) && !c.is_cat;
        let greet = location_greeting(d, addr, now) + (if long { LONG_TIME@ } else { Seq::empty() }) + (
        if gone { NOW_INACTIVE@ } else { Seq::empty() });
        (
            DeviceModel { is_active: !gone, ..c },
            Ok(WELCOME_BACK@ + name + NAME_END@ + greet),
        )
    }
}

/// A visit of `d` from `addr` runs without arithmetic overflow: the refusal
/// count of an inactive device, and the hits of an active one at a known
/// address, must stay within `u32`.
pub open spec fn visit_fits(d: DeviceModel, addr: Seq<char>) -> bool {
    if !d.is_active {
        d.hits < u32::MAX
    } else {
        address_pos(d.locations, addr) < d.locations.len() ==> total_hits(d.locations) + 1
            <= u32::MAX
    }
}

/// The device stored at a first visit.
pub open spec fn registered(fingerprint: Seq<char>, addr: Seq<char>, now: i128) -> DeviceModel {
    DeviceModel {
        fingerprint: fingerprint,
        hits: 0,
        is_cat: false,
        is_active: true,
        registered_at: now,
        locations: seq![fresh_location(addr, now)],
    }
}

/// The greeting of a first visit.
pub open spec fn welcome_text(fingerprint: Seq<char>) -> Seq<char> {
    WELCOME@ + fingerprint + NICE_TO_MEET@
}

pub open spec fn result_view(r: Result<String, String>) -> Result<Seq<char>, Seq<char>> {
    match r {
        Ok(s) => Ok(s@),
        Err(e) => Err(e@),
    }
}


/// `address_pos` is the index that a left-to-right scan stops at.
pub proof fn lemma_address_pos(locs: Seq<LocationModel>, addr: Seq<char>, i: int)
    requires
        0 <= i <= locs.len(),
        forall|j: int| 0 <= j < i ==> locs[j].address != addr,
        i == locs.len() || locs[i].address == addr,
    ensures
        address_pos(locs, addr) == i,
    decreases i,
{
    if i > 0 {
        assert forall|j: int| 0 <= j < i - 1 implies locs.drop_first()[j].address != addr by {
            assert(locs.drop_first()[j] == locs[j + 1]);
        }
        if i < locs.len() {
            assert(locs.drop_first()[i - 1] == locs[i]);
        }
        lemma_address_pos(locs.drop_first(), addr, i - 1);
    }
}

/// `address_pos` never points past the end, and what it points at is at `addr`.
pub proof fn lemma_address_pos_bound(locs: Seq<LocationModel>, addr: Seq<char>)
    ensures
        address_pos(locs, addr) <= locs.len(),
        address_pos(locs, addr) < locs.len() ==> locs[address_pos(locs, addr) as int].address
            == addr,
        forall|j: int| 0 <= j < address_pos(locs, addr) ==> locs[j].address != addr,
    decreases locs.len(),
{
    if locs.len() > 0 && locs[0].address != addr {
        lemma_address_pos_bound(locs.drop_first(), addr);
        assert forall|j: int| 0 <= j < address_pos(locs, addr) implies locs[j].address != addr by {
            if j > 0 {
                assert(locs.drop_first()[j - 1] == locs[j]);
            }
        }
    }
}

/// The hits of a prefix, and of any one location, are at most the total.
pub proof fn lemma_total_hits_prefix(locs: Seq<LocationModel>, i: int)
    requires
        0 <= i <= locs.len(),
    ensures
        total_hits(locs.take(i)) <= total_hits(locs),
        total_hits(locs) >= 0,
        i < locs.len() ==> locs[i].hits <= total_hits(locs),
    decreases locs.len(),
{
    if locs.len() > 0 {
        if i == locs.len() {
            assert(locs.take(i) =~= locs);
            lemma_total_hits_prefix(locs.drop_last(), 0);
        } else {
            lemma_total_hits_prefix(locs.drop_last(), i);
            assert(locs.drop_last().take(i) =~= locs.take(i));
            if i < locs.len() - 1 {
                assert(locs.drop_last()[i] == locs[i]);
            } else {
                lemma_total_hits_prefix(locs.drop_last(), 0);
            }
        }
    } else {
        assert(locs.take(i) =~= locs);
    }
}

/// Replacing one location changes the total by the difference of its hits.
pub proof fn lemma_total_hits_update(locs: Seq<LocationModel>, k: int, l: LocationModel)
    requires
        0 <= k < locs.len(),
    ensures
        total_hits(locs.update(k, l)) == total_hits(locs) - locs[k].hits + l.hits,
    decreases locs.len(),
{
    let u = locs.update(k, l);
    if k == locs.len() - 1 {
        assert(u.drop_last() =~= locs.drop_last());
    } else {
        lemma_total_hits_update(locs.drop_last(), k, l);
        assert(u.drop_last() =~= locs.drop_last().update(k, l));
    }
}

/// Appending a location adds its hits.
pub proof fn lemma_total_hits_push(locs: Seq<LocationModel>, l: LocationModel)
    ensures
        total_hits(locs.push(l)) == total_hits(locs) + l.hits,
{
    assert(locs.push(l).drop_last() =~= locs);
}

/// No location was seen after the latest time.
pub proof fn lemma_latest_seen(locs: Seq<LocationModel>, j: int)
    requires
        0 <= j < locs.len(),
    ensures
        latest_seen(locs) >= locs[j].last_seen_at,
    decreases locs.len(),
{
    if locs.len() > 1 && j < locs.len() - 1 {
        lemma_latest_seen(locs.drop_last(), j);
        assert(locs.drop_last()[j] == locs[j]);
    }
}

/// Position of the first location at `addr`, or the number of locations.
fn find_address(locs: &Vec<Location>, addr: &String) -> (k: usize)
    ensures
        k <= locs.len(),
        k == address_pos(locs@.map_values(|l: Location| l@), addr@),
{
    let ghost s = locs@.map_values(|l: Location| l@);
    let mut i: usize = 0;
    while i < locs.len() && !(locs[i].address == *addr)
        invariant
            s == locs@.map_values(|l: Location| l@),
            i <= locs.len(),
            forall|j: int| 0 <= j < i ==> s[j].address != addr@,
        decreases locs.len() - i,
    {
        i = i + 1;
    }
    proof {
        lemma_address_pos(s, addr@, i as int);
    }
    i
}

/// The sum of the hits of all locations.
fn sum_hits(locs: &Vec<Location>) -> (t: u32)
    requires
        total_hits(locs@.map_values(|l: Location| l@)) <= u32::MAX,
    ensures
        t == total_hits(locs@.map_values(|l: Location| l@)),
{
    let ghost s = locs@.map_values(|l: Location| l@);
    let mut t: u32 = 0;
    let mut i: usize = 0;
    while i < locs.len()
        invariant
            s == locs@.map_values(|l: Location| l@),
            total_hits(s) <= u32::MAX,
            i <= locs.len(),
            t == total_hits(s.take(i as int)),
        decreases locs.len() - i,
    {
        proof {
            lemma_total_hits_prefix(s, i + 1);
            assert(s.take(i + 1).drop_last() =~= s.take(i as int));
        }
        t = t + locs[i].hits;
        i = i + 1;
    }
    assert(s.take(i as int) =~= s);
    t
}

/// The latest time at which any location was seen.
fn latest_seen_at(locs: &Vec<Location>) -> (m: i128)
    requires
        locs.len() > 0,
    ensures
        m == latest_seen(locs@.map_values(|l: Location| l@)),
{
    let ghost s = locs@.map_values(|l: Location| l@);
    let mut m: i128 = locs[0].last_seen_at;
    let mut i: usize = 1;
    assert(s.take(1) =~= seq![s[0]]);
    while i < locs.len()
        invariant
            s == locs@.map_values(|l: Location| l@),
            1 <= i <= locs.len(),
            m == latest_seen(s.take(i as int)),
        decreases locs.len() - i,
    {
        assert(s.take(i + 1).drop_last() =~= s.take(i as int));
        if locs[i].last_seen_at > m {
            m = locs[i].last_seen_at;
        }
        i = i + 1;
    }
    assert(s.take(i as int) =~= s);
    m
}

/// Whether more than `span` has passed from `since` to `now`.
fn elapsed_beyond(now: i128, since: i128, span: i128) -> (r: bool)
    requires
        span >= 0,
    ensures
        r == (now - since > span),
{
    if since <= i128::MAX - span {
        now > since + span
    } else {
        false
    }
}

/// Records a check-in of an active device from `addr` at `now` and says
/// what it found about the address.
fn check_in(d: &mut Device, addr: &String, now: i128) -> (greet: String)
    requires
        old(d).is_active,
        visit_fits(old(d)@, addr@),
    ensures
        final(d)@ == checked_in(old(d)@, addr@, now),
        greet@ == location_greeting(old(d)@, addr@, now),
{
    let ghost s = d.locations@.map_values(|l: Location| l@);
    let k = find_address(&d.locations, addr);
    if k == d.locations.len() {
        let loc = Location {
            address: addr.clone(),
            is_home: false,
            first_seen_at: now,
            last_seen_at: now,
            hits: 1,
        };
        d.locations.push(loc);
        assert(d.locations@.map_values(|l: Location| l@) =~= s.push(fresh_location(addr@, now)));
        NEW_LOCATION.to_owned()
    } else {
        proof {
            lemma_total_hits_prefix(s, k as int);
        }
        let hits = d.locations[k].hits + 1;
        let loc = Location {
            address: d.locations[k].address.clone(),
            is_home: d.locations[k].is_home || hits > HOME_AFTER_HITS,
            first_seen_at: d.locations[k].first_seen_at,
            last_seen_at: now,
            hits: hits,
        };
        let home = loc.is_home;
        let ghost new_loc = loc@;
        assert(new_loc == revisited(s[k as int], now));
        d.locations.set(k, loc);
        let ghost locs = s.update(k as int, new_loc);
        assert(d.locations@.map_values(|l: Location| l@) =~= locs);
        proof {
            lemma_total_hits_update(s, k as int, new_loc);
        }
        let total = sum_hits(&d.locations);
        if total > CAT_AFTER_HITS {
            d.is_cat = true;
        }
        let mut greet = KNOWN_LOCATION.to_owned();
        if home {
            greet.append(WELCOME_HOME);
        }
        greet
    }
}

/// Handles a visit by a stored device from `addr` at `now`: returns the
/// device to store again and the answer.
pub fn visit_device(d: Device, addr: &String, now: i128) -> (res: (Device, Result<String, String>))
    requires
        visit_fits(d@, addr@),
    ensures
        (res.0@, result_view(res.1)) == visit(d@, addr@, now),
{
    let ghost d0 = d@;
    let mut d = d;
    if !d.is_active {
        d.hits = d.hits + 1;
        if d.hits > WAKE_AFTER_HITS {
            d.is_active = true;
            d.hits = 0;
        }
        return (d, Err(NOT_ACTIVE.to_owned()));
    }
    let mut greet = check_in(&mut d, addr, now);
    let ghost c = d@;
    let name = if d.is_cat {
        CAT_NAME.to_owned()
    } else {
        d.fingerprint.clone()
    };
    proof {
        lemma_address_pos_bound(d0.locations, addr@);
    }
    assert(c.locations.len() > 0);
    let latest = latest_seen_at(&d.locations);
    let ghost greet0 = greet@;
    let long = elapsed_beyond(now, latest, MINUTE_NANOS);
    let mut gone = false;
    if long {
        greet.append(LONG_TIME);
        if elapsed_beyond(now, latest, DAY_NANOS) && !d.is_cat {
            d.is_active = false;
            gone = true;
            greet.append(NOW_INACTIVE);
        }
    }
    assert(greet@ =~= greet0 + (if long { LONG_TIME@ } else { Seq::empty() }) + (if gone {
        NOW_INACTIVE@
    } else {
        Seq::empty()
    }));
    let mut reply = WELCOME_BACK.to_owned();
    reply.append(name.as_str());
    reply.append(NAME_END);
    reply.append(greet.as_str());
    (d, Ok(reply))
}

/// Whether a visit of `d` from `addr` runs without overflow (see `visit_fits`).
pub fn fits_visit(d: &Device, addr: &String) -> (b: bool)
    ensures
        b == visit_fits(d@, addr@),
{
    if !d.is_active {
        d.hits < u32::MAX
    } else {
        let k = find_address(&d.locations, addr);
        if k == d.locations.len() {
            true
        } else {
            let ghost s = d.locations@.map_values(|l: Location| l@);
            let mut t: u64 = 0;
            let mut i: usize = 0;
            while i < d.locations.len()
                invariant
                    s == d.locations@.map_values(|l: Location| l@),
                    i <= d.locations.len(),
                    t == total_hits(s.take(i as int)),
                    t < u32::MAX,
                    d.is_active,
                    k < d.locations.len(),
                    k == address_pos(s, addr@),
                decreases d.locations.len() - i,
            {
                assert(s.take(i + 1).drop_last() =~= s.take(i as int));
                t = t + d.locations[i].hits as u64;
                if t >= u32::MAX as u64 {
                    proof {
                        lemma_total_hits_prefix(s, i + 1);
                    }
                    return false;
                }
                i = i + 1;
            }
            assert(s.take(i as int) =~= s);
            true
        }
    }
}

/// A check-in request: the fingerprint of the device and the address it
/// comes from.
pub struct AuthRequest {
    pub fingerprint: String,
    pub addr: String,
}

/// What the store holds under a fingerprint.
pub enum Stored {
    /// The fingerprint is not among the stored keys.
    Unknown,
    /// The stored device.
    Loaded(Device),
    /// The device could not be loaded; the message of the error.
    Unreadable(String),
}

/// What to do for a check-in.
pub enum Visit {
    /// Answer with this error and store nothing.
    Refused(String),
    /// Store the device (a failure to store is fatal), then answer with `reply`.
    Save { device: Device, reply: Result<String, String> },
    /// Store the new device; answer with `welcome` once it is stored, or with
    /// the message of the failure.
    Register { device: Device, welcome: String },
}

/// Decides a check-in of `request` at `now`, given what the store holds
/// under its fingerprint: an unknown device is registered at its address, an
/// unreadable one is refused with the error, and a stored one visits.
pub fn authenticate(request: &AuthRequest, stored: Stored, now: i128) -> (res: Visit)
    requires
        stored matches Stored::Loaded(d) ==> visit_fits(d@, request.addr@),
    ensures
        match stored {
            Stored::Unknown => res matches Visit::Register { device, welcome } && device@
                == registered(request.fingerprint@, request.addr@, now) && welcome@ == welcome_text(
                request.fingerprint@,
            ),
            Stored::Unreadable(msg) => res matches Visit::Refused(m) && m@ == msg@,
            Stored::Loaded(d) => res matches Visit::Save { device, reply } && (
            device@,
            result_view(reply),
            ) == visit(d@, request.addr@, now),
        },
{
    match stored {
        Stored::Unknown => {
            let mut locations: Vec<Location> = Vec::new();
            locations.push(
                Location {
                    address: request.addr.clone(),
                    is_home: false,
                    first_seen_at: now,
                    last_seen_at: now,
                    hits: 1,
                },
            );
            let device = Device {
                fingerprint: request.fingerprint.clone(),
                hits: 0,
                is_cat: false,
                is_active: true,
                registered_at: now,
                locations: locations,
            };
            assert(device@.locations =~= seq![fresh_location(request.addr@, now)]);
            let mut welcome = WELCOME.to_owned();
            welcome.append(request.fingerprint.as_str());
            welcome.append(NICE_TO_MEET);
            Visit::Register { device, welcome }
        },
        Stored::Unreadable(msg) => Visit::Refused(msg),
        Stored::Loaded(d) => {
            let (device, reply) = visit_device(d, &request.addr, now);
            Visit::Save { device, reply }
        },
    }
}

/// The answer to a first visit once the store has answered: the welcome
/// when the device was stored, else the message of the failure.
pub fn registration_reply(welcome: String, saved: Result<(), String>) -> (res: Result<String, String>)
    ensures
        saved is Ok ==> (res matches Ok(w) && w@ == welcome@),
        saved is Err ==> (res matches Err(e) && e@ == saved->Err_0@),
{
    match saved {
        Ok(()) => Ok(welcome),
        Err(e) => Err(e),
    }
}

/// The device after a run of visits, each from an address at a time.
pub open spec fn replay(d: DeviceModel, visits: Seq<(Seq<char>, i128)>) -> DeviceModel
    decreases visits.len(),
{
    if visits.len() == 0 {
        d
    } else {
        replay(visit(d, visits[0].0, visits[0].1).0, visits.drop_first())
    }
}

/// The addresses of the locations are pairwise distinct.
pub open spec fn distinct_addresses(locs: Seq<LocationModel>) -> bool {
    forall|i: int, j: int|
        0 <= i < locs.len() && 0 <= j < locs.len() && i != j ==> locs[i].address != locs[j].address
}

/// An inactive device is refused at every visit, whatever its address and
/// time, until its `WAKE_AFTER_HITS + 1 - hits`-th visit, which lets it in
/// again with its count back at zero.
pub proof fn law_inactive_device_wakes_up(d: DeviceModel, visits: Seq<(Seq<char>, i128)>)
    requires
        !d.is_active,
        d.hits <= WAKE_AFTER_HITS,
        visits.len() <= WAKE_AFTER_HITS + 1 - d.hits,
    ensures
        visits.len() < WAKE_AFTER_HITS + 1 - d.hits ==> !replay(d, visits).is_active && replay(
            d,
            visits,
        ).hits == d.hits + visits.len(),
        visits.len() == WAKE_AFTER_HITS + 1 - d.hits ==> replay(d, visits).is_active && replay(
            d,
            visits,
        ).hits == 0,
        replay(d, visits).locations == d.locations,
    decreases visits.len(),
{
    if visits.len() > 0 {
        let next = visit(d, visits[0].0, visits[0].1);
        assert(next.1 == Err::<Seq<char>, Seq<char>>(NOT_ACTIVE@));
        assert(replay(d, visits) == replay(next.0, visits.drop_first()));
        if d.hits + 1 > WAKE_AFTER_HITS {
            assert(visits.drop_first().len() == 0);
            assert(replay(next.0, visits.drop_first()) == next.0);
        } else {
            law_inactive_device_wakes_up(next.0, visits.drop_first());
        }
    }
}

/// A refused visit is answered "Device is not active" and leaves the
/// addresses, hits per address and cat status alone.
pub proof fn law_refused_visit_changes_no_location(d: DeviceModel, addr: Seq<char>, now: i128)
    requires
        !d.is_active,
        d.hits < u32::MAX,
    ensures
        visit(d, addr, now).1 == Err::<Seq<char>, Seq<char>>(NOT_ACTIVE@),
        visit(d, addr, now).0.locations == d.locations,
        visit(d, addr, now).0.is_cat == d.is_cat,
        visit(d, addr, now).0.fingerprint == d.fingerprint,
        visit(d, addr, now).0.is_active == (d.hits + 1 > 10),
        visit(d, addr, now).0.hits == if d.hits + 1 > 10 {
            0
        } else {
            d.hits + 1
        },
{
}

/// A visit keeps every location at its place and address, adds at most one,
/// and afterwards an accepted device has a location at the address it came from.
pub proof fn law_visit_keeps_locations(d: DeviceModel, addr: Seq<char>, now: i128)
    ensures
        ({
            let after = visit(d, addr, now).0.locations;
            &&& d.locations.len() <= after.len() <= d.locations.len() + 1
            &&& forall|i: int|
                0 <= i < d.locations.len() ==> after[i].address == d.locations[i].address
                    && after[i].first_seen_at == d.locations[i].first_seen_at
            &&& d.is_active ==> exists|i: int| 0 <= i < after.len() && after[i].address == addr
        }),
{
    let after = visit(d, addr, now).0.locations;
    lemma_address_pos_bound(d.locations, addr);
    if d.is_active {
        let k = address_pos(d.locations, addr);
        if k == d.locations.len() {
            assert(after[k as int].address == addr);
        } else {
            assert(after[k as int].address == addr);
        }
    }
}

/// The addresses of a device stay pairwise distinct: a location is only
/// added for an address that the device had no location at.
pub proof fn law_addresses_stay_distinct(d: DeviceModel, addr: Seq<char>, now: i128)
    requires
        distinct_addresses(d.locations),
    ensures
        distinct_addresses(visit(d, addr, now).0.locations),
{
    lemma_address_pos_bound(d.locations, addr);
    let after = visit(d, addr, now).0.locations;
    if d.is_active && address_pos(d.locations, addr) == d.locations.len() {
        assert forall|i: int, j: int|
            0 <= i < after.len() && 0 <= j < after.len() && i != j implies after[i].address
            != after[j].address by {
            if i < d.locations.len() && j < d.locations.len() {
                assert(after[i] == d.locations[i]);
                assert(after[j] == d.locations[j]);
            } else if i < d.locations.len() {
                assert(after[i] == d.locations[i]);
            } else {
                assert(after[j] == d.locations[j]);
            }
        }
    } else if d.is_active {
        let k = address_pos(d.locations, addr) as int;
        assert forall|i: int, j: int|
            0 <= i < after.len() && 0 <= j < after.len() && i != j implies after[i].address
            != after[j].address by {
            assert(after[i].address == d.locations[i].address);
            assert(after[j].address == d.locations[j].address);
        }
    }
}

/// Every accepted visit counts exactly one hit over all addresses.
pub proof fn law_accepted_visit_counts_one_hit(d: DeviceModel, addr: Seq<char>, now: i128)
    requires
        d.is_active,
        visit_fits(d, addr),
    ensures
        total_hits(visit(d, addr, now).0.locations) == total_hits(d.locations) + 1,
{
    let k = address_pos(d.locations, addr);
    lemma_address_pos_bound(d.locations, addr);
    if k == d.locations.len() {
        lemma_total_hits_push(d.locations, fresh_location(addr, now));
    } else {
        lemma_total_hits_prefix(d.locations, k as int);
        lemma_total_hits_update(d.locations, k as int, revisited(d.locations[k as int], now));
    }
}

/// Once a cat, always a cat; once home, always home.
pub proof fn law_cat_and_home_are_kept(d: DeviceModel, addr: Seq<char>, now: i128)
    ensures
        d.is_cat ==> visit(d, addr, now).0.is_cat,
        forall|i: int|
            0 <= i < d.locations.len() && d.locations[i].is_home ==> visit(
                d,
                addr,
                now,
            ).0.locations[i].is_home,
{
    lemma_address_pos_bound(d.locations, addr);
    let after = visit(d, addr, now).0.locations;
    if d.is_active {
        let k = address_pos(d.locations, addr) as int;
        assert forall|i: int|
            0 <= i < d.locations.len() && d.locations[i].is_home implies after[i].is_home by {
            if k < d.locations.len() && i == k {
                assert(after[i] == revisited(d.locations[i], now));
            } else {
                assert(after[i] == d.locations[i]);
            }
        }
    }
}

/// A visit stamps the location it comes from with `now`, so at `now` the
/// device is never absent: an active device stays active, and its answer is
/// the welcome back with what was found about the address, with no absence
/// remark.
pub proof fn law_active_device_stays_active(d: DeviceModel, addr: Seq<char>, now: i128)
    requires
        d.is_active,
    ensures
        visit(d, addr, now).0.is_active,
        visit(d, addr, now).1 == Ok::<Seq<char>, Seq<char>>(
            WELCOME_BACK@ + (if checked_in(d, addr, now).is_cat {
                CAT_NAME@
            } else {
                d.fingerprint
            }) + NAME_END@ + location_greeting(d, addr, now),
        ),
{
    let c = checked_in(d, addr, now);
    let k = address_pos(d.locations, addr);
    lemma_address_pos_bound(d.locations, addr);
    assert(c.locations[k as int].last_seen_at == now);
    lemma_latest_seen(c.locations, k as int);
    assert(!absent_for(c, now, MINUTE_NANOS));
    let g = location_greeting(d, addr, now);
    assert(g + Seq::<char>::empty() + Seq::<char>::empty() =~= g);
}

/// A check-in from an address that the device has no location at appends
/// a location there seen once, now; it neither makes nor unmakes a cat,
/// keeps the device active, and is answered with the device's name (or
/// the cat) and "You are in a new location!".
pub proof fn law_new_address_check_in(d: DeviceModel, addr: Seq<char>, now: i128)
    requires
        d.is_active,
        forall|i: int| 0 <= i < d.locations.len() ==> d.locations[i].address != addr,
    ensures
        visit(d, addr, now).0.locations == d.locations.push(
            LocationModel {
                address: addr,
                is_home: false,
                first_seen_at: now,
                last_seen_at: now,
                hits: 1,
            },
        ),
        visit(d, addr, now).0.is_cat == d.is_cat,
        visit(d, addr, now).0.is_active,
        visit(d, addr, now).0.hits == d.hits,
        visit(d, addr, now).0.fingerprint == d.fingerprint,
        visit(d, addr, now).1 == Ok::<Seq<char>, Seq<char>>(
            "Welcome back, "@ + (if d.is_cat {
                "\u{1F431}"@
            } else {
                d.fingerprint
            }) + "! "@ + "You are in a new location!"@,
        ),
{
    lemma_address_pos(d.locations, addr, d.locations.len() as int);
    law_active_device_stays_active(d, addr, now);
}

/// A check-in from an address that the device has a location at (the first
/// such location, at `k`) counts one more hit there and stamps it now; the
/// location is home once it was home or its hits pass 20, and then the
/// answer ends in " Welcome home!".  The device becomes a cat once its hits
/// over all addresses pass 10, and is greeted as a cat from then on.
pub proof fn law_known_address_check_in(d: DeviceModel, addr: Seq<char>, now: i128, k: int)
    requires
        d.is_active,
        visit_fits(d, addr),
        0 <= k < d.locations.len(),
        d.locations[k].address == addr,
        forall|j: int| 0 <= j < k ==> d.locations[j].address != addr,
    ensures
        ({
            let old_loc = d.locations[k];
            let hits = old_loc.hits + 1;
            let home = old_loc.is_home || hits > 20;
            let cat = d.is_cat || total_hits(d.locations) + 1 > 10;
            let after = visit(d, addr, now);
            &&& after.0.locations.len() == d.locations.len()
            &&& forall|j: int| 0 <= j < d.locations.len() && j != k ==> after.0.locations[j] == d.locations[j]
            &&& after.0.locations[k].address == addr
            &&& after.0.locations[k].first_seen_at == old_loc.first_seen_at
            &&& after.0.locations[k].last_seen_at == now
            &&& after.0.locations[k].hits == hits
            &&& after.0.locations[k].is_home == home
            &&& after.0.is_cat == cat
            &&& after.0.is_active
            &&& after.0.hits == d.hits
            &&& after.1 == Ok::<Seq<char>, Seq<char>>(
                "Welcome back, "@ + (if cat {
                    "\u{1F431}"@
                } else {
                    d.fingerprint
                }) + "! "@ + "You are in a known location!"@ + (if home {
                    " Welcome home!"@
                } else {
                    Seq::empty()
                }),
            )
        }),
{
    lemma_address_pos(d.locations, addr, k);
    lemma_total_hits_prefix(d.locations, k);
    let l = revisited(d.locations[k], now);
    lemma_total_hits_update(d.locations, k, l);
    law_active_device_stays_active(d, addr, now);
    let home = d.locations[k].is_home || d.locations[k].hits + 1 > 20;
    let c = checked_in(d, addr, now);
    assert(address_pos(d.locations, addr) == k);
    assert(c.locations == d.locations.update(k, l));
    assert(c.locations[k] == l);
    assert(l.hits == d.locations[k].hits + 1);
    assert(l.is_home == home);
    assert(total_hits(c.locations) == total_hits(d.locations) + 1);
    assert(c.is_cat == (d.is_cat || total_hits(d.locations) + 1 > 10));
    if !home {
        let g: Seq<char> = "You are in a known location!"@;
        assert(g + Seq::<char>::empty() =~= g);
        assert(location_greeting(d, addr, now) == g);
    } else {
        assert(location_greeting(d, addr, now) == KNOWN_LOCATION@ + WELCOME_HOME@);
        let name = if c.is_cat { CAT_NAME@ } else { d.fingerprint };
        assert(WELCOME_BACK@ + name + NAME_END@ + (KNOWN_LOCATION@ + WELCOME_HOME@) =~= WELCOME_BACK@
            + name + NAME_END@ + KNOWN_LOCATION@ + WELCOME_HOME@);
    }
}

/// A first visit stores an active device that is no cat, has no refusals,
/// was registered now, and has one location, at its address, seen once now;
/// it is welcomed by its fingerprint.
pub proof fn law_first_visit_registers(fingerprint: Seq<char>, addr: Seq<char>, now: i128)
    ensures
        registered(fingerprint, addr, now).fingerprint == fingerprint,
        registered(fingerprint, addr, now).is_active,
        !registered(fingerprint, addr, now).is_cat,
        registered(fingerprint, addr, now).hits == 0,
        registered(fingerprint, addr, now).registered_at == now,
        registered(fingerprint, addr, now).locations == seq![
            LocationModel {
                address: addr,
                is_home: false,
                first_seen_at: now,
                last_seen_at: now,
                hits: 1,
            },
        ],
        welcome_text(fingerprint) == "Welcome, "@ + fingerprint + "! Nice to meet you!"@,
{
}

/// A visit fits exactly when its counting cannot overflow `u32`: an
/// inactive device's refusal count is below `u32::MAX`; a visit from a new
/// address always fits; a visit from a known address fits when the hits
/// over all addresses stay within `u32` after one more.
pub proof fn law_visit_fits_exactly_without_overflow(d: DeviceModel, addr: Seq<char>)
    ensures
        !d.is_active ==> (visit_fits(d, addr) <==> d.hits < u32::MAX),
        d.is_active && (forall|i: int| 0 <= i < d.locations.len() ==> d.locations[i].address != addr)
            ==> visit_fits(d, addr),
        d.is_active && (exists|i: int| 0 <= i < d.locations.len() && d.locations[i].address == addr)
            ==> (visit_fits(d, addr) <==> total_hits(d.locations) + 1 <= u32::MAX),
{
    lemma_address_pos_bound(d.locations, addr);
    if d.is_active && (forall|i: int| 0 <= i < d.locations.len() ==> d.locations[i].address != addr) {
        lemma_address_pos(d.locations, addr, d.locations.len() as int);
    }
}

} // verus!
