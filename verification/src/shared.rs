use vstd::prelude::*;

verus! {

/// Name of the request header that carries a device fingerprint.
pub const AUTH_HEADER: &'static str = "EBOBO-AUTH";

/// A device as the admin listing shows it: its fingerprint and, where it has
/// chosen one, the name of its fighter.
pub struct Fighter {
    pub fingerprint: String,
    pub fighter: Option<String>,
}

} // verus!
