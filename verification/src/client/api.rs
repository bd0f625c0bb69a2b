use vstd::prelude::*;
use crate::shared::AUTH_HEADER;

verus! {

/// The server the client talks to when no other was configured at build time.
pub const DEFAULT_API_URL: &'static str = "https://ebobo.shuttleapp.rs";

/// The path under which a fighter is chosen.
pub const CHOOSE_PATH: &'static str = "/choose";

/// The base URL of the server: the one configured at build time, else the default.
pub fn url(configured: Option<&str>) -> (res: String)
    ensures
        res@ == match configured {
            Some(u) => u@,
            None => DEFAULT_API_URL@,
        },
{
    match configured {
        Some(u) => u.to_owned(),
        None => DEFAULT_API_URL.to_owned(),
    }
}

/// The HTTP method of a request.
#[derive(Clone, Copy, Debug, PartialEq, Eq, Structural)]
pub enum Method {
    Get,
    Post,
}

/// A request to the server, authenticated by the fingerprint in a header.
pub struct ApiRequest {
    pub method: Method,
    pub url: String,
    pub header_name: String,
    pub header_value: String,
    pub body: Option<String>,
}

/// The request that greets the server: a GET of the base URL.
pub fn get_request(base: &str, fingerprint: &str) -> (r: ApiRequest)
    ensures
        r.method == Method::Get,
        r.url@ == base@,
        r.header_name@ == AUTH_HEADER@,
        r.header_value@ == fingerprint@,
        r.body is None,
{
    ApiRequest {
        method: Method::Get,
        url: base.to_owned(),
        header_name: AUTH_HEADER.to_owned(),
        header_value: fingerprint.to_owned(),
        body: None,
    }
}

/// The request that chooses a fighter: a POST of its name to `/choose`.
pub fn choose_request(base: &str, fingerprint: &str, fighter: &str) -> (r: ApiRequest)
    ensures
        r.method == Method::Post,
        r.url@ == base@ + CHOOSE_PATH@,
        r.header_name@ == AUTH_HEADER@,
        r.header_value@ == fingerprint@,
        r.body matches Some(b) && b@ == fighter@,
{
    let mut url = base.to_owned();
    url.append(CHOOSE_PATH);
    ApiRequest {
        method: Method::Post,
        url: url,
        header_name: AUTH_HEADER.to_owned(),
        header_value: fingerprint.to_owned(),
        body: Some(fighter.to_owned()),
    }
}

} // verus!
