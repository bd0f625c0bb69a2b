use vstd::prelude::*;
use crate::seqs::{chars_of, char_pos, lemma_char_pos, opt_view, split_on, split_once};
use crate::server::entities::fighters;

verus! {

/// An authenticated caller: its fingerprint and, where it has chosen one,
/// its fighter.
#[derive(Clone)]
pub struct Auth {
    pub fingerprint: String,
    pub fighter: Option<Fighter>,
}

/// The fighter of an authenticated caller.
#[derive(Clone)]
pub struct Fighter {
    pub emo: String,
    pub rank: i32,
}

/// Why a request was not authenticated.
#[derive(Debug)]
pub enum AuthError {
    MissingFingerprint,
    InternalServerError(String),
}

/// The HTTP status that a refused request is answered with.
#[derive(Clone, Copy, Debug, PartialEq, Eq, Structural)]
pub enum Status {
    Unauthorized,
    InternalServerError,
}

/// The value of the first `fp=` pair of a query string: the pairs are the
/// pieces between `&`, each split at its first `=`.
pub open spec fn query_fingerprint(query: Seq<char>) -> Option<Seq<char>> {
    first_fp(split_on(query, '&'))
}

/// The value of a query pair whose key is `fp`.
pub open spec fn fp_value(pair: Seq<char>) -> Option<Seq<char>> {
    match split_once(pair, '=') {
        Some((k, v)) => if k == seq!['f', 'p'] {
            Some(v)
        } else {
            None
        },
        None => None,
    }
}

/// The value of the first pair, in order, whose key is `fp`.
pub open spec fn first_fp(pairs: Seq<Seq<char>>) -> Option<Seq<char>>
    decreases pairs.len(),
{
    if pairs.len() == 0 {
        None
    } else if fp_value(pairs[0]) is Some {
        fp_value(pairs[0])
    } else {
        first_fp(pairs.drop_first())
    }
}

/// Reads the fingerprint from a raw query string such as `a=1&fp=xyz`.
pub fn fingerprint_from_query(query: &str) -> (res: Option<String>)
    ensures
        opt_view(res) == query_fingerprint(query@),
{
    let chars = chars_of(query);
    let n = chars.len();
    let ghost q = query@;
    let mut start: usize = 0;
    assert(q.subrange(0, n as int) =~= q);
    loop
        invariant
            chars@ == q,
            q == query@,
            n == q.len(),
            start <= n,
            query_fingerprint(q) == first_fp(split_on(q.subrange(start as int, n as int), '&')),
        decreases n - start,
    {
        let ghost s = q.subrange(start as int, n as int);
        let mut amp: usize = start;
        while amp < n && chars[amp] != '&'
            invariant
                chars@ == q,
                n == q.len(),
                start <= amp <= n,
                forall|j: int| start <= j < amp ==> q[j] != '&',
            decreases n - amp,
        {
            amp = amp + 1;
        }
        let mut eq: usize = start;
        while eq < amp && chars[eq] != '='
            invariant
                chars@ == q,
                n == q.len(),
                start <= eq <= amp <= n,
                forall|j: int| start <= j < eq ==> q[j] != '=',
            decreases amp - eq,
        {
            eq = eq + 1;
        }
        let ghost pair = q.subrange(start as int, amp as int);
        proof {
            lemma_char_pos(s, '&', amp - start);
            lemma_char_pos(pair, '=', eq - start);
        }
        let ghost pairs = split_on(s, '&');
        assert(pairs[0] =~= pair);
        if eq < amp && eq - start == 2 && chars[start] == 'f' && chars[start + 1] == 'p' {
            assert(pair.subrange(0, (eq - start) as int) =~= seq!['f', 'p']);
            let value = query.substring_char(eq + 1, amp);
            assert(value@ =~= pair.subrange(eq - start + 1, pair.len() as int));
            return Some(value.to_owned());
        }
        assert(fp_value(pair) is None) by {
            if eq < amp {
                let k = pair.subrange(0, (eq - start) as int);
                if k == seq!['f', 'p'] {
                    assert(k.len() == 2);
                    assert(k[0] == chars@[start as int]);
                    assert(k[1] == chars@[start + 1]);
                }
            }
        }
        if amp == n {
            assert(pairs.drop_first().len() == 0);
            assert(first_fp(pairs.drop_first()) is None);
            return None;
        }
        assert(s.subrange(amp - start + 1, s.len() as int) =~= q.subrange(amp + 1, n as int));
        assert(pairs.drop_first() =~= split_on(q.subrange(amp + 1, n as int), '&'));
        start = amp + 1;
    }
}

/// The fingerprint of a request: the auth header where present, else the
/// `fp` pair of its query (browsers cannot set headers on a websocket).
pub open spec fn spec_request_fingerprint(
    header: Option<Seq<char>>,
    query: Option<Seq<char>>,
) -> Option<Seq<char>> {
    match header {
        Some(h) => Some(h),
        None => match query {
            Some(q) => query_fingerprint(q),
            None => None,
        },
    }
}

/// Picks the fingerprint of a request from its auth header or its query.
pub fn request_fingerprint(header: Option<&str>, query: Option<&str>) -> (res: Option<String>)
    ensures
        opt_view(res) == spec_request_fingerprint(
            match header {
                Some(h) => Some(h@),
                None => None,
            },
            match query {
                Some(q) => Some(q@),
                None => None,
            },
        ),
{
    match header {
        Some(h) => Some(h.to_owned()),
        None => match query {
            Some(q) => fingerprint_from_query(q),
            None => None,
        },
    }
}

/// What to do with a request once its fingerprint has been looked for.
pub enum AuthStep {
    /// Answer the request with this status and error.
    Reject(Status, AuthError),
    /// Look the fighter of this fingerprint up, then call `finish_auth`.
    Lookup(String),
}

/// How an authentication ends.
pub enum AuthOutcome {
    Success(Auth),
    Failure(Status, AuthError),
}

/// The error text when the server has no application state.
pub const MISSING_STATE: &'static str = "missing application state";

/// Decides on a request from its fingerprint (if any) and whether the server
/// holds its application state: a request without fingerprint is
/// unauthorized, a server without state fails, and otherwise the fighter
/// of the fingerprint is looked up.
pub fn begin_auth(fingerprint: Option<String>, has_state: bool) -> (res: AuthStep)
    ensures
        fingerprint is None ==> res matches AuthStep::Reject(
            Status::Unauthorized,
            AuthError::MissingFingerprint,
        ),
        fingerprint is Some && !has_state ==> (res matches AuthStep::Reject(
            Status::InternalServerError,
            AuthError::InternalServerError(msg),
        ) && msg@ == MISSING_STATE@),
        fingerprint is Some && has_state ==> (res matches AuthStep::Lookup(fp) && fp@
            == fingerprint->0@),
{
    match fingerprint {
        None => AuthStep::Reject(Status::Unauthorized, AuthError::MissingFingerprint),
        Some(fp) => {
            if has_state {
                AuthStep::Lookup(fp)
            } else {
                AuthStep::Reject(
                    Status::InternalServerError,
                    AuthError::InternalServerError(MISSING_STATE.to_owned()),
                )
            }
        },
    }
}

/// Ends an authentication with the result of looking the fighter of `fingerprint`
/// up: a failed lookup is an internal error carrying its message; otherwise
/// the caller is authenticated, with its fighter where one was found.
pub fn finish_auth(fingerprint: String, found: Result<Option<fighters::Model>, String>) -> (res:
    AuthOutcome)
    ensures
        found is Err ==> (res matches AuthOutcome::Failure(
            Status::InternalServerError,
            AuthError::InternalServerError(msg),
        ) && msg@ == found->Err_0@),
        found is Ok ==> (res matches AuthOutcome::Success(auth) && auth.fingerprint@
            == fingerprint@ && (auth.fighter is Some <==> found->Ok_0 is Some) && (found->Ok_0 is Some
            ==> auth.fighter->0.emo@ == found->Ok_0->0.emo@ && auth.fighter->0.rank
            == found->Ok_0->0.rank)),
{
    match found {
        Ok(row) => {
            let fighter = match row {
                Some(f) => Some(Fighter { emo: f.emo, rank: f.rank }),
                None => None,
            };
            AuthOutcome::Success(Auth { fingerprint, fighter })
        },
        Err(e) => AuthOutcome::Failure(Status::InternalServerError, AuthError::InternalServerError(e)),
    }
}

/// The auth header wins over the query.
pub proof fn law_header_wins(header: Seq<char>, query: Option<Seq<char>>)
    ensures
        spec_request_fingerprint(Some(header), query) == Some(header),
        spec_request_fingerprint(None, query) == match query {
            Some(q) => query_fingerprint(q),
            None => None,
        },
{
}

/// The pair `key=value` read with `fp_value`: the value when the key is
/// `fp`, else nothing.
proof fn lemma_fp_value_of(key: Seq<char>, value: Seq<char>)
    requires
        !key.contains('='),
    ensures
        fp_value(key + seq!['='] + value) == if key == seq!['f', 'p'] {
            Some(value)
        } else {
            None::<Seq<char>>
        },
{
    let p = key + seq!['='] + value;
    assert forall|j: int| 0 <= j < key.len() implies p[j] != '=' by {
        assert(p[j] == key[j]);
        if key[j] == '=' {
            assert(key.contains('='));
        }
    }
    lemma_char_pos(p, '=', key.len() as int);
    assert(p.subrange(0, key.len() as int) =~= key);
    assert(p.subrange(key.len() as int + 1, p.len() as int) =~= value);
}

/// A text without `=` is no pair with a value.
proof fn lemma_fp_value_without_equals(p: Seq<char>)
    requires
        !p.contains('='),
    ensures
        fp_value(p) is None,
{
    assert forall|j: int| 0 <= j < p.len() implies p[j] != '=' by {
        if p[j] == '=' {
            assert(p.contains('='));
        }
    }
    lemma_char_pos(p, '=', p.len() as int);
}

/// A query without `&` is a single pair.
proof fn lemma_single_pair(p: Seq<char>)
    requires
        !p.contains('&'),
    ensures
        query_fingerprint(p) == fp_value(p),
{
    assert forall|j: int| 0 <= j < p.len() implies p[j] != '&' by {
        if p[j] == '&' {
            assert(p.contains('&'));
        }
    }
    lemma_char_pos(p, '&', p.len() as int);
    assert(split_on(p, '&') == seq![p]);
    assert(seq![p].drop_first().len() == 0);
    assert(first_fp(seq![p].drop_first()) is None);
}

/// How a query is read, pair by pair from the left: a pair `key=value`
/// (split at its first `=`) gives `value` when `key` is exactly `fp`; any
/// other pair, and a piece without `=`, is skipped; a query with no such
/// pair gives nothing.
pub proof fn law_query_pairs(key: Seq<char>, value: Seq<char>, rest: Seq<char>)
    requires
        !key.contains('&'),
        !key.contains('='),
        !value.contains('&'),
    ensures
        query_fingerprint(key + seq!['='] + value + seq!['&'] + rest) == if key == seq!['f', 'p'] {
            Some(value)
        } else {
            query_fingerprint(rest)
        },
        query_fingerprint(key + seq!['='] + value) == if key == seq!['f', 'p'] {
            Some(value)
        } else {
            None::<Seq<char>>
        },
        query_fingerprint(key + seq!['&'] + rest) == query_fingerprint(rest),
        query_fingerprint(key) is None,
{
    let pair = key + seq!['='] + value;
    assert(!pair.contains('&')) by {
        if pair.contains('&') {
            let j = choose|j: int| 0 <= j < pair.len() && pair[j] == '&';
            if j < key.len() {
                assert(pair[j] == key[j]);
                assert(key.contains('&'));
            } else if j > key.len() {
                assert(pair[j] == value[j - key.len() - 1]);
                assert(value.contains('&'));
            }
        }
    }
    lemma_fp_value_of(key, value);
    law_first_fp_pair_wins(pair, rest);
    lemma_single_pair(pair);
    lemma_fp_value_without_equals(key);
    law_first_fp_pair_wins(key, rest);
    lemma_single_pair(key);
}

/// The pairs of a query are tried in order: a first pair with key `fp`
/// gives its value, any other first pair is skipped.
pub proof fn law_first_fp_pair_wins(pair: Seq<char>, rest: Seq<char>)
    requires
        !pair.contains('&'),
    ensures
        query_fingerprint(pair + seq!['&'] + rest) == if fp_value(pair) is Some {
            fp_value(pair)
        } else {
            query_fingerprint(rest)
        },
{
    let q = pair + seq!['&'] + rest;
    assert forall|j: int| 0 <= j < pair.len() implies q[j] != '&' by {
        assert(q[j] == pair[j]);
        if pair[j] == '&' {
            assert(pair.contains('&'));
        }
    }
    lemma_char_pos(q, '&', pair.len() as int);
    assert(q.subrange(0, pair.len() as int) =~= pair);
    assert(q.subrange(pair.len() as int + 1, q.len() as int) =~= rest);
    let pairs = split_on(q, '&');
    assert(pairs[0] == pair);
    assert(pairs.drop_first() =~= split_on(rest, '&'));
}

/// A query that is a single `fp` pair gives its value.
pub proof fn law_fp_pair_gives_value(value: Seq<char>)
    requires
        !value.contains('&'),
    ensures
        query_fingerprint(seq!['f', 'p', '='] + value) == Some(value),
{
    let q = seq!['f', 'p', '='] + value;
    assert forall|j: int| 0 <= j < q.len() implies q[j] != '&' by {
        if j >= 3 {
            assert(q[j] == value[j - 3]);
            if value[j - 3] == '&' {
                assert(value.contains('&'));
            }
        }
    }
    lemma_char_pos(q, '&', q.len() as int);
    lemma_char_pos(q, '=', 2);
    assert(q.subrange(0, 2) =~= seq!['f', 'p']);
    assert(q.subrange(3, q.len() as int) =~= value);
    assert(split_on(q, '&').drop_first().len() == 0);
}

} // verus!
