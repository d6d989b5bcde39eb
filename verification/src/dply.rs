//! The pure parts of the dply API client: the User-Agent, endpoint URLs, and
//! the device-authorization login's decisions.

use vstd::prelude::*;

use crate::json::{cell_text, first_field, get, get_key, Json};
use crate::sites::opt_view;
use crate::text::{
    copy_string, from_chars, push_str, str_eq, str_is_empty, to_chars, trim_end_matches,
    trim_end_matches_chars, trim_start_matches, trim_start_matches_chars,
};

verus! {

/// The User-Agent sent on every request: `dpl/<version>`.
pub fn user_agent(version: &str) -> (r: String)
    ensures
        r@ == "dpl/"@ + version@,
{
    let mut s = String::from_str("dpl/");
    push_str(&mut s, version);
    s
}

/// An endpoint URL: the host without trailing `/`s, one `/`, then the path
/// without leading `/`s.
pub open spec fn endpoint_url(host: Seq<char>, path: Seq<char>) -> Seq<char> {
    trim_end_matches(host, seq!['/']) + seq!['/'] + trim_start_matches(path, seq!['/'])
}

/// The URL of `path` on `host`.
pub fn url(host: &str, path: &str) -> (r: String)
    ensures
        r@ == endpoint_url(host@, path@),
{
    let slash = ['/'];
    assert(slash@ =~= seq!['/']);
    let h = trim_end_matches_chars(&to_chars(host), &slash);
    let p = trim_start_matches_chars(&to_chars(path), &slash);
    let mut s = from_chars(&h);
    s.push('/');
    push_str(&mut s, from_chars(&p).as_str());
    s
}

/// Approval states the server can report.
#[derive(Debug, Clone, Copy, PartialEq, Eq)]
pub enum DeviceStatus {
    Pending,
    Authorized,
    Denied,
    Expired,
}

/// The status a server's word names; anything unrecognised is `Expired`.
pub open spec fn status_named(s: Seq<char>) -> DeviceStatus {
    if s == "authorized"@ {
        DeviceStatus::Authorized
    } else if s == "denied"@ {
        DeviceStatus::Denied
    } else if s == "pending"@ {
        DeviceStatus::Pending
    } else {
        DeviceStatus::Expired
    }
}

impl DeviceStatus {
    /// Read the server's status word.
    pub fn parse(s: &str) -> (r: DeviceStatus)
        ensures
            r == status_named(s@),
    {
        if str_eq(s, "authorized") {
            DeviceStatus::Authorized
        } else if str_eq(s, "denied") {
            DeviceStatus::Denied
        } else if str_eq(s, "pending") {
            DeviceStatus::Pending
        } else {
            DeviceStatus::Expired
        }
    }
}

/// The code pair returned by starting the flow.
#[derive(Debug, Clone)]
pub struct DeviceCode {
    pub device_code: String,
    pub user_code: String,
    pub verification_uri: String,
    pub verification_uri_complete: String,
    pub expires_in: u64,
    /// Minimum seconds between polls (server-requested, at least 1).
    pub interval: u64,
}

/// One poll result.
#[derive(Debug, Clone)]
pub struct PollOutcome {
    pub status: DeviceStatus,
    /// Present only when the status is `Authorized`.
    pub token: Option<String>,
}

/// What a poll says: too many requests (HTTP 429) is `Pending`, so the caller
/// backs off and retries; otherwise the reported status (`Expired` when none),
/// and the token only when authorized and not empty.
pub open spec fn poll_result(
    http_status: u16,
    status: Option<Seq<char>>,
    token: Option<Seq<char>>,
) -> (DeviceStatus, Option<Seq<char>>) {
    if http_status == 429 {
        (DeviceStatus::Pending, None)
    } else {
        let st = match status {
            Some(s) => status_named(s),
            None => DeviceStatus::Expired,
        };
        (st, if st == DeviceStatus::Authorized && given(token) {
            token
        } else {
            None
        })
    }
}

/// Decide a successful poll's outcome from the HTTP status and the response's
/// `status` and `token` fields.
pub fn poll_outcome(http_status: u16, status: Option<&str>, token: Option<&str>) -> (r: PollOutcome)
    ensures
        (r.status, opt_view(r.token)) == poll_result(
            http_status,
            crate::node::opt_str(status),
            crate::node::opt_str(token),
        ),
{
    if http_status == 429 {
        return PollOutcome { status: DeviceStatus::Pending, token: None };
    }
    let st = match status {
        Some(s) => DeviceStatus::parse(s),
        None => DeviceStatus::Expired,
    };
    let authorized = match st {
        DeviceStatus::Authorized => true,
        _ => false,
    };
    let tok = if authorized {
        match token {
            Some(t) => if str_is_empty(t) {
                None
            } else {
                Some(String::from_str(t))
            },
            None => None,
        }
    } else {
        None
    };
    PollOutcome { status: st, token: tok }
}

/// A body cut to `n` bytes, with an ellipsis, when it is longer.
pub open spec fn cut_text(body: Seq<char>, n: int) -> Seq<char> {
    if crate::text::utf8_len(body) > n {
        crate::text::fit_prefix(body, n) + "\u{2026}"@
    } else {
        body
    }
}

/// Read one device-flow poll reply: its HTTP status, its body, and the body
/// read as the poll's `status` and `token` fields (or the decoding error).
/// Too many requests (HTTP 429) is `Pending`; any other status outside
/// 200..=299 is an API error with that status and the body cut to 500
/// bytes; a success is decided by [`poll_result`], and a body that did not
/// decode is a decoding error.
pub fn poll_reply(
    http_status: u16,
    body: &str,
    parsed: Result<(Option<String>, Option<String>), serde_json::Error>,
) -> (r: Result<PollOutcome, DplyApiError>)
    requires
        crate::text::utf8_len(body@) > 500 ==> crate::text::utf8_len(crate::text::fit_prefix(body@, 500)) == 500,
    ensures
        http_status == 429 ==> (r matches Ok(o) && o.status == DeviceStatus::Pending && o.token is None),
        http_status != 429 && !(200 <= http_status <= 299) ==> (r matches Err(
            DplyApiError::Api { status, method, path, message, errors, raw },
        ) && status == http_status && method@ == "POST"@ && path@ == "/api/v1/auth/device/poll"@ && message@
            == "device-flow poll failed"@ && errors@.len() == 0 && raw@ == cut_text(body@, 500)),
        http_status != 429 && 200 <= http_status <= 299 ==> match parsed {
            Ok((st, tok)) => (r matches Ok(o) && (o.status, opt_view(o.token)) == poll_result(
                http_status,
                opt_view(st),
                opt_view(tok),
            )),
            Err(_) => (r matches Err(DplyApiError::Decode { context, .. }) && context@ == "device/poll response"@),
        },
{
    if http_status == 429 {
        return Ok(PollOutcome { status: DeviceStatus::Pending, token: None });
    }
    if !(200 <= http_status && http_status <= 299) {
        let cs = to_chars(body);
        let raw = if crate::text::utf8_len_exceeds(&cs, 500) {
            let mut r = from_chars(&crate::text::fit_prefix_chars(&cs, 500));
            push_str(&mut r, "\u{2026}");
            r
        } else {
            String::from_str(body)
        };
        return Err(DplyApiError::Api {
            status: http_status,
            method: String::from_str("POST"),
            path: String::from_str("/api/v1/auth/device/poll"),
            message: String::from_str("device-flow poll failed"),
            errors: Vec::new(),
            raw,
        });
    }
    match parsed {
        Ok((st, tok)) => {
            let s = match &st {
                Some(x) => Some(x.as_str()),
                None => None,
            };
            let t = match &tok {
                Some(x) => Some(x.as_str()),
                None => None,
            };
            Ok(poll_outcome(http_status, s, t))
        },
        Err(source) => Err(DplyApiError::Decode { context: String::from_str("device/poll response"), source }),
    }
}

/// The message for a start response missing `field`.
pub open spec fn missing_field_message(field: Seq<char>) -> Seq<char> {
    "device-flow start response missing field: "@ + field
}

/// A required field: present and not empty.
fn required(field: &str, v: Option<&str>) -> (r: Result<String, String>)
    ensures
        r matches Ok(s) ==> v matches Some(x) && x@.len() > 0 && s@ == x@,
        r matches Err(m) ==> (v is None || v->0@.len() == 0) && m@ == missing_field_message(field@),
{
    match v {
        Some(s) if !str_is_empty(s) => Ok(String::from_str(s)),
        _ => {
            let mut m = String::from_str("device-flow start response missing field: ");
            push_str(&mut m, field);
            Err(m)
        },
    }
}

/// A field is present and not empty.
pub open spec fn given(v: Option<Seq<char>>) -> bool {
    v matches Some(x) && x.len() > 0
}

/// The code pair from a start response's fields: the four strings are
/// required (the first missing one is reported), `expires_in` defaults to 600
/// and `interval` to 5, at least 1.
pub fn device_code_from_start(
    device_code: Option<&str>,
    user_code: Option<&str>,
    verification_uri: Option<&str>,
    verification_uri_complete: Option<&str>,
    expires_in: Option<u64>,
    interval: Option<u64>,
) -> (r: Result<DeviceCode, String>)
    ensures
        r is Ok <==> given(crate::node::opt_str(device_code)) && given(crate::node::opt_str(user_code))
            && given(crate::node::opt_str(verification_uri)) && given(
            crate::node::opt_str(verification_uri_complete),
        ),
        r matches Ok(c) ==> c.device_code@ == device_code->0@ && c.user_code@ == user_code->0@
            && c.verification_uri@ == verification_uri->0@ && c.verification_uri_complete@
            == verification_uri_complete->0@ && c.expires_in == (match expires_in {
            Some(e) => e,
            None => 600,
        }) && c.interval == (match interval {
            Some(i) => if i < 1 {
                1
            } else {
                i
            },
            None => 5,
        }),
        r matches Err(m) ==> m@ == missing_field_message(
            if !given(crate::node::opt_str(device_code)) {
                "device_code"@
            } else if !given(crate::node::opt_str(user_code)) {
                "user_code"@
            } else if !given(crate::node::opt_str(verification_uri)) {
                "verification_uri"@
            } else {
                "verification_uri_complete"@
            },
        ),
{
    let d = match required("device_code", device_code) {
        Ok(s) => s,
        Err(m) => return Err(m),
    };
    let u = match required("user_code", user_code) {
        Ok(s) => s,
        Err(m) => return Err(m),
    };
    let v = match required("verification_uri", verification_uri) {
        Ok(s) => s,
        Err(m) => return Err(m),
    };
    let vc = match required("verification_uri_complete", verification_uri_complete) {
        Ok(s) => s,
        Err(m) => return Err(m),
    };
    let e = match expires_in {
        Some(e) => e,
        None => 600,
    };
    let i = match interval {
        Some(i) => if i < 1 {
            1
        } else {
            i
        },
        None => 5,
    };
    Ok(
        DeviceCode {
            device_code: d,
            user_code: u,
            verification_uri: v,
            verification_uri_complete: vc,
            expires_in: e,
            interval: i,
        },
    )
}


// ------------------------------------------------------------------ errors

/// `reqwest`'s transport error, carried inside [`DplyApiError::Transport`].
#[verifier::external_type_specification]
#[verifier::external_body]
pub struct ExReqwestError(reqwest::Error);

/// `serde_json`'s decoding error, carried inside [`DplyApiError::Decode`].
#[verifier::external_type_specification]
#[verifier::external_body]
pub struct ExSerdeJsonError(serde_json::Error);

/// The single error type for every dply API interaction: a non-2xx response
/// is decoded from the server's JSON error envelope and surfaced with the
/// HTTP status, the method and path for context, and the raw body.
#[derive(Debug)]
pub enum DplyApiError {
    /// An authenticated request with no stored token.
    NotAuthenticated { host: String },
    /// Transport-level failure (DNS, TLS, timeout, connection refused).
    Transport { method: String, url: String, source: reqwest::Error },
    /// The server returned a non-2xx status.
    Api {
        status: u16,
        method: String,
        path: String,
        /// The envelope's `message`, or a fallback derived from the status.
        message: String,
        /// The envelope's per-field `errors`, ordered by field.
        errors: Vec<(String, Vec<String>)>,
        /// The response body, cut to 1000 bytes.
        raw: String,
    },
    /// A 2xx response whose body was not the expected shape.
    Decode { context: String, source: serde_json::Error },
    /// Local config (token store) problem.
    Config(crate::error::CoreError),
}

impl DplyApiError {
    /// The HTTP status, when this error came from a server response.
    pub fn status(&self) -> (r: Option<u16>)
        ensures
            r == match self {
                DplyApiError::Api { status, .. } => Some(*status),
                _ => None,
            },
    {
        match self {
            DplyApiError::Api { status, .. } => Some(*status),
            _ => None,
        }
    }

    /// An auth failure: a missing token or a 401.
    pub fn is_auth(&self) -> (r: bool)
        ensures
            r == (self is NotAuthenticated || (self is Api && self->Api_status == 401)),
    {
        match self {
            DplyApiError::NotAuthenticated { .. } => true,
            DplyApiError::Api { status, .. } => *status == 401,
            _ => false,
        }
    }
}

/// The message a status gets when the error body carries none.
pub open spec fn status_message(status: u16) -> Seq<char> {
    if status == 401 {
        "unauthorized \u{2014} token missing or expired"@
    } else if status == 403 {
        "forbidden"@
    } else if status == 404 {
        "not found"@
    } else if status == 422 {
        "validation failed"@
    } else if status == 429 {
        "rate limited"@
    } else if 500 <= status <= 599 {
        "dply server error"@
    } else {
        "request failed ("@ + crate::text::dec(status as nat) + ")"@
    }
}

/// The message a status gets when the error body carries none (see
/// [`status_message`]).
pub fn default_status_message(status: u16) -> (r: String)
    ensures
        r@ == status_message(status),
{
    if status == 401 {
        String::from_str("unauthorized \u{2014} token missing or expired")
    } else if status == 403 {
        String::from_str("forbidden")
    } else if status == 404 {
        String::from_str("not found")
    } else if status == 422 {
        String::from_str("validation failed")
    } else if status == 429 {
        String::from_str("rate limited")
    } else if 500 <= status && status <= 599 {
        String::from_str("dply server error")
    } else {
        let mut s = String::from_str("request failed (");
        push_str(&mut s, crate::text::dec_string(status as u64).as_str());
        push_str(&mut s, ")");
        s
    }
}

/// A value as `serde_json` prints it, for the values that are not arrays
/// of strings or strings.
pub open spec fn value_text(v: Json) -> Seq<char> {
    match v {
        Json::Null => "null"@,
        Json::Bool(b) => if b {
            "true"@
        } else {
            "false"@
        },
        Json::Number(n) => n@,
        Json::Str(s) => s@,
        Json::Array(_, t) => t@,
        Json::Object(_, t) => t@,
    }
}

/// The strings among some values, in order.
pub open spec fn strings_among(vs: Seq<Json>) -> Seq<Seq<char>>
    decreases vs.len(),
{
    if vs.len() == 0 {
        Seq::empty()
    } else {
        let rest = strings_among(vs.drop_last());
        match vs.last() {
            Json::Str(s) => rest.push(s@),
            _ => rest,
        }
    }
}

/// One field's messages: the strings of an array, a lone string, or any
/// other value as its JSON text.
pub open spec fn field_messages(v: Json) -> Seq<Seq<char>> {
    match v {
        Json::Array(vs, _) => strings_among(vs@),
        Json::Str(s) => seq![s@],
        _ => seq![value_text(v)],
    }
}

/// The envelope's `errors` members as a map from field to messages; a later
/// member replaces an earlier one of the same field.
pub open spec fn errors_map(ms: Seq<(String, Json)>) -> Map<Seq<char>, Seq<Seq<char>>>
    decreases ms.len(),
{
    if ms.len() == 0 {
        Map::empty()
    } else {
        errors_map(ms.drop_last()).insert(ms.last().0@, field_messages(ms.last().1))
    }
}

/// The envelope's `errors` as a map; empty when absent or not an object.
pub open spec fn envelope_errors(parsed: Option<Json>) -> Map<Seq<char>, Seq<Seq<char>>> {
    match parsed {
        Some(v) => match get_key(v, "errors"@) {
            Some(Json::Object(ms, _)) => errors_map(ms@),
            _ => Map::empty(),
        },
        None => Map::empty(),
    }
}

/// The envelope's `message`, or the status's fallback.
pub open spec fn envelope_message(status: u16, parsed: Option<Json>) -> Seq<char> {
    match parsed {
        Some(v) => match get_key(v, "message"@) {
            Some(Json::Str(m)) => m@,
            _ => status_message(status),
        },
        None => status_message(status),
    }
}

/// A response body as kept for debugging: cut to 1000 bytes with `…` when
/// longer.
pub open spec fn raw_body(body: Seq<char>) -> Seq<char> {
    if crate::text::utf8_len(body) > 1000 {
        crate::text::fit_prefix(body, 1000) + "\u{2026}"@
    } else {
        body
    }
}

/// Byte 1000 of a longer body falls between two characters, so cutting it
/// there splits none.
pub open spec fn cut_fits(body: Seq<char>) -> bool {
    crate::text::utf8_len(body) > 1000 ==> crate::text::utf8_len(crate::text::fit_prefix(body, 1000)) == 1000
}

/// Field entries as plain values.
pub open spec fn errors_view(v: Seq<(String, Vec<String>)>) -> Seq<(Seq<char>, Seq<Seq<char>>)> {
    v.map_values(|e: (String, Vec<String>)| (e.0@, crate::text::str_views(e.1@)))
}

/// The fields of entries.
pub open spec fn entry_keys(ev: Seq<(Seq<char>, Seq<Seq<char>>)>) -> Seq<Seq<char>> {
    ev.map_values(|e: (Seq<char>, Seq<Seq<char>>)| e.0)
}

/// `ev` lists exactly the entries of `m`, each field once, in increasing
/// field order.
pub open spec fn lists_map(ev: Seq<(Seq<char>, Seq<Seq<char>>)>, m: Map<Seq<char>, Seq<Seq<char>>>) -> bool {
    &&& crate::text::sorted_unique(entry_keys(ev))
    &&& forall|k: Seq<char>| #[trigger] m.dom().contains(k) <==> entry_keys(ev).contains(k)
    &&& forall|i: int| 0 <= i < ev.len() ==> m[(#[trigger] ev[i]).0] == ev[i].1
}

fn insert_error(v: &mut Vec<(String, Vec<String>)>, k: String, msgs: Vec<String>, Ghost(m): Ghost<Map<Seq<char>, Seq<Seq<char>>>>)
    requires
        lists_map(errors_view(old(v)@), m),
    ensures
        lists_map(errors_view(final(v)@), m.insert(k@, crate::text::str_views(msgs@))),
{
    let ghost ev0 = errors_view(v@);
    let ghost keys0 = entry_keys(ev0);
    let ghost kv = k@;
    let ghost mv = crate::text::str_views(msgs@);
    let ghost m1 = m.insert(kv, mv);
    let kc = to_chars(k.as_str());
    let mut p: usize = 0;
    while p < v.len() && crate::text::lex_less(to_chars(v[p].0.as_str()).as_slice(), kc.as_slice())
        invariant
            p <= v.len(),
            errors_view(v@) == ev0,
            keys0 == entry_keys(ev0),
            kc@ == kv,
            forall|j: int| 0 <= j < p ==> crate::text::lex_lt(#[trigger] keys0[j], kv),
        decreases v.len() - p,
    {
        assert(keys0[p as int] == v@[p as int].0@);
        p = p + 1;
    }
    if p < v.len() && str_eq(v[p].0.as_str(), k.as_str()) {
        assert(keys0[p as int] == kv);
        v.set(p, (k, msgs));
        proof {
            let ev1 = errors_view(v@);
            assert(ev1 =~= ev0.update(p as int, (kv, mv)));
            assert(entry_keys(ev1) =~= keys0);
            assert forall|i: int| 0 <= i < ev1.len() implies m1[(#[trigger] ev1[i]).0] == ev1[i].1 by {
                if i != p {
                    assert(ev1[i] == ev0[i]);
                    assert(keys0[i] != kv) by {
                        crate::text::lemma_lex_irrefl(kv);
                        if i < p {
                        } else {
                            assert(crate::text::lex_lt(keys0[p as int], keys0[i]));
                        }
                    }
                }
            }
            assert forall|x: Seq<char>| #[trigger] m1.dom().contains(x) <==> entry_keys(ev1).contains(x) by {
                if x == kv {
                    assert(entry_keys(ev1)[p as int] == kv);
                }
            }
        }
    } else {
        proof {
            if p < v.len() {
                assert(keys0[p as int] == v@[p as int].0@);
                crate::text::lemma_lex_total(keys0[p as int], kv);
                assert forall|j: int| p <= j < keys0.len() implies crate::text::lex_lt(kv, #[trigger] keys0[j]) by {
                    if j > p {
                        crate::text::lemma_lex_trans(kv, keys0[p as int], keys0[j]);
                    }
                }
            }
            assert(!keys0.contains(kv)) by {
                if keys0.contains(kv) {
                    let j = choose|j: int| 0 <= j < keys0.len() && keys0[j] == kv;
                    crate::text::lemma_lex_irrefl(kv);
                    if j < p {
                    } else {
                    }
                }
            }
        }
        v.insert(p, (k, msgs));
        proof {
            let ev1 = errors_view(v@);
            assert(ev1 =~= ev0.insert(p as int, (kv, mv)));
            let keys1 = entry_keys(ev1);
            assert(keys1 =~= keys0.insert(p as int, kv));
            assert forall|i: int, j: int| 0 <= i < j < keys1.len() implies crate::text::lex_lt(
                #[trigger] keys1[i],
                #[trigger] keys1[j],
            ) by {
                if j < p {
                } else if i < p && j == p {
                } else if i < p {
                    crate::text::lemma_lex_trans(keys0[i], kv, keys0[j - 1]);
                } else if i == p {
                } else {
                }
            }
            assert forall|x: Seq<char>| #[trigger] m1.dom().contains(x) <==> keys1.contains(x) by {
                if keys1.contains(x) {
                    let j = choose|j: int| 0 <= j < keys1.len() && keys1[j] == x;
                    if j < p {
                        assert(keys0[j] == x);
                    } else if j > p {
                        assert(keys0[j - 1] == x);
                    }
                }
                if m.dom().contains(x) {
                    let j = choose|j: int| 0 <= j < keys0.len() && keys0[j] == x;
                    if j < p {
                        assert(keys1[j] == x);
                    } else {
                        assert(keys1[j + 1] == x);
                    }
                }
                if x == kv {
                    assert(keys1[p as int] == x);
                }
            }
            assert forall|i: int| 0 <= i < ev1.len() implies m1[(#[trigger] ev1[i]).0] == ev1[i].1 by {
                if i < p {
                    assert(ev1[i] == ev0[i]);
                    assert(keys0[i] == ev0[i].0);
                    assert(keys0.contains(ev0[i].0));
                } else if i > p {
                    assert(ev1[i] == ev0[i - 1]);
                    assert(keys0[i - 1] == ev0[i - 1].0);
                    assert(keys0.contains(ev0[i - 1].0));
                }
            }
        }
    }
}

fn messages_of(v: &Json) -> (r: Vec<String>)
    ensures
        crate::text::str_views(r@) == field_messages(*v),
{
    match v {
        Json::Array(vs, _) => {
            let mut out: Vec<String> = Vec::new();
            let mut i: usize = 0;
            assert(vs@.take(0) =~= Seq::<Json>::empty());
            assert(crate::text::str_views(out@) =~= Seq::<Seq<char>>::empty());
            while i < vs.len()
                invariant
                    i <= vs.len(),
                    crate::text::str_views(out@) == strings_among(vs@.take(i as int)),
                decreases vs.len() - i,
            {
                assert(vs@.take(i + 1).drop_last() =~= vs@.take(i as int));
                match &vs[i] {
                    Json::Str(s) => {
                        let ghost o0 = crate::text::str_views(out@);
                        out.push(copy_string(s));
                        assert(crate::text::str_views(out@) =~= o0.push(s@));
                    },
                    _ => {},
                }
                i = i + 1;
            }
            assert(vs@.take(vs.len() as int) =~= vs@);
            out
        },
        Json::Str(s) => {
            let out = vec![copy_string(s)];
            assert(crate::text::str_views(out@) =~= seq![s@]);
            out
        },
        _ => {
            let t = match v {
                Json::Null => String::from_str("null"),
                Json::Bool(b) => if *b {
                    String::from_str("true")
                } else {
                    String::from_str("false")
                },
                Json::Number(n) => copy_string(n),
                Json::Object(_, t) => copy_string(t),
                Json::Array(_, t) => copy_string(t),
                Json::Str(s) => copy_string(s),
            };
            let out = vec![t];
            assert(crate::text::str_views(out@) =~= seq![value_text(*v)]);
            out
        },
    }
}

/// Decode dply's `{"message": "...", "errors": {field: [msgs]}}` error body
/// into [`DplyApiError::Api`]; `parsed` is the body read as JSON, `None`
/// when it is not JSON. Falls back to the status's message, and no field
/// errors, when the body is not that shape.
pub fn decode_error_envelope(status: u16, method: &str, path: &str, body: &str, parsed: Option<&Json>) -> (r: DplyApiError)
    requires
        cut_fits(body@),
    ensures
        r matches DplyApiError::Api { status: s, method: m, path: p, message, errors, raw } && s == status && m@
            == method@ && p@ == path@ && message@ == envelope_message(
            status,
            match parsed {
                Some(v) => Some(*v),
                None => None,
            },
        ) && lists_map(
            errors_view(errors@),
            envelope_errors(
                match parsed {
                    Some(v) => Some(*v),
                    None => None,
                },
            ),
        ) && raw@ == raw_body(body@),
{
    let ghost pv = match parsed {
        Some(v) => Some(*v),
        None => None,
    };
    let message = match parsed {
        Some(v) => match get(v, "message") {
            Some(Json::Str(m)) => copy_string(m),
            _ => default_status_message(status),
        },
        None => default_status_message(status),
    };
    let mut errors: Vec<(String, Vec<String>)> = Vec::new();
    assert(lists_map(errors_view(errors@), Map::<Seq<char>, Seq<Seq<char>>>::empty())) by {
        assert(errors_view(errors@) =~= Seq::<(Seq<char>, Seq<Seq<char>>)>::empty());
        assert(entry_keys(errors_view(errors@)) =~= Seq::<Seq<char>>::empty());
    }
    match parsed {
        Some(v) => match get(v, "errors") {
            Some(Json::Object(ms, _)) => {
                let mut i: usize = 0;
                assert(ms@.take(0) =~= Seq::<(String, Json)>::empty());
                while i < ms.len()
                    invariant
                        i <= ms.len(),
                        lists_map(errors_view(errors@), errors_map(ms@.take(i as int))),
                    decreases ms.len() - i,
                {
                    assert(ms@.take(i + 1).drop_last() =~= ms@.take(i as int));
                    assert(ms@.take(i + 1).last() == ms@[i as int]);
                    let msgs = messages_of(&ms[i].1);
                    insert_error(&mut errors, copy_string(&ms[i].0), msgs, Ghost(errors_map(ms@.take(i as int))));
                    i = i + 1;
                }
                assert(ms@.take(ms.len() as int) =~= ms@);
            },
            _ => {},
        },
        None => {},
    }
    let cs = to_chars(body);
    let raw = if crate::text::utf8_len_exceeds(&cs, 1000) {
        let mut r = from_chars(&crate::text::fit_prefix_chars(&cs, 1000));
        push_str(&mut r, "\u{2026}");
        r
    } else {
        String::from_str(body)
    };
    DplyApiError::Api { status, method: String::from_str(method), path: String::from_str(path), message, errors, raw }
}


// --------------------------------------------------------- env variables

/// `s` with every leading and trailing `c` removed (`str::trim_matches`).
pub open spec fn trim_char(s: Seq<char>, c: char) -> Seq<char> {
    crate::text::trim_end_any(crate::text::trim_start_any(s, seq![c]), seq![c])
}

fn trim_char_of(s: &[char], c: char) -> (r: Vec<char>)
    ensures
        r@ == trim_char(s@, c),
{
    let set: [char; 1] = [c];
    assert(set@ =~= seq![c]);
    let a = crate::text::trim_start_any_chars(s, &set);
    crate::text::trim_end_any_chars(&a, &set)
}

/// `KEY=value` split at its first `=`; `None` when there is no `=` or the
/// key is empty.
pub open spec fn key_value(pair: Seq<char>) -> Option<(Seq<char>, Seq<char>)> {
    match crate::text::find(pair, seq!['=']) {
        Some(k) => if k > 0 {
            Some((pair.take(k), pair.skip(k + 1)))
        } else {
            None
        },
        None => None,
    }
}

fn key_value_of(pair: &[char]) -> (r: Option<(Vec<char>, Vec<char>)>)
    ensures
        match r {
            Some((k, v)) => key_value(pair@) == Some((k@, v@)),
            None => key_value(pair@) is None,
        },
{
    let eq: [char; 1] = ['='];
    assert(eq@ =~= seq!['=']);
    let found = crate::text::find_chars(pair, &eq);
    proof {
        crate::text::lemma_find_from(pair@, eq@, 0);
    }
    match found {
        Some(k) => {
            if k == 0 {
                return None;
            }
            let n = pair.len();
            assert(k + 1 <= n);
            let a = crate::text::slice_chars(pair, 0, k);
            let b = crate::text::slice_chars(pair, k + 1, n);
            assert(a@ =~= pair@.take(k as int));
            assert(b@ =~= pair@.skip(k + 1));
            Some((a, b))
        },
        None => None,
    }
}

/// Split `KEY=value` (the value may hold `=`), or say what was expected.
pub fn split_kv(pair: &str) -> (r: Result<(String, String), String>)
    ensures
        match r {
            Ok((k, v)) => key_value(pair@) == Some((k@, v@)),
            Err(e) => key_value(pair@) is None && e@ == "expected KEY=value, got `"@ + pair@ + "`"@,
        },
{
    match key_value_of(&to_chars(pair)) {
        Some((k, v)) => Ok((from_chars(&k), from_chars(&v))),
        None => {
            let mut e = String::from_str("expected KEY=value, got `");
            push_str(&mut e, pair);
            push_str(&mut e, "`");
            Err(e)
        },
    }
}

/// One dotenv line's pair: trimmed; blank lines and `#` comments skipped; an
/// `export ` prefix dropped; split at the first `=`; the key trimmed and
/// non-empty; the value trimmed with surrounding `"` then `'` removed.
pub open spec fn env_pair(line: Seq<char>) -> Option<(Seq<char>, Seq<char>)> {
    let t = crate::text::trim(line);
    if t.len() == 0 || has_prefix_char(t, '#') {
        None
    } else {
        let body = if crate::text::has_prefix(t, "export "@) {
            t.skip(7)
        } else {
            t
        };
        match crate::text::find(body, seq!['=']) {
            Some(k) => {
                let key = crate::text::trim(body.take(k));
                if key.len() == 0 {
                    None
                } else {
                    Some((key, trim_char(trim_char(crate::text::trim(body.skip(k + 1)), '"'), '\'')))
                }
            },
            None => None,
        }
    }
}

/// Whether `s` starts with `c`.
pub open spec fn has_prefix_char(s: Seq<char>, c: char) -> bool {
    s.len() > 0 && s[0] == c
}

/// The pairs of a dotenv file's lines, in order.
pub open spec fn env_pairs(ls: Seq<Seq<char>>) -> Seq<(Seq<char>, Seq<char>)>
    decreases ls.len(),
{
    if ls.len() == 0 {
        Seq::empty()
    } else {
        let rest = env_pairs(ls.drop_last());
        match env_pair(ls.last()) {
            Some(p) => rest.push(p),
            None => rest,
        }
    }
}

fn env_pair_of(line: &[char]) -> (r: Option<(String, String)>)
    ensures
        match r {
            Some((k, v)) => env_pair(line@) == Some((k@, v@)),
            None => env_pair(line@) is None,
        },
{
    let t = crate::text::trim_chars(line);
    if t.len() == 0 || t[0] == '#' {
        return None;
    }
    let export = to_chars("export ");
    let body = if crate::text::starts_with_chars(&t, &export) {
        proof {
            reveal_strlit("export ");
        }
        crate::text::slice_chars(&t, 7, t.len())
    } else {
        crate::text::slice_chars(&t, 0, t.len())
    };
    assert(body@ =~= if crate::text::has_prefix(t@, "export "@) {
        t@.skip(7)
    } else {
        t@
    });
    let eq: [char; 1] = ['='];
    assert(eq@ =~= seq!['=']);
    let found = crate::text::find_chars(&body, &eq);
    proof {
        crate::text::lemma_find_from(body@, eq@, 0);
    }
    match found {
        Some(k) => {
            let n = body.len();
            assert(k + 1 <= n);
            let kpart = crate::text::slice_chars(&body, 0, k);
            assert(kpart@ =~= body@.take(k as int));
            let key = crate::text::trim_chars(&kpart);
            if key.len() == 0 {
                return None;
            }
            let vpart = crate::text::slice_chars(&body, k + 1, n);
            assert(vpart@ =~= body@.skip(k + 1));
            let v = trim_char_of(&trim_char_of(&crate::text::trim_chars(&vpart), '"'), '\'');
            Some((from_chars(&key), from_chars(&v)))
        },
        None => None,
    }
}

/// Read a dotenv-style file's text into ordered key/value pairs (see
/// [`env_pair`]).
pub fn parse_env_file(text: &str) -> (r: Vec<(String, String)>)
    ensures
        r@.map_values(|p: (String, String)| (p.0@, p.1@)) == env_pairs(crate::text::lines(text@)),
{
    let ls = crate::text::lines_of(&to_chars(text));
    let ghost lv = crate::text::lines(text@);
    let mut out: Vec<(String, String)> = Vec::new();
    let mut i: usize = 0;
    assert(lv.take(0) =~= Seq::<Seq<char>>::empty());
    assert(out@.map_values(|p: (String, String)| (p.0@, p.1@)) =~= Seq::<(Seq<char>, Seq<char>)>::empty());
    while i < ls.len()
        invariant
            i <= ls.len(),
            lv == crate::text::lines(text@),
            ls@.len() == lv.len(),
            forall|k: int| 0 <= k < ls@.len() ==> (#[trigger] ls@[k])@ == lv[k],
            out@.map_values(|p: (String, String)| (p.0@, p.1@)) == env_pairs(lv.take(i as int)),
        decreases ls.len() - i,
    {
        assert(lv.take(i + 1).drop_last() =~= lv.take(i as int));
        assert(lv.take(i + 1).last() == lv[i as int]);
        match env_pair_of(&ls[i]) {
            Some((k, v)) => {
                let ghost o0 = out@.map_values(|p: (String, String)| (p.0@, p.1@));
                let ghost pv = (k@, v@);
                out.push((k, v));
                assert(out@.map_values(|p: (String, String)| (p.0@, p.1@)) =~= o0.push(pv));
            },
            None => {},
        }
        i = i + 1;
    }
    assert(lv.take(ls.len() as int) =~= lv);
    out
}


// ------------------------------------------------------------------ output

/// A token as `whoami` shows it: all bullets when it has at most eight
/// characters, else its first and last four around an ellipsis.
pub open spec fn masked(token: Seq<char>) -> Seq<char> {
    if token.len() <= 8 {
        crate::output::repeated('\u{2022}', token.len())
    } else {
        token.take(4) + "\u{2026}"@ + token.skip(token.len() - 4)
    }
}

/// A token as `whoami` shows it (see [`masked`]).
pub fn mask(token: &str) -> (r: String)
    ensures
        r@ == masked(token@),
{
    let cs = to_chars(token);
    let n = cs.len();
    if n <= 8 {
        let mut out = String::new();
        let mut i: usize = 0;
        while i < n
            invariant
                i <= n,
                out@ == crate::output::repeated('\u{2022}', i as nat),
            decreases n - i,
        {
            out.push('\u{2022}');
            i = i + 1;
            assert(out@ =~= crate::output::repeated('\u{2022}', i as nat));
        }
        return out;
    }
    let mut out = from_chars(&crate::text::slice_chars(&cs, 0, 4));
    push_str(&mut out, "\u{2026}");
    push_str(&mut out, from_chars(&crate::text::slice_chars(&cs, n - 4, n)).as_str());
    assert(out@ =~= masked(token@));
    out
}

fn cell_named(v: &Json, a: &str) -> (r: String)
    ensures
        r@ == cell_text(first_field(*v, seq![a@])),
{
    let names: [&str; 1] = [a];
    let r = crate::json::cell_of(v, &names);
    assert(names@.map_values(|n: &str| n@) =~= seq![a@]);
    r
}

/// The line an action reports: `✓ <verb>`, with the result's id and, when
/// it has one, its status.
pub open spec fn action_note(r: Json, verb: Seq<char>) -> Seq<char> {
    let id = cell_text(first_field(r, seq!["id"@]));
    let status = cell_text(first_field(r, seq!["status"@]));
    "\u{2713} "@ + verb + if id.len() > 0 {
        " (id "@ + id + (if status.len() > 0 {
            ", "@ + status
        } else {
            Seq::empty()
        }) + ")"@
    } else {
        Seq::empty()
    }
}

/// The line an action reports (see [`action_note`]).
pub fn action_line(r: &Json, verb: &str) -> (l: String)
    ensures
        l@ == action_note(*r, verb@),
{
    let id = cell_named(r, "id");
    let status = cell_named(r, "status");
    let mut out = String::from_str("\u{2713} ");
    push_str(&mut out, verb);
    if !str_is_empty(id.as_str()) {
        push_str(&mut out, " (id ");
        push_str(&mut out, id.as_str());
        if !str_is_empty(status.as_str()) {
            push_str(&mut out, ", ");
            push_str(&mut out, status.as_str());
        }
        push_str(&mut out, ")");
    }
    assert(out@ =~= action_note(*r, verb@));
    out
}

/// The items of the array under `key`, each as a cell after `marker`;
/// nothing when `key` holds no array.
pub open spec fn marked_items(r: Json, key: Seq<char>, marker: Seq<char>) -> Seq<Seq<char>> {
    match get_key(r, key) {
        Some(Json::Array(items, _)) => items@.map_values(|j: Json| marker + " "@ + cell_text(Some(j))),
        _ => Seq::empty(),
    }
}

fn marked(r: &Json, key: &str, marker: &str, out: &mut Vec<String>)
    ensures
        final(out)@.map_values(|l: String| l@) == old(out)@.map_values(|l: String| l@) + marked_items(*r, key@, marker@),
{
    let ghost start = out@.map_values(|l: String| l@);
    match get(r, key) {
        Some(Json::Array(items, _)) => {
            let mut i: usize = 0;
            while i < items.len()
                invariant
                    i <= items.len(),
                    out@.map_values(|l: String| l@) == start + items@.take(i as int).map_values(
                        |j: Json| marker@ + " "@ + cell_text(Some(j)),
                    ),
                decreases items.len() - i,
            {
                let mut l = String::from_str(marker);
                push_str(&mut l, " ");
                push_str(&mut l, crate::json::cell(Some(&items[i])).as_str());
                let ghost before = out@.map_values(|l: String| l@);
                out.push(l);
                assert(out@.map_values(|l: String| l@) =~= before.push(l@));
                assert(items@.take(i + 1) =~= items@.take(i as int).push(items@[i as int]));
                assert(out@.map_values(|l: String| l@) =~= start + items@.take(i + 1).map_values(
                    |j: Json| marker@ + " "@ + cell_text(Some(j)),
                ));
                i = i + 1;
            }
            assert(items@.take(items.len() as int) =~= items@);
        },
        _ => {
            assert(out@.map_values(|l: String| l@) =~= start + marked_items(*r, key@, marker@));
        },
    }
}

/// What a lint reports: whether the file is valid (`ok` is `true`), and
/// its errors then its warnings, one per line.
pub open spec fn lint_outcome(r: Json) -> (bool, Seq<Seq<char>>) {
    (
        get_key(r, "ok"@) == Some(Json::Bool(true)),
        marked_items(r, "errors"@, "\u{2717}"@) + marked_items(r, "warnings"@, "\u{26a0}"@),
    )
}

/// What a lint reports (see [`lint_outcome`]).
pub fn lint_report(r: &Json) -> (out: (bool, Vec<String>))
    ensures
        (out.0, out.1@.map_values(|l: String| l@)) == lint_outcome(*r),
{
    let ok = match get(r, "ok") {
        Some(Json::Bool(b)) => *b,
        _ => false,
    };
    let mut lines: Vec<String> = Vec::new();
    assert(lines@.map_values(|l: String| l@) =~= Seq::<Seq<char>>::empty());
    marked(r, "errors", "\u{2717}", &mut lines);
    marked(r, "warnings", "\u{26a0}", &mut lines);
    (ok, lines)
}

/// The manifests `edge:lint` looks for, in order, when given no path.
pub open spec fn lint_files() -> Seq<Seq<char>> {
    seq!["dply.yaml"@, "dply.yml"@, "dply.json"@]
}

/// The manifests `edge:lint` looks for (see [`lint_files`]).
pub fn lint_file_names() -> (r: Vec<&'static str>)
    ensures
        r@.map_values(|n: &str| n@) == lint_files(),
{
    let mut v: Vec<&'static str> = Vec::new();
    v.push("dply.yaml");
    v.push("dply.yml");
    v.push("dply.json");
    assert(v@.map_values(|n: &str| n@) =~= lint_files());
    v
}

/// `s` padded on the left with spaces to `w` characters (`{:>w$}`).
pub open spec fn pad_left(s: Seq<char>, w: nat) -> Seq<char> {
    if s.len() >= w {
        s
    } else {
        crate::output::repeated(' ', (w - s.len()) as nat) + s
    }
}

/// One edge log row as `edge:logs` prints it.
pub open spec fn log_line(row: Json) -> Seq<char> {
    cell_text(first_field(row, seq!["timestamp"@, "logged_at"@])) + "  "@ + pad_left(
        cell_text(first_field(row, seq!["status"@])),
        3,
    ) + " "@ + crate::output::pad_right(cell_text(first_field(row, seq!["method"@])), 6) + " "@ + cell_text(
        first_field(row, seq!["path"@, "url"@]),
    ) + " "@ + cell_text(first_field(row, seq!["ms"@])) + "ms "@ + cell_text(first_field(row, seq!["message"@]))
}

fn cell_either(v: &Json, a: &str, b: &str) -> (r: String)
    ensures
        r@ == cell_text(first_field(*v, seq![a@, b@])),
{
    let names: [&str; 2] = [a, b];
    let r = crate::json::cell_of(v, &names);
    assert(names@.map_values(|n: &str| n@) =~= seq![a@, b@]);
    r
}

/// One edge log row as `edge:logs` prints it (see [`log_line`]).
pub fn log_row(row: &Json) -> (r: String)
    ensures
        r@ == log_line(*row),
{
    let mut l = cell_either(row, "timestamp", "logged_at");
    push_str(&mut l, "  ");
    let status = to_chars(cell_named(row, "status").as_str());
    let mut k: usize = status.len();
    let mut pad = String::new();
    while k < 3
        invariant
            status.len() <= k <= 3 || (k == status.len() && k >= 3),
            pad@ == crate::output::repeated(' ', (k - status.len()) as nat),
        decreases 3 - k,
    {
        pad.push(' ');
        k = k + 1;
        assert(pad@ =~= crate::output::repeated(' ', (k - status.len()) as nat));
    }
    push_str(&mut l, pad.as_str());
    push_str(&mut l, from_chars(&status).as_str());
    push_str(&mut l, " ");
    push_str(&mut l, crate::output::pad_to(cell_named(row, "method").as_str(), 6).as_str());
    push_str(&mut l, " ");
    push_str(&mut l, cell_either(row, "path", "url").as_str());
    push_str(&mut l, " ");
    push_str(&mut l, cell_named(row, "ms").as_str());
    push_str(&mut l, "ms ");
    push_str(&mut l, cell_named(row, "message").as_str());
    assert(pad@ + status@ =~= pad_left(status@, 3));
    assert(l@ =~= log_line(*row));
    l
}

/// Where a tailed log page leaves the window: the last non-empty timestamp
/// among the rows, else where it was.
pub open spec fn advanced_since(rows: Seq<Json>, since: Option<Seq<char>>) -> Option<Seq<char>>
    decreases rows.len(),
{
    if rows.len() == 0 {
        since
    } else {
        let ts = cell_text(first_field(rows.last(), seq!["timestamp"@, "logged_at"@]));
        if ts.len() > 0 {
            Some(ts)
        } else {
            advanced_since(rows.drop_last(), since)
        }
    }
}

/// One page of edge logs: its lines, and the `since` to ask the next page
/// from (see [`advanced_since`]).
pub fn log_page(page: &Json, since: Option<String>) -> (r: (Vec<String>, Option<String>))
    ensures
        r.0@.map_values(|l: String| l@) == crate::json::rows_of(*page).map_values(|j: Json| log_line(j)),
        opt_view(r.1) == advanced_since(crate::json::rows_of(*page), opt_view(since)),
{
    let rs = crate::json::rows(page);
    let ghost rv = crate::json::rows_of(*page);
    let ghost since0 = opt_view(since);
    let mut out: Vec<String> = Vec::new();
    let mut cur = since;
    let mut i: usize = 0;
    while i < rs.len()
        invariant
            i <= rs.len(),
            rv == crate::json::rows_of(*page),
            rs@.len() == rv.len(),
            forall|q: int| 0 <= q < rs@.len() ==> *(#[trigger] rs@[q]) == rv[q],
            out@.map_values(|l: String| l@) == rv.take(i as int).map_values(|j: Json| log_line(j)),
            opt_view(cur) == advanced_since(rv.take(i as int), since0),
        decreases rs.len() - i,
    {
        let line = log_row(rs[i]);
        assert(line@ == log_line(rv[i as int]));
        let ghost before = out@.map_values(|l: String| l@);
        let ghost lv = line@;
        out.push(line);
        assert(out@.map_values(|l: String| l@) =~= before.push(lv));
        assert(rv.take(i + 1) =~= rv.take(i as int).push(rv[i as int]));
        assert(rv.take(i + 1).drop_last() =~= rv.take(i as int));
        assert(out@.map_values(|l: String| l@) =~= rv.take(i + 1).map_values(|j: Json| log_line(j)));
        let ts = cell_either(rs[i], "timestamp", "logged_at");
        if !str_is_empty(ts.as_str()) {
            cur = Some(ts);
        }
        i = i + 1;
    }
    assert(rv.take(rs.len() as int) =~= rv);
    (out, cur)
}

/// What `whoami` prints: the host, then either that nobody is logged in or
/// the masked token and what the stored profile (`user`, parsed) says of
/// the operator's name and email and the organization, and since when.
pub open spec fn whoami_text(host: Seq<char>, entry: Option<(Seq<char>, Seq<char>)>, user: Option<Json>) -> Seq<Seq<char>> {
    seq!["Host:  "@ + host] + match entry {
        None => seq!["Status: not logged in (run `dpl login`)"@],
        Some((token, updated)) => seq!["Token: "@ + masked(token)] + profile_line("User:  "@, user, "operator.name"@)
            + profile_line("Email: "@, user, "operator.email"@) + profile_line("Org:   "@, user, "organization.name"@)
            + if updated.len() > 0 {
            seq!["Since: "@ + updated]
        } else {
            Seq::empty()
        },
    }
}

/// A profile line: `label` and the string at `path` in the profile, when
/// there is one.
pub open spec fn profile_line(label: Seq<char>, user: Option<Json>, path: Seq<char>) -> Seq<Seq<char>> {
    match user {
        Some(u) => match crate::json::dig_path(u, path) {
            Some(Json::Str(s)) => seq![label + s@],
            _ => Seq::empty(),
        },
        None => Seq::empty(),
    }
}

fn push_profile(out: &mut Vec<String>, label: &str, user: Option<&Json>, path: &str)
    ensures
        final(out)@.map_values(|l: String| l@) == old(out)@.map_values(|l: String| l@) + profile_line(
            label@,
            match user {
                Some(u) => Some(*u),
                None => None,
            },
            path@,
        ),
{
    let ghost start = out@.map_values(|l: String| l@);
    if let Some(u) = user {
        if let Some(Json::Str(s)) = crate::json::dig(u, path) {
            let mut l = String::from_str(label);
            push_str(&mut l, s.as_str());
            out.push(l);
            assert(out@.map_values(|l: String| l@) =~= start.push(l@));
            return;
        }
    }
    assert(out@.map_values(|l: String| l@) =~= start);
}

/// What `whoami` prints (see [`whoami_text`]); `user` is the stored
/// profile, parsed.
pub fn whoami_lines(host: &str, entry: Option<&crate::config_store::HostEntry>, user: Option<&Json>) -> (r: Vec<String>)
    ensures
        r@.map_values(|l: String| l@) == whoami_text(
            host@,
            match entry {
                Some(e) => Some((e.token@, e.updated_at@)),
                None => None,
            },
            match user {
                Some(u) => Some(*u),
                None => None,
            },
        ),
{
    let ghost uj = match user {
        Some(u) => Some(*u),
        None => None,
    };
    let mut out: Vec<String> = Vec::new();
    let mut h = String::from_str("Host:  ");
    push_str(&mut h, host);
    let ghost hv = h@;
    out.push(h);
    assert(out@.map_values(|l: String| l@) =~= seq![hv]);
    match entry {
        None => {
            let st = String::from_str("Status: not logged in (run `dpl login`)");
            let ghost sv = st@;
            out.push(st);
            assert(out@.map_values(|l: String| l@) =~= seq![hv, sv]);
        },
        Some(e) => {
            let mut t = String::from_str("Token: ");
            push_str(&mut t, mask(e.token.as_str()).as_str());
            let ghost tv = t@;
            out.push(t);
            assert(out@.map_values(|l: String| l@) =~= seq![hv, tv]);
            push_profile(&mut out, "User:  ", user, "operator.name");
            push_profile(&mut out, "Email: ", user, "operator.email");
            push_profile(&mut out, "Org:   ", user, "organization.name");
            let ghost mid = out@.map_values(|l: String| l@);
            assert(mid =~= seq![hv] + (seq![tv] + profile_line("User:  "@, uj, "operator.name"@) + profile_line(
                "Email: "@,
                uj,
                "operator.email"@,
            ) + profile_line("Org:   "@, uj, "organization.name"@)));
            if !str_is_empty(e.updated_at.as_str()) {
                let mut s = String::from_str("Since: ");
                push_str(&mut s, e.updated_at.as_str());
                let ghost sv = s@;
                out.push(s);
                assert(out@.map_values(|l: String| l@) =~= mid.push(sv));
            }
        },
    }
    assert(out@.map_values(|l: String| l@) =~= whoami_text(
        host@,
        match entry {
            Some(e) => Some((e.token@, e.updated_at@)),
            None => None,
        },
        match user {
            Some(u) => Some(*u),
            None => None,
        },
    ));
    out
}

} // verus!
