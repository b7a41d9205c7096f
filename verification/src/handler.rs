//! The request handler's decisions.
//!
//! [`handle_request`] turns a method and path into the one action the
//! handler takes: fetch the user's diaries from the fixed upstream endpoint
//! with the exact JSON body `{"data":{"uid":"..."}}` and a 60-second cache
//! freshness hint, answer 400 `Bad Request`, or leave the request to the
//! platform. [`finish_request`] turns the upstream answer into the HTTP
//! response: the RSS document with content type `application/rss+xml`, or
//! 502 `Bad Gateway` when the upstream answer does not decode. The
//! surrounding runtime only moves bytes.

use vstd::prelude::*;
use crate::entries::EntryModel;
use crate::feed::feed_of;
use crate::json::{decode_response, spec_response};
use crate::render::spec_rss_xml;
use crate::router::{route_spec, RouteModel};
use crate::strutil::{append_str, chars_of, chars_eq_str, char_from_u32, string_from_chars};
use crate::time::{now_unix_ms, RFC2822_MIN_MS, RFC2822_MAX_MS};

verus! {

// ---------------------------------------------------------------------------
// The upstream request body
// ---------------------------------------------------------------------------

/// The lower-case hex digit of a value below 16.
pub open spec fn hex_lower(n: int) -> char {
    if n < 10 {
        ((0x30 + n) as u32) as char
    } else {
        ((0x57 + n) as u32) as char
    }
}

/// The JSON string escape of one character.
pub open spec fn json_esc_char(c: char) -> Seq<char> {
    if c == '"' {
        "\\\""@
    } else if c == '\\' {
        "\\\\"@
    } else if c == '\u{8}' {
        "\\b"@
    } else if c == '\t' {
        "\\t"@
    } else if c == '\n' {
        "\\n"@
    } else if c == '\u{c}' {
        "\\f"@
    } else if c == '\r' {
        "\\r"@
    } else if (c as u32) < 0x20 {
        seq!['\\', 'u', '0', '0', hex_lower(c as u32 as int / 16), hex_lower(c as u32 as int % 16)]
    } else {
        seq![c]
    }
}

/// The JSON string escape of a text, character by character.
pub open spec fn json_escape(s: Seq<char>) -> Seq<char>
    decreases s.len(),
{
    if s.len() == 0 {
        Seq::empty()
    } else {
        json_esc_char(s[0]) + json_escape(s.drop_first())
    }
}

/// The exact upstream request body for a user id.
pub open spec fn request_body_spec(uid: Seq<char>) -> Seq<char> {
    "{\"data\":{\"uid\":\""@ + json_escape(uid) + "\"}}"@
}

/// The fixed upstream endpoint.
pub open spec fn upstream_url() -> Seq<char> {
    "https://asia-northeast1-wywiwya.cloudfunctions.net/fetchPublicDiaries"@
}

fn hex_lower_exec(n: u32) -> (r: char)
    requires
        n < 16,
    ensures
        r == hex_lower(n as int),
{
    let code: u32 = if n < 10 {
        0x30 + n
    } else {
        0x57 + n
    };
    match char_from_u32(code) {
        Some(c) => c,
        None => {
            proof {
                assert(false);
            }
            ' '
        },
    }
}

/// Appends the JSON string escape of `s` to `out`.
fn json_escape_append(out: &mut Vec<char>, s: &str)
    ensures
        final(out)@ == old(out)@ + json_escape(s@),
{
    let cs = chars_of(s);
    let n = cs.len();
    proof {
        assert(cs@.subrange(0, n as int) =~= cs@);
    }
    let mut k: usize = 0;
    while k < n
        invariant
            k <= n,
            n == cs@.len(),
            cs@ == s@,
            out@ + json_escape(cs@.subrange(k as int, n as int)) =~= old(out)@ + json_escape(cs@),
        decreases n - k,
    {
        let c = cs[k];
        proof {
            let suf = cs@.subrange(k as int, n as int);
            assert(suf.len() > 0);
            assert(suf[0] == cs@[k as int]);
            assert(suf.drop_first() =~= cs@.subrange(k + 1, n as int));
        }
        let ghost prev = out@;
        let d = c as u32;
        if c == '"' {
            append_str(out, "\\\"");
        } else if c == '\\' {
            append_str(out, "\\\\");
        } else if c == '\u{8}' {
            append_str(out, "\\b");
        } else if c == '\t' {
            append_str(out, "\\t");
        } else if c == '\n' {
            append_str(out, "\\n");
        } else if c == '\u{c}' {
            append_str(out, "\\f");
        } else if c == '\r' {
            append_str(out, "\\r");
        } else if d < 0x20 {
            out.push('\\');
            out.push('u');
            out.push('0');
            out.push('0');
            out.push(hex_lower_exec(d / 16));
            out.push(hex_lower_exec(d % 16));
            proof {
                assert(json_esc_char(c) =~= seq![
                    '\\',
                    'u',
                    '0',
                    '0',
                    hex_lower(d as int / 16),
                    hex_lower(d as int % 16),
                ]);
            }
        } else {
            out.push(c);
            proof {
                assert(json_esc_char(c) =~= seq![c]);
            }
        }
        proof {
            assert(out@ =~= prev + json_esc_char(c));
        }
        proof {
            assert(out@ + json_escape(cs@.subrange(k + 1, n as int)) =~= old(out)@ + json_escape(
                cs@,
            ));
        }
        k = k + 1;
    }
    proof {
        assert(json_escape(cs@.subrange(n as int, n as int)) =~= Seq::<char>::empty());
        assert(out@ =~= old(out)@ + json_escape(s@));
    }
}

/// The upstream request body for a user id, exactly
/// `{"data":{"uid":"..."}}` with the id JSON-escaped.
pub fn request_body(user_id: &str) -> (r: String)
    ensures
        r@ == request_body_spec(user_id@),
{
    let mut out: Vec<char> = Vec::new();
    append_str(&mut out, "{\"data\":{\"uid\":\"");
    json_escape_append(&mut out, user_id);
    append_str(&mut out, "\"}}");
    proof {
        assert(out@ =~= request_body_spec(user_id@));
    }
    string_from_chars(&out)
}

// ---------------------------------------------------------------------------
// Responses and actions
// ---------------------------------------------------------------------------

/// The mathematical content of an HTTP response.
pub ghost struct RespModel {
    pub status: int,
    pub content_type: Seq<char>,
    pub body: Seq<char>,
}

/// An HTTP response: status, content type and body.
pub struct HttpResponse {
    pub status: u16,
    pub content_type: String,
    pub body: String,
}

impl View for HttpResponse {
    type V = RespModel;

    open spec fn view(&self) -> RespModel {
        RespModel {
            status: self.status as int,
            content_type: self.content_type@,
            body: self.body@,
        }
    }
}

/// The client-error response for a missing user id.
pub open spec fn bad_request_model() -> RespModel {
    RespModel { status: 400, content_type: "text/plain"@, body: "Bad Request"@ }
}

fn bad_request() -> (r: HttpResponse)
    ensures
        r@ == bad_request_model(),
{
    HttpResponse {
        status: 400,
        content_type: "text/plain".to_owned(),
        body: "Bad Request".to_owned(),
    }
}

/// What the handler does with one request.
pub enum Action {
    /// Issue one POST to `url` with the JSON `body` and the given cache
    /// freshness hint, then finish the request for `user_id` with the
    /// answer.
    Fetch { url: String, body: String, user_id: String, cache_ttl_secs: u32 },
    /// Answer at once.
    Respond(HttpResponse),
    /// No route matches; the platform answers.
    NoMatch,
}

/// A feed could not be assembled.
#[derive(Clone, Copy, Debug, PartialEq, Eq, Structural)]
pub enum FeedError {
    /// The upstream answer was not a well-formed response.
    UpstreamDecode,
}

// ---------------------------------------------------------------------------
// The handler
// ---------------------------------------------------------------------------

/// Decides what to do with a request: a feed route yields exactly one
/// fetch action, with the exact request body for the routed user id and a
/// 60-second cache hint; an empty or absent user id yields the 400 answer
/// and no fetch; anything else is left to the platform.
pub fn handle_request(method: &str, path: &str) -> (r: Action)
    ensures
        route_spec(method@, path@) matches RouteModel::Feed(uid) ==> (r matches Action::Fetch {
            url,
            body,
            user_id,
            cache_ttl_secs,
        } && url@ == upstream_url() && body@ == request_body_spec(uid) && user_id@ == uid
            && cache_ttl_secs == 60),
        route_spec(method@, path@) == RouteModel::BadRequest ==> (r matches Action::Respond(resp)
            && resp@ == bad_request_model()),
        route_spec(method@, path@) == RouteModel::NoMatch ==> r is NoMatch,
{
    let mv = chars_of(method);
    if !chars_eq_str(&mv, "GET") {
        return Action::NoMatch;
    }
    let pv = chars_of(path);
    let n = pv.len();
    let pre = chars_of("/users/");
    proof {
        reveal_strlit("/users/");
    }
    if n >= 7 {
        let mut ispre = true;
        let mut j: usize = 0;
        while j < 7
            invariant
                j <= 7,
                n == pv@.len() >= 7,
                pre@ == "/users/"@,
                pre@.len() == 7,
                ispre <==> (forall|t: int| 0 <= t < j ==> pv@[t] == pre@[t]),
            decreases 7 - j,
        {
            if pv[j] != pre[j] {
                ispre = false;
            }
            j = j + 1;
        }
        proof {
            if ispre {
                assert(pv@.subrange(0, 7) =~= "/users/"@);
            } else {
                assert(pv@.subrange(0, 7) != "/users/"@) by {
                    let t = choose|t: int| 0 <= t < 7 && pv@[t] != pre@[t];
                    assert(pv@.subrange(0, 7)[t] != "/users/"@[t]);
                }
            }
        }
        if ispre {
            if n == 7 {
                proof {
                    assert(pv@.subrange(7, pv@.len() as int) =~= Seq::<char>::empty());
                }
                return Action::Respond(bad_request());
            }
            let ghost uid_spec = pv@.subrange(7, pv@.len() as int);
            let mut uid: Vec<char> = Vec::new();
            let mut j2: usize = 7;
            while j2 < n
                invariant
                    7 <= j2 <= n,
                    n == pv@.len(),
                    n >= 8,
                    pv@ == path@,
                    method@ == "GET"@,
                    pv@.subrange(0, 7) == "/users/"@,
                    uid@ == pv@.subrange(7, j2 as int),
                    forall|t: int| 7 <= t < j2 ==> pv@[t] != '/',
                decreases n - j2,
            {
                let c = pv[j2];
                if c == '/' {
                    proof {
                        assert(pv@.subrange(7, pv@.len() as int)[j2 - 7] == '/');
                    }
                    return Action::NoMatch;
                }
                proof {
                    assert(pv@.subrange(7, j2 + 1) =~= pv@.subrange(7, j2 as int).push(
                        pv@[j2 as int],
                    ));
                }
                uid.push(c);
                j2 = j2 + 1;
            }
            proof {
                assert(uid@ =~= uid_spec);
                assert(forall|t: int| 0 <= t < uid_spec.len() ==> uid_spec[t] != '/');
            }
            let user_id = string_from_chars(&uid);
            let body = request_body(user_id.as_str());
            let url = "https://asia-northeast1-wywiwya.cloudfunctions.net/fetchPublicDiaries"
                .to_owned();
            return Action::Fetch { url, body, user_id, cache_ttl_secs: 60 };
        }
    }
    if chars_eq_str(&pv, "/users") {
        return Action::Respond(bad_request());
    }
    Action::NoMatch
}

/// The response owed for a user id, an upstream answer and a clock reading:
/// the rendered feed when the answer decodes, 502 otherwise.
pub open spec fn finish_spec(user_id: Seq<char>, body: Seq<char>, now_ms: int) -> RespModel {
    match spec_response(body) {
        Some(ents) => RespModel {
            status: 200,
            content_type: "application/rss+xml"@,
            body: spec_rss_xml(feed_of(user_id, ents, now_ms)),
        },
        None => RespModel { status: 502, content_type: "text/plain"@, body: "Bad Gateway"@ },
    }
}

/// Assembles the RSS document for `user_id` from the upstream answer,
/// dating an empty feed to `now_ms`. Succeeds exactly when the answer is a
/// well-formed response.
pub fn assemble_feed(user_id: &str, upstream_body: &str, now_ms: i64) -> (r: Result<
    String,
    FeedError,
>)
    requires
        RFC2822_MIN_MS <= now_ms <= RFC2822_MAX_MS,
    ensures
        r is Ok <==> spec_response(upstream_body@) is Some,
        spec_response(upstream_body@) matches Some(ents) ==> (r matches Ok(x) && x@
            == spec_rss_xml(feed_of(user_id@, ents, now_ms as int))),
        r is Err ==> (r matches Err(e) && e == FeedError::UpstreamDecode),
{
    match decode_response(upstream_body) {
        None => Err(FeedError::UpstreamDecode),
        Some(ents) => {
            let doc = crate::feed::build_feed(user_id, &ents, now_ms);
            Ok(crate::render::render_rss(&doc))
        },
    }
}

/// Turns the upstream answer into the HTTP response for `user_id`, dating
/// an empty feed to `now_ms`.
pub fn finish_request(user_id: &str, upstream_body: &str, now_ms: i64) -> (r: HttpResponse)
    requires
        RFC2822_MIN_MS <= now_ms <= RFC2822_MAX_MS,
    ensures
        r@ == finish_spec(user_id@, upstream_body@, now_ms as int),
{
    match assemble_feed(user_id, upstream_body, now_ms) {
        Ok(xml) => HttpResponse {
            status: 200,
            content_type: "application/rss+xml".to_owned(),
            body: xml,
        },
        Err(_) => HttpResponse {
            status: 502,
            content_type: "text/plain".to_owned(),
            body: "Bad Gateway".to_owned(),
        },
    }
}

/// As [`finish_request`], reading the clock itself; the reading is clamped
/// into the renderable span.
pub fn finish_request_now(user_id: &str, upstream_body: &str) -> (r: HttpResponse)
    ensures
        exists|n: int|
            RFC2822_MIN_MS as int <= n <= RFC2822_MAX_MS as int && r@ == finish_spec(
                user_id@,
                upstream_body@,
                n,
            ),
{
    let now = now_unix_ms();
    let clamped: i64 = if now < RFC2822_MIN_MS {
        RFC2822_MIN_MS
    } else if now > RFC2822_MAX_MS {
        RFC2822_MAX_MS
    } else {
        now
    };
    let r = finish_request(user_id, upstream_body, clamped);
    proof {
        assert(RFC2822_MIN_MS as int <= clamped as int <= RFC2822_MAX_MS as int && r@
            == finish_spec(user_id@, upstream_body@, clamped as int));
    }
    r
}

} // verus!
