use vstd::prelude::*;

use crate::strutil::lower_chars;
use crate::strutil::lower_ascii;
use crate::strutil::str_eq;

verus! {

/// Why building the outbound header set failed.
#[derive(PartialEq, Eq, Structural, Clone, Copy, Debug)]
pub enum HeaderError {
    InvalidHeaderValue,
}

/// The character view of a header list.
pub open spec fn header_views(hs: Seq<(String, String)>) -> Seq<(Seq<char>, Seq<char>)> {
    hs.map_values(|p: (String, String)| (p.0@, p.1@))
}

/// A character a header value may hold: horizontal tab or anything at or
/// above the space character other than delete.
pub open spec fn valid_header_value_char(c: char) -> bool {
    c == '\t' || (' ' <= c && c != '\u{7f}')
}

/// A well-formed header value.
pub open spec fn valid_header_value(v: Seq<char>) -> bool {
    forall|i: int| 0 <= i < v.len() ==> valid_header_value_char(v[i])
}

/// A character a lowercased header name may hold: the token characters of
/// the header-field grammar.
pub open spec fn valid_header_name_char(c: char) -> bool {
    ('a' <= c && c <= 'z') || ('0' <= c && c <= '9') || c == '!' || c == '#' || c == '$' || c
        == '%' || c == '&' || c == '\'' || c == '*' || c == '+' || c == '-' || c == '.' || c == '^'
        || c == '_' || c == '`' || c == '|' || c == '~'
}

/// A well-formed, non-empty lowercased header name.
pub open spec fn valid_header_name(n: Seq<char>) -> bool {
    n.len() > 0 && forall|i: int| 0 <= i < n.len() ==> valid_header_name_char(n[i])
}

/// The hop-by-hop and framing header names that are never forwarded
/// upstream (compared on the lowercased name).
pub open spec fn hop_by_hop(l: Seq<char>) -> bool {
    ||| l == "connection"@
    ||| l == "keep-alive"@
    ||| l == "proxy-authenticate"@
    ||| l == "proxy-authorization"@
    ||| l == "te"@
    ||| l == "trailer"@
    ||| l == "transfer-encoding"@
    ||| l == "upgrade"@
    ||| l == "content-length"@
}

/// True when an inbound request header is not forwarded: authorization and
/// host are re-derived, and hop-by-hop headers are dropped.
pub open spec fn request_header_dropped(l: Seq<char>) -> bool {
    l == "authorization"@ || l == "host"@ || hop_by_hop(l)
}

/// The outbound copy of the inbound request headers: names lowercased,
/// dropped and malformed entries left out, order kept.
pub open spec fn forwarded_request_headers(inbound: Seq<(String, String)>) -> Seq<
    (Seq<char>, Seq<char>),
>
    decreases inbound.len(),
{
    if inbound.len() == 0 {
        Seq::empty()
    } else {
        let l = lower_chars(inbound[0].0@);
        let v = inbound[0].1@;
        let rest = forwarded_request_headers(inbound.drop_first());
        if !request_header_dropped(l) && valid_header_name(l) && valid_header_value(v) {
            seq![(l, v)] + rest
        } else {
            rest
        }
    }
}

/// The response header names the serving layer manages itself, which are
/// not copied back to the client.
pub open spec fn response_header_dropped(l: Seq<char>) -> bool {
    ||| l == "content-length"@
    ||| l == "transfer-encoding"@
    ||| l == "connection"@
    ||| l == "trailer"@
    ||| l == "upgrade"@
}

/// The client's copy of the upstream response headers: entries kept
/// verbatim, framing and malformed entries left out, order kept.
pub open spec fn forwarded_response_headers(upstream: Seq<(String, String)>) -> Seq<
    (Seq<char>, Seq<char>),
>
    decreases upstream.len(),
{
    if upstream.len() == 0 {
        Seq::empty()
    } else {
        let l = lower_chars(upstream[0].0@);
        let rest = forwarded_response_headers(upstream.drop_first());
        if !response_header_dropped(l) && valid_header_name(l) && valid_header_value(
            upstream[0].1@,
        ) {
            seq![(upstream[0].0@, upstream[0].1@)] + rest
        } else {
            rest
        }
    }
}

/// Law: whatever came in, the forwarded copy of the request headers never
/// holds an authorization, host, or hop-by-hop entry, and every entry it
/// holds is a well-formed lowercased name with a well-formed value.
pub proof fn lemma_no_sensitive_header_forwarded(inbound: Seq<(String, String)>, i: int)
    requires
        0 <= i < forwarded_request_headers(inbound).len(),
    ensures
        !request_header_dropped(forwarded_request_headers(inbound)[i].0),
        valid_header_name(forwarded_request_headers(inbound)[i].0),
        valid_header_value(forwarded_request_headers(inbound)[i].1),
    decreases inbound.len(),
{
    let out = forwarded_request_headers(inbound);
    let l = lower_chars(inbound[0].0@);
    let v = inbound[0].1@;
    let rest = forwarded_request_headers(inbound.drop_first());
    if !request_header_dropped(l) && valid_header_name(l) && valid_header_value(v) {
        assert(out =~= seq![(l, v)] + rest);
        if i > 0 {
            lemma_no_sensitive_header_forwarded(inbound.drop_first(), i - 1);
        }
    } else {
        lemma_no_sensitive_header_forwarded(inbound.drop_first(), i);
    }
}

/// Executable form of the header-value check.
pub fn is_valid_header_value(v: &str) -> (r: bool)
    ensures
        r == valid_header_value(v@),
{
    let n: usize = v.unicode_len();
    let mut i: usize = 0;
    while i < n
        invariant
            0 <= i <= n,
            n == v@.len(),
            forall|j: int| 0 <= j < i ==> valid_header_value_char(v@[j]),
        decreases n - i,
    {
        let c = v.get_char(i);
        if !(c == '\t' || (' ' <= c && c != '\u{7f}')) {
            assert(!valid_header_value_char(v@[i as int]));
            return false;
        }
        i = i + 1;
    }
    true
}

fn is_valid_header_name_char_exec(c: char) -> (r: bool)
    ensures
        r == valid_header_name_char(c),
{
    ('a' <= c && c <= 'z') || ('0' <= c && c <= '9') || c == '!' || c == '#' || c == '$' || c
        == '%' || c == '&' || c == '\'' || c == '*' || c == '+' || c == '-' || c == '.' || c == '^'
        || c == '_' || c == '`' || c == '|' || c == '~'
}

/// Executable form of the header-name check, over a lowercased name.
pub fn is_valid_header_name(n: &str) -> (r: bool)
    ensures
        r == valid_header_name(n@),
{
    let ln: usize = n.unicode_len();
    if ln == 0 {
        return false;
    }
    let mut i: usize = 0;
    while i < ln
        invariant
            0 <= i <= ln,
            ln == n@.len(),
            forall|j: int| 0 <= j < i ==> valid_header_name_char(n@[j]),
        decreases ln - i,
    {
        if !is_valid_header_name_char_exec(n.get_char(i)) {
            assert(!valid_header_name_char(n@[i as int]));
            return false;
        }
        i = i + 1;
    }
    true
}

fn is_hop_by_hop_exec(l: &str) -> (r: bool)
    ensures
        r == hop_by_hop(l@),
{
    str_eq(l, "connection") || str_eq(l, "keep-alive") || str_eq(l, "proxy-authenticate")
        || str_eq(l, "proxy-authorization") || str_eq(l, "te") || str_eq(l, "trailer") || str_eq(
        l,
        "transfer-encoding",
    ) || str_eq(l, "upgrade") || str_eq(l, "content-length")
}

fn is_request_dropped_exec(l: &str) -> (r: bool)
    ensures
        r == request_header_dropped(l@),
{
    str_eq(l, "authorization") || str_eq(l, "host") || is_hop_by_hop_exec(l)
}

fn is_response_dropped_exec(l: &str) -> (r: bool)
    ensures
        r == response_header_dropped(l@),
{
    str_eq(l, "content-length") || str_eq(l, "transfer-encoding") || str_eq(l, "connection")
        || str_eq(l, "trailer") || str_eq(l, "upgrade")
}

/// Copies the inbound request headers for the upstream call, lowercasing
/// each name and leaving out re-derived, hop-by-hop, and malformed entries.
pub fn forward_request_headers(inbound: &Vec<(String, String)>) -> (out: Vec<(String, String)>)
    ensures
        header_views(out@) == forwarded_request_headers(inbound@),
{
    let n: usize = inbound.len();
    let mut out: Vec<(String, String)> = Vec::new();
    let mut i: usize = 0;
    proof {
        assert(inbound@.subrange(0, n as int) =~= inbound@);
        assert(header_views(out@) =~= Seq::<(Seq<char>, Seq<char>)>::empty());
    }
    while i < n
        invariant
            0 <= i <= n,
            n == inbound@.len(),
            header_views(out@) + forwarded_request_headers(inbound@.subrange(i as int, n as int))
                =~= forwarded_request_headers(inbound@),
        decreases n - i,
    {
        let ghost pre = inbound@.subrange(i as int, n as int);
        proof {
            assert(pre[0] == inbound@[i as int]);
            assert(pre.drop_first() =~= inbound@.subrange(i + 1, n as int));
        }
        let lower = lower_ascii(inbound[i].0.as_str());
        let keep = !is_request_dropped_exec(lower.as_str()) && is_valid_header_name(lower.as_str())
            && is_valid_header_value(inbound[i].1.as_str());
        if keep {
            let ghost out_pre = out@;
            let value = inbound[i].1.clone();
            out.push((lower, value));
            proof {
                assert(header_views(out@) =~= header_views(out_pre) + seq![
                    (lower_chars(inbound@[i as int].0@), inbound@[i as int].1@),
                ]);
            }
        }
        i = i + 1;
    }
    proof {
        assert(inbound@.subrange(n as int, n as int) =~= Seq::<(String, String)>::empty());
        assert(header_views(out@) =~= forwarded_request_headers(inbound@));
    }
    out
}

/// Copies the upstream response headers for the client, leaving out the
/// framing entries the serving layer manages itself and malformed entries.
pub fn forward_response_headers(upstream: &Vec<(String, String)>) -> (out: Vec<(String, String)>)
    ensures
        header_views(out@) == forwarded_response_headers(upstream@),
{
    let n: usize = upstream.len();
    let mut out: Vec<(String, String)> = Vec::new();
    let mut i: usize = 0;
    proof {
        assert(upstream@.subrange(0, n as int) =~= upstream@);
        assert(header_views(out@) =~= Seq::<(Seq<char>, Seq<char>)>::empty());
    }
    while i < n
        invariant
            0 <= i <= n,
            n == upstream@.len(),
            header_views(out@) + forwarded_response_headers(
                upstream@.subrange(i as int, n as int),
            ) =~= forwarded_response_headers(upstream@),
        decreases n - i,
    {
        let ghost pre = upstream@.subrange(i as int, n as int);
        proof {
            assert(pre[0] == upstream@[i as int]);
            assert(pre.drop_first() =~= upstream@.subrange(i + 1, n as int));
        }
        let lower = lower_ascii(upstream[i].0.as_str());
        let keep = !is_response_dropped_exec(lower.as_str()) && is_valid_header_name(
            lower.as_str(),
        ) && is_valid_header_value(upstream[i].1.as_str());
        if keep {
            let ghost out_pre = out@;
            let name = upstream[i].0.clone();
            let value = upstream[i].1.clone();
            out.push((name, value));
            proof {
                assert(header_views(out@) =~= header_views(out_pre) + seq![
                    (upstream@[i as int].0@, upstream@[i as int].1@),
                ]);
            }
        }
        i = i + 1;
    }
    proof {
        assert(upstream@.subrange(n as int, n as int) =~= Seq::<(String, String)>::empty());
        assert(header_views(out@) =~= forwarded_response_headers(upstream@));
    }
    out
}

/// Builds the outbound authentication headers: the bearer token, and the
/// account header when an account identifier is known. Fails when either
/// value would not be a well-formed header value.
pub fn build_upstream_headers(token: &str, account_id: &Option<String>) -> (r: Result<
    Vec<(String, String)>,
    HeaderError,
>)
    ensures
        match r {
            Ok(h) => {
                &&& valid_header_value("Bearer "@ + token@)
                &&& (account_id matches Some(id) ==> valid_header_value(id@))
                &&& h@.len() == (if account_id is Some {
                    2int
                } else {
                    1int
                })
                &&& h@[0].0@ == "authorization"@
                &&& h@[0].1@ == "Bearer "@ + token@
                &&& (account_id matches Some(id) ==> h@[1].0@ == "chatgpt-account-id"@ && h@[1].1@
                    == id@)
            },
            Err(e) => {
                &&& e == HeaderError::InvalidHeaderValue
                &&& (!valid_header_value("Bearer "@ + token@) || (account_id matches Some(id)
                    && !valid_header_value(id@)))
            },
        },
{
    let auth_value = String::from_str("Bearer ").concat(token);
    if !is_valid_header_value(auth_value.as_str()) {
        return Err(HeaderError::InvalidHeaderValue);
    }
    let mut h: Vec<(String, String)> = Vec::new();
    h.push((String::from_str("authorization"), auth_value));
    match account_id {
        Some(id) => {
            if !is_valid_header_value(id.as_str()) {
                return Err(HeaderError::InvalidHeaderValue);
            }
            h.push((String::from_str("chatgpt-account-id"), id.clone()));
        },
        None => {},
    }
    Ok(h)
}

/// A forwarded header name that the forced upstream headers override: the
/// experiment header always, and the Accept header when streaming.
pub open spec fn forced_header(l: Seq<char>, is_stream: bool) -> bool {
    l == "openai-beta"@ || (is_stream && l == "accept"@)
}

/// The forwarded entries that survive the forced upstream headers.
pub open spec fn strip_forced(fwd: Seq<(String, String)>, is_stream: bool) -> Seq<
    (Seq<char>, Seq<char>),
>
    decreases fwd.len(),
{
    if fwd.len() == 0 {
        Seq::empty()
    } else {
        let rest = strip_forced(fwd.drop_first(), is_stream);
        if forced_header(fwd[0].0@, is_stream) {
            rest
        } else {
            seq![(fwd[0].0@, fwd[0].1@)] + rest
        }
    }
}

/// The whole outbound header set of one upstream attempt: the
/// authentication headers, the derived Host, the forwarded inbound
/// entries, and the forced upstream headers, which win over forwarded
/// entries of the same name.
pub open spec fn composed_outbound(
    auth: Seq<(String, String)>,
    fwd: Seq<(String, String)>,
    host: Option<String>,
    is_stream: bool,
) -> Seq<(Seq<char>, Seq<char>)> {
    header_views(auth) + (match host {
        Some(h) => seq![("host"@, h@)],
        None => Seq::empty(),
    }) + strip_forced(fwd, is_stream) + seq![("openai-beta"@, "responses=experimental"@)] + (
    if is_stream {
        seq![("accept"@, "text/event-stream"@)]
    } else {
        Seq::empty()
    })
}

/// Assembles the outbound header set of one attempt, as
/// `composed_outbound` states.
pub fn compose_outbound(
    auth: Vec<(String, String)>,
    fwd: &Vec<(String, String)>,
    host: Option<String>,
    is_stream: bool,
) -> (out: Vec<(String, String)>)
    ensures
        header_views(out@) == composed_outbound(auth@, fwd@, host, is_stream),
{
    let ghost auth_snap = auth@;
    let mut out = auth;
    let ghost host_snap = host;
    match host {
        Some(h) => {
            out.push((String::from_str("host"), h));
        },
        None => {},
    }
    let ghost head = header_views(auth_snap) + (match host_snap {
        Some(h) => seq![("host"@, h@)],
        None => Seq::<(Seq<char>, Seq<char>)>::empty(),
    });
    proof {
        assert(header_views(out@) =~= head);
    }
    let n: usize = fwd.len();
    let mut i: usize = 0;
    proof {
        assert(fwd@.subrange(0, n as int) =~= fwd@);
        assert(header_views(out@) + strip_forced(fwd@.subrange(0, n as int), is_stream) =~= head
            + strip_forced(fwd@, is_stream));
    }
    while i < n
        invariant
            0 <= i <= n,
            n == fwd@.len(),
            header_views(out@) + strip_forced(fwd@.subrange(i as int, n as int), is_stream) =~= head
                + strip_forced(fwd@, is_stream),
        decreases n - i,
    {
        let ghost pre = fwd@.subrange(i as int, n as int);
        proof {
            assert(pre[0] == fwd@[i as int]);
            assert(pre.drop_first() =~= fwd@.subrange(i + 1, n as int));
        }
        let name = &fwd[i].0;
        let forced = str_eq(name.as_str(), "openai-beta") || (is_stream && str_eq(
            name.as_str(),
            "accept",
        ));
        if !forced {
            let ghost out_pre = out@;
            out.push((fwd[i].0.clone(), fwd[i].1.clone()));
            proof {
                assert(header_views(out@) =~= header_views(out_pre) + seq![
                    (fwd@[i as int].0@, fwd@[i as int].1@),
                ]);
            }
        }
        i = i + 1;
    }
    proof {
        assert(fwd@.subrange(n as int, n as int) =~= Seq::<(String, String)>::empty());
    }
    out.push((String::from_str("openai-beta"), String::from_str("responses=experimental")));
    if is_stream {
        out.push((String::from_str("accept"), String::from_str("text/event-stream")));
    }
    proof {
        assert(header_views(out@) =~= composed_outbound(auth_snap, fwd@, host_snap, is_stream));
    }
    out
}

/// What an outside URL parser reports as the host component of a URL; it
/// depends on the URL text alone.
pub uninterp spec fn url_host_of(s: Seq<char>) -> Option<Seq<char>>;

/// Relies on `url::Url::parse` and `url::Url::host_str`: parses an absolute
/// URL and hands back its host component, `None` when the text is not an
/// absolute URL or has no host.
#[verifier::external_body]
fn url_host(s: &str) -> (r: Option<String>)
    ensures
        match r {
            Some(h) => url_host_of(s@) == Some(h@),
            None => url_host_of(s@) is None,
        },
{
    match url::Url::parse(s) {
        Ok(u) => u.host_str().map(|h| h.to_string()),
        Err(_) => None,
    }
}

/// The Host header value for an upstream URL: its host component, when the
/// URL has one and the component is a well-formed header value.
pub fn host_header_for(url: &str) -> (r: Option<String>)
    ensures
        match r {
            Some(h) => url_host_of(url@) == Some(h@) && valid_header_value(h@),
            None => url_host_of(url@) is None || (url_host_of(url@) matches Some(h)
                && !valid_header_value(h)),
        },
{
    match url_host(url) {
        Some(h) => {
            if is_valid_header_value(h.as_str()) {
                Some(h)
            } else {
                None
            }
        },
        None => None,
    }
}

} // verus!
