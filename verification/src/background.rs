//! The background listener: which ntfy topics the page subscribed to, the
//! WebSocket URL that carries them once the page is unloaded, and the
//! decisions taken on each WebSocket event.
use vstd::prelude::*;

use crate::text::{
    chars_of, concat, contains, contains_exec, decimal, decimal_chars, eq_ic,
    eq_ignore_ascii_case, ends_with, ends_with_exec, join, join_exec, lemma_lex_irreflexive,
    lemma_lex_total, lemma_lex_trans, lemma_replace_shorter, lex_less, lex_lt,
    replace_all, replace_exec, slice, starts_with, starts_with_exec, str_cat, str_is, strip_both,
    strip_both_exec, strip_end, strip_end_exec, string_of, trim, trim_chars, opt_view,
};
use crate::urls::{append_query_pair, parse_url, url_parse, url_with_pair, UrlParts, UrlView};

verus! {

// ---------------------------------------------------------------------
// URLs
// ---------------------------------------------------------------------
/// The path of a WebSocket URL without its final `/ws`.
pub open spec fn without_ws(path: Seq<char>) -> Seq<char> {
    path.take(path.len() - 3)
}

/// A path that ends in `/ws` after a topic.
pub open spec fn names_topic(path: Seq<char>) -> bool {
    ends_with(path, "/ws"@) && strip_both(without_ws(path), '/').len() > 0
}

/// `is_ntfy_websocket`: a ws or wss URL whose path is a topic path followed
/// by `/ws`.
pub open spec fn spec_is_ntfy_websocket(source: Seq<char>) -> bool {
    match url_parse(source) {
        Err(_) => false,
        Ok(u) => spec_websocket_url(u),
    }
}

/// A parsed URL is an ntfy topic WebSocket: ws or wss, and a topic path
/// followed by `/ws`.
pub open spec fn spec_websocket_url(u: UrlView) -> bool {
    (u.0 == "ws"@ || u.0 == "wss"@) && names_topic(u.4)
}

fn slash_ws() -> (r: Vec<char>)
    ensures
        r@ == "/ws"@,
{
    chars_of("/ws")
}

fn names_topic_exec(path: &[char]) -> (r: bool)
    ensures
        r == names_topic(path@),
{
    let ws = slash_ws();
    if !ends_with_exec(path, ws.as_slice()) {
        return false;
    }
    proof {
        reveal_strlit("/ws");
    }
    let stem = slice(path, 0, path.len() - 3);
    strip_both_exec(stem.as_slice(), '/').len() > 0
}

/// `is_ntfy_websocket`, once the URL is parsed.
pub fn is_websocket_url(u: &UrlParts) -> (r: bool)
    ensures
        r == spec_websocket_url(u@),
{
    (str_is(u.scheme.as_str(), "ws") || str_is(u.scheme.as_str(), "wss")) && names_topic_exec(
        chars_of(u.path.as_str()).as_slice(),
    )
}

/// Whether a URL is an ntfy topic WebSocket.
pub fn is_ntfy_websocket(source: &str) -> (r: bool)
    ensures
        r == spec_is_ntfy_websocket(source@),
{
    match parse_url(source) {
        Err(_) => false,
        Ok(u) => is_websocket_url(&u),
    }
}

/// A subscribed topic path and the `auth` query value of its URL.
#[derive(Debug, Clone)]
pub struct ParsedTopic {
    pub topic_path: String,
    pub auth: Option<String>,
}

/// The value of the first query pair named `auth` in any ASCII case.
pub open spec fn auth_from(pairs: Seq<(Seq<char>, Seq<char>)>, k: int) -> Option<Seq<char>>
    decreases pairs.len() - k,
{
    if k < 0 || k >= pairs.len() {
        None
    } else if eq_ic(pairs[k].0, "auth"@) {
        Some(pairs[k].1)
    } else {
        auth_from(pairs, k + 1)
    }
}

/// The WebSocket scheme that goes with an instance's scheme.
pub open spec fn websocket_scheme(scheme: Seq<char>) -> Option<Seq<char>> {
    if scheme == "https"@ {
        Some("wss"@)
    } else if scheme == "http"@ {
        Some("ws"@)
    } else {
        None
    }
}

/// A path lies under the instance's base path.
pub open spec fn under_base(path: Seq<char>, base: Seq<char>) -> bool {
    base.len() == 0 || path == base || starts_with(path, base + "/"@)
}

pub open spec fn no_topic_message() -> Seq<char> {
    "The ntfy WebSocket URL does not contain a topic"@
}

/// `parse_topic_url`: the topic path that a WebSocket URL subscribes to,
/// relative to the instance's base path, and its `auth` value.
pub open spec fn spec_parse_topic_url(instance: Seq<char>, source: Seq<char>) -> Result<
    (Seq<char>, Option<Seq<char>>),
    Seq<char>,
> {
    match url_parse(instance) {
        Err(e) => Err(e),
        Ok(i) => match url_parse(source) {
            Err(e) => Err(e),
            Ok(w) => spec_topic_from(i, w),
        },
    }
}

/// The topic that a parsed WebSocket URL subscribes to, read against the
/// parsed instance URL.
pub open spec fn spec_topic_from(i: UrlView, w: UrlView) -> Result<
    (Seq<char>, Option<Seq<char>>),
    Seq<char>,
> {
    match websocket_scheme(i.0) {
        None => Err("The configured ntfy instance must use HTTP or HTTPS"@),
        Some(x) => if w.0 != x || w.1 != i.1 || w.3 != i.3 {
            Err("The WebSocket does not belong to the configured ntfy instance"@)
        } else {
            let base = strip_end(i.4, '/');
            if !under_base(w.4, base) {
                Err("The WebSocket is outside the configured ntfy instance path"@)
            } else if !names_topic(w.4) {
                Err(no_topic_message())
            } else {
                let stem = without_ws(w.4);
                let rest = if starts_with(stem, base) {
                    stem.skip(base.len() as int)
                } else {
                    w.4
                };
                let topic = strip_both(rest, '/');
                if topic.len() == 0 {
                    Err(no_topic_message())
                } else {
                    Ok((topic, auth_from(w.5, 0)))
                }
            }
        },
    }
}

pub open spec fn topic_result(r: Result<ParsedTopic, String>) -> Result<
    (Seq<char>, Option<Seq<char>>),
    Seq<char>,
> {
    match r {
        Ok(p) => Ok(
            (
                p.topic_path@,
                match p.auth {
                    Some(a) => Some(a@),
                    None => None,
                },
            ),
        ),
        Err(e) => Err(e@),
    }
}

fn auth_exec(pairs: &Vec<(String, String)>) -> (r: Option<String>)
    ensures
        match r {
            Some(a) => auth_from(pairs@.map_values(|p: (String, String)| crate::urls::pair_view(p)), 0) == Some(a@),
            None => auth_from(pairs@.map_values(|p: (String, String)| crate::urls::pair_view(p)), 0) is None,
        },
{
    let ghost pv = pairs@.map_values(|p: (String, String)| crate::urls::pair_view(p));
    let auth = chars_of("auth");
    let mut k: usize = 0;
    while k < pairs.len()
        invariant
            k <= pairs@.len(),
            pv == pairs@.map_values(|p: (String, String)| crate::urls::pair_view(p)),
            auth@ == "auth"@,
            auth_from(pv, 0) == auth_from(pv, k as int),
        decreases pairs@.len() - k,
    {
        assert(pv[k as int] == crate::urls::pair_view(pairs@[k as int]));
        if eq_ignore_ascii_case(chars_of(pairs[k].0.as_str()).as_slice(), auth.as_slice()) {
            return Some(pairs[k].1.clone());
        }
        k = k + 1;
    }
    None
}

fn websocket_scheme_exec(scheme: &str) -> (r: Option<&'static str>)
    ensures
        match websocket_scheme(scheme@) {
            Some(x) => r matches Some(s) && s@ == x,
            None => r is None,
        },
{
    if str_is(scheme, "https") {
        Some("wss")
    } else if str_is(scheme, "http") {
        Some("ws")
    } else {
        None
    }
}

fn opt_str_eq(a: &Option<String>, b: &Option<String>) -> (r: bool)
    ensures
        r == (match a {
            Some(x) => Some(x@),
            None => None::<Seq<char>>,
        } == match b {
            Some(x) => Some(x@),
            None => None::<Seq<char>>,
        }),
{
    match (a, b) {
        (Some(x), Some(y)) => str_is(x.as_str(), y.as_str()),
        (None, None) => true,
        _ => false,
    }
}

fn under_base_exec(path: &[char], base: &[char]) -> (r: bool)
    ensures
        r == under_base(path@, base@),
{
    if base.len() == 0 {
        return true;
    }
    if crate::text::same_chars(path, base) {
        return true;
    }
    let slash = chars_of("/");
    let prefix = concat(base, slash.as_slice());
    starts_with_exec(path, prefix.as_slice())
}

/// The topic that a WebSocket URL subscribes to, read against the instance
/// URL.
pub fn parse_topic_url(instance: &str, source: &str) -> (r: Result<ParsedTopic, String>)
    ensures
        topic_result(r) == spec_parse_topic_url(instance@, source@),
{
    let i = match parse_url(instance) {
        Ok(i) => i,
        Err(e) => return Err(e),
    };
    let w = match parse_url(source) {
        Ok(w) => w,
        Err(e) => return Err(e),
    };
    topic_from_urls(&i, &w)
}

/// `parse_topic_url`, once both URLs are parsed: the topic path relative to
/// the instance's base path, and the `auth` value.
pub fn topic_from_urls(i: &UrlParts, w: &UrlParts) -> (r: Result<ParsedTopic, String>)
    ensures
        topic_result(r) == spec_topic_from(i@, w@),
{
    let expected = match websocket_scheme_exec(i.scheme.as_str()) {
        Some(x) => x,
        None => return Err(String::from_str("The configured ntfy instance must use HTTP or HTTPS")),
    };
    if !str_is(w.scheme.as_str(), expected) || !opt_str_eq(&w.host, &i.host) || w.known_port
        != i.known_port {
        return Err(
            String::from_str("The WebSocket does not belong to the configured ntfy instance"),
        );
    }
    let base = strip_end_exec(chars_of(i.path.as_str()).as_slice(), '/');
    let path = chars_of(w.path.as_str());
    if !under_base_exec(path.as_slice(), base.as_slice()) {
        return Err(String::from_str("The WebSocket is outside the configured ntfy instance path"));
    }
    if !names_topic_exec(path.as_slice()) {
        return Err(String::from_str("The ntfy WebSocket URL does not contain a topic"));
    }
    proof {
        reveal_strlit("/ws");
    }
    let stem = slice(path.as_slice(), 0, path.len() - 3);
    let rest = if starts_with_exec(stem.as_slice(), base.as_slice()) {
        slice(stem.as_slice(), base.len(), stem.len())
    } else {
        slice(path.as_slice(), 0, path.len())
    };
    assert(path@.subrange(0, path@.len() as int) == path@);
    let topic = strip_both_exec(rest.as_slice(), '/');
    if topic.len() == 0 {
        return Err(String::from_str("The ntfy WebSocket URL does not contain a topic"));
    }
    let auth = auth_exec(&w.query);
    Ok(ParsedTopic { topic_path: string_of(topic.as_slice()), auth })
}

/// `parse_topic`: the topic that a WebSocket URL subscribes to, read against
/// the configured instance.
pub fn parse_topic(instance: Option<&str>, source: &str) -> (r: Result<ParsedTopic, String>)
    ensures
        match instance {
            None => r matches Err(e) && e@ == "No ntfy instance is configured"@,
            Some(i) => topic_result(r) == spec_parse_topic_url(i@, source@),
        },
{
    match instance {
        None => Err(String::from_str("No ntfy instance is configured")),
        Some(i) => parse_topic_url(i, source),
    }
}

/// `validate_page_url`: the page must be served by the configured instance,
/// under its base path.
pub open spec fn spec_validate_page_url(instance: Seq<char>, source: Seq<char>) -> Result<
    (),
    Seq<char>,
> {
    match url_parse(instance) {
        Err(e) => Err(e),
        Ok(i) => match url_parse(source) {
            Err(e) => Err(e),
            Ok(p) => spec_page_within(i, p),
        },
    }
}

/// A parsed page URL has the parsed instance's scheme, host and port, and
/// lies under its base path.
pub open spec fn spec_page_within(i: UrlView, p: UrlView) -> Result<(), Seq<char>> {
    if p.0 != i.0 || p.1 != i.1 || p.3 != i.3 {
        Err("The page does not belong to the configured ntfy instance"@)
    } else if !under_base(p.4, strip_end(i.4, '/')) {
        Err("The page is outside the configured ntfy instance path"@)
    } else {
        Ok(())
    }
}

/// Whether a page belongs to the configured instance.
pub fn validate_page_url(instance: Option<&str>, source: &str) -> (r: Result<(), String>)
    ensures
        match instance {
            None => r matches Err(e) && e@ == "No ntfy instance is configured"@,
            Some(i) => crate::modules::unit_result(r) == spec_validate_page_url(i@, source@),
        },
{
    let instance = match instance {
        None => return Err(String::from_str("No ntfy instance is configured")),
        Some(i) => i,
    };
    let i = match parse_url(instance) {
        Ok(i) => i,
        Err(e) => return Err(e),
    };
    let p = match parse_url(source) {
        Ok(p) => p,
        Err(e) => return Err(e),
    };
    page_within_instance(&i, &p)
}

/// `validate_page_url`, once both URLs are parsed.
pub fn page_within_instance(i: &UrlParts, p: &UrlParts) -> (r: Result<(), String>)
    ensures
        crate::modules::unit_result(r) == spec_page_within(i@, p@),
{
    if !str_is(p.scheme.as_str(), i.scheme.as_str()) || !opt_str_eq(&p.host, &i.host)
        || p.known_port != i.known_port {
        return Err(String::from_str("The page does not belong to the configured ntfy instance"));
    }
    let base = strip_end_exec(chars_of(i.path.as_str()).as_slice(), '/');
    if !under_base_exec(chars_of(p.path.as_str()).as_slice(), base.as_slice()) {
        return Err(String::from_str("The page is outside the configured ntfy instance path"));
    }
    Ok(())
}

/// The text that `build_combined_url` parses: the WebSocket URL of the
/// joined topics on the instance's host, port and base path.
pub open spec fn combined_text(i: UrlView, topics: Seq<Seq<char>>) -> Option<Seq<char>> {
    match websocket_scheme(i.0) {
        None => None,
        Some(scheme) => match i.1 {
            None => None,
            Some(h) => {
                let host = if h.contains(':') {
                    "["@ + h + "]"@
                } else {
                    h
                };
                let authority = match i.2 {
                    Some(p) => host + ":"@ + decimal(p as nat),
                    None => host,
                };
                Some(
                    scheme + "://"@ + authority + strip_end(i.4, '/') + "/"@ + join(topics, ","@)
                        + "/ws"@,
                )
            },
        },
    }
}

/// `build_combined_url`: the serialized WebSocket URL for all topics, with
/// the `auth` pair when there is one.
pub open spec fn spec_build_combined_url(
    i: UrlView,
    topics: Seq<Seq<char>>,
    auth: Option<Seq<char>>,
) -> Option<Seq<char>> {
    match combined_text(i, topics) {
        None => None,
        Some(text) => match url_parse(text) {
            Err(_) => None,
            Ok(u) => match auth {
                None => Some(u.6),
                Some(a) => url_with_pair(text, "auth"@, a),
            },
        },
    }
}

fn host_has_colon(h: &[char]) -> (r: bool)
    ensures
        r == h@.contains(':'),
{
    let mut k: usize = 0;
    while k < h.len()
        invariant
            k <= h@.len(),
            forall|j: int| 0 <= j < k ==> h@[j] != ':',
        decreases h@.len() - k,
    {
        if h[k] == ':' {
            assert(h@.contains(h@[k as int]));
            return true;
        }
        k = k + 1;
    }
    false
}

/// `build_combined_url`, the text it parses: the WebSocket URL of the
/// joined topics on the instance's host, port and base path.
pub fn combined_url_text(instance: &UrlParts, topics: &Vec<String>) -> (r: Option<String>)
    ensures
        match r {
            Some(t) => combined_text(instance@, topics.deep_view()) == Some(t@),
            None => combined_text(instance@, topics.deep_view()) is None,
        },
{
    let scheme = match websocket_scheme_exec(instance.scheme.as_str()) {
        Some(s) => s,
        None => return None,
    };
    let h = match &instance.host {
        Some(h) => h,
        None => return None,
    };
    let host = if host_has_colon(chars_of(h.as_str()).as_slice()) {
        let mut s = str_cat("[", h.as_str());
        s.append("]");
        s
    } else {
        h.clone()
    };
    let authority = match instance.port {
        Some(p) => {
            let mut s = str_cat(host.as_str(), ":");
            s.append(string_of(decimal_chars(p as u64).as_slice()).as_str());
            s
        },
        None => host,
    };
    let base = string_of(strip_end_exec(chars_of(instance.path.as_str()).as_slice(), '/').as_slice());
    let mut text = str_cat(scheme, "://");
    text.append(authority.as_str());
    text.append(base.as_str());
    text.append("/");
    text.append(join_exec(topics, ",").as_str());
    text.append("/ws");
    Some(text)
}

/// The WebSocket URL for all topics, with the token when there is one.
pub fn build_combined_url(instance: &UrlParts, topics: &Vec<String>, auth: Option<&str>) -> (r:
    Option<String>)
    ensures
        match r {
            Some(s) => spec_build_combined_url(
                instance@,
                topics.deep_view(),
                match auth {
                    Some(a) => Some(a@),
                    None => None,
                },
            ) == Some(s@),
            None => spec_build_combined_url(
                instance@,
                topics.deep_view(),
                match auth {
                    Some(a) => Some(a@),
                    None => None,
                },
            ) is None,
        },
{
    let text = match combined_url_text(instance, topics) {
        Some(t) => t,
        None => return None,
    };
    let parsed = match parse_url(text.as_str()) {
        Ok(u) => u,
        Err(_) => return None,
    };
    match auth {
        None => Some(parsed.serialization),
        Some(a) => append_query_pair(text.as_str(), "auth", a),
    }
}

/// `with_since`: the URL with the `since` pair when there is a non-empty
/// message id to resume from.
pub open spec fn spec_with_since(base: Seq<char>, since: Option<Seq<char>>) -> Seq<char> {
    match since {
        Some(s) if s.len() > 0 => match url_with_pair(base, "since"@, s) {
            Some(u) => u,
            None => base,
        },
        _ => base,
    }
}

/// The URL to connect to, resuming after a message id.
pub fn with_since(base_url: &str, since: Option<&str>) -> (r: String)
    ensures
        r@ == spec_with_since(
            base_url@,
            match since {
                Some(s) => Some(s@),
                None => None,
            },
        ),
{
    match since {
        Some(s) => {
            if chars_of(s).len() > 0 {
                match append_query_pair(base_url, "since", s) {
                    Some(u) => u,
                    None => String::from_str(base_url),
                }
            } else {
                String::from_str(base_url)
            }
        },
        None => String::from_str(base_url),
    }
}

// ---------------------------------------------------------------------
// Messages
// ---------------------------------------------------------------------
/// Replaces `"\n\n"` by `"\n"` until no blank line is left.
pub open spec fn collapse_blank_lines(s: Seq<char>) -> Seq<char>
    decreases s.len(),
{
    if contains(s, seq!['\n', '\n']) {
        proof {
            crate::text::lemma_find_from(s, seq!['\n', '\n'], 0);
            lemma_replace_shorter(s, seq!['\n', '\n'], seq!['\n']);
        }
        collapse_blank_lines(replace_all(s, seq!['\n', '\n'], seq!['\n']))
    } else {
        s
    }
}

/// `clean_message`: narrow no-break spaces (and their mis-decoded forms)
/// become spaces, blank lines are removed, and the text is trimmed.
pub open spec fn spec_clean_message(m: Seq<char>) -> Seq<char> {
    let a = replace_all(m, seq!['\u{202f}'], seq![' ']);
    let b = replace_all(a, seq!['\u{00e2}', '\u{0080}', '\u{00af}'], seq![' ']);
    let c = replace_all(b, seq!['\u{00e2}', '\u{20ac}', '\u{00af}'], seq![' ']);
    trim(collapse_blank_lines(c))
}

/// A notification's message made tidy for display.
pub fn clean_message(message: &str) -> (r: String)
    ensures
        r@ == spec_clean_message(message@),
{
    let m = chars_of(message);
    let space = vec![' '];
    let nnbsp = vec!['\u{202f}'];
    let garbled1 = vec!['\u{00e2}', '\u{0080}', '\u{00af}'];
    let garbled2 = vec!['\u{00e2}', '\u{20ac}', '\u{00af}'];
    proof {
        assert(nnbsp@ =~= seq!['\u{202f}']);
        assert(garbled1@ =~= seq!['\u{00e2}', '\u{0080}', '\u{00af}']);
        assert(garbled2@ =~= seq!['\u{00e2}', '\u{20ac}', '\u{00af}']);
    }
    let a = replace_exec(m.as_slice(), nnbsp.as_slice(), space.as_slice());
    let b = replace_exec(a.as_slice(), garbled1.as_slice(), space.as_slice());
    let mut c = replace_exec(b.as_slice(), garbled2.as_slice(), space.as_slice());
    let blank = vec!['\n', '\n'];
    let one = vec!['\n'];
    proof {
        assert(space@ =~= seq![' ']);
        assert(blank@ =~= seq!['\n', '\n']);
        assert(one@ =~= seq!['\n']);
    }
    let ghost start = c@;
    while contains_exec(c.as_slice(), blank.as_slice())
        invariant
            collapse_blank_lines(start) == collapse_blank_lines(c@),
            blank@ == seq!['\n', '\n'],
            one@ == seq!['\n'],
        decreases c@.len(),
    {
        proof {
            crate::text::lemma_find_from(c@, blank@, 0);
            lemma_replace_shorter(c@, blank@, one@);
        }
        c = replace_exec(c.as_slice(), blank.as_slice(), one.as_slice());
    }
    assert(collapse_blank_lines(c@) == c@);
    string_of(trim_chars(c.as_slice()).as_slice())
}

/// A notification handed on by the listener.
#[derive(Debug, Clone)]
pub struct Payload {
    pub id: Option<String>,
    pub time: Option<i64>,
    pub topic: String,
    pub title: Option<String>,
    pub message: String,
}

/// An event read from the ntfy WebSocket.
#[derive(Debug, Clone)]
pub struct WebSocketEvent {
    pub event: String,
    pub id: Option<String>,
    pub message: Option<String>,
    pub time: Option<i64>,
    pub title: Option<String>,
    pub topic: Option<String>,
}

/// Events whose id marks how far the stream has been read.
pub open spec fn advances_stream(event: Seq<char>) -> bool {
    event == "message"@ || event == "message_delete"@ || event == "message_clear"@
}

/// The last message id after an event.
pub open spec fn spec_next_last_id(e: WebSocketEvent, last_id: Option<Seq<char>>) -> Option<
    Seq<char>,
> {
    match e.id {
        Some(id) if advances_stream(e.event@) => Some(id@),
        _ => last_id,
    }
}

/// The notification that an event carries, if any: only `message` events
/// whose message is present and does not start with `{`.
pub open spec fn spec_event_payload(e: WebSocketEvent) -> Option<
    (Option<Seq<char>>, Option<i64>, Seq<char>, Option<Seq<char>>, Seq<char>),
> {
    if e.event@ != "message"@ {
        None
    } else {
        match e.message {
            None => None,
            Some(m) => if m@.len() > 0 && m@[0] == '{' {
                None
            } else {
                let topic = match e.topic {
                    Some(t) => t@,
                    None => Seq::empty(),
                };
                let title = match e.title {
                    Some(t) => Some(t@),
                    None => if topic.len() > 0 {
                        Some(topic)
                    } else {
                        None
                    },
                };
                Some((opt_view(e.id), e.time, topic, title, spec_clean_message(m@)))
            },
        }
    }
}

pub open spec fn payload_view(p: Payload) -> (
    Option<Seq<char>>,
    Option<i64>,
    Seq<char>,
    Option<Seq<char>>,
    Seq<char>,
) {
    (opt_view(p.id), p.time, p.topic@, opt_view(p.title), p.message@)
}

/// `handle_message`, up to the processing: records the event's id and
/// returns the notification it carries.
pub fn handle_event(event: WebSocketEvent, last_id: &mut Option<String>) -> (r: Option<Payload>)
    ensures
        opt_view(*final(last_id)) == spec_next_last_id(event, opt_view(*old(last_id))),
        match r {
            Some(p) => spec_event_payload(event) == Some(payload_view(p)),
            None => spec_event_payload(event) is None,
        },
{
    let kind = event.event.as_str();
    let advances = str_is(kind, "message") || str_is(kind, "message_delete") || str_is(
        kind,
        "message_clear",
    );
    match &event.id {
        Some(id) => {
            if advances {
                *last_id = Some(id.clone());
            }
        },
        None => {},
    }
    if !str_is(kind, "message") {
        return None;
    }
    let message = match &event.message {
        Some(m) => m,
        None => return None,
    };
    let mc = chars_of(message.as_str());
    if mc.len() > 0 && mc[0] == '{' {
        return None;
    }
    let topic = match &event.topic {
        Some(t) => t.clone(),
        None => String::new(),
    };
    let title = match &event.title {
        Some(t) => Some(t.clone()),
        None => {
            if chars_of(topic.as_str()).len() > 0 {
                Some(topic.clone())
            } else {
                None
            }
        },
    };
    let cleaned = clean_message(message.as_str());
    Some(Payload { id: event.id.clone(), message: cleaned, time: event.time, title, topic })
}

/// The delays between reconnection attempts, in seconds.
pub open spec fn backoff(i: int) -> u64 {
    if i == 0 {
        5
    } else if i == 1 {
        10
    } else if i == 2 {
        20
    } else if i == 3 {
        30
    } else if i == 4 {
        60
    } else {
        120
    }
}

/// The delay before the next connection attempt and the new retry count:
/// the backoff steps up to two minutes and stays there.
pub fn retry_delay(retry_count: usize) -> (r: (u64, usize))
    ensures
        r.0 == backoff(if retry_count < 5 {
            retry_count as int
        } else {
            5
        }),
        r.1 == if retry_count == usize::MAX {
            usize::MAX
        } else {
            (retry_count + 1) as usize
        },
{
    let delay = if retry_count == 0 {
        5
    } else if retry_count == 1 {
        10
    } else if retry_count == 2 {
        20
    } else if retry_count == 3 {
        30
    } else if retry_count == 4 {
        60
    } else {
        120
    };
    (delay, retry_count.saturating_add(1))
}

/// The retry count after a connection attempt: back to zero once the
/// connection is made, so the next wait starts again at the first step;
/// kept otherwise.
pub fn retry_count_after_attempt(retry_count: usize, connected: bool) -> (r: usize)
    ensures
        r == if connected {
            0
        } else {
            retry_count
        },
{
    if connected {
        0
    } else {
        retry_count
    }
}

// ---------------------------------------------------------------------
// Listener state
// ---------------------------------------------------------------------
/// Topics in strictly increasing code point order: sorted, no repeats.
pub open spec fn sorted_topics(t: Seq<Seq<char>>) -> bool {
    forall|i: int, j: int| 0 <= i < j < t.len() ==> lex_lt(#[trigger] t[i], #[trigger] t[j])
}

/// What the background listener knows: the subscribed topic paths, the
/// token for them, the running connection's generation, and the unload
/// flags.
#[derive(Debug)]
pub struct BackgroundListener {
    topics: Vec<String>,
    auth: Option<String>,
    connection: Option<String>,
    sync_complete: bool,
    unload_requested: bool,
    unload_scheduled: bool,
}

/// (topics, auth, connection generation, sync complete, unload requested,
/// unload scheduled)
pub type ListenerView = (
    Seq<Seq<char>>,
    Option<Seq<char>>,
    Option<Seq<char>>,
    bool,
    bool,
    bool,
);

impl View for BackgroundListener {
    type V = ListenerView;

    closed spec fn view(&self) -> ListenerView {
        (
            self.topics.deep_view(),
            opt_view(self.auth),
            opt_view(self.connection),
            self.sync_complete,
            self.unload_requested,
            self.unload_scheduled,
        )
    }
}

/// An unload is due: requested, the sync complete, and none scheduled yet.
pub open spec fn unload_due(v: ListenerView) -> bool {
    v.4 && v.3 && !v.5
}

/// The listener after the unload check: scheduled if it was due.
pub open spec fn after_schedule(v: ListenerView) -> ListenerView {
    (v.0, v.1, v.2, v.3, v.4, v.5 || unload_due(v))
}

impl BackgroundListener {
    /// The listener's invariant: the topics are sorted without repeats.
    pub open spec fn wf(&self) -> bool {
        sorted_topics(self@.0)
    }

    /// A listener with no topics, no connection, and nothing requested.
    pub fn new() -> (r: BackgroundListener)
        ensures
            r.wf(),
            r@ == (Seq::<Seq<char>>::empty(), None::<Seq<char>>, None::<Seq<char>>, false, false, false),
    {
        let r = BackgroundListener {
            topics: Vec::new(),
            auth: None,
            connection: None,
            sync_complete: false,
            unload_requested: false,
            unload_scheduled: false,
        };
        assert(r.topics.deep_view() =~= Seq::<Seq<char>>::empty());
        r
    }

    /// The subscribed topics, sorted.
    pub fn topics(&self) -> (r: Vec<String>)
        ensures
            r.deep_view() == self@.0,
    {
        let mut out: Vec<String> = Vec::new();
        let mut i: usize = 0;
        while i < self.topics.len()
            invariant
                i <= self.topics@.len(),
                out.deep_view() == self.topics.deep_view().take(i as int),
            decreases self.topics@.len() - i,
        {
            let ghost prev = out.deep_view();
            out.push(self.topics[i].clone());
            assert(out.deep_view() =~= prev.push(self.topics@[i as int]@));
            i = i + 1;
            assert(out.deep_view() =~= self.topics.deep_view().take(i as int));
        }
        assert(self.topics.deep_view().take(self.topics@.len() as int) =~= self.topics.deep_view());
        out
    }

    /// Where `topic` stands among the topics: its index, or where it would
    /// be inserted.
    fn position(&self, topic: &str) -> (r: (usize, bool))
        requires
            self.wf(),
        ensures
            r.0 <= self@.0.len(),
            forall|j: int| 0 <= j < r.0 ==> lex_lt(#[trigger] self@.0[j], topic@),
            r.1 ==> r.0 < self@.0.len() && self@.0[r.0 as int] == topic@,
            !r.1 ==> forall|j: int| r.0 <= j < self@.0.len() ==> lex_lt(
                topic@,
                #[trigger] self@.0[j],
            ),
    {
        let ghost t = self@.0;
        let mut i: usize = 0;
        while i < self.topics.len() && lex_less(self.topics[i].as_str(), topic)
            invariant
                t == self@.0,
                t == self.topics.deep_view(),
                i <= t.len(),
                forall|j: int| 0 <= j < i ==> lex_lt(#[trigger] t[j], topic@),
            decreases t.len() - i,
        {
            i = i + 1;
        }
        if i < self.topics.len() && str_is(self.topics[i].as_str(), topic) {
            return (i, true);
        }
        proof {
            if i < t.len() {
                lemma_lex_total(t[i as int], topic@);
                assert forall|j: int| i <= j < t.len() implies lex_lt(topic@, #[trigger] t[j]) by {
                    if j > i {
                        lemma_lex_trans(topic@, t[i as int], t[j]);
                    }
                }
            }
        }
        (i, false)
    }

    /// `sync_websocket`, once the topic is parsed: subscribe to the topic,
    /// keep a new token, and wait for the page to confirm the sync again.
    pub fn sync(&mut self, topic_path: String, auth: Option<String>)
        requires
            old(self).wf(),
        ensures
            final(self).wf(),
            final(self)@.0.to_set() == old(self)@.0.to_set().insert(topic_path@),
            final(self)@.1 == (if auth is Some {
                opt_view(auth)
            } else {
                old(self)@.1
            }),
            final(self)@.2 == old(self)@.2,
            final(self)@.3 == false,
            final(self)@.4 == old(self)@.4,
            final(self)@.5 == old(self)@.5,
    {
        let ghost before = self@.0;
        let (i, present) = self.position(topic_path.as_str());
        if !present {
            let ghost tv = topic_path@;
            self.topics.insert(i, topic_path);
            proof {
                let after = self.topics.deep_view();
                assert(after =~= before.insert(i as int, tv));
                assert forall|a: int, b: int| 0 <= a < b < after.len() implies lex_lt(
                    #[trigger] after[a],
                    #[trigger] after[b],
                ) by {
                    if b < i {
                    } else if a < i && b == i {
                    } else if a < i && b > i {
                        assert(after[b] == before[b - 1]);
                        lemma_lex_trans(after[a], tv, after[b]);
                    } else if a == i {
                        assert(after[b] == before[b - 1]);
                    } else {
                        assert(after[a] == before[a - 1]);
                        assert(after[b] == before[b - 1]);
                    }
                }
                assert(after.to_set() =~= before.to_set().insert(tv)) by {
                    assert forall|x: Seq<char>| after.to_set().contains(x) <==> before.to_set().insert(
                        tv,
                    ).contains(x) by {
                        if after.contains(x) {
                            let k = choose|k: int| 0 <= k < after.len() && after[k] == x;
                            if k < i {
                                assert(before[k] == x);
                            } else if k > i {
                                assert(before[k - 1] == x);
                            }
                        }
                        if before.contains(x) {
                            let k = choose|k: int| 0 <= k < before.len() && before[k] == x;
                            if k < i {
                                assert(after[k] == x);
                            } else {
                                assert(after[k + 1] == x);
                            }
                        }
                        if x == tv {
                            assert(after[i as int] == tv);
                        }
                    }
                }
            }
        } else {
            proof {
                assert(before.to_set() =~= before.to_set().insert(topic_path@)) by {
                    assert(before.contains(topic_path@)) by {
                        assert(before[i as int] == topic_path@);
                    }
                }
            }
        }
        if auth.is_some() {
            self.auth = auth;
        }
        self.sync_complete = false;
    }

    /// `unsync_websocket`, once the topic is parsed: drop the topic, drop
    /// the token once no topic is left, and wait for the page to confirm.
    pub fn unsync(&mut self, topic_path: &str)
        requires
            old(self).wf(),
        ensures
            final(self).wf(),
            final(self)@.0.to_set() == old(self)@.0.to_set().remove(topic_path@),
            final(self)@.1 == (if final(self)@.0.len() == 0 {
                None
            } else {
                old(self)@.1
            }),
            final(self)@.2 == old(self)@.2,
            final(self)@.3 == false,
            final(self)@.4 == old(self)@.4,
            final(self)@.5 == old(self)@.5,
    {
        let ghost before = self@.0;
        let (i, present) = self.position(topic_path);
        if present {
            self.topics.remove(i);
            proof {
                let after = self.topics.deep_view();
                assert(after =~= before.remove(i as int));
                assert forall|a: int, b: int| 0 <= a < b < after.len() implies lex_lt(
                    #[trigger] after[a],
                    #[trigger] after[b],
                ) by {
                    if a >= i {
                        assert(after[a] == before[a + 1]);
                        assert(after[b] == before[b + 1]);
                    } else if b >= i {
                        assert(after[b] == before[b + 1]);
                    }
                }
                assert(after.to_set() =~= before.to_set().remove(topic_path@)) by {
                    assert forall|x: Seq<char>| after.to_set().contains(x) <==> before.to_set().remove(
                        topic_path@,
                    ).contains(x) by {
                        if after.contains(x) {
                            let k = choose|k: int| 0 <= k < after.len() && after[k] == x;
                            if k < i {
                                assert(before[k] == x);
                                assert(lex_lt(x, topic_path@));
                                lemma_lex_irreflexive(x);
                            } else {
                                assert(before[k + 1] == x);
                                assert(lex_lt(before[i as int], before[k + 1]));
                                lemma_lex_irreflexive(x);
                            }
                        }
                        if before.contains(x) && x != topic_path@ {
                            let k = choose|k: int| 0 <= k < before.len() && before[k] == x;
                            if k < i {
                                assert(after[k] == x);
                            } else {
                                assert(k != i);
                                assert(after[k - 1] == x);
                            }
                        }
                    }
                }
            }
        } else {
            proof {
                assert(before.to_set() =~= before.to_set().remove(topic_path@)) by {
                    if before.contains(topic_path@) {
                        let k = choose|k: int| 0 <= k < before.len() && before[k] == topic_path@;
                        lemma_lex_irreflexive(topic_path@);
                    }
                }
            }
        }
        if self.topics.len() == 0 {
            self.auth = None;
        }
        self.sync_complete = false;
    }

    /// `complete_websocket`, once the page is validated: the page has
    /// handed all its subscriptions over.
    pub fn complete(&mut self)
        requires
            old(self).wf(),
        ensures
            final(self).wf(),
            final(self)@ == (old(self)@.0, old(self)@.1, old(self)@.2, true, old(self)@.4, old(self)@.5),
    {
        self.sync_complete = true;
    }

    /// `request_webview_unload`: with no instance configured there is
    /// nothing to sync, so the sync counts as complete.
    pub fn request_unload(&mut self, instance_configured: bool)
        requires
            old(self).wf(),
        ensures
            final(self).wf(),
            final(self)@ == (
                old(self)@.0,
                old(self)@.1,
                old(self)@.2,
                old(self)@.3 || !instance_configured,
                true,
                old(self)@.5,
            ),
    {
        if !instance_configured {
            self.sync_complete = true;
        }
        self.unload_requested = true;
    }

    /// `cancel_webview_unload` and `stop_all`: withdraw the unload request
    /// and hand back the running connection, which the caller aborts.
    pub fn stop(&mut self) -> (r: Option<String>)
        requires
            old(self).wf(),
        ensures
            final(self).wf(),
            opt_view(r) == old(self)@.2,
            final(self)@ == (old(self)@.0, old(self)@.1, None::<Seq<char>>, old(self)@.3, false, old(self)@.5),
    {
        self.unload_requested = false;
        self.connection.take()
    }

    /// `try_unload_webview`, first step: whether to schedule the unload now.
    /// It is scheduled once, when requested and synced.
    pub fn schedule_unload(&mut self) -> (r: bool)
        requires
            old(self).wf(),
        ensures
            final(self).wf(),
            r == unload_due(old(self)@),
            final(self)@ == after_schedule(old(self)@),
    {
        if !self.unload_requested || !self.sync_complete || self.unload_scheduled {
            false
        } else {
            self.unload_scheduled = true;
            true
        }
    }

    /// `try_unload_webview`, scheduled step: whether the unload still
    /// stands; when it does not, the schedule is cleared.
    pub fn begin_unload(&mut self) -> (r: bool)
        requires
            old(self).wf(),
        ensures
            final(self).wf(),
            r == (old(self)@.4 && old(self)@.3),
            final(self)@ == (
                old(self)@.0,
                old(self)@.1,
                old(self)@.2,
                old(self)@.3,
                old(self)@.4,
                old(self)@.5 && r,
            ),
    {
        if !self.unload_requested || !self.sync_complete {
            self.unload_scheduled = false;
            return false;
        }
        true
    }

    /// `try_unload_webview`, after the page is gone: the schedule is done.
    pub fn end_unload(&mut self)
        requires
            old(self).wf(),
        ensures
            final(self).wf(),
            final(self)@ == (old(self)@.0, old(self)@.1, old(self)@.2, old(self)@.3, old(self)@.4, false),
    {
        self.unload_scheduled = false;
    }

    /// `rebuild_connection`, first step: the sorted topics and the token to
    /// connect with, when an unload is requested and there are topics.
    pub fn connection_plan(&self) -> (r: Option<(Vec<String>, Option<String>)>)
        requires
            self.wf(),
        ensures
            match r {
                Some((t, a)) => self@.4 && self@.0.len() > 0 && t.deep_view() == self@.0 && opt_view(a)
                    == self@.1,
                None => !self@.4 || self@.0.len() == 0,
            },
    {
        if !self.unload_requested {
            return None;
        }
        let topics = self.topics();
        if topics.len() == 0 {
            return None;
        }
        Some((topics, self.auth.clone()))
    }

    /// `rebuild_connection`, last step: make `generation` the running
    /// connection if the unload is still requested; the previous
    /// connection is handed back to be aborted.  `Err` when the unload was
    /// withdrawn meanwhile and nothing changes.
    pub fn install(&mut self, generation: String) -> (r: Result<Option<String>, ()>)
        requires
            old(self).wf(),
        ensures
            final(self).wf(),
            old(self)@.4 ==> (r matches Ok(p) && opt_view(p) == old(self)@.2 && final(self)@ == (
                old(self)@.0,
                old(self)@.1,
                Some(generation@),
                old(self)@.3,
                old(self)@.4,
                old(self)@.5,
            )),
            !old(self)@.4 ==> r is Err && final(self)@ == old(self)@,
    {
        if !self.unload_requested {
            return Err(());
        }
        let previous = self.connection.take();
        self.connection = Some(generation);
        Ok(previous)
    }

    /// Whether `generation` is the running connection.
    pub fn is_current(&self, generation: &str) -> (r: bool)
        ensures
            r == (self@.2 == Some(generation@)),
    {
        match &self.connection {
            Some(g) => str_is(g.as_str(), generation),
            None => false,
        }
    }
}

} // verus!
