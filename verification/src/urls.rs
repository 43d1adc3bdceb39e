//! URL parsing, delegated to the `url` crate.
use vstd::prelude::*;

verus! {

/// The parts of a parsed URL that the library reads.
#[derive(Debug, Clone)]
pub struct UrlParts {
    pub scheme: String,
    pub host: Option<String>,
    pub port: Option<u16>,
    pub known_port: Option<u16>,
    pub path: String,
    pub query: Vec<(String, String)>,
    pub serialization: String,
}

/// Scheme, host, explicit port, port or the scheme's default port, path,
/// decoded query pairs, and the serialized URL.
pub type UrlView = (
    Seq<char>,
    Option<Seq<char>>,
    Option<u16>,
    Option<u16>,
    Seq<char>,
    Seq<(Seq<char>, Seq<char>)>,
    Seq<char>,
);

pub open spec fn pair_view(p: (String, String)) -> (Seq<char>, Seq<char>) {
    (p.0@, p.1@)
}

impl View for UrlParts {
    type V = UrlView;

    open spec fn view(&self) -> UrlView {
        (
            self.scheme@,
            match self.host {
                Some(h) => Some(h@),
                None => None,
            },
            self.port,
            self.known_port,
            self.path@,
            self.query@.map_values(|p: (String, String)| pair_view(p)),
            self.serialization@,
        )
    }
}

/// What `url::Url::parse` makes of a text: the URL's parts, or the message
/// of its parse error.
pub uninterp spec fn url_parse(input: Seq<char>) -> Result<UrlView, Seq<char>>;

/// The serialization of the URL that `input` parses to, with the pair
/// `key=value` appended to its query; `None` when `input` does not parse.
pub uninterp spec fn url_with_pair(input: Seq<char>, key: Seq<char>, value: Seq<char>) -> Option<
    Seq<char>,
>;

/// Calls `url::Url::parse` and reads the parsed URL's `scheme`, `host_str`,
/// `port`, `port_or_known_default`, `path`, `query_pairs` and `as_str`, or
/// the `Display` text of the `ParseError`.  The contract claims only that
/// the result is the one that `url_parse` names for the input: `Url::parse`
/// depends on its input alone.
#[verifier::external_body]
pub fn parse_url(input: &str) -> (r: Result<UrlParts, String>)
    ensures
        match r {
            Ok(p) => url_parse(input@) == Ok::<UrlView, Seq<char>>(p@),
            Err(e) => url_parse(input@) == Err::<UrlView, Seq<char>>(e@),
        },
{
    let u = url::Url::parse(input).map_err(|e| e.to_string())?;
    let query = u.query_pairs().map(|(k, v)| (k.into_owned(), v.into_owned())).collect();
    Ok(UrlParts {
        scheme: u.scheme().to_string(),
        host: u.host_str().map(String::from),
        port: u.port(),
        known_port: u.port_or_known_default(),
        path: u.path().to_string(),
        query,
        serialization: u.as_str().to_string(),
    })
}

/// Calls `url::Url::parse` on `input` and, where it succeeds, appends the
/// pair through `query_pairs_mut().append_pair(key, value)` and returns
/// `as_str()`.  The contract claims that the result is the one that
/// `url_with_pair` names, and that it is present exactly when `input`
/// parses (which the body shows).
#[verifier::external_body]
pub fn append_query_pair(input: &str, key: &str, value: &str) -> (r: Option<String>)
    ensures
        match r {
            Some(s) => url_with_pair(input@, key@, value@) == Some(s@),
            None => url_with_pair(input@, key@, value@) is None,
        },
        r is Some <==> url_parse(input@) is Ok,
{
    match url::Url::parse(input) {
        Ok(mut u) => {
            u.query_pairs_mut().append_pair(key, value);
            Some(u.as_str().to_string())
        },
        Err(_) => None,
    }
}

} // verus!
