//! URL validation.  Parsing itself comes from the `url` crate through one
//! trusted wrapper; everything decided from the parse result is verified.

use vstd::prelude::*;

verus! {

/// The pieces of a parsed absolute URL that the receiver reads.
pub struct UrlParts {
    /// The URL's scheme, lower-cased by the parser.
    pub scheme: String,
    /// The URL's host, if it has one.
    pub host: Option<String>,
    /// The whole URL in its normalized serialization.
    pub full: String,
}

/// What `url::Url::parse` makes of a string: `None` where parsing fails,
/// otherwise the scheme, the host (if any) and the normalized serialization.
pub uninterp spec fn url_parse_of(s: Seq<char>) -> Option<(Seq<char>, Option<Seq<char>>, Seq<char>)>;

/// Relies on `url::Url::parse` and the accessors `Url::scheme`,
/// `Url::host_str` and `Url::as_str`: the parse outcome and all three parts
/// depend on the input string alone.
#[verifier::external_body]
pub(crate) fn parse_url(s: &str) -> (r: Option<UrlParts>)
    ensures
        r is Some <==> url_parse_of(s@) is Some,
        r matches Some(p) ==> {
            let q = url_parse_of(s@)->Some_0;
            &&& p.scheme@ == q.0
            &&& (p.host is Some <==> q.1 is Some)
            &&& (p.host matches Some(h) ==> q.1 == Some(h@))
            &&& p.full@ == q.2
        },
{
    match url::Url::parse(s) {
        Ok(u) => Some(UrlParts {
            scheme: u.scheme().to_owned(),
            host: u.host_str().map(|h| h.to_owned()),
            full: u.as_str().to_owned(),
        }),
        Err(_) => None,
    }
}

/// A string accepted as one end of a mention: it parses as an absolute URL
/// whose scheme is `http` or `https`.
pub open spec fn acceptable_url(s: Seq<char>) -> bool {
    match url_parse_of(s) {
        Some(p) => p.0 == "http"@ || p.0 == "https"@,
        None => false,
    }
}

/// The host of a URL string, if it parses and has one.
pub open spec fn url_host(s: Seq<char>) -> Option<Seq<char>> {
    match url_parse_of(s) {
        Some(p) => p.1,
        None => None,
    }
}

/// The normalized serialization of a URL string, if it parses.
pub open spec fn url_full(s: Seq<char>) -> Option<Seq<char>> {
    match url_parse_of(s) {
        Some(p) => Some(p.2),
        None => None,
    }
}

} // verus!
