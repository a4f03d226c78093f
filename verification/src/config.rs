//! Startup configuration: the trusted origin must be an exact HTTPS origin.
use crate::chars::chars_of;
use vstd::prelude::*;

verus! {

broadcast use vstd::string::group_string_axioms;

/// The parts of a URI that the origin check reads.
pub struct UriParts {
    pub scheme: Option<String>,
    pub has_authority: bool,
    pub path_and_query: Option<String>,
}

pub open spec fn opt_view(o: Option<String>) -> Option<Seq<char>> {
    match o {
        Some(s) => Some(s@),
        None => None,
    }
}

/// What parsing `text` as an `http::Uri` (re-exported by `axum`) gives: `None` when it is
/// no URI, else its scheme, whether it has an authority, and its path and query.
pub uninterp spec fn spec_uri_parts(text: Seq<char>) -> Option<(Option<Seq<char>>, bool, Option<Seq<char>>)>;

/// Parses `text` with `axum::http::Uri`'s `FromStr` and reads the scheme, authority and
/// path-and-query of the result. The parts are named, not stated: the URI grammar is the
/// `http` crate's.
#[verifier::external_body]
pub fn uri_parts(text: &str) -> (r: Option<UriParts>)
    ensures
        match r {
            Some(p) => spec_uri_parts(text@) == Some((opt_view(p.scheme), p.has_authority, opt_view(p.path_and_query))),
            None => spec_uri_parts(text@) is None,
        },
{
    match text.parse::<axum::http::Uri>() {
        Ok(u) => Some(UriParts {
            scheme: u.scheme_str().map(|s| s.to_owned()),
            has_authority: u.authority().is_some(),
            path_and_query: u.path_and_query().map(|p| p.as_str().to_owned()),
        }),
        Err(_) => None,
    }
}

/// Whether `origin` is an exact HTTPS origin: it parses as a URI with scheme `https` and
/// an authority, has no path beyond `/`, does not end with `/` and holds no `@`.
pub open spec fn origin_ok(origin: Seq<char>) -> bool {
    &&& spec_uri_parts(origin) matches Some((scheme, authority, pq))
    &&& scheme == Some("https"@)
    &&& authority
    &&& (pq is None || pq == Some("/"@))
    &&& !(origin.len() > 0 && origin.last() == '/')
    &&& !origin.contains('@')
}

fn text_is(s: &String, lit: &str) -> (r: bool)
    ensures
        r == (s@ == lit@),
{
    let a = chars_of(s.as_str());
    let b = chars_of(lit);
    proof {
        assert(a@.subrange(0, a@.len() as int) =~= a@);
    }
    crate::chars::slice_eq(&a, 0, a.len(), &b)
}

/// Checks the configured origin, which is never inferred from a request's Host.
pub fn valid_origin(origin: &str) -> (r: bool)
    ensures
        r == origin_ok(origin@),
{
    let parts = match uri_parts(origin) {
        Some(p) => p,
        None => return false,
    };
    let https = match &parts.scheme {
        Some(s) => text_is(s, "https"),
        None => false,
    };
    let path_ok = match &parts.path_and_query {
        Some(p) => text_is(p, "/"),
        None => true,
    };
    if !https || !parts.has_authority || !path_ok {
        return false;
    }
    let v = chars_of(origin);
    if v.len() > 0 && v[v.len() - 1] == '/' {
        return false;
    }
    !crate::chars::contains_char(&v, '@')
}

} // verus!
