//! The URL parser of the `url` crate, seen through plain values.

use vstd::prelude::*;

verus! {

/// Whether `url::Url::parse` accepts the text.
pub uninterp spec fn url_parses(s: Seq<char>) -> bool;

/// `Url::host_str` of the parsed text.
pub uninterp spec fn url_host(s: Seq<char>) -> Option<Seq<char>>;

/// `Url::domain` of the parsed text.
pub uninterp spec fn url_domain(s: Seq<char>) -> Option<Seq<char>>;

/// `Url::path` of the parsed text.
pub uninterp spec fn url_path(s: Seq<char>) -> Seq<char>;

/// `Url::query` of the parsed text.
pub uninterp spec fn url_query(s: Seq<char>) -> Option<Seq<char>>;

/// `Url::query_pairs` of the parsed text: the decoded key/value pairs.
pub uninterp spec fn url_query_pairs(s: Seq<char>) -> Seq<(Seq<char>, Seq<char>)>;

/// `Url::as_str` of the parsed text: its serialization.
pub uninterp spec fn url_serialization(s: Seq<char>) -> Seq<char>;

/// The serialization of the parsed text after `Url::set_query(None)`.
pub uninterp spec fn url_without_query(s: Seq<char>) -> Seq<char>;

/// The serialization of the parsed text after its query is cleared with
/// `query_pairs_mut().clear()` and the pairs are added with `append_pair`.
pub uninterp spec fn url_with_query_pairs(s: Seq<char>, pairs: Seq<(Seq<char>, Seq<char>)>) -> Seq<char>;

/// The serialization of the parsed base after `Url::set_path(path)` and
/// `query_pairs_mut().append_pair(key, value)`.
pub uninterp spec fn url_with_path_and_pair(base: Seq<char>, path: Seq<char>, key: Seq<char>, value: Seq<char>) -> Seq<char>;

/// The parts of a parsed URL that this crate reads.
pub struct ParsedUrl {
    pub serialized: String,
    pub host: Option<String>,
    pub domain: Option<String>,
    pub path: String,
    pub query: Option<String>,
    pub query_pairs: Vec<(String, String)>,
}

/// Parses `s` with `url::Url::parse` and reads its serialization
/// (`Url::as_str`), host (`Url::host_str`), domain (`Url::domain`), path
/// (`Url::path`), query (`Url::query`) and decoded query pairs
/// (`Url::query_pairs`). The contract claims that the result is present
/// exactly when the parser accepts the text, and names every part as a
/// function of the text; nothing is stated of how the parser reads it.
#[verifier::external_body]
pub(crate) fn parse_url(s: &str) -> (r: Option<ParsedUrl>)
    ensures
        r is Some <==> url_parses(s@),
        r matches Some(p) ==> {
            &&& p.serialized@ == url_serialization(s@)
            &&& p.host.deep_view() == url_host(s@)
            &&& p.domain.deep_view() == url_domain(s@)
            &&& p.path@ == url_path(s@)
            &&& p.query.deep_view() == url_query(s@)
            &&& p.query_pairs.deep_view() == url_query_pairs(s@)
        },
{
    url::Url::parse(s).ok().map(|u| ParsedUrl {
        serialized: u.as_str().to_string(),
        host: u.host_str().map(|h| h.to_string()),
        domain: u.domain().map(|d| d.to_string()),
        path: u.path().to_string(),
        query: u.query().map(|q| q.to_string()),
        query_pairs: u.query_pairs().map(|(k, v)| (k.into_owned(), v.into_owned())).collect(),
    })
}

/// Parses `s` and serializes it again after `Url::set_query(None)`. The
/// contract names the result as a function of the text.
#[verifier::external_body]
pub(crate) fn url_clear_query(s: &str) -> (r: String)
    requires
        url_parses(s@),
    ensures
        r@ == url_without_query(s@),
{
    let mut u = url::Url::parse(s).unwrap();
    u.set_query(None);
    u.as_str().to_string()
}

/// Parses `s`, clears its query with `query_pairs_mut().clear()`, adds each
/// pair with `query_pairs_mut().append_pair`, and serializes the result. The
/// contract names the result as a function of the text and the pairs.
#[verifier::external_body]
pub(crate) fn url_replace_query(s: &str, pairs: &Vec<(String, String)>) -> (r: String)
    requires
        url_parses(s@),
    ensures
        r@ == url_with_query_pairs(s@, pairs.deep_view()),
{
    let mut u = url::Url::parse(s).unwrap();
    u.query_pairs_mut().clear();
    for (k, v) in pairs {
        u.query_pairs_mut().append_pair(k, v);
    }
    u.as_str().to_string()
}

/// Parses `base`, sets its path with `Url::set_path` and adds one query pair
/// with `query_pairs_mut().append_pair`; `None` when `base` does not parse.
/// The contract names the result as a function of the four texts.
#[verifier::external_body]
pub(crate) fn url_with_path_param(base: &str, path: &str, key: &str, value: &str) -> (r: Option<String>)
    ensures
        r is Some <==> url_parses(base@),
        r matches Some(u) ==> u@ == url_with_path_and_pair(base@, path@, key@, value@),
{
    let mut u = url::Url::parse(base).ok()?;
    u.set_path(path);
    u.query_pairs_mut().append_pair(key, value);
    Some(u.as_str().to_string())
}

} // verus!
