//! The upstream URL, held as its serialization. Every operation on it is made by
//! the `url` crate; the names below stand for what that crate computes.

use vstd::prelude::*;

verus! {

/// The serialization of `url::Url::parse(input)`, or `None` where the crate refuses `input`.
pub uninterp spec fn url_parse(input: Seq<char>) -> Option<Seq<char>>;

/// `Url::scheme` of the URL that `url::Url::parse` reads from `href`; `None` where it reads none.
pub uninterp spec fn url_scheme(href: Seq<char>) -> Option<Seq<char>>;

/// `Url::host_str` of the URL that `url::Url::parse` reads from `href`; `None` where it reads none.
pub uninterp spec fn url_host_str(href: Seq<char>) -> Option<Option<Seq<char>>>;

/// The serialization after `Url::set_host(Some(host))` on the URL read from `href`;
/// `None` where `href` does not parse or the crate refuses the host.
pub uninterp spec fn url_set_host(href: Seq<char>, host: Seq<char>) -> Option<Seq<char>>;

/// `Url::path` of the URL read from `href`; `None` where it reads none.
pub uninterp spec fn url_path(href: Seq<char>) -> Option<Seq<char>>;

/// The serialization after `Url::set_path(path)` on the URL read from `href`;
/// `None` where `href` does not parse.
pub uninterp spec fn url_set_path(href: Seq<char>, path: Seq<char>) -> Option<Seq<char>>;

/// The serialization after `Url::set_query(query)` on the URL read from `href`;
/// `None` where `href` does not parse.
pub uninterp spec fn url_set_query(href: Seq<char>, query: Option<Seq<char>>) -> Option<Seq<char>>;

/// The text of the error that `url::Url::parse` gives for `input`.
pub uninterp spec fn url_parse_error(input: Seq<char>) -> Seq<char>;

/// The text of the error met when setting `host` as host of the URL read from
/// `href`: the error of `url::Url::parse(href)`, else that of `Url::set_host`.
pub uninterp spec fn url_set_host_error(href: Seq<char>, host: Seq<char>) -> Seq<char>;

/// The most characters that a URL text and the value set into it may hold
/// together. The `url` crate stores offsets as `u32` and panics when an edited
/// serialization passes `u32::MAX` bytes; each character of input grows to at most
/// a few hundred bytes (UTF-8, percent-encoding, IDNA mapping and punycode), so
/// within this bound no edit reaches that size.
pub const URL_INPUT_LIMIT: usize = 1048576;

/// The URL text and the value set into it are short enough for the `url` crate to edit.
pub open spec fn url_edit_fits(href: Seq<char>, value_len: int) -> bool {
    href.len() + value_len <= URL_INPUT_LIMIT
}

/// Calls `url::Url::parse` and gives back the serialization (`Url::as_str`) of the
/// result. Claimed: success exactly where `url_parse` is `Some`, and then that value.
/// On failure the error's text (`to_string`) is handed back, named `url_parse_error`.
#[verifier::external_body]
pub(crate) fn parse_url(input: &str) -> (r: Result<String, String>)
    ensures
        r is Ok <==> url_parse(input@) is Some,
        r matches Ok(href) ==> url_parse(input@) == Some(href@),
        r matches Err(t) ==> t@ == url_parse_error(input@),
{
    match url::Url::parse(input) {
        Ok(u) => Ok(String::from(u)),
        Err(e) => Err(e.to_string()),
    }
}

/// Reads `href` with `url::Url::parse` and calls `Url::scheme` on it. Claimed: the
/// result is `url_scheme(href)`.
#[verifier::external_body]
pub(crate) fn scheme_of(href: &str) -> (r: Option<String>)
    ensures
        r is Some <==> url_scheme(href@) is Some,
        r matches Some(s) ==> url_scheme(href@) == Some(s@),
{
    match url::Url::parse(href) {
        Ok(u) => Some(u.scheme().to_string()),
        Err(_) => None,
    }
}

/// Reads `href` with `url::Url::parse` and calls `Url::host_str` on it. Claimed: the
/// result is `url_host_str(href)`.
#[verifier::external_body]
pub(crate) fn host_of(href: &str) -> (r: Option<Option<String>>)
    ensures
        r is Some <==> url_host_str(href@) is Some,
        r matches Some(Some(h)) ==> url_host_str(href@) == Some(Some(h@)),
        r matches Some(None) ==> url_host_str(href@) == Some(None::<Seq<char>>),
{
    match url::Url::parse(href) {
        Ok(u) => Some(u.host_str().map(|h| h.to_string())),
        Err(_) => None,
    }
}

/// Reads `href` with `url::Url::parse`, calls `Url::set_host(Some(host))` and gives
/// back the new serialization. Claimed: success exactly where `url_set_host` is
/// `Some`, and then that value; on failure the error's text, named
/// `url_set_host_error`. Admitted only where `url_edit_fits`, as the crate panics
/// on a serialization past `u32::MAX` bytes.
#[verifier::external_body]
pub(crate) fn with_host(href: &str, host: &str) -> (r: Result<String, String>)
    requires
        url_edit_fits(href@, host@.len() as int),
    ensures
        r matches Err(t) ==> t@ == url_set_host_error(href@, host@),
        r is Ok <==> url_set_host(href@, host@) is Some,
        r matches Ok(h) ==> url_set_host(href@, host@) == Some(h@),
{
    match url::Url::parse(href) {
        Ok(mut u) => match u.set_host(Some(host)) {
            Ok(()) => Ok(String::from(u)),
            Err(e) => Err(e.to_string()),
        },
        Err(e) => Err(e.to_string()),
    }
}

/// Reads `href` with `url::Url::parse` and calls `Url::path` on it. Claimed: the
/// result is `url_path(href)`.
#[verifier::external_body]
pub(crate) fn path_of(href: &str) -> (r: Option<String>)
    ensures
        r is Some <==> url_path(href@) is Some,
        r matches Some(p) ==> url_path(href@) == Some(p@),
{
    match url::Url::parse(href) {
        Ok(u) => Some(u.path().to_string()),
        Err(_) => None,
    }
}

/// Reads `href` with `url::Url::parse`, calls `Url::set_path(path)` and gives back the
/// new serialization. Claimed: the result is `url_set_path(href, path)`. Admitted
/// only where `url_edit_fits`.
#[verifier::external_body]
pub(crate) fn with_path(href: &str, path: &str) -> (r: Option<String>)
    requires
        url_edit_fits(href@, path@.len() as int),
    ensures
        r is Some <==> url_set_path(href@, path@) is Some,
        r matches Some(h) ==> url_set_path(href@, path@) == Some(h@),
{
    match url::Url::parse(href) {
        Ok(mut u) => {
            u.set_path(path);
            Some(String::from(u))
        },
        Err(_) => None,
    }
}

/// The view of an optional string.
pub open spec fn opt_view(s: Option<&str>) -> Option<Seq<char>> {
    match s {
        Some(q) => Some(q@),
        None => None,
    }
}

/// The length of an optional string, zero for none.
pub open spec fn opt_len(s: Option<&str>) -> int {
    match s {
        Some(q) => q@.len() as int,
        None => 0,
    }
}

/// Reads `href` with `url::Url::parse`, calls `Url::set_query(query)` and gives back
/// the new serialization. Claimed: the result is `url_set_query(href, query)`.
/// Admitted only where `url_edit_fits`.
#[verifier::external_body]
pub(crate) fn with_query(href: &str, query: Option<&str>) -> (r: Option<String>)
    requires
        url_edit_fits(href@, opt_len(query)),
    ensures
        r is Some <==> url_set_query(href@, opt_view(query)) is Some,
        r matches Some(h) ==> url_set_query(href@, opt_view(query)) == Some(h@),
{
    match url::Url::parse(href) {
        Ok(mut u) => {
            u.set_query(query);
            Some(String::from(u))
        },
        Err(_) => None,
    }
}

} // verus!

verus! {

/// The number of characters in `s`.
pub fn char_count(s: &str) -> (n: usize)
    ensures
        n == s@.len(),
{
    s.unicode_len()
}

/// Whether `href` and a value of `value_len` characters are short enough to edit.
pub fn edit_fits(href: &str, value_len: usize) -> (b: bool)
    ensures
        b == url_edit_fits(href@, value_len as int),
{
    let n = char_count(href);
    n <= URL_INPUT_LIMIT && value_len <= URL_INPUT_LIMIT - n
}

} // verus!
