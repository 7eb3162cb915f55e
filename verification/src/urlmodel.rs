//! Trusted adapter around the `url` crate: the parsed URL type, its
//! component getters and setters, and query-pair decoding.  Each item
//! wraps exactly one `url` crate function; everything above these
//! wrappers is verified.
//!
//! Every operation of the `url` crate used here is a deterministic
//! function of the URL's serialization and the plain arguments: a `Url`
//! value holds its serialization together with indices derived from it,
//! and the crate's own equality compares the serialization alone.  The
//! adapter therefore names the serialization a parsed URL holds
//! (`url_str`) and names each operation's result over it, so that the
//! verified layers can tie their outputs to the URL they were given.

use vstd::prelude::*;

verus! {

#[verifier::external_type_specification]
#[verifier::external_body]
pub struct ExUrl(url::Url);

/// The serialization a parsed URL value holds: what `Url::as_str`
/// returns.  Every wrapper of this adapter speaks of it.
pub uninterp spec fn url_str(u: url::Url) -> Seq<char>;

/// The serialization that parsing a text yields, if it is a valid
/// absolute URL (`Url::parse`).
pub uninterp spec fn parse_of(s: Seq<char>) -> Option<Seq<char>>;

/// The scheme of a URL with the given serialization (`Url::scheme`).
pub uninterp spec fn scheme_of(s: Seq<char>) -> Seq<char>;

/// The host, if any (`Url::host_str`).
pub uninterp spec fn host_of(s: Seq<char>) -> Option<Seq<char>>;

/// The username, possibly empty (`Url::username`).
pub uninterp spec fn user_of(s: Seq<char>) -> Seq<char>;

/// The password, if one is set (`Url::password`).
pub uninterp spec fn password_of(s: Seq<char>) -> Option<Seq<char>>;

/// The explicit port, if present in the serialization (`Url::port`).
pub uninterp spec fn port_of(s: Seq<char>) -> Option<u16>;

/// The path, possibly empty (`Url::path`).
pub uninterp spec fn path_of(s: Seq<char>) -> Seq<char>;

/// The raw query string, if a `?` is present (`Url::query`).
pub uninterp spec fn query_of(s: Seq<char>) -> Option<Seq<char>>;

/// The fragment, if a `#` is present (`Url::fragment`).
pub uninterp spec fn fragment_of(s: Seq<char>) -> Option<Seq<char>>;

/// The serialization after installing a literal fragment
/// (`Url::set_fragment`; infallible).
pub uninterp spec fn set_fragment_of(s: Seq<char>, v: Seq<char>) -> Seq<char>;

/// The serialization after installing a literal query string
/// (`Url::set_query`; infallible).
pub uninterp spec fn set_query_of(s: Seq<char>, v: Seq<char>) -> Seq<char>;

/// The serialization after installing a path (`Url::set_path`;
/// infallible, percent-encodes as needed).
pub uninterp spec fn set_path_of(s: Seq<char>, v: Seq<char>) -> Seq<char>;

/// The serialization after setting the host, or `None` where the crate
/// rejects the value (`Url::set_host`).
pub uninterp spec fn set_host_of(s: Seq<char>, v: Seq<char>) -> Option<Seq<char>>;

/// The serialization after setting the password, or `None` where the
/// crate rejects it (`Url::set_password`).
pub uninterp spec fn set_password_of(s: Seq<char>, v: Seq<char>) -> Option<Seq<char>>;

/// The serialization after setting an explicit port, or `None` where
/// the crate rejects it (`Url::set_port`).
pub uninterp spec fn set_port_of(s: Seq<char>, p: u16) -> Option<Seq<char>>;

/// The serialization after changing the scheme, or `None` where the
/// crate rejects the change (`Url::set_scheme`).
pub uninterp spec fn set_scheme_of(s: Seq<char>, v: Seq<char>) -> Option<Seq<char>>;

/// The serialization after setting the username, or `None` where the
/// crate rejects it (`Url::set_username`).
pub uninterp spec fn set_username_of(s: Seq<char>, v: Seq<char>) -> Option<Seq<char>>;

/// The key/value pairs that `application/x-www-form-urlencoded` parsing
/// yields for a raw query string: split on `&`, empty sequences skipped,
/// each sequence split on the first `=`, names and values decoded with
/// `+` as space and percent-escapes as UTF-8 bytes.
pub uninterp spec fn decoded_pairs(q: Seq<char>) -> Seq<(Seq<char>, Seq<char>)>;

/// Relies on `url::Url::parse`: returns `Ok` exactly when the input is
/// a valid absolute URL, and parsing is a function of the text alone.
#[verifier::external_body]
pub(crate) fn url_parse(s: &str) -> (r: Result<url::Url, ()>)
    ensures
        r is Ok <==> parse_of(s@) is Some,
        r matches Ok(u) ==> parse_of(s@) == Some(url_str(u)),
{
    match url::Url::parse(s) {
        Ok(u) => Ok(u),
        Err(_) => Err(()),
    }
}

/// Relies on `url::Url::as_str`: the serialization of the URL.
#[verifier::external_body]
pub(crate) fn url_full(u: &url::Url) -> (r: String)
    ensures
        r@ == url_str(*u),
{
    u.as_str().to_owned()
}

/// Relies on `url::Url::scheme`: the scheme, lower-cased, without `:`;
/// never empty on a parsed URL.
#[verifier::external_body]
pub(crate) fn url_scheme(u: &url::Url) -> (r: String)
    ensures
        r@ == scheme_of(url_str(*u)),
        r@.len() > 0,
{
    u.scheme().to_owned()
}

/// Relies on `url::Url::host_str`: the host, if the URL has one.
#[verifier::external_body]
pub(crate) fn url_host(u: &url::Url) -> (r: Option<String>)
    ensures
        r.deep_view() == host_of(url_str(*u)),
{
    match u.host_str() {
        Some(h) => Some(h.to_owned()),
        None => None,
    }
}

/// Relies on `url::Url::username`: the username, possibly empty.
#[verifier::external_body]
pub(crate) fn url_username(u: &url::Url) -> (r: String)
    ensures
        r@ == user_of(url_str(*u)),
{
    u.username().to_owned()
}

/// Relies on `url::Url::password`: the password, if one was set.
#[verifier::external_body]
pub(crate) fn url_password(u: &url::Url) -> (r: Option<String>)
    ensures
        r.deep_view() == password_of(url_str(*u)),
{
    match u.password() {
        Some(p) => Some(p.to_owned()),
        None => None,
    }
}

/// Relies on `url::Url::port`: the explicit port, if one is present in
/// the serialization (never a scheme's default port).
#[verifier::external_body]
pub(crate) fn url_port(u: &url::Url) -> (r: Option<u16>)
    ensures
        r == port_of(url_str(*u)),
{
    u.port()
}

/// Relies on `url::Url::path`: the path, possibly empty.
#[verifier::external_body]
pub(crate) fn url_path(u: &url::Url) -> (r: String)
    ensures
        r@ == path_of(url_str(*u)),
{
    u.path().to_owned()
}

/// Relies on `url::Url::query`: the raw query string, if a `?` was
/// present.
#[verifier::external_body]
pub(crate) fn url_query(u: &url::Url) -> (r: Option<String>)
    ensures
        r.deep_view() == query_of(url_str(*u)),
{
    match u.query() {
        Some(q) => Some(q.to_owned()),
        None => None,
    }
}

/// Relies on `url::Url::fragment`: the fragment, if a `#` was present.
#[verifier::external_body]
pub(crate) fn url_fragment(u: &url::Url) -> (r: Option<String>)
    ensures
        r.deep_view() == fragment_of(url_str(*u)),
{
    match u.fragment() {
        Some(f) => Some(f.to_owned()),
        None => None,
    }
}

/// Relies on `url::form_urlencoded::parse`: decodes a raw query string
/// into its key/value pairs, a function of the characters alone; an
/// empty input yields no pairs.
#[verifier::external_body]
pub(crate) fn decode_query_pairs(q: &str) -> (r: Vec<(String, String)>)
    ensures
        r.deep_view() == decoded_pairs(q@),
        q@.len() == 0 ==> r@.len() == 0,
{
    url::form_urlencoded::parse(q.as_bytes())
        .into_owned()
        .collect()
}

/// Relies on `url::Url::set_fragment`: installs the literal fragment;
/// infallible.
#[verifier::external_body]
pub(crate) fn url_set_fragment(u: &mut url::Url, value: &str)
    ensures
        url_str(*final(u)) == set_fragment_of(url_str(*old(u)), value@),
{
    u.set_fragment(Some(value));
}

/// Relies on `url::Url::set_query`: installs the literal query string;
/// infallible.
#[verifier::external_body]
pub(crate) fn url_set_query(u: &mut url::Url, value: &str)
    ensures
        url_str(*final(u)) == set_query_of(url_str(*old(u)), value@),
{
    u.set_query(Some(value));
}

/// Relies on `url::Url::set_path`: installs the path, percent-encoding
/// as needed; infallible.
#[verifier::external_body]
pub(crate) fn url_set_path(u: &mut url::Url, value: &str)
    ensures
        url_str(*final(u)) == set_path_of(url_str(*old(u)), value@),
{
    u.set_path(value);
}

/// Relies on `url::Url::set_host`: fails on invalid host syntax, on an
/// empty host for a special scheme, or on a cannot-be-a-base URL; every
/// error path returns before mutating.
#[verifier::external_body]
pub(crate) fn url_set_host(u: &mut url::Url, value: &str) -> (r: Result<(), ()>)
    ensures
        r is Ok <==> set_host_of(url_str(*old(u)), value@) is Some,
        r is Ok ==> Some(url_str(*final(u))) == set_host_of(url_str(*old(u)), value@),
        r is Err ==> *final(u) == *old(u),
{
    match u.set_host(Some(value)) {
        Ok(()) => Ok(()),
        Err(_) => Err(()),
    }
}

/// Relies on `url::Url::set_password`: fails on a URL without a host,
/// with an empty host, or with the `file` scheme; the error path
/// returns before mutating.
#[verifier::external_body]
pub(crate) fn url_set_password(u: &mut url::Url, value: &str) -> (r: Result<(), ()>)
    ensures
        r is Ok <==> set_password_of(url_str(*old(u)), value@) is Some,
        r is Ok ==> Some(url_str(*final(u))) == set_password_of(url_str(*old(u)), value@),
        r is Err ==> *final(u) == *old(u),
{
    u.set_password(Some(value))
}

/// Relies on `url::Url::set_port`: fails on a URL without a host, with
/// an empty host, or with the `file` scheme; the error path returns
/// before mutating.
#[verifier::external_body]
pub(crate) fn url_set_port(u: &mut url::Url, port: u16) -> (r: Result<(), ()>)
    ensures
        r is Ok <==> set_port_of(url_str(*old(u)), port) is Some,
        r is Ok ==> Some(url_str(*final(u))) == set_port_of(url_str(*old(u)), port),
        r is Err ==> *final(u) == *old(u),
{
    u.set_port(Some(port))
}

/// Relies on `url::Url::set_scheme`: fails on invalid scheme syntax or
/// on a scheme change the crate does not permit (special to
/// non-special and the like); every error path returns before
/// mutating.
#[verifier::external_body]
pub(crate) fn url_set_scheme(u: &mut url::Url, value: &str) -> (r: Result<(), ()>)
    ensures
        r is Ok <==> set_scheme_of(url_str(*old(u)), value@) is Some,
        r is Ok ==> Some(url_str(*final(u))) == set_scheme_of(url_str(*old(u)), value@),
        r is Err ==> *final(u) == *old(u),
{
    u.set_scheme(value)
}

/// Relies on `url::Url::set_username`: fails on a URL without a host,
/// with an empty host, or with the `file` scheme; the error path
/// returns before mutating.
#[verifier::external_body]
pub(crate) fn url_set_username(u: &mut url::Url, value: &str) -> (r: Result<(), ()>)
    ensures
        r is Ok <==> set_username_of(url_str(*old(u)), value@) is Some,
        r is Ok ==> Some(url_str(*final(u))) == set_username_of(url_str(*old(u)), value@),
        r is Err ==> *final(u) == *old(u),
{
    u.set_username(value)
}

} // verus!
