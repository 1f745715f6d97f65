//! The trusted boundary to the `url` crate.
//!
//! The library never rebuilds URL parsing or form-urlencoding: it calls the
//! `url` crate and believes, of each call, only what that crate's source and
//! documentation show. A parsed URL is opaque here; what the sanitizer reads
//! of it is named by uninterpreted spec functions: the URL's serialization,
//! and its decoded query pairs.

use crate::query::{pairs_view, SpecPair};
use crate::text;
use vstd::prelude::*;

verus! {

#[verifier::external_type_specification]
#[verifier::external_body]
pub struct ExUrl(url::Url);

#[verifier::external_type_specification]
#[verifier::external_body]
pub struct ExParseError(url::ParseError);

/// Whether `url::Url::parse` accepts `s`.
pub uninterp spec fn parse_ok(s: Seq<char>) -> bool;

/// The serialization of the URL that `url::Url::parse` builds from `s`.
pub uninterp spec fn parsed_ser(s: Seq<char>) -> Seq<char>;

/// The decoded query pairs of the URL that `url::Url::parse` builds from `s`.
pub uninterp spec fn parsed_qpairs(s: Seq<char>) -> Seq<SpecPair>;

/// The serialization a `url::Url` value holds.
pub uninterp spec fn url_ser(u: url::Url) -> Seq<char>;

/// The decoded query pairs a `url::Url` value holds.
pub uninterp spec fn url_qpairs(u: url::Url) -> Seq<SpecPair>;

/// What `url::form_urlencoded::Serializer` writes for a pair sequence.
pub uninterp spec fn form_encode(ps: Seq<SpecPair>) -> Seq<char>;

/// What `url::form_urlencoded`'s parser decodes a query string to.
pub uninterp spec fn form_decode(q: Seq<char>) -> Seq<SpecPair>;

/// Relies on `url::Url::parse`: it either parses `s` into a URL or says why
/// not, and the outcome is a function of `s` alone. The scheme is read,
/// lowercased, from the text before the first `:`, so an input that itself
/// begins with `http://` or `https://` parses, if at all, to a URL whose
/// serialization begins the same way.
#[verifier::external_body]
pub(crate) fn parse_url(s: &str) -> (r: Result<url::Url, url::ParseError>)
    ensures
        r is Ok <==> parse_ok(s@),
        r matches Ok(u) ==> url_ser(u) == parsed_ser(s@) && url_qpairs(u) == parsed_qpairs(s@),
        r matches Ok(u) ==> (text::has_prefix(s@, "http://"@) ==> text::has_prefix(
            url_ser(u),
            "http://"@,
        )),
        r matches Ok(u) ==> (text::has_prefix(s@, "https://"@) ==> text::has_prefix(
            url_ser(u),
            "https://"@,
        )),
{
    url::Url::parse(s)
}

/// Relies on `url::Url::query_pairs`: the URL's query, parsed as
/// `application/x-www-form-urlencoded` name/value pairs, percent-decoded, in
/// their order in the query.
#[verifier::external_body]
pub(crate) fn query_pairs_vec(u: &url::Url) -> (r: Vec<(String, String)>)
    ensures
        pairs_view(r@) == url_qpairs(*u),
{
    u.query_pairs().into_owned().collect()
}

/// Relies on `url::form_urlencoded::Serializer`: it writes the pairs as
/// `k1=v1&k2=v2` with percent-encoding, over the query-safe alphabet alone,
/// it writes nothing for no pairs, and `form_urlencoded`'s parser decodes its
/// output back to exactly the pairs given.
#[verifier::external_body]
pub(crate) fn encode_query(pairs: &Vec<(String, String)>) -> (q: String)
    ensures
        q@ == form_encode(pairs_view(pairs@)),
        form_decode(q@) == pairs_view(pairs@),
        text::query_safe(q@),
        pairs@.len() == 0 ==> q@ == Seq::<char>::empty(),
{
    url::form_urlencoded::Serializer::new(String::new()).extend_pairs(pairs.iter()).finish()
}

/// Relies on `url::Url::set_query` on an `http`/`https` URL: it splices `?`
/// followed by `q` between the URL's pre-query serialization and its
/// fragment; a query-safe `q` passes through its percent-encoding untouched,
/// and the new raw query is then exactly `q`, which `query_pairs` decodes
/// with `form_urlencoded`'s parser. Relies also on the crate's round-trip
/// guarantee: a URL's serialization parses back to that same URL.
#[verifier::external_body]
pub(crate) fn set_query(u: &mut url::Url, q: &str)
    requires
        text::query_safe(q@),
        text::has_prefix(url_ser(*old(u)), "http://"@) || text::has_prefix(
            url_ser(*old(u)),
            "https://"@,
        ),
    ensures
        url_ser(*final(u)) == text::replace_query(url_ser(*old(u)), q@),
        url_qpairs(*final(u)) == form_decode(q@),
        parse_ok(url_ser(*final(u))),
        parsed_ser(url_ser(*final(u))) == url_ser(*final(u)),
        parsed_qpairs(url_ser(*final(u))) == url_qpairs(*final(u)),
{
    u.set_query(Some(q));
}

/// Relies on `url::Url::as_str`: the URL's serialization, as stored.
#[verifier::external_body]
pub(crate) fn url_string(u: &url::Url) -> (r: String)
    ensures
        r@ == url_ser(*u),
{
    u.as_str().to_owned()
}

} // verus!
