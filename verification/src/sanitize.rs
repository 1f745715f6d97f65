//! URL normalization and sanitization.
//!
//! A raw string is given a scheme if it lacks one (`https://` by default),
//! parsed structurally, stripped of every query pair whose key is a tracking
//! key, and re-serialized. The remaining pairs are re-encoded as
//! `application/x-www-form-urlencoded` and set as the query even when none
//! remain, so a URL whose pairs were all stripped ends in an explicit empty
//! query (a trailing `?`).

use crate::query;
use crate::text;
use crate::urlops;
use vstd::prelude::*;
use vstd::string::StringExecFns;

verus! {

/// Why an input was rejected.
#[derive(Debug)]
pub enum UrlError {
    /// The input, after scheme defaulting, is not a well-formed URL; carries
    /// the offending string.
    Invalid(String),
}

/// Scheme defaulting: an input without an explicit `http://`/`https://`
/// prefix is taken to mean secure transport.
pub open spec fn spec_with_scheme(s: Seq<char>) -> Seq<char> {
    if text::has_prefix(s, "http://"@) || text::has_prefix(s, "https://"@) {
        s
    } else {
        "https://"@ + s
    }
}

/// Whether sanitization succeeds: the input must parse once a scheme is there.
pub open spec fn spec_sanitize_ok(s: Seq<char>) -> bool {
    urlops::parse_ok(spec_with_scheme(s))
}

/// The sanitized URL's text: the parsed URL's serialization with its query
/// replaced by the re-encoding of the surviving pairs.
pub open spec fn spec_sanitized(s: Seq<char>) -> Seq<char> {
    let t = spec_with_scheme(s);
    text::replace_query(
        urlops::parsed_ser(t),
        urlops::form_encode(query::keep_pairs(urlops::parsed_qpairs(t))),
    )
}

/// Prepends `https://` unless the input already names `http` or `https`.
pub fn with_scheme(raw: &str) -> (r: String)
    ensures
        r@ == spec_with_scheme(raw@),
{
    if text::str_has_prefix(raw, "http://") || text::str_has_prefix(raw, "https://") {
        raw.to_owned()
    } else {
        let mut r = String::from_str("https://");
        r.append(raw);
        r
    }
}

/// The scheme prefixes hold no query delimiter and begin as themselves.
proof fn lemma_scheme_prefix_chars()
    ensures
        "http://"@.len() == 7,
        "https://"@.len() == 8,
        forall|i: int| 0 <= i < 7 ==> !text::is_query_delim(#[trigger] "http://"@[i]),
        forall|i: int| 0 <= i < 8 ==> !text::is_query_delim(#[trigger] "https://"@[i]),
        forall|s: Seq<char>| text::has_prefix(#[trigger] ("https://"@ + s), "https://"@),
{
    reveal_strlit("http://");
    reveal_strlit("https://");
    assert forall|s: Seq<char>| text::has_prefix(#[trigger] ("https://"@ + s), "https://"@) by {
        assert("https://"@ =~= ("https://"@ + s).subrange(0, 8));
    }
}

/// Normalizes and sanitizes a raw URL string.
///
/// On success the result is the input, scheme-defaulted, parsed, stripped of
/// tracking query pairs, and re-serialized; it always carries an explicit
/// `http://` or `https://` prefix, `https://` whenever the input did not ask
/// for plain `http://`; and sanitizing it again gives it back unchanged. An
/// input that does not parse even after scheme defaulting is rejected, and
/// the error carries the string that failed to parse.
pub fn sanitize(raw: &str) -> (r: Result<String, UrlError>)
    ensures
        r is Ok <==> spec_sanitize_ok(raw@),
        r matches Ok(out) ==> out@ == spec_sanitized(raw@),
        r matches Ok(out) ==> text::has_prefix(out@, "http://"@) || text::has_prefix(
            out@,
            "https://"@,
        ),
        r matches Ok(out) ==> (!text::has_prefix(raw@, "http://"@) ==> text::has_prefix(
            out@,
            "https://"@,
        )),
        r matches Ok(out) ==> spec_sanitize_ok(out@) && spec_sanitized(out@) == out@,
        r matches Err(e) ==> (e matches UrlError::Invalid(m) && m@ == spec_with_scheme(raw@)),
{
    let t = with_scheme(raw);
    proof {
        lemma_scheme_prefix_chars();
    }
    assert(text::has_prefix(t@, "http://"@) || text::has_prefix(t@, "https://"@));
    match urlops::parse_url(t.as_str()) {
        Err(_) => Err(UrlError::Invalid(t)),
        Ok(mut u) => {
            let ghost ser0 = urlops::url_ser(u);
            let pairs = urlops::query_pairs_vec(&u);
            let kept = query::filter_tracking(&pairs);
            let q = urlops::encode_query(&kept);
            urlops::set_query(&mut u, q.as_str());
            let out = urlops::url_string(&u);
            proof {
                let ghost keptv = query::keep_pairs(urlops::parsed_qpairs(t@));
                assert(out@ == text::replace_query(ser0, q@));
                assert(out@ == spec_sanitized(raw@));
                // the scheme prefix survives the query replacement
                if text::has_prefix(t@, "https://"@) {
                    text::lemma_replace_query_prefix(ser0, q@, "https://"@);
                } else {
                    text::lemma_replace_query_prefix(ser0, q@, "http://"@);
                }
                // an input without the `http://` prefix was given, or already
                // had, the `https://` one
                if !text::has_prefix(raw@, "http://"@) && !text::has_prefix(t@, "https://"@) {
                    assert(text::has_prefix(raw@, "https://"@));
                    assert(false);
                }
                // idempotence: sanitizing `out` changes nothing
                assert(spec_with_scheme(out@) == out@);
                assert(urlops::parsed_qpairs(out@) == keptv);
                query::lemma_keep_pairs_idempotent(urlops::parsed_qpairs(t@));
                assert(query::keep_pairs(urlops::parsed_qpairs(out@)) == keptv);
                assert forall|i: int| 0 <= i < q@.len() implies q@[i] != '#' by {
                    text::lemma_query_safe_not_delim(q@[i]);
                }
                text::lemma_replace_query_idempotent(ser0, q@);
                assert(spec_sanitized(out@) == out@);
            }
            Ok(out)
        },
    }
}

} // verus!
