use purl::sanitize::{sanitize, UrlError};

#[test]
fn scheme_defaulting() {
    let out = sanitize("wttr.in").unwrap();
    assert!(out.starts_with("https://"));
    assert_eq!(out, "https://wttr.in/?");
}

#[test]
fn explicit_http_kept() {
    let out = sanitize("http://example.com/?a=1").unwrap();
    assert_eq!(out, "http://example.com/?a=1");
}

#[test]
fn tracking_parameters_removed_exactly() {
    let out = sanitize("https://example.com/?a=1&utm_source=x&fbclid=y&b=2").unwrap();
    assert_eq!(out, "https://example.com/?a=1&b=2");
}

#[test]
fn tracking_keys_case_insensitive() {
    let out = sanitize("https://example.com/?UTM_Source=x&FbClId=y&a=1").unwrap();
    assert_eq!(out, "https://example.com/?a=1");
}

#[test]
fn whole_denylist_dropped() {
    let out = sanitize(
        "https://example.com/?fbclid=1&gclid=2&mc_cid=3&mc_eid=4&ref=5&trk=6&aff=7&igshid=8&scid=9&keep=me",
    )
    .unwrap();
    assert_eq!(out, "https://example.com/?keep=me");
}

#[test]
fn non_tracking_preserved() {
    let out = sanitize("https://example.com/path?x=1&y=two&z=3").unwrap();
    assert_eq!(out, "https://example.com/path?x=1&y=two&z=3");
}

#[test]
fn port_path_and_fragment_preserved() {
    let out = sanitize("https://example.com:8080/p/q?utm_medium=m&a=1#frag").unwrap();
    assert_eq!(out, "https://example.com:8080/p/q?a=1#frag");
}

#[test]
fn all_pairs_stripped_leaves_explicit_empty_query() {
    let out = sanitize("https://example.com/?utm_source=x").unwrap();
    assert_eq!(out, "https://example.com/?");
}

#[test]
fn key_without_value_gets_equals_sign() {
    let out = sanitize("https://example.com/?flag").unwrap();
    assert_eq!(out, "https://example.com/?flag=");
}

#[test]
fn idempotent_on_tracking_query() {
    let once = sanitize("example.com/?utm_campaign=c&q=1").unwrap();
    let twice = sanitize(&once).unwrap();
    assert_eq!(once, twice);
}

#[test]
fn idempotent_on_bare_host() {
    let once = sanitize("wttr.in").unwrap();
    let twice = sanitize(&once).unwrap();
    assert_eq!(once, twice);
}

#[test]
fn invalid_input_rejected() {
    let r = sanitize("not a url at all???");
    match r {
        Err(UrlError::Invalid(m)) => assert_eq!(m, "https://not a url at all???"),
        Ok(out) => panic!("expected rejection, got {}", out),
    }
}

#[test]
fn empty_input_rejected() {
    assert!(matches!(sanitize(""), Err(UrlError::Invalid(_))));
}
