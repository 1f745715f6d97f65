use purl::policy::{request_policy, transport_gate, GateDecision};
use purl::query::{denylist, key_in_list, key_is_tracking};

#[test]
fn insecure_gate_blocks_plain_http() {
    assert_eq!(transport_gate("http://example.com", false), GateDecision::Blocked);
}

#[test]
fn insecure_gate_override_warns_and_proceeds() {
    assert_eq!(transport_gate("http://example.com", true), GateDecision::ProceedInsecure);
}

#[test]
fn secure_url_proceeds_silently() {
    assert_eq!(transport_gate("https://example.com", false), GateDecision::Proceed);
    assert_eq!(transport_gate("https://example.com", true), GateDecision::Proceed);
}

#[test]
fn fixed_request_policy() {
    let p = request_policy();
    assert_eq!(p.timeout_secs, 10);
    assert_eq!(p.max_redirects, 5);
    assert!(p.verify_tls);
    assert_eq!(p.user_agent, "curl/8.0");
    assert_eq!(p.accept, "text/plain");
    assert_eq!(p.connection, "close");
}

#[test]
fn denylisted_keys_are_tracking() {
    assert!(key_is_tracking("fbclid"));
    assert!(key_is_tracking("gclid"));
    assert!(key_is_tracking("mc_cid"));
    assert!(key_is_tracking("mc_eid"));
    assert!(key_is_tracking("ref"));
    assert!(key_is_tracking("trk"));
    assert!(key_is_tracking("aff"));
    assert!(key_is_tracking("igshid"));
    assert!(key_is_tracking("scid"));
    assert!(key_is_tracking("utm_source"));
    assert!(key_is_tracking("utm_"));
    assert!(key_is_tracking("UTM_Medium"));
    assert!(key_is_tracking("REF"));
}

#[test]
fn denylist_membership_with_extensions() {
    let extended = vec![String::from("fbclid"), String::from("internal_id")];
    assert!(key_in_list("fbclid", &extended));
    assert!(key_in_list("Internal_ID", &extended));
    assert!(!key_in_list("utm_source", &extended));
    assert!(!key_in_list("internal_id", &denylist()));
}

#[test]
fn ordinary_keys_are_not_tracking() {
    assert!(!key_is_tracking("utm"));
    assert!(!key_is_tracking("query"));
    assert!(!key_is_tracking("reff"));
    assert!(!key_is_tracking("affiliate"));
    assert!(!key_is_tracking(""));
}
