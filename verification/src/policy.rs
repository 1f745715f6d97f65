//! The transport gate and the fixed client policy: secure transport by
//! default, a warning where plain HTTP was asked for, and one set of knobs
//! for every request.

use crate::text;
use vstd::prelude::*;
use vstd::string::StringExecFns;

verus! {

/// What the transport gate decides for a sanitized URL.
#[derive(PartialEq, Eq, Structural, Debug, Clone, Copy)]
pub enum GateDecision {
    /// Secure scheme: the fetch may proceed silently.
    Proceed,
    /// Plain HTTP, explicitly allowed: proceed, but a warning is owed first.
    ProceedInsecure,
    /// Plain HTTP without the override: the fetch must not happen.
    Blocked,
}

/// Specification of `transport_gate`.
pub open spec fn spec_gate(url: Seq<char>, allow_insecure: bool) -> GateDecision {
    if text::has_prefix(url, "http://"@) {
        if allow_insecure {
            GateDecision::ProceedInsecure
        } else {
            GateDecision::Blocked
        }
    } else {
        GateDecision::Proceed
    }
}

/// The transport gate: a plain `http://` target is blocked unless the caller
/// explicitly allowed insecure transport, and even then a warning is owed.
pub fn transport_gate(url: &str, allow_insecure: bool) -> (d: GateDecision)
    ensures
        d == spec_gate(url@, allow_insecure),
{
    if text::str_has_prefix(url, "http://") {
        if allow_insecure {
            GateDecision::ProceedInsecure
        } else {
            GateDecision::Blocked
        }
    } else {
        GateDecision::Proceed
    }
}

/// The fixed, non-tunable part of the client configuration.
pub struct RequestPolicy {
    pub timeout_secs: u64,
    pub max_redirects: u64,
    pub verify_tls: bool,
    pub user_agent: String,
    pub accept: String,
    pub connection: String,
}

/// The one policy every request is issued under: a 10 second timeout, at most
/// 5 redirect hops, mandatory TLS verification, a fixed user agent, and the
/// fixed `Accept` / `Connection` request headers.
pub open spec fn policy_fixed(p: RequestPolicy) -> bool {
    &&& p.timeout_secs == 10
    &&& p.max_redirects == 5
    &&& p.verify_tls
    &&& p.user_agent@ == "curl/8.0"@
    &&& p.accept@ == "text/plain"@
    &&& p.connection@ == "close"@
}

/// Builds the fixed request policy.
pub fn request_policy() -> (p: RequestPolicy)
    ensures
        policy_fixed(p),
{
    RequestPolicy {
        timeout_secs: 10,
        max_redirects: 5,
        verify_tls: true,
        user_agent: String::from_str("curl/8.0"),
        accept: String::from_str("text/plain"),
        connection: String::from_str("close"),
    }
}

} // verus!
