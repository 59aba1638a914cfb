//! Service-side request decisions: which requests need authorization, and
//! the authorization rule itself.
//!
//! Authorization works on the peer credentials the kernel reports for the
//! connected socket. Resolving a uid to a username reads the system's user
//! database, so the caller resolves and hands the result in; the decision
//! is taken here.

use vstd::prelude::*;
use crate::protocol::{Request, EnrollResponse, EnhanceResponse};

verus! {

/// The outcome of the peer check for an enroll or enhance request.
#[derive(Clone, Copy, PartialEq, Eq, Structural, Debug)]
pub enum AuthzDecision {
    /// The peer may run the request.
    Granted,
    /// The peer is a known user other than the request's subject.
    DeniedMismatch,
    /// The peer's uid could not be resolved to a username.
    DeniedUnknownUser,
}

/// Whether a request variant modifies enrollment state and therefore needs
/// the peer check. Authentication is open to every local user.
pub fn requires_authorization(r: &Request) -> (b: bool)
    ensures
        b == !(r@ is Authenticate),
{
    match r {
        Request::Authenticate(_) => false,
        Request::Enroll(_) => true,
        Request::Enhance(_) => true,
    }
}

/// The peer rule: root may enroll or enhance anyone; any other peer only
/// the user its own uid resolves to.
pub fn authorize_modification(
    peer_uid: u32,
    peer_username: &Option<String>,
    target_username: &String,
) -> (r: AuthzDecision)
    ensures
        peer_uid == 0 ==> r == AuthzDecision::Granted,
        peer_uid != 0 ==> match peer_username {
            Some(u) => (r == AuthzDecision::Granted <==> u@ == target_username@) && (u@
                != target_username@ ==> r == AuthzDecision::DeniedMismatch),
            None => r == AuthzDecision::DeniedUnknownUser,
        },
{
    if peer_uid == 0 {
        return AuthzDecision::Granted;
    }
    match peer_username {
        Some(u) => {
            if *u == *target_username {
                AuthzDecision::Granted
            } else {
                AuthzDecision::DeniedMismatch
            }
        },
        None => AuthzDecision::DeniedUnknownUser,
    }
}

/// The terminal response for an enroll request the peer may not run.
pub fn enroll_denied_response(decision: AuthzDecision) -> (r: EnrollResponse)
    requires
        decision != AuthzDecision::Granted,
    ensures
        !r.success,
        decision == AuthzDecision::DeniedMismatch ==> r.message@
            == "Permission denied: You can only enroll yourself"@,
        decision == AuthzDecision::DeniedUnknownUser ==> r.message@
            == "Failed to verify user identity"@,
{
    let mut message = String::new();
    match decision {
        AuthzDecision::DeniedUnknownUser => {
            message.append("Failed to verify user identity");
        },
        _ => {
            message.append("Permission denied: You can only enroll yourself");
        },
    }
    EnrollResponse { success: false, message }
}

/// The terminal response for an enhance request the peer may not run.
pub fn enhance_denied_response(decision: AuthzDecision) -> (r: EnhanceResponse)
    requires
        decision != AuthzDecision::Granted,
    ensures
        !r.success,
        r.embeddings_before == 0,
        r.embeddings_after == 0,
        r.replaced_count == 0,
        decision == AuthzDecision::DeniedMismatch ==> r.message@
            == "Permission denied: You can only enhance your own enrollment"@,
        decision == AuthzDecision::DeniedUnknownUser ==> r.message@
            == "Failed to verify user identity"@,
{
    let mut message = String::new();
    match decision {
        AuthzDecision::DeniedUnknownUser => {
            message.append("Failed to verify user identity");
        },
        _ => {
            message.append("Permission denied: You can only enhance your own enrollment");
        },
    }
    EnhanceResponse {
        success: false,
        message,
        embeddings_before: 0,
        embeddings_after: 0,
        replaced_count: 0,
    }
}

} // verus!
