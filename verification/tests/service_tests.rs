use sup_linux::service::{
    AuthzDecision, authorize_modification, requires_authorization, enroll_denied_response,
    enhance_denied_response,
};
use sup_linux::protocol::{Request, AuthRequest, EnrollRequest, EnhanceRequest, Timestamp};

#[test]
fn root_may_modify_anyone() {
    let d = authorize_modification(0, &None, &"alice".to_string());
    assert_eq!(d, AuthzDecision::Granted);
    let d = authorize_modification(0, &Some("bob".to_string()), &"alice".to_string());
    assert_eq!(d, AuthzDecision::Granted);
}

#[test]
fn peer_may_modify_only_itself() {
    let d = authorize_modification(1001, &Some("bob".to_string()), &"bob".to_string());
    assert_eq!(d, AuthzDecision::Granted);
    let d = authorize_modification(1001, &Some("bob".to_string()), &"alice".to_string());
    assert_eq!(d, AuthzDecision::DeniedMismatch);
}

#[test]
fn unknown_peer_is_denied() {
    let d = authorize_modification(4242, &None, &"alice".to_string());
    assert_eq!(d, AuthzDecision::DeniedUnknownUser);
}

#[test]
fn denied_enroll_names_the_permission() {
    // Peer uid 1001 resolving to "bob" asking to enroll "alice": the
    // terminal response fails and speaks of permission; the engine is
    // never reached, so no record can be touched.
    let d = authorize_modification(1001, &Some("bob".to_string()), &"alice".to_string());
    assert_ne!(d, AuthzDecision::Granted);
    let resp = enroll_denied_response(d);
    assert!(!resp.success);
    assert!(resp.message.contains("Permission"));
}

#[test]
fn denied_enhance_keeps_counts_zero() {
    let d = authorize_modification(1001, &Some("bob".to_string()), &"alice".to_string());
    let resp = enhance_denied_response(d);
    assert!(!resp.success);
    assert!(resp.message.contains("Permission"));
    assert_eq!(resp.embeddings_before, 0);
    assert_eq!(resp.embeddings_after, 0);
    assert_eq!(resp.replaced_count, 0);
}

#[test]
fn unknown_peer_message() {
    let resp = enroll_denied_response(AuthzDecision::DeniedUnknownUser);
    assert_eq!(resp.message, "Failed to verify user identity");
}

#[test]
fn only_modifying_requests_need_authorization() {
    let auth = Request::Authenticate(AuthRequest {
        username: "a".to_string(),
        challenge: vec![0; 32],
        timestamp: Timestamp { secs: 0, nanos: 0 },
    });
    let enroll = Request::Enroll(EnrollRequest { username: "a".to_string(), enable_preview: false });
    let enhance = Request::Enhance(EnhanceRequest {
        username: "a".to_string(),
        additional_captures: None,
        replace_weak: false,
        enable_preview: false,
    });
    assert!(!requires_authorization(&auth));
    assert!(requires_authorization(&enroll));
    assert!(requires_authorization(&enhance));
}
