use sup_linux::enroll::{
    CaptureSession, enroll_deadline_ms, meets_minimum_quality, enhance_succeeded,
    enroll_success_response, enroll_shortfall_response, enroll_error_response,
    enhance_success_response, enhance_error_response,
};
use sup_linux::client::{ServiceClient, ClientEvent, interpret_tagged_frame};
use sup_linux::protocol::{
    encode_response, encode_stream_message, Response, EnrollResponse, StreamMessage, Timestamp,
    MSG_TYPE_RESPONSE, MSG_TYPE_STREAM, Request,
};
use sup_linux::crypto::generate_challenge;

fn bits(values: &[f32]) -> Vec<u32> {
    values.iter().map(|v| v.to_bits()).collect()
}

#[test]
fn deadline_scales_with_streaming() {
    assert_eq!(enroll_deadline_ms(5, 2000, true), 50000);
    assert_eq!(enroll_deadline_ms(5, 2000, false), 30000);
    assert_eq!(enroll_deadline_ms(0, 2000, true), 0);
}

#[test]
fn quality_gate_compares_bit_patterns() {
    let min = 0.7f32.to_bits();
    assert!(meets_minimum_quality(0.7f32.to_bits(), min));
    assert!(meets_minimum_quality(0.9f32.to_bits(), min));
    assert!(!meets_minimum_quality(0.69f32.to_bits(), min));
    assert!(!meets_minimum_quality(0.0f32.to_bits(), min));
}

#[test]
fn capture_gate_needs_face_and_spacing() {
    let mut s = CaptureSession::new(1000);
    assert!(!s.ready_for_capture(false, 5000, 2000));
    assert!(!s.ready_for_capture(true, 2999, 2000));
    assert!(s.ready_for_capture(true, 3000, 2000));
    s.record_capture(bits(&[0.5]), 0.8f32.to_bits(), 3000);
    assert!(!s.ready_for_capture(true, 4000, 2000));
    assert!(s.ready_for_capture(true, 5000, 2000));
}

#[test]
fn enroll_needs_exactly_the_target() {
    let mut s = CaptureSession::new(0);
    s.record_capture(bits(&[0.5, 0.5]), 0.8f32.to_bits(), 10);
    s.record_capture(bits(&[0.6, 0.4]), 0.9f32.to_bits(), 20);
    assert_eq!(s.captured(), 2);
    // Two of three captures: the shortfall discards everything.
    assert!(s.finish_enroll("alice".to_string(), 3).is_none());

    let mut s = CaptureSession::new(0);
    s.record_capture(bits(&[0.5, 0.5]), 0.8f32.to_bits(), 10);
    s.record_capture(bits(&[0.6, 0.4]), 0.9f32.to_bits(), 20);
    s.record_capture(bits(&[0.4, 0.6]), 0.7f32.to_bits(), 30);
    let d = s.finish_enroll("alice".to_string(), 3).expect("target reached");
    assert_eq!(d.version, 1);
    assert_eq!(d.username, "alice");
    assert_eq!(d.embeddings.len(), 3);
    assert_eq!(
        d.embedding_qualities,
        Some(vec![0.8f32.to_bits(), 0.9f32.to_bits(), 0.7f32.to_bits()])
    );
    assert!(d.averaged_embedding.is_none());
}

#[test]
fn enhance_succeeds_on_any_capture() {
    assert!(!enhance_succeeded(0));
    assert!(enhance_succeeded(1));
    assert!(enhance_succeeded(3));
}

#[test]
fn enrollment_messages() {
    let ok = enroll_success_response("alice", 5);
    assert!(ok.success);
    assert_eq!(ok.message, "User 'alice' enrolled successfully with 5 face captures");
    let short = enroll_shortfall_response(3, 5);
    assert!(!short.success);
    assert_eq!(short.message, "Enrollment failed: only 3/5 captures completed");
    let err = enroll_error_response("Failed to start camera: busy".to_string());
    assert!(!err.success);
    assert_eq!(err.message, "Failed to start camera: busy");
}

#[test]
fn enhancement_messages() {
    let ok = enhance_success_response("bob", 2, 3, 4, 1);
    assert!(ok.success);
    assert_eq!(ok.message, "Successfully enhanced enrollment for 'bob'. Added 2 embeddings");
    assert_eq!((ok.embeddings_before, ok.embeddings_after, ok.replaced_count), (3, 4, 1));
    let err = enhance_error_response("no captures".to_string(), 3);
    assert!(!err.success);
    assert_eq!((err.embeddings_before, err.embeddings_after, err.replaced_count), (3, 3, 0));
}

#[test]
fn challenge_is_32_bytes() {
    let c = generate_challenge();
    assert_eq!(c.len(), 32);
}

#[test]
fn client_requests_carry_the_policy() {
    let client = ServiceClient::new(true);
    match client.build_auth_request("alice".to_string(), Timestamp { secs: 9, nanos: 1 }) {
        Request::Authenticate(a) => {
            assert_eq!(a.username, "alice");
            assert_eq!(a.challenge.len(), 32);
            assert_eq!(a.timestamp, Timestamp { secs: 9, nanos: 1 });
        },
        _ => panic!("expected an authenticate request"),
    }
    match client.build_enroll_request("alice".to_string()) {
        Request::Enroll(e) => assert!(e.enable_preview),
        _ => panic!("expected an enroll request"),
    }
    match client.build_enhance_request("alice".to_string(), Some(3), true) {
        Request::Enhance(e) => {
            assert_eq!(e.additional_captures, Some(3));
            assert!(e.replace_weak);
            assert!(e.enable_preview);
        },
        _ => panic!("expected an enhance request"),
    }
}

#[test]
fn tagged_frames_are_classified() {
    let preview = encode_stream_message(&StreamMessage::PreviewFrame {
        ascii: "##".to_string(),
        captured: 1,
        total: 5,
    });
    match interpret_tagged_frame(MSG_TYPE_STREAM, &preview) {
        ClientEvent::Preview { ascii, captured, total } => {
            assert_eq!(ascii, "##");
            assert_eq!((captured, total), (1, 5));
        },
        other => panic!("unexpected event: {:?}", other),
    }

    let status = encode_stream_message(&StreamMessage::StatusUpdate {
        message: "hold".to_string(),
    });
    assert!(matches!(
        interpret_tagged_frame(MSG_TYPE_STREAM, &status),
        ClientEvent::Status { .. }
    ));

    let complete = encode_stream_message(&StreamMessage::Complete);
    assert_eq!(interpret_tagged_frame(MSG_TYPE_STREAM, &complete), ClientEvent::StreamComplete);

    let terminal = encode_response(&Response::Enroll(EnrollResponse {
        success: true,
        message: "done".to_string(),
    }));
    match interpret_tagged_frame(MSG_TYPE_RESPONSE, &terminal) {
        ClientEvent::Terminal(Response::Enroll(e)) => assert!(e.success),
        other => panic!("unexpected event: {:?}", other),
    }

    assert_eq!(interpret_tagged_frame(7, &complete), ClientEvent::Malformed);
    assert_eq!(
        interpret_tagged_frame(MSG_TYPE_STREAM, &vec![9, 9]),
        ClientEvent::Malformed
    );
}
