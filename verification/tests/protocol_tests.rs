use sup_linux::protocol::{
    encode_request, decode_request, encode_response, decode_response, encode_stream_message,
    decode_stream_message, frame_message, frame_tagged_message, parse_frame_header, Request,
    AuthRequest, EnrollRequest, EnhanceRequest, Response, AuthResponse, EnrollResponse,
    EnhanceResponse, StreamMessage, Timestamp, MAX_FRAME_LEN, MSG_TYPE_STREAM,
};

fn ts(secs: u64, nanos: u32) -> Timestamp {
    Timestamp { secs, nanos }
}

#[test]
fn auth_request_round_trip() {
    let m = Request::Authenticate(AuthRequest {
        username: "alice".to_string(),
        challenge: vec![1, 2, 3, 4, 255],
        timestamp: ts(1700000000, 42),
    });
    let bytes = encode_request(&m);
    let back = decode_request(&bytes).expect("must decode");
    assert_eq!(back, m);
}

#[test]
fn enroll_request_round_trip() {
    let m = Request::Enroll(EnrollRequest { username: "böb".to_string(), enable_preview: true });
    let bytes = encode_request(&m);
    assert_eq!(decode_request(&bytes), Some(m));
}

#[test]
fn enhance_request_round_trip() {
    let with_count = Request::Enhance(EnhanceRequest {
        username: "carol".to_string(),
        additional_captures: Some(7),
        replace_weak: true,
        enable_preview: false,
    });
    let without_count = Request::Enhance(EnhanceRequest {
        username: "carol".to_string(),
        additional_captures: None,
        replace_weak: false,
        enable_preview: true,
    });
    assert_eq!(decode_request(&encode_request(&with_count)), Some(with_count));
    assert_eq!(decode_request(&encode_request(&without_count)), Some(without_count));
}

#[test]
fn request_encoding_layout_is_stable() {
    // Tag 1, then a u64 length-prefixed UTF-8 string, then one bool byte.
    let m = Request::Enroll(EnrollRequest { username: "ab".to_string(), enable_preview: true });
    let bytes = encode_request(&m);
    let expected = [
        1u8, 0, 0, 0, // variant tag, u32 little-endian
        2, 0, 0, 0, 0, 0, 0, 0, // string byte length, u64 little-endian
        b'a', b'b', // UTF-8 bytes
        1, // true
    ];
    assert_eq!(bytes, expected);
}

#[test]
fn decode_rejects_trailing_bytes() {
    let m = Request::Enroll(EnrollRequest { username: "a".to_string(), enable_preview: false });
    let mut bytes = encode_request(&m);
    bytes.push(0);
    assert_eq!(decode_request(&bytes), None);
}

#[test]
fn decode_rejects_unknown_tag() {
    let bytes = vec![9, 0, 0, 0];
    assert_eq!(decode_request(&bytes), None);
    assert_eq!(decode_response(&bytes), None);
    assert_eq!(decode_stream_message(&bytes), None);
}

#[test]
fn decode_rejects_short_buffer() {
    assert_eq!(decode_request(&vec![0, 0]), None);
    assert_eq!(decode_request(&vec![0, 0, 0, 0, 5, 0, 0, 0, 0, 0, 0, 0, b'x']), None);
}

#[test]
fn decode_rejects_invalid_utf8() {
    // Enroll, string of one byte 0xFF: not UTF-8.
    let bytes = vec![1, 0, 0, 0, 1, 0, 0, 0, 0, 0, 0, 0, 0xFF, 1];
    assert_eq!(decode_request(&bytes), None);
}

#[test]
fn decode_rejects_bad_bool() {
    // Enroll "a" with the preview byte 2: booleans are strictly 0 or 1.
    let bytes = vec![1, 0, 0, 0, 1, 0, 0, 0, 0, 0, 0, 0, b'a', 2];
    assert_eq!(decode_request(&bytes), None);
}

#[test]
fn response_round_trip_all_variants() {
    let variants = vec![
        Response::Auth(AuthResponse {
            success: true,
            message: "ok".to_string(),
            attempts: 3,
            signature: vec![7; 32],
            timestamp: ts(5, 6),
        }),
        Response::Enroll(EnrollResponse { success: false, message: "no".to_string() }),
        Response::Enhance(EnhanceResponse {
            success: true,
            message: "more".to_string(),
            embeddings_before: 3,
            embeddings_after: 5,
            replaced_count: 1,
        }),
        Response::Error("bad day".to_string()),
    ];
    for m in variants {
        let bytes = encode_response(&m);
        assert_eq!(decode_response(&bytes), Some(m));
    }
}

#[test]
fn stream_message_round_trip_all_variants() {
    let variants = vec![
        StreamMessage::PreviewFrame { ascii: "##\r\n##".to_string(), captured: 2, total: 5 },
        StreamMessage::StatusUpdate { message: "hold still".to_string() },
        StreamMessage::Complete,
    ];
    for m in variants {
        let bytes = encode_stream_message(&m);
        assert_eq!(decode_stream_message(&bytes), Some(m));
    }
}

#[test]
fn complete_encodes_as_bare_tag() {
    assert_eq!(encode_stream_message(&StreamMessage::Complete), vec![2, 0, 0, 0]);
}

#[test]
fn frame_prefixes_length() {
    let payload = vec![9u8, 8, 7];
    let framed = frame_message(&payload).expect("within cap");
    assert_eq!(framed, vec![3, 0, 0, 0, 9, 8, 7]);
}

#[test]
fn frame_refuses_oversize_payload() {
    let payload = vec![0u8; (MAX_FRAME_LEN as usize) + 1];
    assert!(frame_message(&payload).is_none());
    let exactly = vec![0u8; MAX_FRAME_LEN as usize];
    assert!(frame_message(&exactly).is_some());
}

#[test]
fn tagged_frame_prepends_kind() {
    let payload = vec![5u8];
    let framed = frame_tagged_message(MSG_TYPE_STREAM, &payload).expect("within cap");
    assert_eq!(framed, vec![1, 1, 0, 0, 0, 5]);
}

#[test]
fn frame_header_enforces_cap() {
    assert_eq!(parse_frame_header(&vec![3, 0, 0, 0]), Some(3));
    assert_eq!(parse_frame_header(&vec![0, 0, 16, 0]), Some(MAX_FRAME_LEN));
    assert_eq!(parse_frame_header(&vec![1, 0, 16, 0]), None);
    assert_eq!(parse_frame_header(&vec![255, 255, 255, 255]), None);
}
