//! Wire messages of the service: requests, responses and stream frames,
//! with their stable binary encoding.
//!
//! The encoding is fixed: integers little-endian, variable-length sequences
//! prefixed by a `u64` length, enum variants prefixed by a `u32` tag,
//! optional values prefixed by a one-byte tag. A message travels inside a
//! frame: a little-endian `u32` length followed by that many payload bytes,
//! the length capped at 1 MiB. Decoding is strict: unknown tags, short
//! buffers and trailing bytes are all rejected.

use vstd::prelude::*;
use vstd::bytes::spec_u32_from_le_bytes;
use crate::codec::{
    spec_write_u8, write_u8,
    spec_write_u32, spec_write_u64, spec_write_bool, spec_write_string, spec_write_bytes,
    spec_write_opt_u32, spec_read_u32, spec_read_u64, spec_read_bool, spec_read_string,
    spec_read_bytes, spec_read_opt_u32, write_u32, write_u64, write_bool, write_string,
    write_bytes, write_opt_u32, read_u32, read_u64, read_bool, read_string, read_bytes,
    read_opt_u32, lemma_read_u32_at, lemma_read_u64_at, lemma_read_bool_at, lemma_read_string_at,
    lemma_read_bytes_at, lemma_read_opt_u32_at, lemma_write_u32_len, lemma_write_u64_len,
};

verus! {

/// Terminal-response frames on the streaming paths carry this tag byte.
pub const MSG_TYPE_RESPONSE: u8 = 0;

/// Stream-update frames on the streaming paths carry this tag byte.
pub const MSG_TYPE_STREAM: u8 = 1;

/// Largest payload a frame may carry, in bytes.
pub const MAX_FRAME_LEN: u32 = 0x100000;

/// Socket path of the production service.
pub const SOCKET_PATH: &'static str = "/run/suplinux/service.sock";

/// Socket path used in development mode.
pub const DEV_SOCKET_PATH: &'static str = "/tmp/suplinux.sock";

/// A wall-clock instant as seconds and subsecond nanoseconds since the epoch.
#[derive(Clone, Copy, PartialEq, Eq, Structural, Debug)]
pub struct Timestamp {
    pub secs: u64,
    pub nanos: u32,
}

// ---------------------------------------------------------------------------
// Requests
// ---------------------------------------------------------------------------

#[derive(Debug, Clone, PartialEq)]
pub struct AuthRequest {
    pub username: String,
    pub challenge: Vec<u8>,
    pub timestamp: Timestamp,
}

#[derive(Debug, Clone, PartialEq)]
pub struct EnrollRequest {
    pub username: String,
    pub enable_preview: bool,
}

#[derive(Debug, Clone, PartialEq)]
pub struct EnhanceRequest {
    pub username: String,
    pub additional_captures: Option<u32>,
    pub replace_weak: bool,
    pub enable_preview: bool,
}

#[derive(Debug, Clone, PartialEq)]
pub enum Request {
    Authenticate(AuthRequest),
    Enroll(EnrollRequest),
    Enhance(EnhanceRequest),
}

pub ghost struct AuthRequestV {
    pub username: Seq<char>,
    pub challenge: Seq<u8>,
    pub timestamp: Timestamp,
}

pub ghost struct EnrollRequestV {
    pub username: Seq<char>,
    pub enable_preview: bool,
}

pub ghost struct EnhanceRequestV {
    pub username: Seq<char>,
    pub additional_captures: Option<u32>,
    pub replace_weak: bool,
    pub enable_preview: bool,
}

pub ghost enum RequestV {
    Authenticate(AuthRequestV),
    Enroll(EnrollRequestV),
    Enhance(EnhanceRequestV),
}

impl View for AuthRequest {
    type V = AuthRequestV;

    open spec fn view(&self) -> AuthRequestV {
        AuthRequestV {
            username: self.username@,
            challenge: self.challenge@,
            timestamp: self.timestamp,
        }
    }
}

impl View for EnrollRequest {
    type V = EnrollRequestV;

    open spec fn view(&self) -> EnrollRequestV {
        EnrollRequestV { username: self.username@, enable_preview: self.enable_preview }
    }
}

impl View for EnhanceRequest {
    type V = EnhanceRequestV;

    open spec fn view(&self) -> EnhanceRequestV {
        EnhanceRequestV {
            username: self.username@,
            additional_captures: self.additional_captures,
            replace_weak: self.replace_weak,
            enable_preview: self.enable_preview,
        }
    }
}

impl View for Request {
    type V = RequestV;

    open spec fn view(&self) -> RequestV {
        match self {
            Request::Authenticate(a) => RequestV::Authenticate(a@),
            Request::Enroll(e) => RequestV::Enroll(e@),
            Request::Enhance(e) => RequestV::Enhance(e@),
        }
    }
}

/// The sequence lengths inside the message fit their length fields.
pub open spec fn request_wf(r: RequestV) -> bool {
    match r {
        RequestV::Authenticate(a) => vstd::utf8::encode_utf8(a.username).len() <= u64::MAX
            && a.challenge.len() <= u64::MAX,
        RequestV::Enroll(e) => vstd::utf8::encode_utf8(e.username).len() <= u64::MAX,
        RequestV::Enhance(e) => vstd::utf8::encode_utf8(e.username).len() <= u64::MAX,
    }
}

pub open spec fn spec_encode_request(r: RequestV) -> Seq<u8> {
    match r {
        RequestV::Authenticate(a) => spec_write_u32(0) + spec_write_string(a.username)
            + spec_write_bytes(a.challenge) + spec_write_u64(a.timestamp.secs) + spec_write_u32(
            a.timestamp.nanos,
        ),
        RequestV::Enroll(e) => spec_write_u32(1) + spec_write_string(e.username) + spec_write_bool(
            e.enable_preview,
        ),
        RequestV::Enhance(e) => spec_write_u32(2) + spec_write_string(e.username)
            + spec_write_opt_u32(e.additional_captures) + spec_write_bool(e.replace_weak)
            + spec_write_bool(e.enable_preview),
    }
}

pub open spec fn spec_decode_request(b: Seq<u8>) -> Option<RequestV> {
    match spec_read_u32(b, 0) {
        Some((tag, p0)) => if tag == 0 {
            match spec_read_string(b, p0) {
                Some((username, p1)) => match spec_read_bytes(b, p1) {
                    Some((challenge, p2)) => match spec_read_u64(b, p2) {
                        Some((secs, p3)) => match spec_read_u32(b, p3) {
                            Some((nanos, p4)) => if p4 == b.len() {
                                Some(
                                    RequestV::Authenticate(
                                        AuthRequestV {
                                            username,
                                            challenge,
                                            timestamp: Timestamp { secs, nanos },
                                        },
                                    ),
                                )
                            } else {
                                None
                            },
                            None => None,
                        },
                        None => None,
                    },
                    None => None,
                },
                None => None,
            }
        } else if tag == 1 {
            match spec_read_string(b, p0) {
                Some((username, p1)) => match spec_read_bool(b, p1) {
                    Some((enable_preview, p2)) => if p2 == b.len() {
                        Some(RequestV::Enroll(EnrollRequestV { username, enable_preview }))
                    } else {
                        None
                    },
                    None => None,
                },
                None => None,
            }
        } else if tag == 2 {
            match spec_read_string(b, p0) {
                Some((username, p1)) => match spec_read_opt_u32(b, p1) {
                    Some((additional_captures, p2)) => match spec_read_bool(b, p2) {
                        Some((replace_weak, p3)) => match spec_read_bool(b, p3) {
                            Some((enable_preview, p4)) => if p4 == b.len() {
                                Some(
                                    RequestV::Enhance(
                                        EnhanceRequestV {
                                            username,
                                            additional_captures,
                                            replace_weak,
                                            enable_preview,
                                        },
                                    ),
                                )
                            } else {
                                None
                            },
                            None => None,
                        },
                        None => None,
                    },
                    None => None,
                },
                None => None,
            }
        } else {
            None
        },
        None => None,
    }
}

pub fn encode_request(r: &Request) -> (out: Vec<u8>)
    ensures
        out@ == spec_encode_request(r@),
{
    let mut out: Vec<u8> = Vec::new();
    match r {
        Request::Authenticate(a) => {
            write_u32(&mut out, 0);
            write_string(&mut out, &a.username);
            write_bytes(&mut out, &a.challenge);
            write_u64(&mut out, a.timestamp.secs);
            write_u32(&mut out, a.timestamp.nanos);
        },
        Request::Enroll(e) => {
            write_u32(&mut out, 1);
            write_string(&mut out, &e.username);
            write_bool(&mut out, e.enable_preview);
        },
        Request::Enhance(e) => {
            write_u32(&mut out, 2);
            write_string(&mut out, &e.username);
            write_opt_u32(&mut out, &e.additional_captures);
            write_bool(&mut out, e.replace_weak);
            write_bool(&mut out, e.enable_preview);
        },
    }
    proof {
        assert(out@ =~= spec_encode_request(r@));
    }
    out
}

pub fn decode_request(b: &Vec<u8>) -> (r: Option<Request>)
    ensures
        match r {
            Some(m) => spec_decode_request(b@) == Some(m@),
            None => spec_decode_request(b@) is None,
        },
{
    let (tag, p0) = match read_u32(b, 0) {
        Some(x) => x,
        None => {
            return None;
        },
    };
    if tag == 0 {
        let (username, p1) = match read_string(b, p0) {
            Some(x) => x,
            None => {
                return None;
            },
        };
        let (challenge, p2) = match read_bytes(b, p1) {
            Some(x) => x,
            None => {
                return None;
            },
        };
        let (secs, p3) = match read_u64(b, p2) {
            Some(x) => x,
            None => {
                return None;
            },
        };
        let (nanos, p4) = match read_u32(b, p3) {
            Some(x) => x,
            None => {
                return None;
            },
        };
        if p4 == b.len() {
            Some(
                Request::Authenticate(
                    AuthRequest { username, challenge, timestamp: Timestamp { secs, nanos } },
                ),
            )
        } else {
            None
        }
    } else if tag == 1 {
        let (username, p1) = match read_string(b, p0) {
            Some(x) => x,
            None => {
                return None;
            },
        };
        let (enable_preview, p2) = match read_bool(b, p1) {
            Some(x) => x,
            None => {
                return None;
            },
        };
        if p2 == b.len() {
            Some(Request::Enroll(EnrollRequest { username, enable_preview }))
        } else {
            None
        }
    } else if tag == 2 {
        let (username, p1) = match read_string(b, p0) {
            Some(x) => x,
            None => {
                return None;
            },
        };
        let (additional_captures, p2) = match read_opt_u32(b, p1) {
            Some(x) => x,
            None => {
                return None;
            },
        };
        let (replace_weak, p3) = match read_bool(b, p2) {
            Some(x) => x,
            None => {
                return None;
            },
        };
        let (enable_preview, p4) = match read_bool(b, p3) {
            Some(x) => x,
            None => {
                return None;
            },
        };
        if p4 == b.len() {
            Some(
                Request::Enhance(
                    EnhanceRequest { username, additional_captures, replace_weak, enable_preview },
                ),
            )
        } else {
            None
        }
    } else {
        None
    }
}

/// Decoding an encoded request gives back exactly the request.
pub proof fn lemma_request_round_trip(r: RequestV)
    requires
        request_wf(r),
    ensures
        spec_decode_request(spec_encode_request(r)) == Some(r),
{
    let b = spec_encode_request(r);
    lemma_write_u32_len(0);
    lemma_write_u32_len(1);
    lemma_write_u32_len(2);
    match r {
        RequestV::Authenticate(a) => {
            let e0 = spec_write_u32(0);
            let e1 = spec_write_string(a.username);
            let e2 = spec_write_bytes(a.challenge);
            let e3 = spec_write_u64(a.timestamp.secs);
            let e4 = spec_write_u32(a.timestamp.nanos);
            lemma_write_u64_len(a.timestamp.secs);
            lemma_write_u32_len(a.timestamp.nanos);
            let p0 = e0.len() as int;
            let p1 = p0 + e1.len();
            let p2 = p1 + e2.len();
            let p3 = p2 + e3.len();
            let p4 = p3 + e4.len();
            assert(b.len() == p4);
            assert(b.subrange(0, 4) =~= e0);
            lemma_read_u32_at(b, 0, 0);
            assert(b.subrange(p0, p0 + e1.len()) =~= e1);
            lemma_read_string_at(b, p0, a.username);
            assert(b.subrange(p1, p1 + e2.len()) =~= e2);
            lemma_read_bytes_at(b, p1, a.challenge);
            assert(b.subrange(p2, p2 + 8) =~= e3);
            lemma_read_u64_at(b, p2, a.timestamp.secs);
            assert(b.subrange(p3, p3 + 4) =~= e4);
            lemma_read_u32_at(b, p3, a.timestamp.nanos);
        },
        RequestV::Enroll(e) => {
            let e0 = spec_write_u32(1);
            let e1 = spec_write_string(e.username);
            let e2 = spec_write_bool(e.enable_preview);
            let p0 = e0.len() as int;
            let p1 = p0 + e1.len();
            let p2 = p1 + e2.len();
            assert(b.len() == p2);
            assert(b.subrange(0, 4) =~= e0);
            lemma_read_u32_at(b, 0, 1);
            assert(b.subrange(p0, p0 + e1.len()) =~= e1);
            lemma_read_string_at(b, p0, e.username);
            assert(b.subrange(p1, p1 + 1) =~= e2);
            lemma_read_bool_at(b, p1, e.enable_preview);
        },
        RequestV::Enhance(e) => {
            let e0 = spec_write_u32(2);
            let e1 = spec_write_string(e.username);
            let e2 = spec_write_opt_u32(e.additional_captures);
            let e3 = spec_write_bool(e.replace_weak);
            let e4 = spec_write_bool(e.enable_preview);
            let p0 = e0.len() as int;
            let p1 = p0 + e1.len();
            let p2 = p1 + e2.len();
            let p3 = p2 + e3.len();
            let p4 = p3 + e4.len();
            assert(b.len() == p4);
            assert(b.subrange(0, 4) =~= e0);
            lemma_read_u32_at(b, 0, 2);
            assert(b.subrange(p0, p0 + e1.len()) =~= e1);
            lemma_read_string_at(b, p0, e.username);
            assert(b.subrange(p1, p1 + e2.len()) =~= e2);
            lemma_read_opt_u32_at(b, p1, e.additional_captures);
            assert(b.subrange(p2, p2 + 1) =~= e3);
            lemma_read_bool_at(b, p2, e.replace_weak);
            assert(b.subrange(p3, p3 + 1) =~= e4);
            lemma_read_bool_at(b, p3, e.enable_preview);
        },
    }
}

// ---------------------------------------------------------------------------
// Responses
// ---------------------------------------------------------------------------

#[derive(Debug, Clone, PartialEq)]
pub struct AuthResponse {
    pub success: bool,
    pub message: String,
    pub attempts: u32,
    pub signature: Vec<u8>,
    pub timestamp: Timestamp,
}

#[derive(Debug, Clone, PartialEq)]
pub struct EnrollResponse {
    pub success: bool,
    pub message: String,
}

#[derive(Debug, Clone, PartialEq)]
pub struct EnhanceResponse {
    pub success: bool,
    pub message: String,
    pub embeddings_before: u64,
    pub embeddings_after: u64,
    pub replaced_count: u64,
}

#[derive(Debug, Clone, PartialEq)]
pub enum Response {
    Auth(AuthResponse),
    Enroll(EnrollResponse),
    Enhance(EnhanceResponse),
    Error(String),
}

pub ghost struct AuthResponseV {
    pub success: bool,
    pub message: Seq<char>,
    pub attempts: u32,
    pub signature: Seq<u8>,
    pub timestamp: Timestamp,
}

pub ghost struct EnrollResponseV {
    pub success: bool,
    pub message: Seq<char>,
}

pub ghost struct EnhanceResponseV {
    pub success: bool,
    pub message: Seq<char>,
    pub embeddings_before: u64,
    pub embeddings_after: u64,
    pub replaced_count: u64,
}

pub ghost enum ResponseV {
    Auth(AuthResponseV),
    Enroll(EnrollResponseV),
    Enhance(EnhanceResponseV),
    Error(Seq<char>),
}

impl View for AuthResponse {
    type V = AuthResponseV;

    open spec fn view(&self) -> AuthResponseV {
        AuthResponseV {
            success: self.success,
            message: self.message@,
            attempts: self.attempts,
            signature: self.signature@,
            timestamp: self.timestamp,
        }
    }
}

impl View for EnrollResponse {
    type V = EnrollResponseV;

    open spec fn view(&self) -> EnrollResponseV {
        EnrollResponseV { success: self.success, message: self.message@ }
    }
}

impl View for EnhanceResponse {
    type V = EnhanceResponseV;

    open spec fn view(&self) -> EnhanceResponseV {
        EnhanceResponseV {
            success: self.success,
            message: self.message@,
            embeddings_before: self.embeddings_before,
            embeddings_after: self.embeddings_after,
            replaced_count: self.replaced_count,
        }
    }
}

impl View for Response {
    type V = ResponseV;

    open spec fn view(&self) -> ResponseV {
        match self {
            Response::Auth(a) => ResponseV::Auth(a@),
            Response::Enroll(e) => ResponseV::Enroll(e@),
            Response::Enhance(e) => ResponseV::Enhance(e@),
            Response::Error(m) => ResponseV::Error(m@),
        }
    }
}

pub open spec fn response_wf(r: ResponseV) -> bool {
    match r {
        ResponseV::Auth(a) => vstd::utf8::encode_utf8(a.message).len() <= u64::MAX
            && a.signature.len() <= u64::MAX,
        ResponseV::Enroll(e) => vstd::utf8::encode_utf8(e.message).len() <= u64::MAX,
        ResponseV::Enhance(e) => vstd::utf8::encode_utf8(e.message).len() <= u64::MAX,
        ResponseV::Error(m) => vstd::utf8::encode_utf8(m).len() <= u64::MAX,
    }
}

pub open spec fn spec_encode_response(r: ResponseV) -> Seq<u8> {
    match r {
        ResponseV::Auth(a) => spec_write_u32(0) + spec_write_bool(a.success) + spec_write_string(
            a.message,
        ) + spec_write_u32(a.attempts) + spec_write_bytes(a.signature) + spec_write_u64(
            a.timestamp.secs,
        ) + spec_write_u32(a.timestamp.nanos),
        ResponseV::Enroll(e) => spec_write_u32(1) + spec_write_bool(e.success) + spec_write_string(
            e.message,
        ),
        ResponseV::Enhance(e) => spec_write_u32(2) + spec_write_bool(e.success)
            + spec_write_string(e.message) + spec_write_u64(e.embeddings_before) + spec_write_u64(
            e.embeddings_after,
        ) + spec_write_u64(e.replaced_count),
        ResponseV::Error(m) => spec_write_u32(3) + spec_write_string(m),
    }
}

pub open spec fn spec_decode_response(b: Seq<u8>) -> Option<ResponseV> {
    match spec_read_u32(b, 0) {
        Some((tag, p0)) => if tag == 0 {
            match spec_read_bool(b, p0) {
                Some((success, p1)) => match spec_read_string(b, p1) {
                    Some((message, p2)) => match spec_read_u32(b, p2) {
                        Some((attempts, p3)) => match spec_read_bytes(b, p3) {
                            Some((signature, p4)) => match spec_read_u64(b, p4) {
                                Some((secs, p5)) => match spec_read_u32(b, p5) {
                                    Some((nanos, p6)) => if p6 == b.len() {
                                        Some(
                                            ResponseV::Auth(
                                                AuthResponseV {
                                                    success,
                                                    message,
                                                    attempts,
                                                    signature,
                                                    timestamp: Timestamp { secs, nanos },
                                                },
                                            ),
                                        )
                                    } else {
                                        None
                                    },
                                    None => None,
                                },
                                None => None,
                            },
                            None => None,
                        },
                        None => None,
                    },
                    None => None,
                },
                None => None,
            }
        } else if tag == 1 {
            match spec_read_bool(b, p0) {
                Some((success, p1)) => match spec_read_string(b, p1) {
                    Some((message, p2)) => if p2 == b.len() {
                        Some(ResponseV::Enroll(EnrollResponseV { success, message }))
                    } else {
                        None
                    },
                    None => None,
                },
                None => None,
            }
        } else if tag == 2 {
            match spec_read_bool(b, p0) {
                Some((success, p1)) => match spec_read_string(b, p1) {
                    Some((message, p2)) => match spec_read_u64(b, p2) {
                        Some((before, p3)) => match spec_read_u64(b, p3) {
                            Some((after, p4)) => match spec_read_u64(b, p4) {
                                Some((replaced, p5)) => if p5 == b.len() {
                                    Some(
                                        ResponseV::Enhance(
                                            EnhanceResponseV {
                                                success,
                                                message,
                                                embeddings_before: before,
                                                embeddings_after: after,
                                                replaced_count: replaced,
                                            },
                                        ),
                                    )
                                } else {
                                    None
                                },
                                None => None,
                            },
                            None => None,
                        },
                        None => None,
                    },
                    None => None,
                },
                None => None,
            }
        } else if tag == 3 {
            match spec_read_string(b, p0) {
                Some((m, p1)) => if p1 == b.len() {
                    Some(ResponseV::Error(m))
                } else {
                    None
                },
                None => None,
            }
        } else {
            None
        },
        None => None,
    }
}

pub fn encode_response(r: &Response) -> (out: Vec<u8>)
    ensures
        out@ == spec_encode_response(r@),
{
    let mut out: Vec<u8> = Vec::new();
    match r {
        Response::Auth(a) => {
            write_u32(&mut out, 0);
            write_bool(&mut out, a.success);
            write_string(&mut out, &a.message);
            write_u32(&mut out, a.attempts);
            write_bytes(&mut out, &a.signature);
            write_u64(&mut out, a.timestamp.secs);
            write_u32(&mut out, a.timestamp.nanos);
        },
        Response::Enroll(e) => {
            write_u32(&mut out, 1);
            write_bool(&mut out, e.success);
            write_string(&mut out, &e.message);
        },
        Response::Enhance(e) => {
            write_u32(&mut out, 2);
            write_bool(&mut out, e.success);
            write_string(&mut out, &e.message);
            write_u64(&mut out, e.embeddings_before);
            write_u64(&mut out, e.embeddings_after);
            write_u64(&mut out, e.replaced_count);
        },
        Response::Error(m) => {
            write_u32(&mut out, 3);
            write_string(&mut out, m);
        },
    }
    proof {
        assert(out@ =~= spec_encode_response(r@));
    }
    out
}

pub fn decode_response(b: &Vec<u8>) -> (r: Option<Response>)
    ensures
        match r {
            Some(m) => spec_decode_response(b@) == Some(m@),
            None => spec_decode_response(b@) is None,
        },
{
    let (tag, p0) = match read_u32(b, 0) {
        Some(x) => x,
        None => {
            return None;
        },
    };
    if tag == 0 {
        let (success, p1) = match read_bool(b, p0) {
            Some(x) => x,
            None => {
                return None;
            },
        };
        let (message, p2) = match read_string(b, p1) {
            Some(x) => x,
            None => {
                return None;
            },
        };
        let (attempts, p3) = match read_u32(b, p2) {
            Some(x) => x,
            None => {
                return None;
            },
        };
        let (signature, p4) = match read_bytes(b, p3) {
            Some(x) => x,
            None => {
                return None;
            },
        };
        let (secs, p5) = match read_u64(b, p4) {
            Some(x) => x,
            None => {
                return None;
            },
        };
        let (nanos, p6) = match read_u32(b, p5) {
            Some(x) => x,
            None => {
                return None;
            },
        };
        if p6 == b.len() {
            Some(
                Response::Auth(
                    AuthResponse {
                        success,
                        message,
                        attempts,
                        signature,
                        timestamp: Timestamp { secs, nanos },
                    },
                ),
            )
        } else {
            None
        }
    } else if tag == 1 {
        let (success, p1) = match read_bool(b, p0) {
            Some(x) => x,
            None => {
                return None;
            },
        };
        let (message, p2) = match read_string(b, p1) {
            Some(x) => x,
            None => {
                return None;
            },
        };
        if p2 == b.len() {
            Some(Response::Enroll(EnrollResponse { success, message }))
        } else {
            None
        }
    } else if tag == 2 {
        let (success, p1) = match read_bool(b, p0) {
            Some(x) => x,
            None => {
                return None;
            },
        };
        let (message, p2) = match read_string(b, p1) {
            Some(x) => x,
            None => {
                return None;
            },
        };
        let (embeddings_before, p3) = match read_u64(b, p2) {
            Some(x) => x,
            None => {
                return None;
            },
        };
        let (embeddings_after, p4) = match read_u64(b, p3) {
            Some(x) => x,
            None => {
                return None;
            },
        };
        let (replaced_count, p5) = match read_u64(b, p4) {
            Some(x) => x,
            None => {
                return None;
            },
        };
        if p5 == b.len() {
            Some(
                Response::Enhance(
                    EnhanceResponse {
                        success,
                        message,
                        embeddings_before,
                        embeddings_after,
                        replaced_count,
                    },
                ),
            )
        } else {
            None
        }
    } else if tag == 3 {
        let (m, p1) = match read_string(b, p0) {
            Some(x) => x,
            None => {
                return None;
            },
        };
        if p1 == b.len() {
            Some(Response::Error(m))
        } else {
            None
        }
    } else {
        None
    }
}

/// Decoding an encoded response gives back exactly the response.
pub proof fn lemma_response_round_trip(r: ResponseV)
    requires
        response_wf(r),
    ensures
        spec_decode_response(spec_encode_response(r)) == Some(r),
{
    let b = spec_encode_response(r);
    lemma_write_u32_len(0);
    lemma_write_u32_len(1);
    lemma_write_u32_len(2);
    lemma_write_u32_len(3);
    match r {
        ResponseV::Auth(a) => {
            let e0 = spec_write_u32(0);
            let e1 = spec_write_bool(a.success);
            let e2 = spec_write_string(a.message);
            let e3 = spec_write_u32(a.attempts);
            let e4 = spec_write_bytes(a.signature);
            let e5 = spec_write_u64(a.timestamp.secs);
            let e6 = spec_write_u32(a.timestamp.nanos);
            lemma_write_u32_len(a.attempts);
            lemma_write_u64_len(a.timestamp.secs);
            lemma_write_u32_len(a.timestamp.nanos);
            let p0 = e0.len() as int;
            let p1 = p0 + e1.len();
            let p2 = p1 + e2.len();
            let p3 = p2 + e3.len();
            let p4 = p3 + e4.len();
            let p5 = p4 + e5.len();
            let p6 = p5 + e6.len();
            assert(b.len() == p6);
            assert(b.subrange(0, 4) =~= e0);
            lemma_read_u32_at(b, 0, 0);
            assert(b.subrange(p0, p0 + 1) =~= e1);
            lemma_read_bool_at(b, p0, a.success);
            assert(b.subrange(p1, p1 + e2.len()) =~= e2);
            lemma_read_string_at(b, p1, a.message);
            assert(b.subrange(p2, p2 + 4) =~= e3);
            lemma_read_u32_at(b, p2, a.attempts);
            assert(b.subrange(p3, p3 + e4.len()) =~= e4);
            lemma_read_bytes_at(b, p3, a.signature);
            assert(b.subrange(p4, p4 + 8) =~= e5);
            lemma_read_u64_at(b, p4, a.timestamp.secs);
            assert(b.subrange(p5, p5 + 4) =~= e6);
            lemma_read_u32_at(b, p5, a.timestamp.nanos);
        },
        ResponseV::Enroll(e) => {
            let e0 = spec_write_u32(1);
            let e1 = spec_write_bool(e.success);
            let e2 = spec_write_string(e.message);
            let p0 = e0.len() as int;
            let p1 = p0 + e1.len();
            let p2 = p1 + e2.len();
            assert(b.len() == p2);
            assert(b.subrange(0, 4) =~= e0);
            lemma_read_u32_at(b, 0, 1);
            assert(b.subrange(p0, p0 + 1) =~= e1);
            lemma_read_bool_at(b, p0, e.success);
            assert(b.subrange(p1, p1 + e2.len()) =~= e2);
            lemma_read_string_at(b, p1, e.message);
        },
        ResponseV::Enhance(e) => {
            let e0 = spec_write_u32(2);
            let e1 = spec_write_bool(e.success);
            let e2 = spec_write_string(e.message);
            let e3 = spec_write_u64(e.embeddings_before);
            let e4 = spec_write_u64(e.embeddings_after);
            let e5 = spec_write_u64(e.replaced_count);
            lemma_write_u64_len(e.embeddings_before);
            lemma_write_u64_len(e.embeddings_after);
            lemma_write_u64_len(e.replaced_count);
            let p0 = e0.len() as int;
            let p1 = p0 + e1.len();
            let p2 = p1 + e2.len();
            let p3 = p2 + e3.len();
            let p4 = p3 + e4.len();
            let p5 = p4 + e5.len();
            assert(b.len() == p5);
            assert(b.subrange(0, 4) =~= e0);
            lemma_read_u32_at(b, 0, 2);
            assert(b.subrange(p0, p0 + 1) =~= e1);
            lemma_read_bool_at(b, p0, e.success);
            assert(b.subrange(p1, p1 + e2.len()) =~= e2);
            lemma_read_string_at(b, p1, e.message);
            assert(b.subrange(p2, p2 + 8) =~= e3);
            lemma_read_u64_at(b, p2, e.embeddings_before);
            assert(b.subrange(p3, p3 + 8) =~= e4);
            lemma_read_u64_at(b, p3, e.embeddings_after);
            assert(b.subrange(p4, p4 + 8) =~= e5);
            lemma_read_u64_at(b, p4, e.replaced_count);
        },
        ResponseV::Error(m) => {
            let e0 = spec_write_u32(3);
            let e1 = spec_write_string(m);
            let p0 = e0.len() as int;
            let p1 = p0 + e1.len();
            assert(b.len() == p1);
            assert(b.subrange(0, 4) =~= e0);
            lemma_read_u32_at(b, 0, 3);
            assert(b.subrange(p0, p0 + e1.len()) =~= e1);
            lemma_read_string_at(b, p0, m);
        },
    }
}

// ---------------------------------------------------------------------------
// Stream messages
// ---------------------------------------------------------------------------

#[derive(Debug, Clone, PartialEq)]
pub enum StreamMessage {
    PreviewFrame { ascii: String, captured: u64, total: u64 },
    StatusUpdate { message: String },
    Complete,
}

pub ghost enum StreamMessageV {
    PreviewFrame { ascii: Seq<char>, captured: u64, total: u64 },
    StatusUpdate { message: Seq<char> },
    Complete,
}

impl View for StreamMessage {
    type V = StreamMessageV;

    open spec fn view(&self) -> StreamMessageV {
        match self {
            StreamMessage::PreviewFrame { ascii, captured, total } => StreamMessageV::PreviewFrame {
                ascii: ascii@,
                captured: *captured,
                total: *total,
            },
            StreamMessage::StatusUpdate { message } => StreamMessageV::StatusUpdate {
                message: message@,
            },
            StreamMessage::Complete => StreamMessageV::Complete,
        }
    }
}

pub open spec fn stream_message_wf(m: StreamMessageV) -> bool {
    match m {
        StreamMessageV::PreviewFrame { ascii, .. } => vstd::utf8::encode_utf8(ascii).len()
            <= u64::MAX,
        StreamMessageV::StatusUpdate { message } => vstd::utf8::encode_utf8(message).len()
            <= u64::MAX,
        StreamMessageV::Complete => true,
    }
}

pub open spec fn spec_encode_stream_message(m: StreamMessageV) -> Seq<u8> {
    match m {
        StreamMessageV::PreviewFrame { ascii, captured, total } => spec_write_u32(0)
            + spec_write_string(ascii) + spec_write_u64(captured) + spec_write_u64(total),
        StreamMessageV::StatusUpdate { message } => spec_write_u32(1) + spec_write_string(message),
        StreamMessageV::Complete => spec_write_u32(2),
    }
}

pub open spec fn spec_decode_stream_message(b: Seq<u8>) -> Option<StreamMessageV> {
    match spec_read_u32(b, 0) {
        Some((tag, p0)) => if tag == 0 {
            match spec_read_string(b, p0) {
                Some((ascii, p1)) => match spec_read_u64(b, p1) {
                    Some((captured, p2)) => match spec_read_u64(b, p2) {
                        Some((total, p3)) => if p3 == b.len() {
                            Some(StreamMessageV::PreviewFrame { ascii, captured, total })
                        } else {
                            None
                        },
                        None => None,
                    },
                    None => None,
                },
                None => None,
            }
        } else if tag == 1 {
            match spec_read_string(b, p0) {
                Some((message, p1)) => if p1 == b.len() {
                    Some(StreamMessageV::StatusUpdate { message })
                } else {
                    None
                },
                None => None,
            }
        } else if tag == 2 {
            if p0 == b.len() {
                Some(StreamMessageV::Complete)
            } else {
                None
            }
        } else {
            None
        },
        None => None,
    }
}

pub fn encode_stream_message(m: &StreamMessage) -> (out: Vec<u8>)
    ensures
        out@ == spec_encode_stream_message(m@),
{
    let mut out: Vec<u8> = Vec::new();
    match m {
        StreamMessage::PreviewFrame { ascii, captured, total } => {
            write_u32(&mut out, 0);
            write_string(&mut out, ascii);
            write_u64(&mut out, *captured);
            write_u64(&mut out, *total);
        },
        StreamMessage::StatusUpdate { message } => {
            write_u32(&mut out, 1);
            write_string(&mut out, message);
        },
        StreamMessage::Complete => {
            write_u32(&mut out, 2);
        },
    }
    proof {
        assert(out@ =~= spec_encode_stream_message(m@));
    }
    out
}

pub fn decode_stream_message(b: &Vec<u8>) -> (r: Option<StreamMessage>)
    ensures
        match r {
            Some(m) => spec_decode_stream_message(b@) == Some(m@),
            None => spec_decode_stream_message(b@) is None,
        },
{
    let (tag, p0) = match read_u32(b, 0) {
        Some(x) => x,
        None => {
            return None;
        },
    };
    if tag == 0 {
        let (ascii, p1) = match read_string(b, p0) {
            Some(x) => x,
            None => {
                return None;
            },
        };
        let (captured, p2) = match read_u64(b, p1) {
            Some(x) => x,
            None => {
                return None;
            },
        };
        let (total, p3) = match read_u64(b, p2) {
            Some(x) => x,
            None => {
                return None;
            },
        };
        if p3 == b.len() {
            Some(StreamMessage::PreviewFrame { ascii, captured, total })
        } else {
            None
        }
    } else if tag == 1 {
        let (message, p1) = match read_string(b, p0) {
            Some(x) => x,
            None => {
                return None;
            },
        };
        if p1 == b.len() {
            Some(StreamMessage::StatusUpdate { message })
        } else {
            None
        }
    } else if tag == 2 {
        if p0 == b.len() {
            Some(StreamMessage::Complete)
        } else {
            None
        }
    } else {
        None
    }
}

/// Decoding an encoded stream message gives back exactly the message.
pub proof fn lemma_stream_message_round_trip(m: StreamMessageV)
    requires
        stream_message_wf(m),
    ensures
        spec_decode_stream_message(spec_encode_stream_message(m)) == Some(m),
{
    let b = spec_encode_stream_message(m);
    lemma_write_u32_len(0);
    lemma_write_u32_len(1);
    lemma_write_u32_len(2);
    match m {
        StreamMessageV::PreviewFrame { ascii, captured, total } => {
            let e0 = spec_write_u32(0);
            let e1 = spec_write_string(ascii);
            let e2 = spec_write_u64(captured);
            let e3 = spec_write_u64(total);
            lemma_write_u64_len(captured);
            lemma_write_u64_len(total);
            let p0 = e0.len() as int;
            let p1 = p0 + e1.len();
            let p2 = p1 + e2.len();
            let p3 = p2 + e3.len();
            assert(b.len() == p3);
            assert(b.subrange(0, 4) =~= e0);
            lemma_read_u32_at(b, 0, 0);
            assert(b.subrange(p0, p0 + e1.len()) =~= e1);
            lemma_read_string_at(b, p0, ascii);
            assert(b.subrange(p1, p1 + 8) =~= e2);
            lemma_read_u64_at(b, p1, captured);
            assert(b.subrange(p2, p2 + 8) =~= e3);
            lemma_read_u64_at(b, p2, total);
        },
        StreamMessageV::StatusUpdate { message } => {
            let e0 = spec_write_u32(1);
            let e1 = spec_write_string(message);
            let p0 = e0.len() as int;
            let p1 = p0 + e1.len();
            assert(b.len() == p1);
            assert(b.subrange(0, 4) =~= e0);
            lemma_read_u32_at(b, 0, 1);
            assert(b.subrange(p0, p0 + e1.len()) =~= e1);
            lemma_read_string_at(b, p0, message);
        },
        StreamMessageV::Complete => {
            assert(b.subrange(0, 4) =~= spec_write_u32(2));
            lemma_read_u32_at(b, 0, 2);
        },
    }
}

// ---------------------------------------------------------------------------
// Framing: a u32 little-endian length, capped at 1 MiB, then the payload
// ---------------------------------------------------------------------------

pub open spec fn spec_frame(payload: Seq<u8>) -> Seq<u8> {
    spec_write_u32(payload.len() as u32) + payload
}

/// Wraps a payload in a length frame; refuses payloads over the 1 MiB cap.
pub fn frame_message(payload: &Vec<u8>) -> (r: Option<Vec<u8>>)
    ensures
        payload@.len() <= MAX_FRAME_LEN ==> (r matches Some(f) && f@ == spec_frame(payload@)),
        payload@.len() > MAX_FRAME_LEN ==> r is None,
{
    if payload.len() > MAX_FRAME_LEN as usize {
        return None;
    }
    let mut out: Vec<u8> = Vec::new();
    write_u32(&mut out, payload.len() as u32);
    let ghost mid = out@;
    let mut i: usize = 0;
    while i < payload.len()
        invariant
            i <= payload.len(),
            out@ == mid + payload@.take(i as int),
        decreases payload.len() - i,
    {
        out.push(payload[i]);
        i = i + 1;
        proof {
            assert(out@ =~= mid + payload@.take(i as int));
        }
    }
    proof {
        assert(payload@.take(payload@.len() as int) =~= payload@);
        assert(out@ =~= spec_frame(payload@));
    }
    Some(out)
}

/// Wraps a payload in a tag byte and a length frame, for the streaming paths.
pub fn frame_tagged_message(kind: u8, payload: &Vec<u8>) -> (r: Option<Vec<u8>>)
    ensures
        payload@.len() <= MAX_FRAME_LEN ==> (r matches Some(f) && f@ == spec_write_u8(kind)
            + spec_frame(payload@)),
        payload@.len() > MAX_FRAME_LEN ==> r is None,
{
    if payload.len() > MAX_FRAME_LEN as usize {
        return None;
    }
    let mut out: Vec<u8> = Vec::new();
    write_u8(&mut out, kind);
    match frame_message(payload) {
        Some(mut f) => {
            out.append(&mut f);
            proof {
                assert(out@ =~= spec_write_u8(kind) + spec_frame(payload@));
            }
            Some(out)
        },
        None => None,
    }
}

/// Reads a frame header: the message length, enforcing the 1 MiB cap.
pub fn parse_frame_header(h: &Vec<u8>) -> (r: Option<u32>)
    requires
        h@.len() == 4,
    ensures
        match r {
            Some(n) => n == spec_u32_from_le_bytes(h@) && n <= MAX_FRAME_LEN,
            None => spec_u32_from_le_bytes(h@) > MAX_FRAME_LEN,
        },
{
    let n = match read_u32(h, 0) {
        Some((n, _)) => n,
        None => {
            // A four-byte header always reads; this arm cannot be taken.
            proof {
                assert(false);
            }
            return None;
        },
    };
    proof {
        assert(h@.subrange(0, 4) =~= h@);
    }
    if n <= MAX_FRAME_LEN {
        Some(n)
    } else {
        None
    }
}

} // verus!
