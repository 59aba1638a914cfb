//! The client's side of the protocol: request construction and the
//! interpretation of the tagged frames a streaming request sends back.
//!
//! The socket itself is the caller's: it sends the encoded request, then
//! reads one tag byte and one frame at a time and hands each pair here.

use vstd::prelude::*;
use crate::protocol::{
    Request, AuthRequest, EnrollRequest, EnhanceRequest, Response, StreamMessage, Timestamp,
    RequestV, MSG_TYPE_RESPONSE, MSG_TYPE_STREAM, SOCKET_PATH, DEV_SOCKET_PATH,
    spec_decode_stream_message, spec_decode_response, decode_stream_message, decode_response,
};
use crate::crypto::generate_challenge;

verus! {

/// A handle on the service: which socket to talk to, and whether the
/// development service may be started on demand.
pub struct ServiceClient {
    pub socket_path: String,
    pub dev_mode: bool,
}

impl ServiceClient {
    /// Picks the development or the production socket.
    pub fn new(dev_mode: bool) -> (c: ServiceClient)
        ensures
            c.dev_mode == dev_mode,
            dev_mode ==> c.socket_path@ == DEV_SOCKET_PATH@,
            !dev_mode ==> c.socket_path@ == SOCKET_PATH@,
    {
        let mut socket_path = String::new();
        if dev_mode {
            socket_path.append(DEV_SOCKET_PATH);
            proof {
                assert(socket_path@ =~= DEV_SOCKET_PATH@);
            }
        } else {
            socket_path.append(SOCKET_PATH);
            proof {
                assert(socket_path@ =~= SOCKET_PATH@);
            }
        }
        ServiceClient { socket_path, dev_mode }
    }

    /// An authenticate request with a fresh 32-byte challenge.
    pub fn build_auth_request(&self, username: String, timestamp: Timestamp) -> (r: Request)
        ensures
            r@ matches RequestV::Authenticate(a) && a.username == username@ && a.challenge.len()
                == 32 && a.timestamp == timestamp,
    {
        let challenge = generate_challenge();
        Request::Authenticate(AuthRequest { username, challenge, timestamp })
    }

    /// An enroll request; the terminal preview is always on.
    pub fn build_enroll_request(&self, username: String) -> (r: Request)
        ensures
            r@ matches RequestV::Enroll(e) && e.username == username@ && e.enable_preview,
    {
        Request::Enroll(EnrollRequest { username, enable_preview: true })
    }

    /// An enhance request; the terminal preview is always on.
    pub fn build_enhance_request(
        &self,
        username: String,
        additional_captures: Option<u32>,
        replace_weak: bool,
    ) -> (r: Request)
        ensures
            r@ matches RequestV::Enhance(e) && e.username == username@ && e.additional_captures
                == additional_captures && e.replace_weak == replace_weak && e.enable_preview,
    {
        Request::Enhance(
            EnhanceRequest { username, additional_captures, replace_weak, enable_preview: true },
        )
    }
}

/// What one tagged frame of a streaming request means to the client.
#[derive(Debug, Clone, PartialEq)]
pub enum ClientEvent {
    /// Repaint the preview area with this text.
    Preview { ascii: String, captured: u64, total: u64 },
    /// A progress note; the final report repeats it, so it is not shown.
    Status { message: String },
    /// The stream is over; the terminal response follows.
    StreamComplete,
    /// The terminal response.
    Terminal(Response),
    /// An unknown tag or an undecodable payload: fatal to the connection.
    Malformed,
}

/// Classifies one tagged frame. Unknown tags and payloads that do not
/// decode are malformed, which ends the connection.
pub fn interpret_tagged_frame(tag: u8, payload: &Vec<u8>) -> (r: ClientEvent)
    ensures
        tag == MSG_TYPE_STREAM ==> match spec_decode_stream_message(payload@) {
            Some(m) => match m {
                crate::protocol::StreamMessageV::PreviewFrame { ascii, captured, total } => (
                r matches ClientEvent::Preview { ascii: a, captured: c, total: t } && a@ == ascii
                    && c == captured && t == total),
                crate::protocol::StreamMessageV::StatusUpdate { message } => (
                r matches ClientEvent::Status { message: m2 } && m2@ == message),
                crate::protocol::StreamMessageV::Complete => r is StreamComplete,
            },
            None => r is Malformed,
        },
        tag == MSG_TYPE_RESPONSE ==> match spec_decode_response(payload@) {
            Some(m) => (r matches ClientEvent::Terminal(resp) && resp@ == m),
            None => r is Malformed,
        },
        tag != MSG_TYPE_STREAM && tag != MSG_TYPE_RESPONSE ==> r is Malformed,
{
    if tag == MSG_TYPE_STREAM {
        match decode_stream_message(payload) {
            Some(m) => match m {
                StreamMessage::PreviewFrame { ascii, captured, total } => ClientEvent::Preview {
                    ascii,
                    captured,
                    total,
                },
                StreamMessage::StatusUpdate { message } => ClientEvent::Status { message },
                StreamMessage::Complete => ClientEvent::StreamComplete,
            },
            None => ClientEvent::Malformed,
        }
    } else if tag == MSG_TYPE_RESPONSE {
        match decode_response(payload) {
            Some(resp) => ClientEvent::Terminal(resp),
            None => ClientEvent::Malformed,
        }
    } else {
        ClientEvent::Malformed
    }
}

} // verus!
