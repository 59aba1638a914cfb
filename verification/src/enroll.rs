//! The enrollment and enhancement session: deadline arithmetic, the capture
//! gate (spacing and quality), the capture buffers, and the terminal
//! responses of both flows.
//!
//! Quality scores travel as IEEE-754 bit patterns of floats in [0, 1], so
//! the quality gate compares bit patterns; for non-negative floats that is
//! the float comparison.

use vstd::prelude::*;
use crate::protocol::{EnrollResponse, EnhanceResponse};
use crate::store::{UserData, UserDataV, user_data_wf};
use crate::text::{spec_dec_digits, u32_to_string};

verus! {

/// Deadline budget of a capture session: captures times interval, with a
/// factor of five when preview frames are streamed and three otherwise.
pub fn enroll_deadline_ms(total_captures: u64, capture_interval_ms: u64, streaming: bool) -> (d:
    u64)
    requires
        total_captures * capture_interval_ms * 5 <= u64::MAX,
    ensures
        d == total_captures * capture_interval_ms * (if streaming {
            5int
        } else {
            3int
        }),
{
    proof {
        assert(total_captures * capture_interval_ms * 3 <= total_captures * capture_interval_ms
            * 5) by (nonlinear_arith)
            requires
                total_captures >= 0 && capture_interval_ms >= 0,
        ;
    }
    if streaming {
        total_captures * capture_interval_ms * 5
    } else {
        total_captures * capture_interval_ms * 3
    }
}

/// Whether a frame passes the quality gate.
pub fn meets_minimum_quality(quality_bits: u32, min_quality_bits: u32) -> (r: bool)
    ensures
        r == (quality_bits >= min_quality_bits),
{
    quality_bits >= min_quality_bits
}

/// The samples gathered so far in one enrollment or enhancement session.
pub struct CaptureSession {
    pub embeddings: Vec<Vec<u32>>,
    pub quality_scores: Vec<u32>,
    pub last_capture_time_ms: u64,
}

pub ghost struct CaptureSessionV {
    pub embeddings: Seq<Seq<u32>>,
    pub quality_scores: Seq<u32>,
    pub last_capture_time_ms: u64,
}

impl View for CaptureSession {
    type V = CaptureSessionV;

    open spec fn view(&self) -> CaptureSessionV {
        CaptureSessionV {
            embeddings: self.embeddings.deep_view(),
            quality_scores: self.quality_scores.deep_view(),
            last_capture_time_ms: self.last_capture_time_ms,
        }
    }
}

/// One quality score per sample, and all samples of one dimension.
pub open spec fn capture_session_wf(s: CaptureSessionV) -> bool {
    &&& s.quality_scores.len() == s.embeddings.len()
    &&& forall|i: int|
        0 <= i < s.embeddings.len() ==> #[trigger] s.embeddings[i].len() == s.embeddings[0].len()
}

impl CaptureSession {
    /// An empty session started at the given instant.
    pub fn new(start_ms: u64) -> (s: CaptureSession)
        ensures
            s@.embeddings == Seq::<Seq<u32>>::empty(),
            s@.quality_scores == Seq::<u32>::empty(),
            s@.last_capture_time_ms == start_ms,
            capture_session_wf(s@),
    {
        let s = CaptureSession {
            embeddings: Vec::new(),
            quality_scores: Vec::new(),
            last_capture_time_ms: start_ms,
        };
        proof {
            assert(s@.embeddings =~~= Seq::<Seq<u32>>::empty());
            assert(s@.quality_scores =~= Seq::<u32>::empty());
        }
        s
    }

    /// How many samples the session holds.
    pub fn captured(&self) -> (n: usize)
        ensures
            n == self@.embeddings.len(),
    {
        self.embeddings.len()
    }

    /// The capture gate on time: a face is in view and the configured
    /// interval has passed since the last accepted capture.
    pub fn ready_for_capture(&self, has_face: bool, now_ms: u64, capture_interval_ms: u64) -> (r:
        bool)
        requires
            now_ms >= self@.last_capture_time_ms,
        ensures
            r == (has_face && now_ms - self@.last_capture_time_ms >= capture_interval_ms),
    {
        has_face && now_ms - self.last_capture_time_ms >= capture_interval_ms
    }

    /// Accepts one sample: the embedding and its quality enter the buffers
    /// and the capture clock restarts.
    pub fn record_capture(&mut self, embedding: Vec<u32>, quality_bits: u32, now_ms: u64)
        requires
            capture_session_wf(old(self)@),
            old(self)@.embeddings.len() > 0 ==> embedding@.len() == old(
                self,
            )@.embeddings[0].len(),
        ensures
            capture_session_wf(final(self)@),
            final(self)@.embeddings == old(self)@.embeddings.push(embedding@),
            final(self)@.quality_scores == old(self)@.quality_scores.push(quality_bits),
            final(self)@.last_capture_time_ms == now_ms,
    {
        let ghost orig = self@;
        let ghost ev = embedding@;
        self.embeddings.push(embedding);
        self.quality_scores.push(quality_bits);
        self.last_capture_time_ms = now_ms;
        proof {
            assert(self@.embeddings =~~= orig.embeddings.push(ev));
            assert(self@.quality_scores =~= orig.quality_scores.push(quality_bits));
        }
    }

    /// Closes an enrollment session. A record comes out exactly when the
    /// target was reached; on a shortfall all progress is discarded. The
    /// record's averaged embedding is left empty for the caller to compute
    /// from the samples.
    pub fn finish_enroll(self, username: String, total_captures: u64) -> (r: Option<UserData>)
        requires
            capture_session_wf(self@),
        ensures
            (r is Some) <==> (self@.embeddings.len() == total_captures && total_captures >= 1),
            match r {
                Some(d) => {
                    &&& user_data_wf(d@)
                    &&& d@.version == 1
                    &&& d@.username == username@
                    &&& d@.embeddings == self@.embeddings
                    &&& d@.embedding_qualities == Some(self@.quality_scores)
                    &&& d@.averaged_embedding is None
                },
                None => true,
            },
    {
        if total_captures >= 1 && self.embeddings.len() as u64 == total_captures {
            let ghost sv = self@;
            let d = UserData {
                version: 1,
                username,
                embeddings: self.embeddings,
                averaged_embedding: None,
                embedding_qualities: Some(self.quality_scores),
            };
            proof {
                assert(d@.embeddings == sv.embeddings);
                assert(d@.embedding_qualities == Some(sv.quality_scores));
                assert(user_data_wf(d@));
            }
            Some(d)
        } else {
            None
        }
    }
}

/// An enhancement succeeds as soon as one valid capture was taken.
pub fn enhance_succeeded(captured: usize) -> (r: bool)
    ensures
        r == (captured >= 1),
{
    captured >= 1
}

// ---------------------------------------------------------------------------
// Terminal responses
// ---------------------------------------------------------------------------

/// The successful enrollment verdict.
pub fn enroll_success_response(username: &str, captures: u32) -> (r: EnrollResponse)
    ensures
        r.success,
        r.message@ == "User '"@ + username@ + "' enrolled successfully with "@ + spec_dec_digits(
            captures as nat,
        ) + " face captures"@,
{
    let mut message = String::new();
    message.append("User '");
    message.append(username);
    message.append("' enrolled successfully with ");
    let n = u32_to_string(captures);
    message.append(n.as_str());
    message.append(" face captures");
    proof {
        assert(message@ =~= "User '"@ + username@ + "' enrolled successfully with "@
            + spec_dec_digits(captures as nat) + " face captures"@);
    }
    EnrollResponse { success: true, message }
}

/// The verdict when the deadline passed short of the target: the shortfall
/// is reported and nothing is saved.
pub fn enroll_shortfall_response(captured: u32, total: u32) -> (r: EnrollResponse)
    ensures
        !r.success,
        r.message@ == "Enrollment failed: only "@ + spec_dec_digits(captured as nat) + "/"@
            + spec_dec_digits(total as nat) + " captures completed"@,
{
    let mut message = String::new();
    message.append("Enrollment failed: only ");
    let c = u32_to_string(captured);
    message.append(c.as_str());
    message.append("/");
    let t = u32_to_string(total);
    message.append(t.as_str());
    message.append(" captures completed");
    proof {
        assert(message@ =~= "Enrollment failed: only "@ + spec_dec_digits(captured as nat) + "/"@
            + spec_dec_digits(total as nat) + " captures completed"@);
    }
    EnrollResponse { success: false, message }
}

/// A failed enrollment with the caller's description of what went wrong.
pub fn enroll_error_response(message: String) -> (r: EnrollResponse)
    ensures
        !r.success,
        r.message@ == message@,
{
    EnrollResponse { success: false, message }
}

/// The successful enhancement verdict, carrying the record's growth.
pub fn enhance_success_response(
    username: &str,
    added: u32,
    embeddings_before: u64,
    embeddings_after: u64,
    replaced_count: u64,
) -> (r: EnhanceResponse)
    ensures
        r.success,
        r.embeddings_before == embeddings_before,
        r.embeddings_after == embeddings_after,
        r.replaced_count == replaced_count,
        r.message@ == "Successfully enhanced enrollment for '"@ + username@ + "'. Added "@
            + spec_dec_digits(added as nat) + " embeddings"@,
{
    let mut message = String::new();
    message.append("Successfully enhanced enrollment for '");
    message.append(username);
    message.append("'. Added ");
    let n = u32_to_string(added);
    message.append(n.as_str());
    message.append(" embeddings");
    proof {
        assert(message@ =~= "Successfully enhanced enrollment for '"@ + username@ + "'. Added "@
            + spec_dec_digits(added as nat) + " embeddings"@);
    }
    EnhanceResponse {
        success: true,
        message,
        embeddings_before,
        embeddings_after,
        replaced_count,
    }
}

/// A failed enhancement: the record kept its size and nothing was replaced.
pub fn enhance_error_response(message: String, embeddings_before: u64) -> (r: EnhanceResponse)
    ensures
        !r.success,
        r.message@ == message@,
        r.embeddings_before == embeddings_before,
        r.embeddings_after == embeddings_before,
        r.replaced_count == 0,
{
    EnhanceResponse {
        success: false,
        message,
        embeddings_before,
        embeddings_after: embeddings_before,
        replaced_count: 0,
    }
}

} // verus!
