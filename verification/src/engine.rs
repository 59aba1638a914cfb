//! The authentication state machine: a K-of-N sliding window of match
//! outcomes, a bounded FIFO buffer of recent embeddings for fusion, and the
//! lost-face reset.
//!
//! The engine works on plain values. Time comes in as milliseconds on a
//! monotonic clock. Similarity scores come in as IEEE-754 bit patterns of
//! non-negative floats, whose unsigned order is the float order, so the
//! threshold comparison happens on the bits. The caller computes the scores
//! (they are floating-point work) and hands in, per frame, the best score
//! over every probe the policy allows; the window, the counter, the buffer
//! discipline and the verdict are all decided here.

use vstd::prelude::*;
use crate::protocol::{AuthResponse, Timestamp};
use crate::crypto::{sha256_of, spec_signature_input, generate_signature};
use crate::text::{spec_dec_digits, u32_to_string};

verus! {

/// Authentication policy, from the configuration.
pub struct AuthParams {
    /// Bit pattern of the similarity threshold, a float in [0, 1].
    pub similarity_threshold_bits: u32,
    /// How many matches inside the window succeed.
    pub k_required_matches: u32,
    /// Size bound of the sliding window.
    pub n_total_attempts: u32,
    /// Size bound of the fusion buffer.
    pub embedding_buffer_size: u32,
    /// Whether fused probes are used at all.
    pub use_embedding_fusion: bool,
    /// Wall-clock budget of one authenticate call.
    pub timeout_ms: u64,
    /// How long the face may stay lost before progress is discarded.
    pub lost_face_timeout_ms: u64,
}

/// The window bound leaves room for one increment of the match counter.
pub open spec fn auth_params_wf(p: AuthParams) -> bool {
    p.n_total_attempts < u32::MAX
}

/// Per-call state of one authenticate request.
pub struct AuthState {
    pub auth_attempts: Vec<bool>,
    pub successful_matches: u32,
    pub embedding_buffer: Vec<Vec<u32>>,
    pub last_face_time_ms: u64,
    pub face_detected_once: bool,
}

pub ghost struct AuthStateV {
    pub auth_attempts: Seq<bool>,
    pub successful_matches: u32,
    pub embedding_buffer: Seq<Seq<u32>>,
    pub last_face_time_ms: u64,
    pub face_detected_once: bool,
}

impl View for AuthState {
    type V = AuthStateV;

    open spec fn view(&self) -> AuthStateV {
        AuthStateV {
            auth_attempts: self.auth_attempts@,
            successful_matches: self.successful_matches,
            embedding_buffer: self.embedding_buffer.deep_view(),
            last_face_time_ms: self.last_face_time_ms,
            face_detected_once: self.face_detected_once,
        }
    }
}

/// How many entries of the window are hits.
pub open spec fn count_hits(s: Seq<bool>) -> nat
    decreases s.len(),
{
    if s.len() == 0 {
        0
    } else {
        count_hits(s.drop_last()) + if s.last() {
            1nat
        } else {
            0nat
        }
    }
}

pub proof fn lemma_count_hits_le_len(s: Seq<bool>)
    ensures
        count_hits(s) <= s.len(),
    decreases s.len(),
{
    if s.len() > 0 {
        lemma_count_hits_le_len(s.drop_last());
    }
}

pub proof fn lemma_count_hits_push(s: Seq<bool>, b: bool)
    ensures
        count_hits(s.push(b)) == count_hits(s) + if b {
            1nat
        } else {
            0nat
        },
{
    assert(s.push(b).drop_last() =~= s);
    assert(s.push(b).last() == b);
}

pub proof fn lemma_count_hits_first(s: Seq<bool>)
    requires
        s.len() > 0,
    ensures
        count_hits(s) == count_hits(s.skip(1)) + if s[0] {
            1nat
        } else {
            0nat
        },
    decreases s.len(),
{
    if s.len() == 1 {
        assert(s.skip(1) =~= Seq::<bool>::empty());
        assert(s.drop_last() =~= Seq::<bool>::empty());
        assert(s.last() == s[0]);
    } else {
        lemma_count_hits_first(s.drop_last());
        assert(s.drop_last().skip(1) =~= s.skip(1).drop_last());
        assert(s.drop_last()[0] == s[0]);
        assert(s.skip(1).last() == s.last());
        assert(count_hits(s.skip(1)) == count_hits(s.skip(1).drop_last()) + if s.skip(1).last() {
            1nat
        } else {
            0nat
        });
    }
}

/// Appends to a bounded FIFO: the newest element enters at the back and the
/// oldest ones leave the front until the bound holds.
pub open spec fn bounded_push<T>(s: Seq<T>, x: T, cap: nat) -> Seq<T> {
    let t = s.push(x);
    if t.len() <= cap {
        t
    } else {
        t.skip((t.len() - cap) as int)
    }
}

/// The state a fresh or reset authentication holds.
pub open spec fn spec_reset_state(now_ms: u64) -> AuthStateV {
    AuthStateV {
        auth_attempts: Seq::empty(),
        successful_matches: 0,
        embedding_buffer: Seq::empty(),
        last_face_time_ms: now_ms,
        face_detected_once: false,
    }
}

/// True when the face has been seen once and has now been lost for longer
/// than the lost-face timeout.
pub open spec fn spec_face_lost(st: AuthStateV, lost_face_timeout_ms: u64, now_ms: u64) -> bool {
    st.face_detected_once && now_ms - st.last_face_time_ms > lost_face_timeout_ms
}

/// The state after one frame with a face: the hit enters the window, the
/// embedding enters the fusion buffer, and the clock of the last sighting
/// advances.
pub open spec fn spec_observe(
    st: AuthStateV,
    p: AuthParams,
    embedding: Seq<u32>,
    hit: bool,
    now_ms: u64,
) -> AuthStateV {
    AuthStateV {
        auth_attempts: bounded_push(st.auth_attempts, hit, p.n_total_attempts as nat),
        successful_matches: count_hits(
            bounded_push(st.auth_attempts, hit, p.n_total_attempts as nat),
        ) as u32,
        embedding_buffer: bounded_push(st.embedding_buffer, embedding, p.embedding_buffer_size as nat),
        last_face_time_ms: now_ms,
        face_detected_once: true,
    }
}

/// Losing the face for longer than the timeout discards all progress: the
/// reset state has an empty window and a zero match counter, and the first
/// observation after it sees a window holding exactly that one outcome —
/// earlier hits cannot carry over a reset.
pub proof fn lemma_reset_discards_progress(
    now_ms: u64,
    p: AuthParams,
    embedding: Seq<u32>,
    hit: bool,
    later_ms: u64,
)
    requires
        p.n_total_attempts >= 1,
    ensures
        spec_reset_state(now_ms).auth_attempts.len() == 0,
        spec_reset_state(now_ms).successful_matches == 0,
        spec_observe(spec_reset_state(now_ms), p, embedding, hit, later_ms).auth_attempts == seq![
            hit,
        ],
        spec_observe(spec_reset_state(now_ms), p, embedding, hit, later_ms).successful_matches
            == if hit {
            1int
        } else {
            0int
        },
{
    let w = bounded_push(Seq::<bool>::empty(), hit, p.n_total_attempts as nat);
    assert(Seq::<bool>::empty().push(hit) =~= seq![hit]);
    assert(w =~= seq![hit]);
    lemma_count_hits_push(Seq::<bool>::empty(), hit);
    assert(count_hits(Seq::<bool>::empty()) == 0);
    assert(count_hits(seq![hit]) == if hit {
        1nat
    } else {
        0nat
    });
}

/// The window accounting invariant: the counter counts the hits in the
/// window, and the window and buffer respect their bounds.
pub open spec fn auth_state_wf(st: AuthStateV, p: AuthParams) -> bool {
    &&& st.auth_attempts.len() <= p.n_total_attempts
    &&& st.successful_matches == count_hits(st.auth_attempts)
    &&& st.embedding_buffer.len() <= p.embedding_buffer_size
}

impl AuthState {
    /// A fresh state at the given instant.
    pub fn new(now_ms: u64) -> (st: AuthState)
        ensures
            st@ == spec_reset_state(now_ms),
            forall|p: AuthParams| auth_state_wf(st@, p),
    {
        let st = AuthState {
            auth_attempts: Vec::new(),
            successful_matches: 0,
            embedding_buffer: Vec::new(),
            last_face_time_ms: now_ms,
            face_detected_once: false,
        };
        proof {
            assert(st@.auth_attempts =~= Seq::<bool>::empty());
            assert(st@.embedding_buffer =~~= Seq::<Seq<u32>>::empty());
        }
        st
    }

    /// Discards all progress when the face has been lost for longer than
    /// the timeout; reports whether it did.
    pub fn check_lost_face(&mut self, lost_face_timeout_ms: u64, now_ms: u64) -> (reset: bool)
        requires
            now_ms >= old(self)@.last_face_time_ms,
        ensures
            reset == spec_face_lost(old(self)@, lost_face_timeout_ms, now_ms),
            reset ==> final(self)@ == spec_reset_state(now_ms),
            !reset ==> final(self)@ == old(self)@,
    {
        if self.face_detected_once && now_ms - self.last_face_time_ms > lost_face_timeout_ms {
            let fresh_state = AuthState::new(now_ms);
            *self = fresh_state;
            true
        } else {
            false
        }
    }

    /// Feeds one frame that held a face. `best_similarity_bits` is the bit
    /// pattern of the best (non-negative) similarity the caller computed
    /// for this frame; the outcome of the threshold test is returned.
    pub fn record_face_observation(
        &mut self,
        p: &AuthParams,
        embedding: Vec<u32>,
        best_similarity_bits: u32,
        now_ms: u64,
    ) -> (hit: bool)
        requires
            auth_state_wf(old(self)@, *p),
            auth_params_wf(*p),
        ensures
            auth_state_wf(final(self)@, *p),
            hit == (best_similarity_bits > p.similarity_threshold_bits),
            final(self)@ == spec_observe(old(self)@, *p, embedding@, hit, now_ms),
    {
        let ghost orig = self@;
        self.face_detected_once = true;
        self.last_face_time_ms = now_ms;

        let hit = best_similarity_bits > p.similarity_threshold_bits;
        self.auth_attempts.push(hit);
        if hit {
            proof {
                lemma_count_hits_le_len(orig.auth_attempts);
                lemma_count_hits_push(orig.auth_attempts, hit);
            }
            self.successful_matches = self.successful_matches + 1;
        } else {
            proof {
                lemma_count_hits_push(orig.auth_attempts, hit);
            }
        }
        let ghost pushed = orig.auth_attempts.push(hit);
        proof {
            assert(self@.auth_attempts == pushed);
            assert(self.successful_matches == count_hits(pushed));
            lemma_count_hits_le_len(pushed);
            assert(pushed.skip(0) =~= pushed);
            assert(self@.auth_attempts == pushed.skip(0));
        }
        while self.auth_attempts.len() > p.n_total_attempts as usize
            invariant
                count_hits(pushed) <= pushed.len(),
                self.successful_matches == count_hits(self@.auth_attempts),
                pushed.len() <= orig.auth_attempts.len() + 1,
                pushed.len() <= p.n_total_attempts ==> self@.auth_attempts == pushed,
                pushed.len() > p.n_total_attempts ==> self@.auth_attempts.len()
                    >= p.n_total_attempts,
                exists|j: int|
                    0 <= j <= pushed.len() && self@.auth_attempts == #[trigger] pushed.skip(j),
                self@.embedding_buffer == orig.embedding_buffer,
                self.last_face_time_ms == now_ms,
                self.face_detected_once,
            decreases self.auth_attempts.len(),
        {
            let ghost pre = self@.auth_attempts;
            proof {
                lemma_count_hits_first(pre);
                lemma_count_hits_le_len(pre.skip(1));
            }
            let oldest = self.auth_attempts.remove(0);
            if oldest {
                self.successful_matches = self.successful_matches - 1;
            }
            proof {
                assert(self@.auth_attempts =~= pre.skip(1));
                let j = choose|j: int|
                    0 <= j <= pushed.len() && pre == #[trigger] pushed.skip(j);
                assert(pre.skip(1) =~= pushed.skip(j + 1));
            }
        }
        proof {
            // The loop stops exactly at the bound, so what remains is the
            // longest suffix within it: the bounded push.
            let j = choose|j: int|
                0 <= j <= pushed.len() && self@.auth_attempts == #[trigger] pushed.skip(j);
            assert(self@.auth_attempts.len() == pushed.len() - j);
            if pushed.len() > p.n_total_attempts {
                assert(self@.auth_attempts.len() == p.n_total_attempts);
                assert(j == pushed.len() - p.n_total_attempts);
            } else {
                assert(self@.auth_attempts == pushed);
            }
            assert(self@.auth_attempts =~= bounded_push(
                orig.auth_attempts,
                hit,
                p.n_total_attempts as nat,
            ));
        }

        // The fusion buffer: newest at the back, bounded by the capacity.
        let ghost buf_pushed = orig.embedding_buffer.push(embedding@);
        self.embedding_buffer.push(embedding);
        proof {
            assert(self@.embedding_buffer =~~= buf_pushed);
            assert(buf_pushed.skip(0) =~= buf_pushed);
            assert(self@.embedding_buffer == buf_pushed.skip(0));
        }
        while self.embedding_buffer.len() > p.embedding_buffer_size as usize
            invariant
                self@.auth_attempts == bounded_push(
                    orig.auth_attempts,
                    hit,
                    p.n_total_attempts as nat,
                ),
                self.successful_matches == count_hits(self@.auth_attempts),
                self@.auth_attempts.len() <= p.n_total_attempts,
                buf_pushed.len() <= p.embedding_buffer_size ==> self@.embedding_buffer
                    == buf_pushed,
                buf_pushed.len() > p.embedding_buffer_size ==> self@.embedding_buffer.len()
                    >= p.embedding_buffer_size,
                exists|j: int|
                    0 <= j <= buf_pushed.len() && self@.embedding_buffer == #[trigger] buf_pushed.skip(
                        j,
                    ),
                self.last_face_time_ms == now_ms,
                self.face_detected_once,
            decreases self.embedding_buffer.len(),
        {
            let ghost pre = self@.embedding_buffer;
            let _dropped = self.embedding_buffer.remove(0);
            proof {
                assert(self@.embedding_buffer =~~= pre.skip(1));
                let j = choose|j: int|
                    0 <= j <= buf_pushed.len() && pre == #[trigger] buf_pushed.skip(j);
                assert(pre.skip(1) =~= buf_pushed.skip(j + 1));
            }
        }
        proof {
            let j = choose|j: int|
                0 <= j <= buf_pushed.len() && self@.embedding_buffer == #[trigger] buf_pushed.skip(
                    j,
                );
            assert(self@.embedding_buffer.len() == buf_pushed.len() - j);
            if buf_pushed.len() > p.embedding_buffer_size {
                assert(self@.embedding_buffer.len() == p.embedding_buffer_size);
                assert(j == buf_pushed.len() - p.embedding_buffer_size);
            } else {
                assert(self@.embedding_buffer == buf_pushed);
            }
            assert(self@.embedding_buffer =~~= bounded_push(
                orig.embedding_buffer,
                embedding@,
                p.embedding_buffer_size as nat,
            ));
            assert(self@ == spec_observe(orig, *p, embedding@, hit, now_ms));
        }
        hit
    }

    /// Whether the window holds at least the required number of hits.
    pub fn is_authenticated(&self, p: &AuthParams) -> (r: bool)
        ensures
            r == (self@.successful_matches >= p.k_required_matches),
    {
        self.successful_matches >= p.k_required_matches
    }

    /// The embeddings currently in the fusion buffer, oldest first. The
    /// caller averages them for the fused probe.
    pub fn fusion_buffer(&self) -> (r: &Vec<Vec<u32>>)
        ensures
            r.deep_view() == self@.embedding_buffer,
    {
        &self.embedding_buffer
    }
}

/// The best similarity of a frame: the maximum of zero and every probe
/// score. Scores are bit patterns of non-negative floats, so the unsigned
/// maximum is the float maximum.
pub fn best_similarity_bits(scores: &Vec<u32>) -> (r: u32)
    ensures
        forall|i: int| 0 <= i < scores@.len() ==> #[trigger] scores@[i] <= r,
        r == 0 || exists|i: int| 0 <= i < scores@.len() && scores@[i] == r,
{
    let mut best: u32 = 0;
    let mut i: usize = 0;
    while i < scores.len()
        invariant
            i <= scores@.len(),
            forall|j: int| 0 <= j < i ==> #[trigger] scores@[j] <= best,
            best == 0 || exists|j: int| 0 <= j < i && scores@[j] == best,
        decreases scores@.len() - i,
    {
        if scores[i] > best {
            best = scores[i];
        }
        i = i + 1;
    }
    best
}

// ---------------------------------------------------------------------------
// Terminal responses of one authenticate call
// ---------------------------------------------------------------------------

/// The success verdict. Its signature binds the response to the challenge:
/// SHA-256 over the matching embedding's little-endian component bytes
/// followed by the challenge bytes.
pub fn auth_success_response(
    attempts: u32,
    embedding: &Vec<u32>,
    challenge: &Vec<u8>,
    timestamp: Timestamp,
) -> (r: AuthResponse)
    ensures
        r.success,
        r.attempts == attempts,
        r.signature@ == sha256_of(spec_signature_input(embedding@, challenge@)),
        r.signature@.len() == 32,
        r.timestamp == timestamp,
        r.message@ == "Authenticated after "@ + spec_dec_digits(attempts as nat) + " attempts"@,
{
    let signature = generate_signature(embedding, challenge);
    let mut message = String::new();
    message.append("Authenticated after ");
    let n = u32_to_string(attempts);
    message.append(n.as_str());
    message.append(" attempts");
    proof {
        assert(message@ =~= "Authenticated after "@ + spec_dec_digits(attempts as nat)
            + " attempts"@);
    }
    AuthResponse { success: true, message, attempts, signature, timestamp }
}

/// The verdict when the deadline passed: no signature.
pub fn auth_timeout_response(attempts: u32, timestamp: Timestamp) -> (r: AuthResponse)
    ensures
        !r.success,
        r.attempts == attempts,
        r.signature@ == Seq::<u8>::empty(),
        r.timestamp == timestamp,
        r.message@ == "Authentication timeout"@,
{
    let signature: Vec<u8> = Vec::new();
    let mut message = String::new();
    message.append("Authentication timeout");
    proof {
        assert(message@ =~= "Authentication timeout"@);
        assert(signature@ =~= Seq::<u8>::empty());
    }
    AuthResponse { success: false, message, attempts, signature, timestamp }
}

/// The verdict when the user has no record: an expected negative, with no
/// signature and no attempts made.
pub fn not_enrolled_response(username: &str, timestamp: Timestamp) -> (r: AuthResponse)
    ensures
        !r.success,
        r.attempts == 0,
        r.signature@ == Seq::<u8>::empty(),
        r.timestamp == timestamp,
        r.message@ == "User "@ + username@ + " not enrolled"@,
{
    let signature: Vec<u8> = Vec::new();
    let mut message = String::new();
    message.append("User ");
    message.append(username);
    message.append(" not enrolled");
    proof {
        assert(message@ =~= "User "@ + username@ + " not enrolled"@);
        assert(signature@ =~= Seq::<u8>::empty());
    }
    AuthResponse { success: false, message, attempts: 0, signature, timestamp }
}

/// Whether the authenticate deadline has passed.
pub fn deadline_expired(start_ms: u64, now_ms: u64, timeout_ms: u64) -> (r: bool)
    requires
        now_ms >= start_ms,
    ensures
        r == (now_ms - start_ms >= timeout_ms),
{
    now_ms - start_ms >= timeout_ms
}

} // verus!
