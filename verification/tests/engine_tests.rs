use sup_linux::engine::{
    AuthParams, AuthState, best_similarity_bits, auth_success_response, auth_timeout_response,
    not_enrolled_response, deadline_expired,
};
use sup_linux::protocol::Timestamp;
use sup_linux::enroll::CaptureSession;
use sup_linux::store::set_averaged_embedding;
use sha2::Digest;

fn params(threshold: f32, k: u32, n: u32, buffer: u32, timeout_ms: u64, lost_ms: u64) -> AuthParams {
    AuthParams {
        similarity_threshold_bits: threshold.to_bits(),
        k_required_matches: k,
        n_total_attempts: n,
        embedding_buffer_size: buffer,
        use_embedding_fusion: true,
        timeout_ms,
        lost_face_timeout_ms: lost_ms,
    }
}

fn cosine(a: &[f32], b: &[f32]) -> f32 {
    let dot: f32 = a.iter().zip(b).map(|(x, y)| x * y).sum();
    let na: f32 = a.iter().map(|x| x * x).sum::<f32>().sqrt();
    let nb: f32 = b.iter().map(|x| x * x).sum::<f32>().sqrt();
    if na == 0.0 || nb == 0.0 {
        return 0.0;
    }
    dot / (na * nb)
}

fn bits(values: &[f32]) -> Vec<u32> {
    values.iter().map(|v| v.to_bits()).collect()
}

/// Feeds one frame whose best similarity is `sim` at time `now`.
fn feed(state: &mut AuthState, p: &AuthParams, sim: f32, now: u64) -> bool {
    state.record_face_observation(p, bits(&[sim]), sim.max(0.0).to_bits(), now)
}

#[test]
fn window_counts_hits() {
    let p = params(0.6, 2, 3, 3, 10000, 3000);
    let mut st = AuthState::new(0);
    assert!(feed(&mut st, &p, 0.9, 10));
    assert!(!feed(&mut st, &p, 0.1, 20));
    assert_eq!(st.successful_matches, 1);
    assert_eq!(st.auth_attempts, vec![true, false]);
    assert!(st.auth_attempts.len() <= 3);
}

#[test]
fn k_of_n_succeeds_on_two_hits_in_window() {
    // Feed hit, miss, hit with K=2, N=3: success at the third frame.
    let p = params(0.6, 2, 3, 3, 10000, 3000);
    let mut st = AuthState::new(0);
    feed(&mut st, &p, 0.9, 10);
    assert!(!st.is_authenticated(&p));
    feed(&mut st, &p, 0.1, 20);
    assert!(!st.is_authenticated(&p));
    feed(&mut st, &p, 0.95, 30);
    assert!(st.is_authenticated(&p));
}

#[test]
fn window_slides_and_forgets_old_hits() {
    // hit, miss, miss, hit: at the fourth frame the window holds
    // {miss, miss, hit}, one match, not enough; one more hit succeeds.
    let p = params(0.6, 2, 3, 3, 10000, 3000);
    let mut st = AuthState::new(0);
    feed(&mut st, &p, 0.9, 10);
    feed(&mut st, &p, 0.1, 20);
    feed(&mut st, &p, 0.2, 30);
    feed(&mut st, &p, 0.9, 40);
    assert_eq!(st.auth_attempts, vec![false, false, true]);
    assert_eq!(st.successful_matches, 1);
    assert!(!st.is_authenticated(&p));
    feed(&mut st, &p, 0.9, 50);
    assert_eq!(st.successful_matches, 2);
    assert!(st.is_authenticated(&p));
}

#[test]
fn lost_face_resets_progress() {
    // One hit, then no face for 1.2 s with a 1 s lost-face timeout: the next
    // hit starts from a clean window, so one match, not two.
    let p = params(0.6, 2, 3, 3, 10000, 1000);
    let mut st = AuthState::new(0);
    feed(&mut st, &p, 0.9, 100);
    assert_eq!(st.successful_matches, 1);
    let reset = st.check_lost_face(p.lost_face_timeout_ms, 1300);
    assert!(reset);
    assert_eq!(st.auth_attempts.len(), 0);
    assert_eq!(st.successful_matches, 0);
    assert!(st.embedding_buffer.is_empty());
    feed(&mut st, &p, 0.9, 1300);
    assert_eq!(st.auth_attempts, vec![true]);
    assert_eq!(st.successful_matches, 1);
    assert!(!st.is_authenticated(&p));
}

#[test]
fn face_within_timeout_keeps_progress() {
    let p = params(0.6, 2, 3, 3, 10000, 1000);
    let mut st = AuthState::new(0);
    feed(&mut st, &p, 0.9, 100);
    let reset = st.check_lost_face(p.lost_face_timeout_ms, 900);
    assert!(!reset);
    assert_eq!(st.successful_matches, 1);
}

#[test]
fn fusion_buffer_is_bounded_fifo() {
    let p = params(0.6, 2, 3, 2, 10000, 3000);
    let mut st = AuthState::new(0);
    st.record_face_observation(&p, bits(&[1.0]), 0.9f32.to_bits(), 10);
    st.record_face_observation(&p, bits(&[2.0]), 0.9f32.to_bits(), 20);
    st.record_face_observation(&p, bits(&[3.0]), 0.9f32.to_bits(), 30);
    assert_eq!(st.embedding_buffer, vec![bits(&[2.0]), bits(&[3.0])]);
    assert_eq!(st.fusion_buffer(), &vec![bits(&[2.0]), bits(&[3.0])]);
}

#[test]
fn best_similarity_is_max_and_never_negative() {
    let scores = vec![0.1f32.to_bits(), 0.7f32.to_bits(), 0.3f32.to_bits()];
    assert_eq!(best_similarity_bits(&scores), 0.7f32.to_bits());
    assert_eq!(best_similarity_bits(&Vec::new()), 0);
}

#[test]
fn enroll_then_authenticate_happy_path() {
    // Five fixture embeddings clustered around a centroid enroll "userA";
    // three fresh frames from the same cluster authenticate with K=2, N=3,
    // a 0.6 threshold, and a 32-byte signature bound to the challenge.
    let centroid = [0.8f32, 0.4, 0.2, 0.4];
    let cluster = |wobble: f32| {
        vec![centroid[0] + wobble, centroid[1] - wobble, centroid[2] + wobble, centroid[3]]
    };

    let mut session = CaptureSession::new(0);
    for i in 0..5u32 {
        let sample = cluster(0.01 * i as f32);
        session.record_capture(bits(&sample), 0.85f32.to_bits(), 2000 * (i as u64 + 1));
    }
    assert_eq!(session.captured(), 5);
    let mut record = session.finish_enroll("userA".to_string(), 5).expect("five of five");

    // Recompute the averaged embedding as the service does after a save.
    let n = record.embeddings.len() as f32;
    let dim = record.embeddings[0].len();
    let mut mean = vec![0f32; dim];
    for e in &record.embeddings {
        for (i, c) in e.iter().enumerate() {
            mean[i] += f32::from_bits(*c) / n;
        }
    }
    set_averaged_embedding(&mut record, mean.iter().map(|m| m.to_bits()).collect());

    let p = params(0.6, 2, 3, 3, 5000, 2000);
    let mut st = AuthState::new(0);
    let challenge = vec![0xABu8; 32];
    let mut attempts = 0u32;
    let mut verdict = None;
    for i in 0..5u32 {
        attempts += 1;
        let probe = cluster(-0.01 * i as f32);
        // Best similarity over stored embeddings and the averaged one.
        let mut best = 0f32;
        for e in &record.embeddings {
            let stored: Vec<f32> = e.iter().map(|c| f32::from_bits(*c)).collect();
            best = best.max(cosine(&probe, &stored));
        }
        if let Some(avg) = &record.averaged_embedding {
            let stored: Vec<f32> = avg.iter().map(|c| f32::from_bits(*c)).collect();
            best = best.max(cosine(&probe, &stored));
        }
        let emb = bits(&probe);
        st.record_face_observation(&p, emb.clone(), best.to_bits(), 100 * i as u64);
        if st.is_authenticated(&p) {
            verdict = Some(auth_success_response(attempts, &emb, &challenge, Timestamp {
                secs: 1,
                nanos: 0,
            }));
            break;
        }
    }
    let resp = verdict.expect("same-cluster probes must authenticate");
    assert!(resp.success);
    assert!(resp.attempts <= 5);
    assert_eq!(resp.signature.len(), 32);

    // The signature is SHA-256 over the last embedding's little-endian
    // component bytes followed by the challenge.
    let last_probe = cluster(-0.01 * (resp.attempts - 1) as f32);
    let mut input = Vec::new();
    for c in bits(&last_probe) {
        input.extend_from_slice(&c.to_le_bytes());
    }
    input.extend_from_slice(&challenge);
    let expected = sha2::Sha256::digest(&input);
    assert_eq!(resp.signature, expected.to_vec());
}

#[test]
fn impostor_is_rejected() {
    // Probes from a different cluster with cosine about 0.3 never pass a
    // 0.6 threshold; the deadline verdict carries an empty signature.
    let genuine = [1.0f32, 0.0, 0.0, 0.0];
    let impostor = [0.3f32, 0.9539392, 0.0, 0.0];
    assert!((cosine(&genuine, &impostor) - 0.3).abs() < 1e-3);

    let record = vec![bits(&genuine)];
    let p = params(0.6, 2, 3, 3, 2000, 2000);
    let mut st = AuthState::new(0);
    let mut attempts = 0u32;
    let start = 0u64;
    let mut now = start;
    while !deadline_expired(start, now, p.timeout_ms) {
        attempts += 1;
        let mut best = 0f32;
        for e in &record {
            let stored: Vec<f32> = e.iter().map(|c| f32::from_bits(*c)).collect();
            best = best.max(cosine(&impostor, &stored));
        }
        st.record_face_observation(&p, bits(&impostor), best.to_bits(), now);
        assert!(!st.is_authenticated(&p));
        now += 300;
    }
    assert!(attempts >= 1);
    let resp = auth_timeout_response(attempts, Timestamp { secs: 2, nanos: 0 });
    assert!(!resp.success);
    assert!(resp.signature.is_empty());
    assert_eq!(resp.message, "Authentication timeout");
}

#[test]
fn signature_is_really_sha256() {
    // Empty embedding: the signature is the digest of the challenge alone.
    // SHA-256 of "abc" is the classic test vector.
    let resp = auth_success_response(1, &Vec::new(), &b"abc".to_vec(), Timestamp {
        secs: 0,
        nanos: 0,
    });
    let expected: [u8; 32] = [
        0xba, 0x78, 0x16, 0xbf, 0x8f, 0x01, 0xcf, 0xea, 0x41, 0x41, 0x40, 0xde, 0x5d, 0xae, 0x22,
        0x23, 0xb0, 0x03, 0x61, 0xa3, 0x96, 0x17, 0x7a, 0x9c, 0xb4, 0x10, 0xff, 0x61, 0xf2, 0x00,
        0x15, 0xad,
    ];
    assert_eq!(resp.signature, expected.to_vec());
    assert_eq!(resp.message, "Authenticated after 1 attempts");
}

#[test]
fn not_enrolled_is_a_plain_negative() {
    let resp = not_enrolled_response("ghost", Timestamp { secs: 0, nanos: 0 });
    assert!(!resp.success);
    assert_eq!(resp.attempts, 0);
    assert!(resp.signature.is_empty());
    assert_eq!(resp.message, "User ghost not enrolled");
}

#[test]
fn deadline_arithmetic() {
    assert!(!deadline_expired(100, 100, 50));
    assert!(!deadline_expired(100, 149, 50));
    assert!(deadline_expired(100, 150, 50));
}
