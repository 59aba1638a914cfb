use sup_linux::store::{
    encode_user_data, decode_user_data, set_averaged_embedding, normalize_version, UserData,
    UserStore, STORAGE_VERSION,
};

fn bits(values: &[f32]) -> Vec<u32> {
    values.iter().map(|v| v.to_bits()).collect()
}

fn floats(values: &[u32]) -> Vec<f32> {
    values.iter().map(|v| f32::from_bits(*v)).collect()
}

fn sample_record() -> UserData {
    UserData {
        version: 1,
        username: "alice".to_string(),
        embeddings: vec![bits(&[1.0, 0.0, 0.5]), bits(&[0.9, 0.1, 0.4])],
        averaged_embedding: Some(bits(&[0.95, 0.05, 0.45])),
        embedding_qualities: Some(bits(&[0.8, 0.9])),
    }
}

#[test]
fn record_round_trip() {
    let d = sample_record();
    let bytes = encode_user_data(&d);
    assert_eq!(decode_user_data(&bytes), Some(d));
}

#[test]
fn record_round_trip_without_optionals() {
    let d = UserData {
        version: 1,
        username: "u".to_string(),
        embeddings: vec![bits(&[0.25])],
        averaged_embedding: None,
        embedding_qualities: None,
    };
    let bytes = encode_user_data(&d);
    assert_eq!(decode_user_data(&bytes), Some(d));
}

#[test]
fn decode_rejects_empty_embeddings() {
    // A structurally valid record with zero embeddings breaks the record
    // shape and must not decode. Layout: u32 version, u64 name length, the
    // name bytes, u64 embedding count, two absent-option tags.
    let mut raw = Vec::new();
    raw.extend_from_slice(&1u32.to_le_bytes());
    raw.extend_from_slice(&1u64.to_le_bytes());
    raw.push(b'u');
    raw.extend_from_slice(&0u64.to_le_bytes());
    raw.push(0);
    raw.push(0);
    assert_eq!(decode_user_data(&raw), None);
}

#[test]
fn decode_rejects_quality_count_mismatch() {
    let d = UserData {
        version: 1,
        username: "u".to_string(),
        embeddings: vec![bits(&[0.5]), bits(&[0.6])],
        averaged_embedding: None,
        embedding_qualities: Some(bits(&[0.7])),
    };
    let bytes = encode_user_data(&d);
    assert_eq!(decode_user_data(&bytes), None);
}

#[test]
fn merge_appends_when_replacement_off() {
    let store = UserStore::from_dirs("/tmp/d".to_string(), "/tmp/e".to_string());
    let mut d = sample_record();
    let (added, replaced) = store.merge_user_data(
        &mut d,
        vec![bits(&[0.0, 1.0, 0.0])],
        bits(&[0.3]),
        false,
    );
    assert_eq!((added, replaced), (1, 0));
    assert_eq!(d.embeddings.len(), 3);
    assert_eq!(d.embedding_qualities.as_ref().unwrap().len(), 3);
    assert_eq!(d.embedding_qualities.as_ref().unwrap()[2], 0.3f32.to_bits());
    // The averaged embedding is stale after a merge and must be recomputed.
    assert!(d.averaged_embedding.is_none());
}

#[test]
fn merge_replaces_weakest_slot() {
    // Existing qualities [0.5, 0.9, 0.6]; incoming [0.7, 0.55].
    // 0.7 replaces the weakest slot (0.5); 0.55 beats no remaining slot and
    // is appended. One replaced, one added.
    let store = UserStore::from_dirs("d".to_string(), "e".to_string());
    let mut d = UserData {
        version: 1,
        username: "alice".to_string(),
        embeddings: vec![bits(&[0.1]), bits(&[0.2]), bits(&[0.3])],
        averaged_embedding: None,
        embedding_qualities: Some(bits(&[0.5, 0.9, 0.6])),
    };
    let (added, replaced) = store.merge_user_data(
        &mut d,
        vec![bits(&[0.7]), bits(&[0.55])],
        bits(&[0.7, 0.55]),
        true,
    );
    assert_eq!(replaced, 1);
    assert_eq!(added, 1);
    assert_eq!(d.embeddings.len(), 4);
    let mut quals = floats(d.embedding_qualities.as_ref().unwrap());
    quals.sort_by(|a, b| b.partial_cmp(a).unwrap());
    assert_eq!(quals, vec![0.9, 0.7, 0.6, 0.55]);
    // The replacing embedding sits in the replaced slot.
    assert_eq!(d.embeddings[0], bits(&[0.7]));
}

#[test]
fn merge_appends_when_nothing_is_weaker() {
    let store = UserStore::from_dirs("d".to_string(), "e".to_string());
    let mut d = UserData {
        version: 1,
        username: "alice".to_string(),
        embeddings: vec![bits(&[0.1]), bits(&[0.2])],
        averaged_embedding: None,
        embedding_qualities: Some(bits(&[0.8, 0.9])),
    };
    let (added, replaced) = store.merge_user_data(
        &mut d,
        vec![bits(&[0.3])],
        bits(&[0.5]),
        true,
    );
    assert_eq!((added, replaced), (1, 0));
    assert_eq!(d.embeddings.len(), 3);
}

#[test]
fn merge_bounds_hold_for_replacement() {
    // With replacement on, the record never shrinks and grows by at most
    // the number of new samples.
    let store = UserStore::from_dirs("d".to_string(), "e".to_string());
    let mut d = UserData {
        version: 1,
        username: "a".to_string(),
        embeddings: vec![bits(&[0.1]), bits(&[0.2])],
        averaged_embedding: None,
        embedding_qualities: Some(bits(&[0.5, 0.6])),
    };
    let before = d.embeddings.len();
    let (added, replaced) = store.merge_user_data(
        &mut d,
        vec![bits(&[0.9]), bits(&[0.8]), bits(&[0.95])],
        bits(&[0.9, 0.8, 0.95]),
        true,
    );
    let after = d.embeddings.len();
    assert!(after >= before && after <= before + 3);
    assert_eq!(added + replaced, 3);
    assert_eq!(after - before, added);
}

#[test]
fn averaged_embedding_matches_component_mean() {
    // After recomputing the averaged embedding from the stored samples,
    // every component equals the arithmetic mean within 1e-6 per sample.
    let mut d = sample_record();
    let dim = d.embeddings[0].len();
    let n = d.embeddings.len();
    let mut mean = vec![0f32; dim];
    for e in &d.embeddings {
        for (i, c) in e.iter().enumerate() {
            mean[i] += f32::from_bits(*c);
        }
    }
    for m in mean.iter_mut() {
        *m /= n as f32;
    }
    let mean_bits: Vec<u32> = mean.iter().map(|m| m.to_bits()).collect();
    set_averaged_embedding(&mut d, mean_bits);
    let avg = floats(d.averaged_embedding.as_ref().unwrap());
    let tolerance = 1e-6f32 * n as f32;
    for i in 0..dim {
        let mut exact = 0f64;
        for e in &d.embeddings {
            exact += f32::from_bits(e[i]) as f64;
        }
        exact /= n as f64;
        assert!((avg[i] as f64 - exact).abs() <= tolerance as f64);
    }
}

#[test]
fn version_is_lifted_on_load() {
    let mut d = sample_record();
    d.version = 0;
    normalize_version(&mut d);
    assert_eq!(d.version, STORAGE_VERSION);
    d.version = 9;
    normalize_version(&mut d);
    assert_eq!(d.version, 9);
}

#[test]
fn store_paths() {
    let store = UserStore::from_dirs("/var/lib/app/users".to_string(), "/var/lib/app/enroll".to_string());
    assert_eq!(store.user_file_path("alice"), "/var/lib/app/users/alice.bincode");
    assert_eq!(store.get_enrollment_images_dir("alice"), "/var/lib/app/enroll/alice");
}
