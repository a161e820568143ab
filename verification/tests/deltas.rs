use htip::delta::DeltaOp;
use htip::delta::DeltaPatch;
use htip::delta::apply_delta as apply_patch_ops;
use htip::delta::generate_delta;
use htip::serverdelta::apply_delta;
use htip::serverdelta::calculate_delta;
use htip::serverdelta::hash_binary;
use htip::patchwire::read_patch;
use htip::patchwire::write_patch;
use htip::store::UpdateResponse;
use htip::store::VersionStore;
use htip::wire::DecodeError;

#[test]
fn test_hash_stability() {
    let data = b"hello world";
    let hash1 = hash_binary(data);
    let hash2 = hash_binary(data);
    assert_eq!(hash1, hash2);
}

#[test]
fn hash_binary_matches_reference_digest() {
    let data = b"hello world";
    let expected = blake3::hash(data).to_hex().to_string();
    assert_eq!(hash_binary(data), expected);
}

#[test]
fn test_delta_roundtrip() {
    let old = b"hello world";
    let new = b"hello rust!";

    let delta = calculate_delta(old, new);
    let result = apply_delta(old, &delta);

    assert_eq!(result, new);
}

#[test]
fn test_delta_size() {
    // Identical except one byte
    let old = b"hello world";
    let new = b"hello World"; // Capital W

    let delta = calculate_delta(old, new);

    // Delta should be same size as input
    assert_eq!(delta.len(), new.len());

    // But most bytes should be zero (identical XOR)
    let non_zero = delta.iter().filter(|&&b| b != 0).count();
    assert!(non_zero < 5); // Only a few bytes changed
}

#[test]
fn test_new_bytes_beyond_old() {
    let old = b"hello";
    let new = b"hello world"; // Extended

    let delta = calculate_delta(old, new);
    let result = apply_delta(old, &delta);

    assert_eq!(result, new);
}

#[test]
fn patch_roundtrip_exact() {
    let base = b"version one of the artifact".to_vec();
    let target = b"version two! of the artifact".to_vec();
    let patch = generate_delta(&base, &target).unwrap();
    assert_eq!(patch.base_hash, *blake3::hash(&base).as_bytes());
    assert_eq!(patch.target_hash, *blake3::hash(&target).as_bytes());
    let rebuilt = apply_patch_ops(&base, &patch).unwrap();
    assert_eq!(rebuilt, target);
}

#[test]
fn patch_on_wrong_base_fails() {
    let base = b"version one of the artifact".to_vec();
    let target = b"version two! of the artifact".to_vec();
    let patch = generate_delta(&base, &target).unwrap();
    let other = b"something else entirely here".to_vec();
    assert_eq!(apply_patch_ops(&other, &patch).unwrap_err(), DecodeError::PatchCorrupt);
}

#[test]
fn corrupt_patch_range_fails() {
    let patch = DeltaPatch {
        base_hash: [0; 32],
        target_hash: [0; 32],
        operations: vec![DeltaOp::Copy { offset: 4, length: 10 }],
    };
    let base = b"tiny".to_vec();
    assert_eq!(apply_patch_ops(&base, &patch).unwrap_err(), DecodeError::PatchCorrupt);
}

#[test]
fn store_put_get_make_patch() {
    let mut store = VersionStore::new(5);
    let v1 = b"first version bytes".to_vec();
    let v2 = b"first version bytes, updated".to_vec();
    let h1 = store.put(v1.clone());
    assert_eq!(store.get(&h1), Some(v1.clone()));
    let patch = store.make_patch(&h1, &v2).unwrap();
    let rebuilt = apply_patch_ops(&v1, &patch).unwrap();
    assert_eq!(rebuilt, v2);
    let missing = vec![0u8; 32];
    assert!(store.get(&missing).is_none());
    assert!(store.make_patch(&missing, &v2).is_none());
}

#[test]
fn store_evicts_oldest_beyond_capacity() {
    let mut store = VersionStore::new(2);
    let h1 = store.put(b"one".to_vec());
    let _h2 = store.put(b"two".to_vec());
    let _h3 = store.put(b"three".to_vec());
    assert!(store.get(&h1).is_none());
    let h3 = store.put(b"three".to_vec());
    assert_eq!(store.get(&h3), Some(b"three".to_vec()));
}

#[test]
fn negotiation_picks_the_right_response() {
    let mut store = VersionStore::new(5);
    let v1 = b"first version bytes".to_vec();
    let v2 = b"first version bytes, updated".to_vec();
    let h1 = store.put(v1.clone());
    let h2 = store.put(v2.clone());
    // client already current
    assert_eq!(store.plan_update(Some(&h2), &h2, &v2), UpdateResponse::NotModified);
    // client one version behind: a patch from v1
    match store.plan_update(Some(&h1), &h2, &v2) {
        UpdateResponse::Patch(p) => {
            assert_eq!(apply_patch_ops(&v1, &p).unwrap(), v2);
        }
        other => panic!("expected a patch, got {:?}", other),
    }
    // unknown client version: full stream
    let unknown = vec![9u8; 32];
    assert_eq!(store.plan_update(Some(&unknown), &h2, &v2), UpdateResponse::Full);
    assert_eq!(store.plan_update(None, &h2, &v2), UpdateResponse::Full);
}

#[test]
fn patch_wire_round_trips() {
    let base = b"aaaa-bbbb-cccc".to_vec();
    let target = b"aaaa-XYZ-cccc".to_vec();
    let patch = generate_delta(&base, &target).unwrap();
    let wire = write_patch(&patch);
    assert_eq!(&wire[0..4], b"DXP1");
    let parsed = read_patch(&wire).unwrap();
    assert_eq!(parsed, patch);
    assert_eq!(apply_patch_ops(&base, &parsed).unwrap(), target);
    assert!(read_patch(&wire[..40]).is_err());
}
