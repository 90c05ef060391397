use add_crypto_core::error::SnapError;
use add_crypto_core::snapshot_defense::{
    gf_div, gf_inv, gf_mul, reconstruct, split_key, PinnedBytes, Shard, VolatileKey,
};

#[test]
fn gf_arithmetic_sanity() {
    assert_eq!(gf_mul(0x53, 0x01), 0x53, "x*1 == x");
    assert_eq!(gf_mul(0x53, gf_inv(0x53)), 0x01, "x * x^-1 == 1");
    assert_eq!(gf_mul(0xCA, gf_inv(0xCA)), 0x01);
    assert_eq!(gf_mul(0x53, 0xCA), gf_mul(0xCA, 0x53), "commutative");
    assert_eq!(
        gf_mul(0x53 ^ 0x0F, 0xCA) ^ gf_mul(0x0F, 0xCA),
        gf_mul(0x53, 0xCA),
        "distributes over XOR"
    );
}

#[test]
fn split_reconstruct_any_pair() {
    let key = VolatileKey::generate().unwrap();
    let key_bytes = key.as_bytes().to_vec();
    let shards = split_key(&key);
    for (i, j) in [(0, 1), (0, 2), (1, 2)] {
        let pair = &shards[i..=j];
        let recovered = reconstruct(pair).unwrap();
        assert_eq!(recovered.as_bytes(), key_bytes.as_slice());
    }
    let recovered = reconstruct(&shards).unwrap();
    assert_eq!(recovered.as_bytes(), key_bytes.as_slice());
}

#[test]
fn reconstruct_fails_with_one_shard() {
    let key = VolatileKey::generate().unwrap();
    let shards = split_key(&key);
    let err = match reconstruct(&shards[0..1]) {
        Err(e) => e,
        Ok(_) => panic!("one shard must not reconstruct"),
    };
    assert!(matches!(err, SnapError::InsufficientShards { have: 1 }));
}

#[test]
fn seal_open_roundtrip() {
    let key = VolatileKey::generate().unwrap();
    let plaintext = b"routing-metadata-that-must-not-leak";
    let (nonce, ct) = key.seal(plaintext).unwrap();
    let opened = VolatileKey::open(&nonce, &ct, &key).unwrap();
    assert_eq!(opened, plaintext.to_vec());
}

#[test]
fn shard_serialization_roundtrip() {
    let key = VolatileKey::generate().unwrap();
    let shards = split_key(&key);
    let wire = shards[1].as_bytes().to_vec();
    let restored = Shard::from_bytes(&wire).unwrap();
    assert_eq!(restored.x(), shards[1].x());
    assert_eq!(restored.y(), shards[1].y());
    let recovered = reconstruct(&shards[1..=2]).unwrap();
    assert_eq!(recovered.as_bytes(), key.as_bytes());
}

#[test]
fn pinned_bytes_zeroized_on_drop() {
    let src = b"ml-dsa-identity-bytes";
    let p = PinnedBytes::new(src);
    assert_eq!(p.as_bytes().len(), src.len());
    assert_eq!(p.as_bytes(), &src[..]);
}

#[test]
fn gf_division_undoes_multiplication() {
    for a in [0u8, 1, 2, 0x53, 0xCA, 0xFF] {
        for b in [1u8, 2, 3, 0x53, 0xCA, 0xFF] {
            assert_eq!(gf_div(gf_mul(a, b), b), a);
        }
    }
}

#[test]
fn gf_known_inverses() {
    assert_eq!(gf_inv(1), 1);
    assert_eq!(gf_inv(2), 0x8E);
    assert_eq!(gf_inv(3), 0xF4);
    assert_eq!(gf_inv(0), 0);
}

#[test]
fn shard_from_bytes_rejects_wrong_length() {
    assert!(Shard::from_bytes(&[1u8; 10]).is_err());
    assert!(Shard::from_bytes(&[1u8; 34]).is_err());
}

#[test]
fn volatile_key_from_bytes_checks_length() {
    assert!(matches!(VolatileKey::from_bytes(&[0u8; 31]), Err(SnapError::KeyLength { got: 31 })));
    let k = VolatileKey::from_bytes(&[7u8; 32]).unwrap();
    assert_eq!(k.as_bytes(), &[7u8; 32][..]);
}

#[test]
fn every_nonzero_element_has_an_inverse() {
    for a in 1..=255u8 {
        let inv = add_crypto_core::snapshot_defense::gf_inv(a);
        assert_ne!(inv, 0);
        assert_eq!(add_crypto_core::snapshot_defense::gf_mul(a, inv), 1);
    }
    assert_eq!(add_crypto_core::snapshot_defense::gf_inv(0), 0);
}
