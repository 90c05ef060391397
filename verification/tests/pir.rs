use add_crypto_core::pir::{
    cuckoo_hash_bins, xor_apply, PirClient, PirContactEntry, PirRegistry, PIR_BIN_SIZE,
    PIR_CUCKOO_FANOUT, PIR_ENTRY_SIZE, PIR_MAX_ENTRIES_PER_BIN, PirResponse, PirContactCache, PirQueryToken,
};

#[test]
fn test_cuckoo_hash_deterministic() {
    let hash = [0xABu8; 32];
    let bins1 = cuckoo_hash_bins(&hash, 2);
    let bins2 = cuckoo_hash_bins(&hash, 2);
    assert_eq!(bins1, bins2);
    assert_eq!(bins1.len(), 2);
}

#[test]
fn test_pir_contact_entry_roundtrip() {
    let hash = [0xCDu8; 32];
    let entry = PirContactEntry::new(hash, b"test-metadata").unwrap();
    let bytes = entry.to_bytes();
    assert_eq!(bytes.len(), PIR_ENTRY_SIZE);
    let recovered = PirContactEntry::from_bytes(bytes.try_into().unwrap());
    assert_eq!(recovered.fingerprint_hash, hash);
    assert!(recovered.matches(&hash));
}

#[test]
fn test_pir_registry_add_and_get() {
    let mut registry = PirRegistry::new();
    let hash = [0xEFu8; 32];
    let entry = PirContactEntry::new(hash, b"alice-contact").unwrap();
    registry.add_entry(42, &entry).unwrap();
    let bin = registry.get_bin(42).unwrap();
    assert_eq!(bin.len(), PIR_BIN_SIZE);
}

#[test]
fn test_pir_query_and_response() {
    let mut registry = PirRegistry::new();
    let hash = [0x11u8; 32];
    let client = PirClient::new();
    let (bin_idx, entry) = client.prepare_registration(&hash).unwrap();
    registry.add_entry(bin_idx, &entry).unwrap();
    let queries = client.query_contact(&hash).unwrap();
    assert_eq!(queries.len(), PIR_CUCKOO_FANOUT);
    let matching_query = queries.iter().find(|q| q.bin_index == bin_idx).unwrap();
    let response = registry.handle_query(matching_query).unwrap();
    assert_eq!(response.bin_data.len(), PIR_BIN_SIZE);
    let result = client.process_response(&response, &matching_query.xor_mask, &hash);
    assert!(result.is_ok());
}

#[test]
fn test_pir_client_registration() {
    let client = PirClient::new();
    let hash = [0x22u8; 32];
    let (bin_idx, entry) = client.prepare_registration(&hash).unwrap();
    assert!(entry.matches(&hash));
    let expected_bins = cuckoo_hash_bins(&hash, PIR_CUCKOO_FANOUT);
    assert!(expected_bins.contains(&bin_idx));
}

#[test]
fn test_xor_apply() {
    let data = vec![0xFF; 10];
    let mask = vec![0xAA; 10];
    let result = xor_apply(&data, &mask);
    assert_eq!(result, vec![0x55; 10]);
    let zeros = vec![0u8; 10];
    let result2 = xor_apply(&data, &zeros);
    assert_eq!(result2, data);
}

#[test]
fn test_pir_bin_full_error() {
    let mut registry = PirRegistry::new();
    let hash = [0x33u8; 32];
    for i in 0..PIR_MAX_ENTRIES_PER_BIN {
        let mut h = hash;
        h[0] = i as u8;
        let entry = PirContactEntry::new(h, b"fill").unwrap();
        registry.add_entry(99, &entry).unwrap();
    }
    let entry = PirContactEntry::new(hash, b"overflow").unwrap();
    assert!(registry.add_entry(99, &entry).is_err());
}

#[test]
fn xor_with_same_mask_twice_restores_data() {
    let data = vec![1u8, 2, 3, 250, 0, 77];
    let mask = vec![9u8, 200, 3, 1, 255, 0, 42];
    let once = xor_apply(&data, &mask);
    assert_eq!(once.len(), data.len());
    assert_eq!(xor_apply(&once, &mask), data);
}

#[test]
fn registered_contact_is_found_with_zero_mask() {
    let mut registry = PirRegistry::new();
    let hash = [0x5Au8; 32];
    let entry = PirContactEntry::new(hash, b"meta").unwrap();
    registry.add_entry(7, &entry).unwrap();
    assert_eq!(registry.bin_count(), 1);
    let bin = registry.get_bin(7).unwrap().to_vec();
    let client = PirClient::new();
    let resp = PirResponse { bin_data: bin, dht_ephemeral_pk: [0u8; 32], nonce: [0u8; 8] };
    let found = client.process_response(&resp, &vec![0u8; PIR_BIN_SIZE], &hash).unwrap().unwrap();
    assert_eq!(found.fingerprint_hash, hash);
    assert_eq!(found.metadata, entry.metadata);
    assert!(client.process_response(&resp, &vec![0u8; PIR_BIN_SIZE], &[0x11u8; 32]).unwrap().is_none());
}

#[test]
fn contact_entry_pads_and_truncates_metadata() {
    let e = PirContactEntry::new([1u8; 32], &[9u8; 500]).unwrap();
    assert_eq!(e.metadata.len(), PIR_ENTRY_SIZE);
    assert_eq!(&e.metadata[..32], &[1u8; 32][..]);
    assert!(e.metadata[32..].iter().all(|&b| b == 9));
    let e2 = PirContactEntry::new([2u8; 32], b"ab").unwrap();
    assert_eq!(&e2.metadata[32..34], b"ab");
    assert!(e2.metadata[34..].iter().all(|&b| b == 0));
}

#[test]
fn query_of_missing_bin_is_none() {
    let registry = PirRegistry::new();
    let client = PirClient::new();
    let q = client.query_contact(&[3u8; 32]).unwrap();
    assert!(registry.handle_query(&q[0]).is_none());
    assert_eq!(q[0].client_ephemeral_pk, *client.ephemeral_pk());
}

fn zero_mask_tokens(fp: &str) -> Vec<PirQueryToken> {
    let digest = <sha2::Sha256 as sha2::Digest>::digest(fp.as_bytes());
    let mut hash = [0u8; 32];
    hash.copy_from_slice(&digest);
    cuckoo_hash_bins(&hash, PIR_CUCKOO_FANOUT)
        .into_iter()
        .map(|b| PirQueryToken { bin_index: b, xor_mask: vec![0u8; PIR_BIN_SIZE], client_ephemeral_pk: [0u8; 32] })
        .collect()
}

#[test]
fn contact_cache_finds_registered_contacts() {
    let contacts = vec![
        ("NN-AAAA-AAAA".to_string(), "FINGERPRINT-A".to_string()),
        ("NN-BBBB-BBBB".to_string(), "FINGERPRINT-B".to_string()),
    ];
    let cache = PirContactCache::build(&contacts).unwrap();
    let client = PirClient::new();
    let found_b = cache.lookup_with_tokens(&client, "FINGERPRINT-B", &zero_mask_tokens("FINGERPRINT-B"));
    assert_eq!(found_b, Some("NN-BBBB-BBBB".to_string()));
    let found_a = cache.lookup_with_tokens(&client, "FINGERPRINT-A", &zero_mask_tokens("FINGERPRINT-A"));
    assert_eq!(found_a, Some("NN-AAAA-AAAA".to_string()));
    assert_eq!(cache.lookup_with_tokens(&client, "FINGERPRINT-C", &zero_mask_tokens("FINGERPRINT-C")), None);
    assert_eq!(cache.lookup_with_tokens(&client, "FINGERPRINT-A", &[]), None);
}

#[test]
fn contact_cache_lookup_with_random_masks_never_fails() {
    let contacts = vec![("NN-AAAA-AAAA".to_string(), "FINGERPRINT-A".to_string())];
    let cache = PirContactCache::build(&contacts).unwrap();
    assert!(cache.lookup("FINGERPRINT-A").is_ok());
    assert!(PirContactCache::build(&[]).is_ok());
}
