use add_crypto_core::messaging::cert_blob_key;
use add_crypto_core::registration::{
    advertised_address, cert_publish_sign_data, publish_outcome, registration_plan, registration_pow_data,
    registration_sign_data, should_republish, RegistrationPlan,
};

#[test]
fn first_registration_is_light_and_updates_use_the_clock() {
    assert_eq!(registration_plan(false, 1_700_000_000, 16), RegistrationPlan { seq: 0, pow_difficulty: 8 });
    assert_eq!(
        registration_plan(true, 1_700_000_000, 16),
        RegistrationPlan { seq: 1_700_000_000, pow_difficulty: 16 }
    );
}

#[test]
fn registration_strings() {
    assert_eq!(registration_pow_data("NN-AAAA", "FP", "salt", 0), "NN-AAAA|FP|salt|0");
    assert_eq!(registration_sign_data("NN-AAAA", "FP", "salt", 42, 9001), "NN-AAAA|FP|salt|42|9001");
}

#[test]
fn advertised_address_priority() {
    assert_eq!(advertised_address(Some("wss://proxy"), false, Some("1.2.3.4:9"), "10.0.0.2:9"), "wss://proxy");
    assert_eq!(advertised_address(None, false, Some("1.2.3.4:9"), "10.0.0.2:9"), "1.2.3.4:9");
    assert_eq!(advertised_address(None, false, None, "10.0.0.2:9"), "10.0.0.2:9");
    assert_eq!(advertised_address(None, true, Some("1.2.3.4:9"), "10.0.0.2:9"), "10.0.0.2:9");
}

#[test]
fn republish_only_on_host_change() {
    assert!(!should_republish("ws://1.2.3.4:5000", "ws://1.2.3.4:6000"));
    assert!(should_republish("ws://1.2.3.5:5000", "ws://1.2.3.4:5000"));
    assert!(!should_republish("1.2.3.4:1", "ws://1.2.3.4:2"));
}

#[test]
fn certificate_publication() {
    let fp = "96BC6B202299B0F1B52784FE87238E411A5F5FFA";
    let signed = cert_publish_sign_data(fp, "QlVORExF");
    assert_eq!(signed, format!("{}|QlVORExF|{}", cert_blob_key(fp), fp));
    assert!(signed.starts_with("cert:"));
    assert_eq!(signed.len(), 5 + 64 + 1 + 8 + 1 + 40);
    assert_eq!(publish_outcome(2, Some("x".to_string())), Ok(2));
    assert_eq!(publish_outcome(0, Some("cert publish rejected: dht-error".to_string())), Err("cert publish rejected: dht-error".to_string()));
    assert_eq!(publish_outcome(0, None), Err("No bootstrap servers available".to_string()));
}
