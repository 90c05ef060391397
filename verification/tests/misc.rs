use add_crypto_core::bot_config::{BotConfig, ReflectorConfig};
use add_crypto_core::db_key::DbEncryptionKey;

#[test]
fn bot_config_defaults() {
    let c = BotConfig::default();
    assert_eq!(c.identity.key_dir, ".add/bot");
    assert_eq!(c.network.bootstrap_url, "wss://bootstrap-eu.gnoppix.org/ws");
    assert_eq!(c.network.polling_interval, 30);
    assert!(c.reflector.inherit_ttl && c.reflector.send_read_receipts);
    assert_eq!(ReflectorConfig::default().known_bot_prefixes, vec!["🤖 [Reflector Echo]: ".to_string()]);
}

#[test]
fn db_key_roundtrips_text() {
    let k = DbEncryptionKey::generate_random();
    let stored = k.encrypt("hello metadata").unwrap();
    assert_ne!(stored, "hello metadata");
    assert_eq!(k.decrypt(&stored).unwrap(), "hello metadata");
    let other = DbEncryptionKey::generate_random();
    assert!(other.decrypt(&stored).is_err());
    assert!(k.decrypt("AAAA").is_err());
    assert_eq!(k.decrypt_opt(&Some(stored.clone())), Some("hello metadata".to_string()));
    assert_eq!(k.decrypt_opt(&None), None);
    assert_eq!(k.encrypt_opt(&None).unwrap(), None);
}

#[test]
fn db_key_hex_and_blind_index() {
    let k = DbEncryptionKey::from_key_hex(&"11".repeat(32)).unwrap();
    assert_eq!(k.key(), &[0x11u8; 32]);
    assert_eq!(k.to_key_hex(), "11".repeat(32));
    assert!(DbEncryptionKey::from_key_hex("1122").is_err());
    assert_eq!(k.blind_index("alice"), k.blind_index("alice"));
    assert_eq!(k.blind_index("alice").len(), 32);
    assert_ne!(k.blind_index("alice"), k.blind_index("bob"));
}
