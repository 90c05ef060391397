use hmac::{Hmac, Mac};
use add_crypto_core::messaging::{
    addr_host, cert_blob_key, inbound_peer_allowed, is_public_service, p2p_candidates, recipient_fingerprint,
    to_ws_url, is_public_service_fingerprint, pad_message_bucket,
    pad_message_with, resolve_recipient, routing_tag, safety_number, sha256_hex, unpad_message_bucket, uuid_hex,
    relay_sender_identity, sender_key_hash, transition_reason, delivered_flag, PadError,
};
use add_crypto_core::identity::null_id;

#[test]
fn public_services_are_recognised() {
    assert!(is_public_service("NN-1ae2-e797-1e6b-fff8-9e79-f936-0627-d10f"));
    assert!(!is_public_service("NN-1ae2-e797"));
    assert!(is_public_service_fingerprint("3957378550B111F2678DC1B4A58C27B22091D5CF"));
    assert!(!is_public_service_fingerprint("3957378550b111f2678dc1b4a58c27b22091d5cf"));
}

#[test]
fn aliases_resolve_to_their_null_id() {
    let aliases = vec![
        ("bob".to_string(), "NN-BBBB-BBBB".to_string()),
        ("alice".to_string(), "NN-AAAA-AAAA".to_string()),
    ];
    assert_eq!(resolve_recipient("alice", &aliases), "NN-AAAA-AAAA");
    assert_eq!(resolve_recipient("NN-CCCC-CCCC", &aliases), "NN-CCCC-CCCC");
    assert_eq!(resolve_recipient("bob", &[]), "bob");
}

#[test]
fn routing_tag_is_hourly_hmac() {
    assert_eq!(routing_tag("", "NN-AAAA-AAAA", 7200), None);
    let t1 = routing_tag("secret", "NN-AAAA-AAAA", 7200).unwrap();
    let t2 = routing_tag("secret", "NN-AAAA-AAAA", 10799).unwrap();
    let t3 = routing_tag("secret", "NN-AAAA-AAAA", 10800).unwrap();
    assert_eq!(t1, t2);
    assert_ne!(t1, t3);
    let mut mac = Hmac::<sha2::Sha256>::new_from_slice(b"secret").unwrap();
    mac.update(b"NN-AAAA-AAAA|2");
    assert_eq!(t1, hex::encode(mac.finalize().into_bytes()));
}

#[test]
fn cert_key_and_digest_hex() {
    assert_eq!(
        sha256_hex(b"abc"),
        "ba7816bf8f01cfea414140de5dae2223b00361a396177a9cb410ff61f20015ad"
    );
    assert_eq!(
        cert_blob_key("abc"),
        "cert:ba7816bf8f01cfea414140de5dae2223b00361a396177a9cb410ff61f20015ad"
    );
}

#[test]
fn padding_fills_the_bucket_and_strips_again() {
    let p = pad_message_bucket("hello");
    assert_eq!(p.len(), 2 * 256);
    assert_eq!(&p[..2], "fa");
    assert_eq!(unpad_message_bucket(&p).unwrap(), "hello");
    let long = "x".repeat(300);
    let p = pad_message_bucket(&long);
    assert_eq!(p.len(), 2 * 512);
    assert_eq!(&p[..2], "d3");
    assert_eq!(unpad_message_bucket(&p).unwrap(), long);
    let fixed = pad_message_with("ab", &[0u8; 253]);
    assert!(fixed.starts_with("fd6162"));
    assert_eq!(unpad_message_bucket(&fixed).unwrap(), "ab");
    // 600 bytes go to the 1024 bucket with 423 padding bytes; the header
    // byte holds 423 mod 256 = 167, so 256 padding bytes stay behind
    let six_hundred = "y".repeat(600);
    let fixed = pad_message_with(&six_hundred, &[0x41u8; 423]);
    assert_eq!(fixed.len(), 2 * 1024);
    assert_eq!(&fixed[..2], "a7");
    assert_eq!(unpad_message_bucket(&fixed).unwrap(), format!("{}{}", six_hundred, "A".repeat(256)));
    // the largest message fills the 65536 bucket with no padding
    let biggest = "z".repeat(65535);
    let p = pad_message_bucket(&biggest);
    assert_eq!(p.len(), 2 * 65536);
    assert_eq!(&p[..2], "00");
    assert_eq!(unpad_message_bucket(&p).unwrap(), biggest);
}

#[test]
fn padding_errors() {
    assert_eq!(unpad_message_bucket("zz"), Err(PadError::InvalidHex));
    assert_eq!(unpad_message_bucket(""), Err(PadError::Empty));
    assert_eq!(unpad_message_bucket("05aa"), Err(PadError::InvalidPaddingLength));
    assert_eq!(unpad_message_bucket("05"), Err(PadError::InvalidPaddingLength));
    assert_eq!(unpad_message_bucket("0061").unwrap(), "a");
    assert_eq!(unpad_message_bucket("000061").unwrap(), "\u{0}a");
    assert_eq!(unpad_message_bucket("016162").unwrap(), "a");
}

#[test]
fn safety_number_is_symmetric_and_grouped() {
    let a = "aabbccddeeff00112233445566778899aabbccdd";
    let b = "1122334455667788990011223344556677889900";
    let s1 = safety_number(a, b);
    let s2 = safety_number(b, a);
    assert_eq!(s1, s2);
    assert_eq!(s1.len(), 71);
    assert_eq!(s1.split(' ').count(), 8);
    assert!(s1.split(' ').all(|g| g.len() == 8));
    let combined = format!("{}|{}", b.to_uppercase(), a.to_uppercase());
    assert_eq!(s1.replace(' ', ""), sha256_hex(combined.as_bytes()));
    assert_eq!(safety_number(a, &a.to_uppercase()), safety_number(a, a));
}

#[test]
fn random_ids_are_sixteen_hex_digits() {
    let a = uuid_hex();
    let b = uuid_hex();
    assert_eq!(a.len(), 16);
    assert!(a.chars().all(|c| c.is_ascii_hexdigit() && !c.is_ascii_uppercase()));
    assert_ne!(a, b);
}

#[test]
fn host_of_listener_addresses() {
    assert_eq!(addr_host("ws://1.2.3.4:9000"), "1.2.3.4");
    assert_eq!(addr_host("wss://relay.example.org:443/ws"), "relay.example.org");
    assert_eq!(addr_host("10.0.0.1:80"), "10.0.0.1");
    assert_eq!(addr_host("ws://[::1]:80"), "[::1]");
    assert_eq!(addr_host("hostonly"), "hostonly");
    assert_eq!(addr_host("ws://héllo:1/x:2"), "héllo");
}

#[test]
fn inbound_hello_needs_a_contact_or_the_public_service() {
    let contacts = vec!["AAAA".to_string(), "BBBB".to_string()];
    assert!(inbound_peer_allowed("BBBB", &contacts));
    assert!(!inbound_peer_allowed("CCCC", &contacts));
    assert!(!inbound_peer_allowed("bbbb", &contacts));
    assert!(inbound_peer_allowed("3957378550B111F2678DC1B4A58C27B22091D5CF", &[]));
    assert!(is_public_service_fingerprint("3957378550B111F2678DC1B4A58C27B22091D5CF"));
}

#[test]
fn recipient_fingerprint_comes_from_contacts() {
    let contacts = vec![
        ("NN-AAAA".to_string(), "FPA".to_string()),
        ("NN-BBBB".to_string(), "FPB".to_string()),
    ];
    assert_eq!(recipient_fingerprint("NN-BBBB", &contacts), Ok("FPB".to_string()));
    assert_eq!(
        recipient_fingerprint("NN-1ae2-e797-1e6b-fff8-9e79-f936-0627-d10f", &[]),
        Ok("3957378550B111F2678DC1B4A58C27B22091D5CF".to_string())
    );
    assert_eq!(
        recipient_fingerprint("NN-CCCC", &contacts),
        Err("unknown contact — add with 'add-contact' first".to_string())
    );
}

#[test]
fn ws_url_rewrites_the_scheme() {
    assert_eq!(to_ws_url("http://1.2.3.4:9000"), "ws://1.2.3.4:9000");
    assert_eq!(to_ws_url("https://relay.example"), "wss://relay.example");
    assert_eq!(to_ws_url("ws://already"), "ws://already");
}

#[test]
fn p2p_candidates_are_local_first_and_unique() {
    assert_eq!(
        p2p_candidates("ws://203.0.113.5:7000", Some([192, 168, 1, 20])),
        vec!["ws://127.0.0.1:7000", "ws://192.168.1.20:7000", "ws://203.0.113.5:7000"]
    );
    assert_eq!(
        p2p_candidates("ws://127.0.0.1:7000", None),
        vec!["ws://127.0.0.1:7000"]
    );
    assert_eq!(p2p_candidates("ws://host.example", None), vec!["ws://host.example"]);
}

#[test]
fn relay_sender_prefers_the_sealed_identity() {
    let ok = |a: &str, b: &str| Ok((a.to_string(), b.to_string()));
    assert_eq!(relay_sender_identity("NN-AAAA-AAAA", "FPA", "NN-BBBB-BBBB", "FPB"), ok("NN-AAAA-AAAA", "FPA"));
    assert_eq!(relay_sender_identity("", "FPA", "NN-BBBB-BBBB", "FPB"), ok("NN-BBBB-BBBB", "FPB"));
    assert_eq!(relay_sender_identity("", "", "anonymous", "FPC"), ok(&null_id("FPC"), "FPC"));
    assert!(null_id("FPC").starts_with("NN-"));
    assert_eq!(
        relay_sender_identity("", "", "anonymous", "anonymous"),
        Err("relay message has no recoverable sender identification".to_string())
    );
    assert_eq!(
        relay_sender_identity("NN-AAAA-AAAA", "", "", ""),
        Err("relay message has no recoverable sender identification".to_string())
    );
}

#[test]
fn sender_key_hash_is_two_groups_of_the_digest() {
    let h = sha256_hex(b"ABCDEF0123");
    assert_eq!(sender_key_hash("ABCDEF0123"), format!("{}:{}", &h[..16], &h[16..32]));
    assert_eq!(sender_key_hash("ABCDEF0123").len(), 33);
}

#[test]
fn message_status_changes_are_labelled() {
    assert_eq!(transition_reason(1), "relay_ack");
    assert_eq!(transition_reason(2), "delivered");
    assert_eq!(transition_reason(3), "read_receipt");
    assert_eq!(transition_reason(0), "status_change");
    assert_eq!(transition_reason(9), "status_change");
    assert_eq!(delivered_flag(1), 0);
    assert_eq!(delivered_flag(2), 1);
    assert_eq!(delivered_flag(3), 1);
}
