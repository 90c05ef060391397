//! Publishing our identity, certificate and listener address: the DHT
//! registration's sequence number, proof-of-work difficulty and signed
//! strings, the certificate publication's signed string and outcome, the
//! address we advertise, and when a changed address is published again.
//! The caller solves the proof of work, signs and talks to the network.
use vstd::prelude::*;
use vstd::string::{StringExecFns, StringSliceAdditionalSpecFns};
use vstd::utf8::{decode_utf8, encode_utf8};
use crate::messaging::{addr_host, cert_blob_key, host_bytes};
use crate::primitives::{hex_lower, sha256};
use crate::text::{decimal, decimal_string, str_eq};

verus! {

/// Proof-of-work difficulty of a first registration.
pub const FIRST_REGISTRATION_POW: u32 = 8;

/// The sequence number and proof-of-work difficulty of a registration.
#[derive(Debug, Clone, Copy, PartialEq, Eq)]
pub struct RegistrationPlan {
    pub seq: u64,
    pub pow_difficulty: u32,
}

/// A first registration has sequence 0 and the light difficulty; updating
/// an existing one takes the current time as its (higher) sequence and the
/// network's full difficulty.
pub fn registration_plan(already_registered: bool, now_secs: u64, network_difficulty: u32) -> (r: RegistrationPlan)
    ensures
        r.seq == (if already_registered { now_secs } else { 0 }),
        r.pow_difficulty == (if r.seq == 0 { FIRST_REGISTRATION_POW } else { network_difficulty }),
{
    let seq: u64 = if already_registered { now_secs } else { 0 };
    let pow_difficulty: u32 = if seq == 0 { FIRST_REGISTRATION_POW } else { network_difficulty };
    RegistrationPlan { seq, pow_difficulty }
}

/// The string the proof of work is solved over:
/// `null_id|value|salt|seq`.
pub open spec fn pow_input(null_id: Seq<char>, value: Seq<char>, salt: Seq<char>, seq: u64) -> Seq<char> {
    null_id + "|"@ + value + "|"@ + salt + "|"@ + decimal(seq as nat)
}

/// The proof-of-work input of a registration.
pub fn registration_pow_data(null_id: &str, value: &str, salt: &str, seq: u64) -> (r: String)
    ensures
        r@ == pow_input(null_id@, value@, salt@, seq),
{
    let s = decimal_string(seq);
    String::from_str(null_id).concat("|").concat(value).concat("|").concat(salt).concat("|").concat(s.as_str())
}

/// The string a registration is signed over: the proof-of-work input,
/// `|` and the nonce that solves it.
pub fn registration_sign_data(null_id: &str, value: &str, salt: &str, seq: u64, pow_nonce: u64) -> (r: String)
    ensures
        r@ == pow_input(null_id@, value@, salt@, seq) + "|"@ + decimal(pow_nonce as nat),
{
    let base = registration_pow_data(null_id, value, salt, seq);
    let n = decimal_string(pow_nonce);
    base.concat("|").concat(n.as_str())
}

/// The address our listener advertises, in priority order: an explicit
/// advertised URL; unless NAT traversal is off, the address it found; else
/// the LAN address.
pub fn advertised_address(advertised_url: Option<&str>, no_nat: bool, nat_addr: Option<&str>, lan_addr: &str) -> (r: String)
    ensures
        r@ == match advertised_url {
            Some(u) => u@,
            None => if !no_nat && nat_addr is Some {
                nat_addr.unwrap()@
            } else {
                lan_addr@
            },
        },
{
    match advertised_url {
        Some(u) => u.to_string(),
        None => {
            if !no_nat {
                if let Some(a) = nat_addr {
                    return a.to_string();
                }
            }
            lan_addr.to_string()
        },
    }
}

/// A refreshed address is published again only when its host changed (a
/// port-only change under symmetric NAT is no change).
pub fn should_republish(current: &str, last_registered: &str) -> (r: bool)
    ensures
        r == (decode_utf8(host_bytes(current.spec_bytes())) != decode_utf8(host_bytes(last_registered.spec_bytes()))),
{
    let a = addr_host(current);
    let b = addr_host(last_registered);
    !str_eq(a.as_str(), b.as_str())
}

/// The string a certificate publication is signed over: the blob's store
/// key (`cert:` and the hex SHA-256 of the fingerprint), the base64 bundle
/// and the fingerprint, joined by `|`.
pub fn cert_publish_sign_data(fingerprint: &str, value_b64: &str) -> (r: String)
    ensures
        r@ == "cert:"@ + hex_lower(sha256(encode_utf8(fingerprint@))) + "|"@ + value_b64@ + "|"@ + fingerprint@,
{
    let key = cert_blob_key(fingerprint);
    key.concat("|").concat(value_b64).concat("|").concat(fingerprint)
}

/// A publication to the bootstrap servers succeeds when at least one
/// accepted it; otherwise it fails with the last error seen, or with the
/// absence of servers.
pub fn publish_outcome(accepted: usize, last_error: Option<String>) -> (r: Result<usize, String>)
    ensures
        accepted > 0 ==> r == Ok::<usize, String>(accepted),
        accepted == 0 ==> (r matches Err(e) && e@ == match last_error {
            Some(m) => m@,
            None => "No bootstrap servers available"@,
        }),
{
    if accepted > 0 {
        Ok(accepted)
    } else {
        match last_error {
            Some(m) => Err(m),
            None => Err("No bootstrap servers available".to_string()),
        }
    }
}

} // verus!
