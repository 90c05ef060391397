//! Anonymous delivery receipts: a master secret derives one HMAC-SHA256
//! key per contact, and each key derives one token per message number.
use vstd::prelude::*;
use vstd::slice::slice_to_vec;
use vstd::string::StringSliceAdditionalSpecFns;
use crate::codec::{to_array32, to_array64, u64_be, u64_to_be};
use crate::error::CryptoError;
use crate::primitives::{
    ct_eq, hex_decode, hex_decoded, hex_digit, hex_encode, hex_lower, hex_val, hmac_sha256,
    hmac_sha256_tag, random_bytes,
};

verus! {

/// Size of a delivery token.
pub const DELIVERY_TOKEN_SIZE: usize = 32;

/// The key of a contact under a master secret.
pub open spec fn delivery_key_of(master: Seq<u8>, contact_id: Seq<u8>) -> Seq<u8> {
    hmac_sha256(master, "add-delivery-key-v1".spec_bytes() + contact_id)
}

/// The token of a message number under a delivery key.
pub open spec fn delivery_token_of(key: Seq<u8>, message_id: u64) -> Seq<u8> {
    hmac_sha256(key, "add-delivery-token-v1".spec_bytes() + u64_be(message_id))
}

/// The value of eight bytes read big-endian.
pub open spec fn be8_value(b: Seq<u8>) -> int {
    ((((((b[0] as int * 256 + b[1]) * 256 + b[2]) * 256 + b[3]) * 256 + b[4]) * 256 + b[5]) * 256 + b[6]) * 256
        + b[7]
}

/// A token MACs the whole message number: the token is the HMAC, under the
/// contact's key, of the token label followed by eight bytes that read
/// back, big-endian, as the message number.  So two message numbers give
/// MAC inputs that differ.
pub proof fn law_token_binds_message_number(key: Seq<u8>, id: u64, id2: u64)
    ensures
        ({
            let l = "add-delivery-token-v1".spec_bytes().len() as int;
            exists|inp: Seq<u8>|
                #![trigger hmac_sha256(key, inp)]
                delivery_token_of(key, id) == hmac_sha256(key, inp) && inp.len() == l + 8 && inp.subrange(0, l)
                    == "add-delivery-token-v1".spec_bytes() && be8_value(inp.subrange(l, l + 8)) == id
        }),
        id != id2 ==> exists|i1: Seq<u8>, i2: Seq<u8>|
            #![trigger hmac_sha256(key, i1), hmac_sha256(key, i2)]
            delivery_token_of(key, id) == hmac_sha256(key, i1) && delivery_token_of(key, id2) == hmac_sha256(key, i2)
                && i1 != i2,
{
    let label = "add-delivery-token-v1".spec_bytes();
    let l = label.len() as int;
    let inp = label + u64_be(id);
    let inp2 = label + u64_be(id2);
    assert(inp.subrange(0, l) =~= label);
    assert(inp.subrange(l, l + 8) =~= u64_be(id));
    assert(inp2.subrange(l, l + 8) =~= u64_be(id2));
    lemma_be8_roundtrip(id);
    lemma_be8_roundtrip(id2);
    assert(delivery_token_of(key, id) == hmac_sha256(key, inp));
    assert(delivery_token_of(key, id2) == hmac_sha256(key, inp2));
    if id != id2 {
        assert(inp != inp2);
    }
}

/// A contact's key binds the contact: it is the HMAC, under the master
/// secret, of the key label followed by the contact id itself, so two
/// contact ids give MAC inputs that differ.
pub proof fn law_key_binds_contact(master: Seq<u8>, cid: Seq<u8>, cid2: Seq<u8>)
    ensures
        ({
            let l = "add-delivery-key-v1".spec_bytes().len() as int;
            exists|inp: Seq<u8>|
                #![trigger hmac_sha256(master, inp)]
                delivery_key_of(master, cid) == hmac_sha256(master, inp) && inp.len() == l + cid.len() && inp.subrange(
                    0,
                    l,
                ) == "add-delivery-key-v1".spec_bytes() && inp.subrange(l, inp.len() as int) == cid
        }),
        cid != cid2 ==> exists|i1: Seq<u8>, i2: Seq<u8>|
            #![trigger hmac_sha256(master, i1), hmac_sha256(master, i2)]
            delivery_key_of(master, cid) == hmac_sha256(master, i1) && delivery_key_of(master, cid2) == hmac_sha256(
                master,
                i2,
            ) && i1 != i2,
{
    let label = "add-delivery-key-v1".spec_bytes();
    let l = label.len() as int;
    let inp = label + cid;
    let inp2 = label + cid2;
    assert(inp.subrange(0, l) =~= label);
    assert(inp.subrange(l, inp.len() as int) =~= cid);
    assert(inp2.subrange(l, inp2.len() as int) =~= cid2);
    assert(delivery_key_of(master, cid) == hmac_sha256(master, inp));
    assert(delivery_key_of(master, cid2) == hmac_sha256(master, inp2));
    if cid != cid2 {
        assert(inp != inp2);
    }
}

proof fn lemma_be8_roundtrip(x: u64)
    ensures
        be8_value(u64_be(x)) == x,
{
    let b = u64_be(x);
    let b0: u64 = x / 0x100000000000000;
    let b1: u64 = (x / 0x1000000000000) % 256;
    let b2: u64 = (x / 0x10000000000) % 256;
    let b3: u64 = (x / 0x100000000) % 256;
    let b4: u64 = (x / 0x1000000) % 256;
    let b5: u64 = (x / 0x10000) % 256;
    let b6: u64 = (x / 0x100) % 256;
    let b7: u64 = x % 256;
    assert(b0 < 256 && b1 < 256 && b2 < 256 && b3 < 256 && b4 < 256 && b5 < 256 && b6 < 256 && b7 < 256) by (bit_vector)
        requires
            b0 == x / 0x100000000000000,
            b1 == (x / 0x1000000000000) % 256,
            b2 == (x / 0x10000000000) % 256,
            b3 == (x / 0x100000000) % 256,
            b4 == (x / 0x1000000) % 256,
            b5 == (x / 0x10000) % 256,
            b6 == (x / 0x100) % 256,
            b7 == x % 256,
    ;
    assert(b0 * 0x100000000000000 + b1 * 0x1000000000000 + b2 * 0x10000000000 + b3 * 0x100000000 + b4 * 0x1000000
        + b5 * 0x10000 + b6 * 0x100 + b7 == x) by (bit_vector)
        requires
            b0 == x / 0x100000000000000,
            b1 == (x / 0x1000000000000) % 256,
            b2 == (x / 0x10000000000) % 256,
            b3 == (x / 0x100000000) % 256,
            b4 == (x / 0x1000000) % 256,
            b5 == (x / 0x10000) % 256,
            b6 == (x / 0x100) % 256,
            b7 == x % 256,
    ;
    assert(b[0] == b0 && b[1] == b1 && b[2] == b2 && b[3] == b3 && b[4] == b4 && b[5] == b5 && b[6] == b6 && b[7] == b7);
}

/// The 64-byte master secret.
pub struct DeliveryMasterSecret {
    bytes: [u8; 64],
}

impl View for DeliveryMasterSecret {
    type V = Seq<u8>;

    closed spec fn view(&self) -> Seq<u8> {
        self.bytes@
    }
}

impl DeliveryMasterSecret {
    /// A fresh random master secret.
    pub fn generate() -> (s: Self)
        ensures
            s@.len() == 64,
    {
        let r = random_bytes(64);
        DeliveryMasterSecret { bytes: to_array64(r.as_slice()) }
    }

    /// A master secret from stored bytes.
    pub fn from_bytes(bytes: [u8; 64]) -> (s: Self)
        ensures
            s@ == bytes@,
    {
        DeliveryMasterSecret { bytes }
    }

    /// The key of a contact.
    pub fn derive_key(&self, contact_id: &str) -> (k: DeliveryKey)
        ensures
            k@ == delivery_key_of(self@, contact_id.spec_bytes()),
    {
        let mut data = slice_to_vec("add-delivery-key-v1".as_bytes());
        let mut c = slice_to_vec(contact_id.as_bytes());
        data.append(&mut c);
        let tag = hmac_sha256_tag(self.bytes.as_slice(), data.as_slice());
        DeliveryKey { bytes: to_array32(tag.as_slice()) }
    }

    /// The token of a message to a contact.
    pub fn derive_token(&self, contact_id: &str, message_id: u64) -> (r: Result<DeliveryToken, CryptoError>)
        ensures
            r matches Ok(t) && t@ == delivery_token_of(delivery_key_of(self@, contact_id.spec_bytes()), message_id),
    {
        let key = self.derive_key(contact_id);
        derive_token_internal(&key, message_id)
    }

    /// The secret bytes.
    pub fn as_bytes(&self) -> (r: &[u8; 64])
        ensures
            r@ == self@,
    {
        &self.bytes
    }

    /// Whether `token` is the token of the message to the contact
    /// (compared in constant time).
    pub fn verify_token(&self, contact_id: &str, message_id: u64, token: &DeliveryToken) -> (r: Result<bool, CryptoError>)
        ensures
            r matches Ok(b) && b == (token@ == delivery_token_of(
                delivery_key_of(self@, contact_id.spec_bytes()),
                message_id,
            )),
    {
        let expected = match self.derive_token(contact_id, message_id) {
            Ok(t) => t,
            Err(e) => return Err(e),
        };
        Ok(ct_eq(expected.bytes.as_slice(), token.bytes.as_slice()))
    }
}

/// A per-contact delivery key.
#[derive(Clone)]
pub struct DeliveryKey {
    bytes: [u8; 32],
}

impl View for DeliveryKey {
    type V = Seq<u8>;

    closed spec fn view(&self) -> Seq<u8> {
        self.bytes@
    }
}

impl DeliveryKey {
    /// The token of a message number.
    pub fn derive_token(&self, message_id: u64) -> (r: Result<DeliveryToken, CryptoError>)
        ensures
            r matches Ok(t) && t@ == delivery_token_of(self@, message_id),
    {
        derive_token_internal(self, message_id)
    }

    /// Whether `token` is the token of the message number (compared in
    /// constant time).
    pub fn verify(&self, message_id: u64, token: &DeliveryToken) -> (r: Result<bool, CryptoError>)
        ensures
            r matches Ok(b) && b == (token@ == delivery_token_of(self@, message_id)),
    {
        let expected = match derive_token_internal(self, message_id) {
            Ok(t) => t,
            Err(e) => return Err(e),
        };
        Ok(ct_eq(expected.bytes.as_slice(), token.bytes.as_slice()))
    }

    /// The key bytes.
    pub fn as_bytes(&self) -> (r: &[u8; 32])
        ensures
            r@ == self@,
    {
        &self.bytes
    }

    /// A key from stored bytes.
    pub fn from_bytes(bytes: [u8; 32]) -> (k: Self)
        ensures
            k@ == bytes@,
    {
        DeliveryKey { bytes }
    }
}

/// A delivery token.
#[derive(Clone)]
pub struct DeliveryToken {
    bytes: [u8; 32],
}

impl View for DeliveryToken {
    type V = Seq<u8>;

    closed spec fn view(&self) -> Seq<u8> {
        self.bytes@
    }
}

impl DeliveryToken {
    /// The token bytes.
    pub fn as_bytes(&self) -> (r: &[u8; 32])
        ensures
            r@ == self@,
    {
        &self.bytes
    }

    /// A token from its bytes.
    pub fn from_bytes(bytes: [u8; 32]) -> (t: Self)
        ensures
            t@ == bytes@,
    {
        DeliveryToken { bytes }
    }

    /// The token in lower-case hex.
    pub fn to_hex(&self) -> (r: String)
        ensures
            r@ == hex_lower(self@),
    {
        hex_encode(self.bytes.as_slice())
    }

    /// Parse a token from hex; anything but the hex of 32 bytes is refused.
    pub fn from_hex(hex_str: &str) -> (r: Result<Self, CryptoError>)
        ensures
            match hex_decoded(hex_str.spec_bytes()) {
                Some(b) => if b.len() == DELIVERY_TOKEN_SIZE {
                    r matches Ok(t) && t@ == b
                } else {
                    r matches Err(CryptoError::DecryptFailed(_))
                },
                None => r matches Err(CryptoError::DecryptFailed(_)),
            },
    {
        let bytes = match hex_decode(hex_str) {
            Some(b) => b,
            None => return Err(CryptoError::DecryptFailed("hex decode".to_string())),
        };
        if bytes.len() != DELIVERY_TOKEN_SIZE {
            return Err(CryptoError::DecryptFailed("wrong token size".to_string()));
        }
        Ok(DeliveryToken { bytes: to_array32(bytes.as_slice()) })
    }
}

fn derive_token_internal(key: &DeliveryKey, message_id: u64) -> (r: Result<DeliveryToken, CryptoError>)
    ensures
        r matches Ok(t) && t@ == delivery_token_of(key@, message_id),
{
    let mut data = slice_to_vec("add-delivery-token-v1".as_bytes());
    let mut m = u64_to_be(message_id);
    data.append(&mut m);
    let tag = hmac_sha256_tag(key.bytes.as_slice(), data.as_slice());
    Ok(DeliveryToken { bytes: to_array32(tag.as_slice()) })
}

/// The wire message carrying a delivery token.
#[derive(Debug, Clone)]
pub struct DeliveryTokenMessage {
    pub token: String,
    pub sender_key_hash: String,
    pub timestamp: u64,
}

/// Decoding the hex of a byte string gives it back.
pub proof fn law_hex_roundtrip(b: Seq<u8>)
    ensures
        hex_decoded(hex_lower(b).map_values(|c: char| c as u8)) == Some(b),
    decreases b.len(),
{
    let h = hex_lower(b).map_values(|c: char| c as u8);
    if b.len() > 0 {
        let x = b[0];
        let hi = x / 16;
        let lo = x % 16;
        let rest = b.drop_first();
        law_hex_roundtrip(rest);
        lemma_hex_lower_len(rest);
        assert(h.len() == 2 + 2 * rest.len()) by {
            lemma_hex_lower_len(b);
        }
        assert(h[0] == hex_digit(hi) as u8);
        assert(h[1] == hex_digit(lo) as u8);
        assert(h.subrange(2, h.len() as int) =~= hex_lower(rest).map_values(|c: char| c as u8));
        assert(hex_val(hex_digit(hi) as u8) == Some(hi));
        assert(hex_val(hex_digit(lo) as u8) == Some(lo));
        assert(hi * 16 + lo == x);
        assert(seq![x] + rest =~= b);
    } else {
        assert(h =~= Seq::<u8>::empty());
    }
}

pub proof fn lemma_hex_lower_len(b: Seq<u8>)
    ensures
        hex_lower(b).len() == 2 * b.len(),
    decreases b.len(),
{
    if b.len() > 0 {
        lemma_hex_lower_len(b.drop_first());
    }
}

} // verus!
