//! The message-store key: AES-256-GCM encryption of stored fields as
//! base64 text, a keyed blind index for lookups, and the key file's hex form.
use vstd::prelude::*;
use crate::codec::to_array32;
use vstd::string::StringSliceAdditionalSpecFns;
use vstd::utf8::{decode_utf8, encode_utf8, valid_utf8};
use crate::primitives::{
    aes256gcm_decrypt, aes256gcm_encrypt, aes256gcm_open, aes256gcm_seal, aes_gcm_max_len, base64_decode,
    base64_encode, base64_std_decode, base64_std_encode, hex_decode, hex_decoded, hex_encode, hex_lower,
    hmac_sha256, hmac_sha256_tag, random_bytes, string_from_utf8,
};

verus! {

/// The 32-byte database key.
pub struct DbEncryptionKey {
    key: [u8; 32],
}

impl View for DbEncryptionKey {
    type V = Seq<u8>;

    closed spec fn view(&self) -> Seq<u8> {
        self.key@
    }
}

/// `blob` is `nonce || AES-GCM(key, nonce, pt)` with a 12-byte nonce.
pub open spec fn db_sealed(key: Seq<u8>, pt: Seq<u8>, blob: Seq<u8>) -> bool {
    &&& blob.len() >= 12
    &&& blob.subrange(12, blob.len() as int) == aes256gcm_seal(key, blob.subrange(0, 12), Seq::empty(), pt)
    &&& aes256gcm_open(key, blob.subrange(0, 12), Seq::empty(), blob.subrange(12, blob.len() as int)) == Some(pt)
}

/// The plaintext bytes of stored text: `None` for bad base64, fewer than 28
/// bytes, or a ciphertext that does not authenticate.
pub open spec fn db_opened(key: Seq<u8>, text: Seq<char>) -> Option<Seq<u8>> {
    match base64_std_decode(text) {
        None => None,
        Some(blob) => if blob.len() < 28 {
            None
        } else {
            aes256gcm_open(key, blob.subrange(0, 12), Seq::empty(), blob.subrange(12, blob.len() as int))
        },
    }
}

impl DbEncryptionKey {
    /// The key bytes.
    pub fn key(&self) -> (r: &[u8; 32])
        ensures
            r@ == self@,
    {
        &self.key
    }

    /// A fresh random key, kept in memory only.
    pub fn generate_random() -> (k: Self)
        ensures
            k@.len() == 32,
    {
        let b = random_bytes(32);
        DbEncryptionKey { key: to_array32(b.as_slice()) }
    }

    /// The key of a plaintext key file: 64 hex digits.
    pub fn from_key_hex(text: &str) -> (r: Result<Self, String>)
        ensures
            match hex_decoded(text.spec_bytes()) {
                Some(b) => if b.len() == 32 {
                    r matches Ok(k) && k@ == b
                } else {
                    r is Err
                },
                None => r is Err,
            },
    {
        let bytes = match hex_decode(text) {
            Some(b) => b,
            None => return Err("invalid hex".to_string()),
        };
        if bytes.len() != 32 {
            return Err("invalid db key length".to_string());
        }
        Ok(DbEncryptionKey { key: to_array32(bytes.as_slice()) })
    }

    /// The key file's plaintext form.
    pub fn to_key_hex(&self) -> (r: String)
        ensures
            r@ == hex_lower(self@),
    {
        hex_encode(self.key.as_slice())
    }

    /// Keyed blind index of a value: the hex of the first 16 bytes of
    /// HMAC-SHA256 under the key.
    pub fn blind_index(&self, value: &str) -> (r: String)
        ensures
            r@ == hex_lower(hmac_sha256(self@, value.spec_bytes()).subrange(0, 16)),
    {
        let tag = hmac_sha256_tag(self.key.as_slice(), value.as_bytes());
        hex_encode(&tag.as_slice()[0..16])
    }

    /// Encrypt text for storage: base64 of a random nonce and the AES-GCM
    /// ciphertext.
    pub fn encrypt(&self, plaintext: &str) -> (r: Result<String, String>)
        ensures
            r matches Ok(s) ==> exists|blob: Seq<u8>|
                db_sealed(self@, plaintext.spec_bytes(), blob) && s@ == #[trigger] base64_std_encode(blob)
                    && base64_std_decode(s@) == Some(blob),
            plaintext.spec_bytes().len() <= aes_gcm_max_len() ==> r is Ok,
    {
        let nonce = random_bytes(12);
        let empty: Vec<u8> = Vec::new();
        let ct = match aes256gcm_encrypt(self.key.as_slice(), nonce.as_slice(), empty.as_slice(), plaintext.as_bytes()) {
            Some(c) => c,
            None => return Err("encryption failed".to_string()),
        };
        let ghost nv = nonce@;
        let mut out = nonce;
        let mut c = ct;
        out.append(&mut c);
        assert(out@.subrange(0, 12) =~= nv);
        assert(out@.subrange(12, out@.len() as int) =~= ct@);
        let s = base64_encode(out.as_slice());
        assert(db_sealed(self@, plaintext.spec_bytes(), out@));
        Ok(s)
    }

    /// Decrypt stored text.
    pub fn decrypt(&self, encrypted_b64: &str) -> (r: Result<String, String>)
        ensures
            match db_opened(self@, encrypted_b64@) {
                Some(pt) => if valid_utf8(pt) {
                    r matches Ok(s) && s@ == decode_utf8(pt)
                } else {
                    r is Err
                },
                None => r is Err,
            },
    {
        let data = match base64_decode(encrypted_b64) {
            Some(d) => d,
            None => return Err("base64 decode".to_string()),
        };
        if data.len() < 28 {
            return Err("ciphertext too short".to_string());
        }
        let nonce = &data.as_slice()[0..12];
        let ct = &data.as_slice()[12..data.len()];
        let empty: Vec<u8> = Vec::new();
        let pt = match aes256gcm_decrypt(self.key.as_slice(), nonce, empty.as_slice(), ct) {
            Some(p) => p,
            None => return Err("decryption failed".to_string()),
        };
        match string_from_utf8(pt) {
            Some(s) => Ok(s),
            None => Err("utf8".to_string()),
        }
    }

    /// Encrypt an optional field.
    pub fn encrypt_opt(&self, plaintext: &Option<String>) -> (r: Result<Option<String>, String>)
        ensures
            plaintext is None ==> r == Ok::<Option<String>, String>(None),
            plaintext matches Some(p) ==> (r matches Ok(Some(s)) ==> exists|blob: Seq<u8>|
                db_sealed(self@, encode_utf8(p@), blob) && s@ == #[trigger] base64_std_encode(blob)
                    && base64_std_decode(s@) == Some(blob)),
            plaintext matches Some(p) ==> (encode_utf8(p@).len() <= aes_gcm_max_len() ==> r matches Ok(Some(_))),
            plaintext matches Some(p) ==> !(r matches Ok(None)),
    {
        match plaintext {
            Some(s) => match self.encrypt(s.as_str()) {
                Ok(e) => Ok(Some(e)),
                Err(e) => Err(e),
            },
            None => Ok(None),
        }
    }

    /// Decrypt an optional field; a field that does not decrypt reads as
    /// absent.
    pub fn decrypt_opt(&self, encrypted: &Option<String>) -> (r: Option<String>)
        ensures
            match encrypted {
                None => r is None,
                Some(e) => match db_opened(self@, e@) {
                    Some(pt) => if valid_utf8(pt) {
                        r matches Some(s) && s@ == decode_utf8(pt)
                    } else {
                        r is None
                    },
                    None => r is None,
                },
            },
    {
        match encrypted {
            Some(e) => match self.decrypt(e.as_str()) {
                Ok(s) => Some(s),
                Err(_) => None,
            },
            None => None,
        }
    }
}

/// Text stored with a key reads back, under the same key, as the text
/// that was stored (for texts of at least 12 bytes, whose sealed form is
/// long enough to pass the length check).
pub proof fn law_db_roundtrip(key: Seq<u8>, text: Seq<char>, blob: Seq<u8>, stored: Seq<char>)
    requires
        db_sealed(key, encode_utf8(text), blob),
        stored == base64_std_encode(blob),
        base64_std_decode(stored) == Some(blob),
        blob.len() >= 28,
    ensures
        db_opened(key, stored) == Some(encode_utf8(text)),
        valid_utf8(encode_utf8(text)),
        decode_utf8(encode_utf8(text)) == text,
{
    vstd::utf8::encode_utf8_valid_utf8(text);
    vstd::utf8::encode_utf8_decode_utf8(text);
}

} // verus!
