//! ML-KEM key encapsulation (NIST Level 3 and 5) as used by the ratchet.
use vstd::prelude::*;
use vstd::slice::slice_to_vec;
use crate::error::CryptoError;
use vstd::string::StringSliceAdditionalSpecFns;
use vstd::utf8::{encode_utf8, is_ascii_chars, is_ascii_chars_encode_utf8};
use crate::delivery_tokens::law_hex_roundtrip;
use crate::primitives::{
    aes256gcm_decrypt, aes256gcm_encrypt, aes256gcm_open, aes256gcm_seal, aes_gcm_max_len, base64_decode,
    base64_encode, base64_std_decode, base64_std_encode, hex_decode, hex_decoded, hex_digit, hex_encode, hex_lower,
    hkdf_sha256, hkdf_sha256_expand, mlkem768_ek_from_seed, mlkem768_ek_of_seed,
    MLKEM1024_CT_LEN, MLKEM1024_EK_LEN, mlkem1024_check_ek, mlkem1024_decaps,
    mlkem1024_decapsulate, mlkem1024_ek_from_seed, mlkem1024_ek_of_seed, mlkem1024_ek_valid,
    mlkem1024_encaps, mlkem1024_encapsulate_with, random_bytes,
};

verus! {

/// ML-KEM-1024 ciphertext bytes (1568).
pub type MlKem1024Ciphertext = Vec<u8>;

/// ML-KEM-1024 shared secret bytes (32).
pub type MlKem1024SharedSecret = Vec<u8>;

/// ML-KEM-1024 encapsulation (public) key: 1568 bytes that decode to a key.
pub struct MlKem1024EncapsulationKey {
    bytes: Vec<u8>,
}

impl View for MlKem1024EncapsulationKey {
    type V = Seq<u8>;

    closed spec fn view(&self) -> Seq<u8> {
        self.bytes@
    }
}

impl Clone for MlKem1024EncapsulationKey {
    fn clone(&self) -> (r: Self)
        ensures
            r@ == self@,
    {
        proof {
            use_type_invariant(self);
        }
        MlKem1024EncapsulationKey { bytes: self.bytes.clone() }
    }
}

impl MlKem1024EncapsulationKey {
    #[verifier::type_invariant]
    spec fn inv(self) -> bool {
        self.bytes@.len() == MLKEM1024_EK_LEN && mlkem1024_ek_valid(self.bytes@)
    }

    /// Parse an encoded encapsulation key; `None` unless it is 1568 bytes that decode.
    pub fn from_slice(bytes: &[u8]) -> (r: Option<Self>)
        ensures
            r is Some <==> bytes@.len() == MLKEM1024_EK_LEN && mlkem1024_ek_valid(bytes@),
            r matches Some(k) ==> k@ == bytes@,
    {
        if bytes.len() != MLKEM1024_EK_LEN {
            return None;
        }
        if !mlkem1024_check_ek(bytes) {
            return None;
        }
        Some(MlKem1024EncapsulationKey { bytes: slice_to_vec(bytes) })
    }

    /// The encoded key.
    pub fn to_bytes(&self) -> (r: Vec<u8>)
        ensures
            r@ == self@,
            r@.len() == MLKEM1024_EK_LEN,
            mlkem1024_ek_valid(r@),
    {
        proof {
            use_type_invariant(self);
        }
        self.bytes.clone()
    }
}

/// ML-KEM-1024 decapsulation (secret) key, held as its 64-byte seed.
pub struct MlKem1024DecapsulationKey {
    seed: Vec<u8>,
}

impl View for MlKem1024DecapsulationKey {
    type V = Seq<u8>;

    closed spec fn view(&self) -> Seq<u8> {
        self.seed@
    }
}

impl MlKem1024DecapsulationKey {
    #[verifier::type_invariant]
    spec fn inv(self) -> bool {
        self.seed@.len() == 64
    }

    /// The 64-byte seed.
    pub fn to_bytes(&self) -> (r: Vec<u8>)
        ensures
            r@ == self@,
            r@.len() == 64,
    {
        proof {
            use_type_invariant(self);
        }
        self.seed.clone()
    }

    /// Decapsulate a 1568-byte ciphertext.
    pub fn decapsulate(&self, ct: &[u8]) -> (ss: Vec<u8>)
        requires
            ct@.len() == MLKEM1024_CT_LEN,
        ensures
            ss@ == mlkem1024_decaps(self@, ct@),
            ss@.len() == 32,
    {
        proof {
            use_type_invariant(self);
        }
        mlkem1024_decapsulate(self.seed.as_slice(), ct)
    }
}

/// An ML-KEM-1024 key pair for post-quantum key exchange.
pub struct MlKem1024Keypair {
    pub enc: MlKem1024EncapsulationKey,
    pub dec: MlKem1024DecapsulationKey,
}

impl MlKem1024Keypair {
    /// The key pair is the one derived from its seed.
    pub open spec fn wf(&self) -> bool {
        self.enc@ == mlkem1024_ek_of_seed(self.dec@) && self.dec@.len() == 64
    }

    /// Derive the key pair of a 64-byte seed.
    pub fn from_seed(seed: &[u8; 64]) -> (r: Result<Self, CryptoError>)
        ensures
            r matches Ok(kp) && kp.dec@ == seed@ && kp.wf(),
    {
        let s = vstd::array::array_as_slice(seed);
        let ek = mlkem1024_ek_from_seed(s);
        let kp = MlKem1024Keypair {
            enc: MlKem1024EncapsulationKey { bytes: ek },
            dec: MlKem1024DecapsulationKey { seed: slice_to_vec(s) },
        };
        Ok(kp)
    }

    /// Generate a new key pair from OS randomness.
    pub fn generate() -> (r: Result<Self, CryptoError>)
        ensures
            r matches Ok(kp) && kp.wf(),
    {
        let seed = random_bytes(64);
        let ek = mlkem1024_ek_from_seed(seed.as_slice());
        Ok(MlKem1024Keypair {
            enc: MlKem1024EncapsulationKey { bytes: ek },
            dec: MlKem1024DecapsulationKey { seed },
        })
    }

    /// Encapsulate a fresh shared secret to `enc_key`: (ciphertext, secret).
    pub fn encapsulate(enc_key: &MlKem1024EncapsulationKey) -> (r: Result<
        (MlKem1024Ciphertext, MlKem1024SharedSecret),
        CryptoError,
    >)
        ensures
            r matches Ok((ct, ss)) && exists|m: Seq<u8>|
                m.len() == 32 && #[trigger] mlkem1024_encaps(enc_key@, m) == (ct@, ss@),
            r matches Ok((ct, ss)) ==> ct@.len() == MLKEM1024_CT_LEN && ss@.len() == 32,
    {
        proof {
            use_type_invariant(enc_key);
        }
        let m = random_bytes(32);
        let (ct, ss) = mlkem1024_encapsulate_with(enc_key.bytes.as_slice(), m.as_slice());
        assert(mlkem1024_encaps(enc_key@, m@) == (ct@, ss@));
        Ok((ct, ss))
    }

    /// Decapsulate `ciphertext` with our secret key.
    pub fn decapsulate(&self, ciphertext: &[u8]) -> (r: Result<MlKem1024SharedSecret, CryptoError>)
        requires
            ciphertext@.len() == MLKEM1024_CT_LEN,
        ensures
            r matches Ok(ss) && ss@ == mlkem1024_decaps(self.dec@, ciphertext@) && ss@.len() == 32,
    {
        proof {
            use_type_invariant(&self.dec);
        }
        Ok(mlkem1024_decapsulate(self.dec.seed.as_slice(), ciphertext))
    }
}

/// The base64 text of an encapsulation key.
pub fn encode_enc_key(key: &MlKem1024EncapsulationKey) -> (r: String)
    ensures
        r@ == base64_std_encode(key@),
{
    let bytes = key.to_bytes();
    base64_encode(bytes.as_slice())
}

/// Parse a base64 encapsulation key.
pub fn decode_enc_key(b64: &str) -> (r: Result<MlKem1024EncapsulationKey, CryptoError>)
    ensures
        match base64_std_decode(b64@) {
            Some(b) => if b.len() == MLKEM1024_EK_LEN && mlkem1024_ek_valid(b) {
                r matches Ok(k) && k@ == b
            } else {
                r matches Err(CryptoError::KeyPersistence(_))
            },
            None => r matches Err(CryptoError::KeyPersistence(_)),
        },
{
    let bytes = match base64_decode(b64) {
        Some(b) => b,
        None => return Err(CryptoError::KeyPersistence("base64 decode".to_string())),
    };
    match MlKem1024EncapsulationKey::from_slice(bytes.as_slice()) {
        Some(k) => Ok(k),
        None => Err(CryptoError::KeyPersistence("invalid enc key bytes".to_string())),
    }
}

/// The key that protects a stored decapsulation seed.
pub open spec fn storage_key_of(encryption_key: Seq<u8>) -> Seq<u8> {
    hkdf_sha256(None, encryption_key, "add-kyber-key-enc-v1".spec_bytes(), 32)
}

impl MlKem1024Keypair {
    /// The stored form of the key pair, protected by `encryption_key`:
    /// (encapsulation key, nonce, encrypted seed), each in hex.
    pub fn storage_record(&self, encryption_key: &[u8; 32]) -> (r: Result<(String, String, String), CryptoError>)
        ensures
            r matches Ok((enc, nonce, sealed)) && exists|n: Seq<u8>, c: Seq<u8>|
                n.len() == 12 && enc@ == hex_lower(self.enc@) && nonce@ == #[trigger] hex_lower(n) && sealed@ == #[trigger] hex_lower(c)
                    && c == aes256gcm_seal(storage_key_of(encryption_key@), n, Seq::empty(), self.dec@)
                    && aes256gcm_open(storage_key_of(encryption_key@), n, Seq::empty(), c) == Some(self.dec@),
    {
        proof {
            use_type_invariant(&self.dec);
            use_type_invariant(&self.enc);
        }
        let aes_key = match hkdf_sha256_expand(None, encryption_key.as_slice(), "add-kyber-key-enc-v1".as_bytes(), 32) {
            Some(k) => k,
            None => return Err(CryptoError::KeyPersistence("HKDF expand failed".to_string())),
        };
        let nonce = random_bytes(12);
        let empty: Vec<u8> = Vec::new();
        let ct = match aes256gcm_encrypt(aes_key.as_slice(), nonce.as_slice(), empty.as_slice(), self.dec.seed.as_slice()) {
            Some(c) => c,
            None => return Err(CryptoError::KeyPersistence("AES-GCM encrypt".to_string())),
        };
        let e = hex_encode(self.enc.bytes.as_slice());
        let n = hex_encode(nonce.as_slice());
        let c = hex_encode(ct.as_slice());
        assert(n@ == hex_lower(nonce@) && c@ == hex_lower(ct@));
        Ok((e, n, c))
    }

    /// The key pair of a stored record protected by `encryption_key`.
    /// Refused, in this order: bad hex in any field, a seed that does not
    /// authenticate, an invalid encapsulation key, a seed not 64 bytes long.
    pub fn from_storage_record(enc_hex: &str, nonce_hex: &str, dec_encrypted_hex: &str, encryption_key: &[u8; 32]) -> (r: Result<Self, CryptoError>)
        requires
            hex_decoded(nonce_hex.spec_bytes()) matches Some(n) ==> n.len() == 12,
        ensures
            ({
                let e = hex_decoded(enc_hex.spec_bytes());
                let n = hex_decoded(nonce_hex.spec_bytes());
                let c = hex_decoded(dec_encrypted_hex.spec_bytes());
                if e is None || n is None || c is None {
                    r matches Err(CryptoError::KeyPersistence(_))
                } else {
                    match aes256gcm_open(storage_key_of(encryption_key@), n.unwrap(), Seq::empty(), c.unwrap()) {
                        None => r matches Err(CryptoError::KeyPersistence(_)),
                        Some(seed) => if e.unwrap().len() == MLKEM1024_EK_LEN && mlkem1024_ek_valid(e.unwrap()) && seed.len() == 64 {
                            r matches Ok(kp) && kp.enc@ == e.unwrap() && kp.dec@ == seed
                        } else {
                            r matches Err(CryptoError::KeyPersistence(_))
                        },
                    }
                }
            }),
    {
        let enc_bytes = match hex_decode(enc_hex) {
            Some(b) => b,
            None => return Err(CryptoError::KeyPersistence("enc hex decode".to_string())),
        };
        let nonce_bytes = match hex_decode(nonce_hex) {
            Some(b) => b,
            None => return Err(CryptoError::KeyPersistence("nonce hex decode".to_string())),
        };
        let dec_ciphertext = match hex_decode(dec_encrypted_hex) {
            Some(b) => b,
            None => return Err(CryptoError::KeyPersistence("dec_encrypted hex decode".to_string())),
        };
        let aes_key = match hkdf_sha256_expand(None, encryption_key.as_slice(), "add-kyber-key-enc-v1".as_bytes(), 32) {
            Some(k) => k,
            None => return Err(CryptoError::KeyPersistence("HKDF expand failed".to_string())),
        };
        let empty: Vec<u8> = Vec::new();
        let dec_bytes = match aes256gcm_decrypt(aes_key.as_slice(), nonce_bytes.as_slice(), empty.as_slice(), dec_ciphertext.as_slice()) {
            Some(d) => d,
            None => return Err(CryptoError::KeyPersistence("AES-GCM decrypt".to_string())),
        };
        let enc = match MlKem1024EncapsulationKey::from_slice(enc_bytes.as_slice()) {
            Some(k) => k,
            None => return Err(CryptoError::KeyPersistence("invalid enc key bytes".to_string())),
        };
        if dec_bytes.len() != 64 {
            return Err(CryptoError::KeyPersistence("invalid seed length".to_string()));
        }
        Ok(MlKem1024Keypair { enc, dec: MlKem1024DecapsulationKey { seed: dec_bytes } })
    }

    /// The unprotected stored form: (encapsulation key, seed) in hex.
    pub fn unencrypted_record(&self) -> (r: (String, String))
        ensures
            r.0@ == hex_lower(self.enc@),
            r.1@ == hex_lower(self.dec@),
    {
        (hex_encode(self.enc.bytes.as_slice()), hex_encode(self.dec.seed.as_slice()))
    }

    /// The key pair of an unprotected record.  Refused: bad hex, an invalid
    /// encapsulation key, a seed not 64 bytes long.
    pub fn from_unencrypted_record(enc_hex: &str, dec_hex: &str) -> (r: Result<Self, CryptoError>)
        ensures
            ({
                let e = hex_decoded(enc_hex.spec_bytes());
                let d = hex_decoded(dec_hex.spec_bytes());
                if e is Some && d is Some && e.unwrap().len() == MLKEM1024_EK_LEN && mlkem1024_ek_valid(e.unwrap())
                    && d.unwrap().len() == 64 {
                    r matches Ok(kp) && kp.enc@ == e.unwrap() && kp.dec@ == d.unwrap()
                } else {
                    r matches Err(CryptoError::KeyPersistence(_))
                }
            }),
    {
        let enc_bytes = match hex_decode(enc_hex) {
            Some(b) => b,
            None => return Err(CryptoError::KeyPersistence("enc hex decode".to_string())),
        };
        let dec_bytes = match hex_decode(dec_hex) {
            Some(b) => b,
            None => return Err(CryptoError::KeyPersistence("dec hex decode".to_string())),
        };
        let enc = match MlKem1024EncapsulationKey::from_slice(enc_bytes.as_slice()) {
            Some(k) => k,
            None => return Err(CryptoError::KeyPersistence("invalid enc key bytes".to_string())),
        };
        if dec_bytes.len() != 64 {
            return Err(CryptoError::KeyPersistence("invalid seed length".to_string()));
        }
        Ok(MlKem1024Keypair { enc, dec: MlKem1024DecapsulationKey { seed: dec_bytes } })
    }
}

/// The two ML-KEM parameter sets.
#[derive(Debug, Clone, Copy, PartialEq, Eq, Structural)]
pub enum MlKemVariant {
    MlKem768,
    MlKem1024,
}

impl MlKemVariant {
    /// The default parameter set.
    pub const DEFAULT: MlKemVariant = MlKemVariant::MlKem1024;

    /// Encapsulation key size.
    pub fn enc_key_size(self) -> (r: usize)
        ensures
            r == (match self {
                MlKemVariant::MlKem768 => 1184usize,
                MlKemVariant::MlKem1024 => 1568usize,
            }),
    {
        match self {
            MlKemVariant::MlKem768 => 1184,
            MlKemVariant::MlKem1024 => 1568,
        }
    }

    /// Ciphertext size.
    pub fn ciphertext_size(self) -> (r: usize)
        ensures
            r == (match self {
                MlKemVariant::MlKem768 => 1088usize,
                MlKemVariant::MlKem1024 => 1568usize,
            }),
    {
        match self {
            MlKemVariant::MlKem768 => 1088,
            MlKemVariant::MlKem1024 => 1568,
        }
    }

    /// Shared secret size.
    pub fn shared_secret_size(self) -> (r: usize)
        ensures
            r == 32,
    {
        32
    }

    /// The NIST security level.
    pub fn security_level(self) -> (r: &'static str)
        ensures
            r@ == (match self {
                MlKemVariant::MlKem768 => "NIST Level 3 (192-bit equivalent)"@,
                MlKemVariant::MlKem1024 => "NIST Level 5 (256-bit equivalent)"@,
            }),
    {
        match self {
            MlKemVariant::MlKem768 => "NIST Level 3 (192-bit equivalent)",
            MlKemVariant::MlKem1024 => "NIST Level 5 (256-bit equivalent)",
        }
    }

    /// The shortest message that can carry a key, a ciphertext, a nonce and
    /// a tag.
    pub fn min_ciphertext_len(self) -> (r: usize)
        ensures
            r == (match self {
                MlKemVariant::MlKem768 => 1184usize + 1088 + 12 + 16,
                MlKemVariant::MlKem1024 => 1568usize + 1568 + 12 + 16,
            }),
    {
        self.enc_key_size() + self.ciphertext_size() + 12 + 16
    }
}

/// A key pair of either parameter set, as bytes.
#[derive(Clone)]
pub struct VariantKeypair {
    pub variant: MlKemVariant,
    pub enc_bytes: Vec<u8>,
    pub dec_bytes: Vec<u8>,
}

impl VariantKeypair {
    /// A fresh key pair of the parameter set: a random 64-byte seed and the
    /// encapsulation key derived from it.
    pub fn generate(variant: MlKemVariant) -> (r: Result<Self, CryptoError>)
        ensures
            r matches Ok(kp) && kp.variant == variant && kp.dec_bytes@.len() == 64 && kp.enc_bytes@ == (match variant {
                MlKemVariant::MlKem768 => mlkem768_ek_of_seed(kp.dec_bytes@),
                MlKemVariant::MlKem1024 => mlkem1024_ek_of_seed(kp.dec_bytes@),
            }),
    {
        match variant {
            MlKemVariant::MlKem1024 => {
                let kp = match MlKem1024Keypair::generate() {
                    Ok(k) => k,
                    Err(e) => return Err(e),
                };
                Ok(VariantKeypair { variant, enc_bytes: kp.enc.to_bytes(), dec_bytes: kp.dec.to_bytes() })
            },
            MlKemVariant::MlKem768 => {
                let seed = random_bytes(64);
                let ek = mlkem768_ek_from_seed(seed.as_slice());
                Ok(VariantKeypair { variant, enc_bytes: ek, dec_bytes: seed })
            },
        }
    }

    /// The encapsulation key bytes.
    pub fn enc_bytes(&self) -> (r: &[u8])
        ensures
            r@ == self.enc_bytes@,
    {
        self.enc_bytes.as_slice()
    }

    /// The decapsulation seed bytes.
    pub fn dec_bytes(&self) -> (r: &[u8])
        ensures
            r@ == self.dec_bytes@,
    {
        self.dec_bytes.as_slice()
    }

    /// The ML-KEM-1024 key pair held, if that is the parameter set and the
    /// bytes make a key pair.
    pub fn as_1024(&self) -> (r: Result<MlKem1024Keypair, CryptoError>)
        ensures
            (self.variant == MlKemVariant::MlKem1024 && self.enc_bytes@.len() == MLKEM1024_EK_LEN && mlkem1024_ek_valid(
                self.enc_bytes@,
            ) && self.dec_bytes@.len() == 64) ==> (r matches Ok(kp) && kp.enc@ == self.enc_bytes@ && kp.dec@
                == self.dec_bytes@),
            !(self.variant == MlKemVariant::MlKem1024 && self.enc_bytes@.len() == MLKEM1024_EK_LEN
                && mlkem1024_ek_valid(self.enc_bytes@) && self.dec_bytes@.len() == 64) ==> r matches Err(
                CryptoError::KeyPersistence(_),
            ),
    {
        if self.variant != MlKemVariant::MlKem1024 {
            return Err(CryptoError::KeyPersistence("keypair is not ML-KEM-1024".to_string()));
        }
        let enc = match MlKem1024EncapsulationKey::from_slice(self.enc_bytes.as_slice()) {
            Some(k) => k,
            None => return Err(CryptoError::KeyPersistence("invalid enc key".to_string())),
        };
        if self.dec_bytes.len() != 64 {
            return Err(CryptoError::KeyPersistence("invalid dec key".to_string()));
        }
        Ok(MlKem1024Keypair { enc, dec: MlKem1024DecapsulationKey { seed: self.dec_bytes.clone() } })
    }
}


/// Hex text is ASCII, so its UTF-8 bytes are its characters' codes.
pub proof fn lemma_hex_text_bytes(b: Seq<u8>)
    ensures
        encode_utf8(hex_lower(b)) == hex_lower(b).map_values(|c: char| c as u8),
    decreases b.len(),
{
    lemma_hex_lower_ascii(b);
    is_ascii_chars_encode_utf8(hex_lower(b));
    assert(encode_utf8(hex_lower(b)) =~= hex_lower(b).map_values(|c: char| c as u8));
}

pub proof fn lemma_hex_lower_ascii(b: Seq<u8>)
    ensures
        is_ascii_chars(hex_lower(b)),
    decreases b.len(),
{
    if b.len() > 0 {
        lemma_hex_lower_ascii(b.drop_first());
        let h = hex_lower(b);
        let rest = hex_lower(b.drop_first());
        assert(h == seq![hex_digit(b[0] / 16), hex_digit(b[0] % 16)] + rest);
        assert forall|i: int| 0 <= i < h.len() implies '\0' <= #[trigger] h[i] <= '\u{7f}' by {
            if i >= 2 {
                assert(h[i] == rest[i - 2]);
            }
        }
    }
}

/// A stored record reads back as the key pair it was written from.
pub proof fn law_storage_record_roundtrip(
    kp_enc: Seq<u8>,
    kp_dec: Seq<u8>,
    encryption_key: Seq<u8>,
    n: Seq<u8>,
    c: Seq<u8>,
)
    requires
        kp_enc.len() == MLKEM1024_EK_LEN,
        mlkem1024_ek_valid(kp_enc),
        kp_dec.len() == 64,
        aes256gcm_open(storage_key_of(encryption_key), n, Seq::empty(), c) == Some(kp_dec),
    ensures
        hex_decoded(encode_utf8(hex_lower(kp_enc))) == Some(kp_enc),
        hex_decoded(encode_utf8(hex_lower(n))) == Some(n),
        hex_decoded(encode_utf8(hex_lower(c))) == Some(c),
{
    lemma_hex_text_bytes(kp_enc);
    lemma_hex_text_bytes(n);
    lemma_hex_text_bytes(c);
    law_hex_roundtrip(kp_enc);
    law_hex_roundtrip(n);
    law_hex_roundtrip(c);
}

} // verus!
