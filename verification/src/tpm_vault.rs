//! The master app key (MAK) and its vault: AES-256-GCM wrapping under a
//! key-encryption key derived from a passphrase with Argon2id, and
//! encryption of data at rest under the MAK.
use vstd::prelude::*;
use vstd::slice::slice_to_vec;
use vstd::string::StringSliceAdditionalSpecFns;
use vstd::utf8::{is_ascii_chars, is_ascii_chars_encode_utf8};
use crate::error::CryptoError;
use crate::primitives::{
    aes256gcm_decrypt, aes256gcm_encrypt, aes256gcm_open, aes256gcm_seal, aes_gcm_max_len, argon2_accepts,
    argon2_salt_generate, argon2id, argon2id_hash, base64_decode, base64_encode, base64_std_decode,
    base64_std_encode, random_bytes, salt_string_from_b64, salt_string_valid,
};

verus! {

/// Length of the master app key.
pub const MAK_LEN: usize = 32;

/// The master app key.
#[derive(Clone)]
pub struct MasterAppKey {
    material: [u8; 32],
}

impl View for MasterAppKey {
    type V = Seq<u8>;

    closed spec fn view(&self) -> Seq<u8> {
        self.material@
    }
}

fn to_array32(v: &[u8]) -> (a: [u8; 32])
    requires
        v@.len() == 32,
    ensures
        a@ == v@,
{
    let mut a = [0u8; 32];
    for i in 0..32
        invariant
            v@.len() == 32,
            forall|j: int| 0 <= j < i ==> a@[j] == v@[j],
    {
        a[i] = v[i];
    }
    assert(a@ =~= v@);
    a
}

impl MasterAppKey {
    /// A fresh random key.
    pub fn generate() -> (r: Result<Self, CryptoError>)
        ensures
            r matches Ok(k) && k@.len() == MAK_LEN,
    {
        let b = random_bytes(MAK_LEN);
        Ok(MasterAppKey { material: to_array32(b.as_slice()) })
    }

    /// A key from its bytes.
    pub fn from_raw(raw: [u8; 32]) -> (k: Self)
        ensures
            k@ == raw@,
    {
        MasterAppKey { material: raw }
    }

    /// The key bytes.
    pub fn as_bytes(&self) -> (r: &[u8; 32])
        ensures
            r@ == self@,
    {
        &self.material
    }
}

/// How a vault holds the MAK.
#[derive(Debug, Clone)]
pub enum VaultKind {
    Tpm { sealed_b64: String },
    Passphrase { wrapped_b64: String },
}

/// The on-disk vault.
#[derive(Debug, Clone)]
pub struct VaultFile {
    pub version: u8,
    pub kind: VaultKind,
    pub pw_salt_b64: Option<String>,
}

/// Associated data of every wrapping.
pub open spec fn mak_aad() -> Seq<u8> {
    "add-mak-v1".spec_bytes()
}

/// The key-encryption key of a credential under a salt.
pub open spec fn kek_of(credential: Seq<u8>, salt: Seq<u8>) -> Seq<u8> {
    argon2id(credential, salt, 19456, 3, 1, 32)
}

/// `wrapped` is a wrapping of `pt` under `key`: a 12-byte nonce, then the
/// AES-GCM ciphertext, which opens back to `pt`.
pub open spec fn is_wrapping(key: Seq<u8>, pt: Seq<u8>, wrapped: Seq<u8>) -> bool {
    &&& wrapped.len() >= 12
    &&& wrapped.subrange(12, wrapped.len() as int) == aes256gcm_seal(
        key,
        wrapped.subrange(0, 12),
        mak_aad(),
        pt,
    )
    &&& aes256gcm_open(key, wrapped.subrange(0, 12), mak_aad(), wrapped.subrange(12, wrapped.len() as int)) == Some(pt)
}

/// What unwrapping gives: `None` for fewer than 12 bytes or a ciphertext
/// that does not authenticate.
pub open spec fn unwrapped(key: Seq<u8>, wrapped: Seq<u8>) -> Option<Seq<u8>> {
    if wrapped.len() < 12 {
        None
    } else {
        aes256gcm_open(key, wrapped.subrange(0, 12), mak_aad(), wrapped.subrange(12, wrapped.len() as int))
    }
}

fn derive_kek(credential: &[u8], salt: &[u8]) -> (r: Result<[u8; 32], CryptoError>)
    ensures
        r is Ok <==> argon2_accepts(credential@.len(), salt@.len(), 19456, 3, 1, 32),
        r matches Ok(k) ==> k@ == kek_of(credential@, salt@),
        r matches Err(e) ==> e matches CryptoError::DerivationFailed(_),
{
    match argon2id_hash(credential, salt, 19456, 3, 1, 32) {
        Some(out) => Ok(to_array32(out.as_slice())),
        None => Err(CryptoError::DerivationFailed("argon2".to_string())),
    }
}

fn aes_wrap(kek: &[u8; 32], plaintext: &[u8]) -> (r: Result<Vec<u8>, CryptoError>)
    ensures
        r matches Ok(w) ==> is_wrapping(kek@, plaintext@, w@) && w@.len() == 12 + plaintext@.len() + 16,
        plaintext@.len() <= aes_gcm_max_len() <==> r is Ok,
        r matches Err(e) ==> e matches CryptoError::EncryptFailed(_),
{
    let nonce = random_bytes(12);
    let aad = "add-mak-v1".as_bytes();
    proof {
        reveal_strlit("add-mak-v1");
        is_ascii_chars_encode_utf8("add-mak-v1"@);
        assert(aad@.len() == 10);
    }
    let ct = match aes256gcm_encrypt(kek.as_slice(), nonce.as_slice(), aad, plaintext) {
        Some(ct) => ct,
        None => return Err(CryptoError::EncryptFailed("aes-wrap".to_string())),
    };
    let ghost nv = nonce@;
    let mut out = nonce;
    let mut c = ct;
    out.append(&mut c);
    assert(out@.subrange(0, 12) =~= nv);
    assert(out@.subrange(12, out@.len() as int) =~= ct@);
    Ok(out)
}

fn aes_unwrap(kek: &[u8; 32], wrapped: &[u8]) -> (r: Result<Vec<u8>, CryptoError>)
    ensures
        match unwrapped(kek@, wrapped@) {
            Some(pt) => r matches Ok(v) && v@ == pt,
            None => r matches Err(CryptoError::DecryptFailed(_)),
        },
{
    if wrapped.len() < 12 {
        return Err(CryptoError::DecryptFailed("aes-unwrap: too short".to_string()));
    }
    let nonce = &wrapped[0..12];
    let ct = &wrapped[12..wrapped.len()];
    match aes256gcm_decrypt(kek.as_slice(), nonce, "add-mak-v1".as_bytes(), ct) {
        Some(pt) => Ok(pt),
        None => Err(CryptoError::DecryptFailed("aes-unwrap: auth failed (bad password)".to_string())),
    }
}

/// A sealed passphrase vault of the MAK: version 1, the wrapping in
/// base64, and the salt.
pub open spec fn sealed_vault_of(mak: Seq<u8>, password: Seq<u8>, v: VaultFile) -> bool {
    &&& v.version == 1
    &&& v.pw_salt_b64 is Some
    &&& v.kind is Passphrase
    &&& salt_string_valid(v.pw_salt_b64.unwrap()@)
    &&& spec_bytes_chars_of(v.pw_salt_b64.unwrap()@).len() == 22
    &&& exists|w: Seq<u8>|
        #[trigger] base64_std_encode(w) == v.kind->wrapped_b64@ && base64_std_decode(v.kind->wrapped_b64@) == Some(w)
            && is_wrapping(kek_of(password, spec_bytes_chars_of(v.pw_salt_b64.unwrap()@)), mak, w)
}

/// The bytes of a character sequence in UTF-8.
pub open spec fn spec_bytes_chars_of(s: Seq<char>) -> Seq<u8> {
    vstd::utf8::encode_utf8(s)
}

/// Seal the MAK under a passphrase: a fresh salt, the Argon2id KEK, and
/// the AES-GCM wrapping.  Refused only for passphrases of 2^32 bytes or
/// more.
pub fn seal_with_passphrase(mak: &MasterAppKey, password: &[u8]) -> (r: Result<VaultFile, CryptoError>)
    ensures
        password@.len() <= 0xFFFFFFFF <==> r is Ok,
        r matches Ok(v) ==> sealed_vault_of(mak@, password@, v),
        r matches Err(e) ==> e matches CryptoError::DerivationFailed(_),
{
    let salt_str = argon2_salt_generate();
    let salt = salt_str.as_str().as_bytes();
    proof {
        is_ascii_chars_encode_utf8(salt_str@);
    }
    let kek = match derive_kek(password, salt) {
        Ok(k) => k,
        Err(e) => return Err(e),
    };
    let wrapped = match aes_wrap(&kek, mak.material.as_slice()) {
        Ok(w) => w,
        Err(e) => return Err(e),
    };
    let enc = base64_encode(wrapped.as_slice());
    let v = VaultFile { version: 1, kind: VaultKind::Passphrase { wrapped_b64: enc }, pw_salt_b64: Some(salt_str) };
    assert(base64_std_encode(wrapped@) == enc@);
    Ok(v)
}

/// What unsealing a vault with a passphrase gives: `None` unless it is a
/// passphrase vault with a valid salt and valid base64, the passphrase is
/// accepted by Argon2id, the wrapping authenticates and holds 32 bytes.
pub open spec fn unseal_result(v: VaultFile, password: Seq<u8>) -> Option<Seq<u8>> {
    match (v.kind, v.pw_salt_b64) {
        (VaultKind::Passphrase { wrapped_b64 }, Some(salt)) => if !salt_string_valid(salt@) {
            None
        } else {
            match base64_std_decode(wrapped_b64@) {
                None => None,
                Some(w) => if !argon2_accepts(password.len(), spec_bytes_chars_of(salt@).len(), 19456, 3, 1, 32) {
                    None
                } else {
                    match unwrapped(kek_of(password, spec_bytes_chars_of(salt@)), w) {
                        Some(raw) => if raw.len() == MAK_LEN {
                            Some(raw)
                        } else {
                            None
                        },
                        None => None,
                    }
                }
            }
        },
        _ => None,
    }
}

/// Unseal the MAK of a passphrase vault.
pub fn unseal_with_passphrase(vault: &VaultFile, password: &[u8]) -> (r: Result<MasterAppKey, CryptoError>)
    ensures
        match unseal_result(*vault, password@) {
            Some(k) => r matches Ok(m) && m@ == k,
            None => r is Err,
        },
{
    let wrapped_b64 = match &vault.kind {
        VaultKind::Passphrase { wrapped_b64 } => wrapped_b64,
        VaultKind::Tpm { .. } => return Err(CryptoError::DecryptFailed("vault is not passphrase mode".to_string())),
    };
    let salt_str = match &vault.pw_salt_b64 {
        Some(s) => s,
        None => return Err(CryptoError::DecryptFailed("passphrase vault missing salt".to_string())),
    };
    let salt = match salt_string_from_b64(salt_str.as_str()) {
        Some(s) => s,
        None => return Err(CryptoError::DecryptFailed("bad salt".to_string())),
    };
    let wrapped = match base64_decode(wrapped_b64.as_str()) {
        Some(w) => w,
        None => return Err(CryptoError::DecryptFailed("bad wrapped b64".to_string())),
    };
    let kek = match derive_kek(password, salt.as_slice()) {
        Ok(k) => k,
        Err(e) => return Err(e),
    };
    let raw = match aes_unwrap(&kek, wrapped.as_slice()) {
        Ok(r) => r,
        Err(e) => return Err(e),
    };
    if raw.len() != MAK_LEN {
        return Err(CryptoError::DecryptFailed("unexpected MAK length".to_string()));
    }
    Ok(MasterAppKey { material: to_array32(raw.as_slice()) })
}

/// Encrypt data at rest under the MAK.
pub fn encrypt_with_mak(mak: &MasterAppKey, plaintext: &[u8]) -> (r: Result<Vec<u8>, CryptoError>)
    ensures
        r matches Ok(w) ==> is_wrapping(mak@, plaintext@, w@) && w@.len() == 12 + plaintext@.len() + 16,
        plaintext@.len() <= aes_gcm_max_len() <==> r is Ok,
        r matches Err(e) ==> e matches CryptoError::EncryptFailed(_),
{
    aes_wrap(&mak.material, plaintext)
}

/// Decrypt data encrypted under the MAK.
pub fn decrypt_with_mak(mak: &MasterAppKey, wrapped: &[u8]) -> (r: Result<Vec<u8>, CryptoError>)
    ensures
        match unwrapped(mak@, wrapped@) {
            Some(pt) => r matches Ok(v) && v@ == pt,
            None => r matches Err(CryptoError::DecryptFailed(_)),
        },
{
    aes_unwrap(&mak.material, wrapped)
}

/// Data encrypted under a key decrypts back under the same key.
pub proof fn law_mak_roundtrip(key: Seq<u8>, pt: Seq<u8>, wrapped: Seq<u8>)
    requires
        is_wrapping(key, pt, wrapped),
    ensures
        unwrapped(key, wrapped) == Some(pt),
{
}

/// A vault sealed under a passphrase unseals with that passphrase to the
/// sealed MAK.
pub proof fn law_vault_roundtrip(mak: Seq<u8>, password: Seq<u8>, v: VaultFile)
    requires
        mak.len() == MAK_LEN,
        password.len() <= 0xFFFFFFFF,
        sealed_vault_of(mak, password, v),
    ensures
        unseal_result(v, password) == Some(mak),
{
}


/// Default number of wrong unlock attempts before self-destruct.
pub const DEFAULT_WRONG_ATTEMPTS: u8 = 10;

/// The self-destruct threshold: the settings' value clamped to 3..=20, or
/// the default when the settings give none.
pub open spec fn threshold_of(setting: Option<u64>) -> u8 {
    match setting {
        Some(t) => if t < 3 {
            3
        } else if t > 20 {
            20
        } else {
            t as u8
        },
        None => DEFAULT_WRONG_ATTEMPTS,
    }
}

/// The self-destruct threshold for a `selfDestructThreshold` setting.
pub fn wrong_attempts_threshold(setting: Option<u64>) -> (r: u8)
    ensures
        r == threshold_of(setting),
{
    match setting {
        Some(t) => if t < 3 {
            3
        } else if t > 20 {
            20
        } else {
            t as u8
        },
        None => DEFAULT_WRONG_ATTEMPTS,
    }
}

/// What a failed-unlock check does with the stored counter.
#[derive(Debug, Clone, Copy, PartialEq, Eq, Structural)]
pub enum AttemptAction {
    /// Nothing to write; no self-destruct.
    Keep,
    /// Write this count; no self-destruct.
    Store(u8),
    /// The threshold is reached: self-destruct (the counter is not written).
    SelfDestruct,
}

/// The decision of a failed-unlock check: with `increment`, the counter
/// goes up by one (saturating) and reaching `threshold` means
/// self-destruct, otherwise the new count is stored; without it nothing
/// changes.
pub fn failed_attempt_action(count: u8, increment: bool, threshold: u8) -> (r: AttemptAction)
    ensures
        !increment ==> r == AttemptAction::Keep,
        increment ==> {
            let next: u8 = if count < 255 { (count + 1) as u8 } else { 255 };
            if next >= threshold {
                r == AttemptAction::SelfDestruct
            } else {
                r == AttemptAction::Store(next)
            }
        },
{
    if !increment {
        return AttemptAction::Keep;
    }
    let next = count.saturating_add(1);
    if next >= threshold {
        AttemptAction::SelfDestruct
    } else {
        AttemptAction::Store(next)
    }
}

} // verus!
