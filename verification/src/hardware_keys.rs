//! The key hierarchy: a root secret (Argon2id of a passphrase), an
//! identity root derived from it with HKDF-SHA512, and the purpose-bound
//! session keys derived from the identity root.
use vstd::prelude::*;
use vstd::string::StringSliceAdditionalSpecFns;
use vstd::utf8::{is_ascii_chars, is_ascii_chars_encode_utf8};
use crate::error::CryptoError;
use crate::kyber::MlKem1024Keypair;
use crate::primitives::{
    argon2_accepts, argon2_salt_generate, argon2id, argon2id_hash, ct_eq, hkdf_sha512, hkdf_sha512_expand,
    salt_string_from_b64, salt_string_valid,
};
use crate::secure_mem::SecureKeyMaterial;

verus! {

/// Argon2id memory cost (KiB), passes, lanes and output length.
pub const ARGON2_MEMORY_KIB: u32 = 19456;
pub const ARGON2_ITERATIONS: u32 = 3;
pub const ARGON2_PARALLELISM: u32 = 1;
pub const ARGON2_OUTPUT_LEN: usize = 64;

/// Errors of the key hierarchy.
#[derive(Debug, Clone, PartialEq, Eq)]
pub enum HardwareKeyError {
    HsmUnavailable(String),
    DerivationFailed(String),
    InvalidCredential,
    Serialization(String),
    Crypto(CryptoError),
}

/// Where a root secret came from.
#[derive(Debug, Clone, Copy, PartialEq, Eq, Structural)]
pub enum RootSecretSource {
    Hsm,
    Argon2id,
}

/// The root secret.
#[derive(Debug)]
pub struct RootSecret {
    source: RootSecretSource,
    material: SecureKeyMaterial,
}

impl Clone for RootSecret {
    fn clone(&self) -> (r: Self)
        ensures
            r.source_view() == self.source_view(),
            r.material_view() == self.material_view(),
    {
        RootSecret { source: self.source, material: self.material.clone() }
    }
}

/// The Argon2id root of a passphrase under a salt.
pub open spec fn root_of(passphrase: Seq<u8>, salt: Seq<u8>) -> Seq<u8> {
    argon2id(passphrase, salt, ARGON2_MEMORY_KIB, ARGON2_ITERATIONS, ARGON2_PARALLELISM, ARGON2_OUTPUT_LEN as nat)
}

/// The identity root of a root secret.
pub open spec fn identity_of(root: Seq<u8>) -> Seq<u8> {
    hkdf_sha512(None, root, "add-identity-root-v1".spec_bytes(), 64)
}

/// A 32-byte session key of an identity root for a purpose label.
pub open spec fn session_key_of(identity: Seq<u8>, info: Seq<u8>) -> Seq<u8> {
    hkdf_sha512(None, identity, info, 32)
}

impl RootSecret {
    pub closed spec fn source_view(self) -> RootSecretSource {
        self.source
    }

    pub closed spec fn material_view(self) -> Seq<u8> {
        self.material.bytes_view()
    }

    /// A root secret from a hardware security module: not available.
    pub fn from_hsm() -> (r: Result<Self, HardwareKeyError>)
        ensures
            r matches Err(HardwareKeyError::HsmUnavailable(_)),
    {
        Err(HardwareKeyError::HsmUnavailable("HSM integration not yet implemented - use passphrase".to_string()))
    }

    /// The Argon2id root of a passphrase under a fresh random 22-character
    /// salt.
    pub fn from_passphrase(passphrase: &[u8]) -> (r: Result<Self, HardwareKeyError>)
        ensures
            passphrase@.len() <= 0xFFFFFFFF <==> r is Ok,
            r matches Ok(s) ==> s.source_view() == RootSecretSource::Argon2id && exists|salt: Seq<u8>|
                salt.len() == 22 && s.material_view() == #[trigger] root_of(passphrase@, salt),
            r matches Err(e) ==> e matches HardwareKeyError::DerivationFailed(_),
    {
        let salt_str = argon2_salt_generate();
        let salt = salt_str.as_str().as_bytes();
        proof {
            assert(is_ascii_chars(salt_str@)) by {
                assert forall|i: int| 0 <= i < salt_str@.len() implies '\0' <= #[trigger] salt_str@[i] <= '\u{7f}' by {
                }
            }
            is_ascii_chars_encode_utf8(salt_str@);
        }
        let output = match argon2id_hash(
            passphrase,
            salt,
            ARGON2_MEMORY_KIB,
            ARGON2_ITERATIONS,
            ARGON2_PARALLELISM,
            ARGON2_OUTPUT_LEN,
        ) {
            Some(o) => o,
            None => return Err(HardwareKeyError::DerivationFailed("argon2".to_string())),
        };
        assert(output@ == root_of(passphrase@, salt@));
        let material = SecureKeyMaterial::new(output, true);
        Ok(RootSecret { source: RootSecretSource::Argon2id, material })
    }

    /// The Argon2id root of a passphrase under a stored salt string (the
    /// form `verify_passphrase` checks against); refused when the salt does
    /// not parse or Argon2id refuses the lengths.
    pub fn from_passphrase_and_salt(passphrase: &[u8], salt: &str) -> (r: Result<Self, HardwareKeyError>)
        ensures
            r is Ok <==> (salt_string_valid(salt@) && argon2_accepts(
                passphrase@.len(),
                salt.spec_bytes().len(),
                ARGON2_MEMORY_KIB,
                ARGON2_ITERATIONS,
                ARGON2_PARALLELISM,
                ARGON2_OUTPUT_LEN as nat,
            )),
            r matches Ok(s) ==> s.source_view() == RootSecretSource::Argon2id && s.material_view() == root_of(
                passphrase@,
                salt.spec_bytes(),
            ),
            r matches Err(e) ==> e matches HardwareKeyError::DerivationFailed(_),
    {
        let salt_bytes = match salt_string_from_b64(salt) {
            Some(b) => b,
            None => return Err(HardwareKeyError::DerivationFailed("salt".to_string())),
        };
        let output = match argon2id_hash(
            passphrase,
            salt_bytes.as_slice(),
            ARGON2_MEMORY_KIB,
            ARGON2_ITERATIONS,
            ARGON2_PARALLELISM,
            ARGON2_OUTPUT_LEN,
        ) {
            Some(o) => o,
            None => return Err(HardwareKeyError::DerivationFailed("argon2".to_string())),
        };
        let material = SecureKeyMaterial::new(output, true);
        Ok(RootSecret { source: RootSecretSource::Argon2id, material })
    }

    /// Whether the passphrase unlocks this root secret: the secret comes
    /// from Argon2id, the stored salt parses, and the Argon2id root of the
    /// passphrase under that salt is the secret's material (compared in
    /// constant time).
    pub fn verify_passphrase(&self, passphrase: &[u8], stored_salt: &str) -> (r: bool)
        ensures
            r == (self.source_view() == RootSecretSource::Argon2id && salt_string_valid(stored_salt@)
                && argon2_accepts(
                passphrase@.len(),
                stored_salt.spec_bytes().len(),
                ARGON2_MEMORY_KIB,
                ARGON2_ITERATIONS,
                ARGON2_PARALLELISM,
                ARGON2_OUTPUT_LEN as nat,
            ) && root_of(passphrase@, stored_salt.spec_bytes()) == self.material_view()),
    {
        if self.source != RootSecretSource::Argon2id {
            return false;
        }
        let salt = match salt_string_from_b64(stored_salt) {
            Some(s) => s,
            None => return false,
        };
        let out = argon2id_hash(
            passphrase,
            salt.as_slice(),
            ARGON2_MEMORY_KIB,
            ARGON2_ITERATIONS,
            ARGON2_PARALLELISM,
            ARGON2_OUTPUT_LEN,
        );
        match out {
            Some(h) => ct_eq(h.as_slice(), self.material.bytes()),
            None => false,
        }
    }

    pub fn as_bytes(&self) -> (r: &[u8])
        ensures
            r@ == self.material_view(),
    {
        self.material.bytes()
    }

    /// Where the secret came from.
    pub fn source(&self) -> (r: RootSecretSource)
        ensures
            r == self.source_view(),
    {
        self.source
    }
}

/// The identity root key.
#[derive(Debug)]
pub struct IdentityRootKey {
    pub key: SecureKeyMaterial,
}

/// The purpose-bound session keys.
#[derive(Debug)]
pub struct SessionKeys {
    pub ratchet_root: SecureKeyMaterial,
    pub cbnp_cover: SecureKeyMaterial,
    pub sealed_sender: SecureKeyMaterial,
    pub delivery_token: SecureKeyMaterial,
    pub auth_hmac: SecureKeyMaterial,
}

/// The session keys of an identity root, each marked for page locking.
pub open spec fn session_keys_of(identity: Seq<u8>, k: SessionKeys) -> bool {
    &&& k.ratchet_root.bytes_view() == session_key_of(identity, "add-double-ratchet-v1".spec_bytes())
    &&& k.cbnp_cover.bytes_view() == session_key_of(identity, "add-cbnp-cover-v1".spec_bytes())
    &&& k.sealed_sender.bytes_view() == session_key_of(identity, "add-sealed-sender-v1".spec_bytes())
    &&& k.delivery_token.bytes_view() == session_key_of(identity, "add-delivery-token-v1".spec_bytes())
    &&& k.auth_hmac.bytes_view() == session_key_of(identity, "add-auth-hmac-v1".spec_bytes())
    &&& k.ratchet_root.bytes_view().len() == 32 && k.cbnp_cover.bytes_view().len() == 32
    &&& k.sealed_sender.bytes_view().len() == 32 && k.delivery_token.bytes_view().len() == 32
    &&& k.auth_hmac.bytes_view().len() == 32
}

fn session_key(identity: &[u8], info: &[u8]) -> (r: Result<SecureKeyMaterial, HardwareKeyError>)
    ensures
        r matches Ok(k) && k.bytes_view() == hkdf_sha512(None, identity@, info@, 32) && k.bytes_view().len()
            == 32,
{
    match hkdf_sha512_expand(None, identity, info, 32) {
        Some(out) => Ok(SecureKeyMaterial::new(out, true)),
        None => Err(HardwareKeyError::DerivationFailed("hkdf expand".to_string())),
    }
}

impl IdentityRootKey {
    pub open spec fn key_view(self) -> Seq<u8> {
        self.key.bytes_view()
    }

    /// The identity root of a root secret.
    pub fn derive(root_secret: &RootSecret) -> (r: Result<Self, HardwareKeyError>)
        ensures
            r matches Ok(k) && k.key_view() == identity_of(root_secret.material_view()),
    {
        match hkdf_sha512_expand(None, root_secret.as_bytes(), "add-identity-root-v1".as_bytes(), 64) {
            Some(out) => Ok(IdentityRootKey { key: SecureKeyMaterial::new(out, true) }),
            None => Err(HardwareKeyError::DerivationFailed("hkdf expand".to_string())),
        }
    }

    /// The five session keys.
    pub fn derive_session_keys(&self) -> (r: Result<SessionKeys, HardwareKeyError>)
        ensures
            r matches Ok(k) && session_keys_of(self.key_view(), k),
    {
        let id = self.key.bytes();
        let ratchet_root = match session_key(id, "add-double-ratchet-v1".as_bytes()) {
            Ok(k) => k,
            Err(e) => return Err(e),
        };
        let cbnp_cover = match session_key(id, "add-cbnp-cover-v1".as_bytes()) {
            Ok(k) => k,
            Err(e) => return Err(e),
        };
        let sealed_sender = match session_key(id, "add-sealed-sender-v1".as_bytes()) {
            Ok(k) => k,
            Err(e) => return Err(e),
        };
        let delivery_token = match session_key(id, "add-delivery-token-v1".as_bytes()) {
            Ok(k) => k,
            Err(e) => return Err(e),
        };
        let auth_hmac = match session_key(id, "add-auth-hmac-v1".as_bytes()) {
            Ok(k) => k,
            Err(e) => return Err(e),
        };
        Ok(SessionKeys { ratchet_root, cbnp_cover, sealed_sender, delivery_token, auth_hmac })
    }
}

/// The key hierarchy of one user.
pub struct HardwareKeyManager {
    root_secret: RootSecret,
    identity_root: IdentityRootKey,
}

impl HardwareKeyManager {
    /// The identity root is the one of the root secret.
    pub closed spec fn wf(self) -> bool {
        self.identity_root.key_view() == identity_of(self.root_secret.material_view())
    }

    pub closed spec fn root_view(self) -> RootSecret {
        self.root_secret
    }

    pub closed spec fn identity_view(self) -> Seq<u8> {
        self.identity_root.key_view()
    }

    /// The hierarchy of a passphrase (under a fresh random salt).
    pub fn new_from_passphrase(passphrase: &[u8]) -> (r: Result<Self, HardwareKeyError>)
        ensures
            passphrase@.len() <= 0xFFFFFFFF <==> r is Ok,
            r matches Ok(m) ==> m.wf() && m.root_view().source_view() == RootSecretSource::Argon2id
                && exists|salt: Seq<u8>| salt.len() == 22 && m.root_view().material_view() == #[trigger] root_of(passphrase@, salt),
            r matches Err(e) ==> e matches HardwareKeyError::DerivationFailed(_),
    {
        let root_secret = match RootSecret::from_passphrase(passphrase) {
            Ok(r) => r,
            Err(e) => return Err(e),
        };
        let identity_root = match IdentityRootKey::derive(&root_secret) {
            Ok(i) => i,
            Err(e) => return Err(e),
        };
        Ok(HardwareKeyManager { root_secret, identity_root })
    }

    /// The hierarchy of a hardware security module: not available.
    pub fn new_from_hsm() -> (r: Result<Self, HardwareKeyError>)
        ensures
            r matches Err(HardwareKeyError::HsmUnavailable(_)),
    {
        let root_secret = match RootSecret::from_hsm() {
            Ok(r) => r,
            Err(e) => return Err(e),
        };
        let identity_root = match IdentityRootKey::derive(&root_secret) {
            Ok(i) => i,
            Err(e) => return Err(e),
        };
        Ok(HardwareKeyManager { root_secret, identity_root })
    }

    /// Where the root secret came from.
    pub fn root_source(&self) -> (r: RootSecretSource)
        ensures
            r == self.root_view().source_view(),
    {
        self.root_secret.source()
    }

    /// The session keys of the identity root.
    pub fn session_keys(&self) -> (r: Result<SessionKeys, HardwareKeyError>)
        ensures
            r matches Ok(k) && session_keys_of(self.identity_view(), k),
    {
        self.identity_root.derive_session_keys()
    }

    /// The ML-KEM-1024 key pair whose seed is derived from the ratchet root
    /// session key.
    pub fn generate_mlkem_keypair(&self) -> (r: Result<MlKem1024Keypair, HardwareKeyError>)
        ensures
            r matches Ok(kp) && kp.wf() && kp.dec@ == hkdf_sha512(
                None,
                session_key_of(self.identity_view(), "add-double-ratchet-v1".spec_bytes()),
                "add-mlkem-seed-v1".spec_bytes(),
                64,
            ),
    {
        let session_keys = match self.session_keys() {
            Ok(k) => k,
            Err(e) => return Err(e),
        };
        let seed = match hkdf_sha512_expand(None, session_keys.ratchet_root.bytes(), "add-mlkem-seed-v1".as_bytes(), 64) {
            Some(s) => s,
            None => return Err(HardwareKeyError::DerivationFailed("hkdf expand".to_string())),
        };
        let mut arr = [0u8; 64];
        for i in 0..64
            invariant
                seed@.len() == 64,
                forall|j: int| 0 <= j < i ==> arr@[j] == seed@[j],
        {
            arr[i] = seed[i];
        }
        assert(arr@ =~= seed@);
        match MlKem1024Keypair::from_seed(&arr) {
            Ok(kp) => Ok(kp),
            Err(e) => Err(HardwareKeyError::Crypto(e)),
        }
    }

    /// The authentication HMAC key.
    pub fn auth_hmac_key(&self) -> (r: Result<SecureKeyMaterial, HardwareKeyError>)
        ensures
            r matches Ok(k) && k.bytes_view() == session_key_of(self.identity_view(), "add-auth-hmac-v1".spec_bytes()),
    {
        match self.session_keys() {
            Ok(k) => Ok(k.auth_hmac.clone()),
            Err(e) => Err(e),
        }
    }

    /// The delivery-token key.
    pub fn delivery_token_key(&self) -> (r: Result<SecureKeyMaterial, HardwareKeyError>)
        ensures
            r matches Ok(k) && k.bytes_view() == session_key_of(
                self.identity_view(),
                "add-delivery-token-v1".spec_bytes(),
            ),
    {
        match self.session_keys() {
            Ok(k) => Ok(k.delivery_token.clone()),
            Err(e) => Err(e),
        }
    }

    /// The sealed-sender key.
    pub fn sealed_sender_key(&self) -> (r: Result<SecureKeyMaterial, HardwareKeyError>)
        ensures
            r matches Ok(k) && k.bytes_view() == session_key_of(
                self.identity_view(),
                "add-sealed-sender-v1".spec_bytes(),
            ),
    {
        match self.session_keys() {
            Ok(k) => Ok(k.sealed_sender.clone()),
            Err(e) => Err(e),
        }
    }

    /// The cover-traffic key.
    pub fn cbnp_cover_key(&self) -> (r: Result<SecureKeyMaterial, HardwareKeyError>)
        ensures
            r matches Ok(k) && k.bytes_view() == session_key_of(self.identity_view(), "add-cbnp-cover-v1".spec_bytes()),
    {
        match self.session_keys() {
            Ok(k) => Ok(k.cbnp_cover.clone()),
            Err(e) => Err(e),
        }
    }

    /// Mutable access to the root and identity key material, for the
    /// platform layer that locks and unlocks their pages.
    pub fn key_material_mut(&mut self) -> (r: (&mut [u8], &mut [u8]))
        ensures
            r.0@ == old(self).root_view().material_view(),
            r.1@ == old(self).identity_view(),
    {
        (self.root_secret.material.key_material_mut(), self.identity_root.key.key_material_mut())
    }
}

/// The same root secret always gives the same identity root and the same
/// session keys: the hierarchy is a function of the root.
pub proof fn law_hierarchy_deterministic(m1: HardwareKeyManager, m2: HardwareKeyManager)
    requires
        m1.wf(),
        m2.wf(),
        m1.root_view().material_view() == m2.root_view().material_view(),
    ensures
        m1.identity_view() == m2.identity_view(),
{
}

} // verus!
