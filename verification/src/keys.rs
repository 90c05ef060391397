//! Post-quantum identity keys: ML-DSA-87 signing key pairs (kept as their
//! 32-byte seeds), signatures, and the ML-KEM-1024 key pair that goes with
//! them.
use vstd::prelude::*;
use vstd::slice::slice_to_vec;
use crate::codec::to_array32;
use crate::error::PqError;
use crate::kyber::{MlKem1024DecapsulationKey, MlKem1024EncapsulationKey, MlKem1024Keypair};
use crate::primitives::{
    base64_encode, base64_std_encode, mldsa87_sign, mldsa87_signature, mldsa87_valid, mldsa87_verify,
    mldsa87_verifying_key_of, mldsa87_vk, mlkem1024_ek_of_seed, random_bytes, sha256, sha256_digest,
};

verus! {

/// Size of an encoded ML-DSA-87 verifying key.
pub const MLDSA87_VK_SIZE: usize = 2592;
/// Size of an encoded ML-DSA-87 signature.
pub const MLDSA87_SIG_SIZE: usize = 4627;

/// An ML-DSA-87 signing key, held as its 32-byte seed.
#[derive(Clone, Copy)]
pub struct MlDsa87SigningKey {
    seed: [u8; 32],
}

impl View for MlDsa87SigningKey {
    type V = Seq<u8>;

    closed spec fn view(&self) -> Seq<u8> {
        self.seed@
    }
}

/// An encoded ML-DSA-87 verifying key (2592 bytes).
pub struct MlDsa87VerifyingKey {
    bytes: Vec<u8>,
}

impl View for MlDsa87VerifyingKey {
    type V = Seq<u8>;

    closed spec fn view(&self) -> Seq<u8> {
        self.bytes@
    }
}

impl Clone for MlDsa87VerifyingKey {
    fn clone(&self) -> (r: Self)
        ensures
            r@ == self@,
    {
        proof {
            use_type_invariant(self);
        }
        MlDsa87VerifyingKey { bytes: slice_to_vec(self.bytes.as_slice()) }
    }
}

impl MlDsa87VerifyingKey {
    #[verifier::type_invariant]
    spec fn inv(self) -> bool {
        self.bytes@.len() == MLDSA87_VK_SIZE
    }

    /// The encoded key.
    pub fn to_bytes(&self) -> (r: Vec<u8>)
        ensures
            r@ == self@,
            r@.len() == MLDSA87_VK_SIZE,
    {
        proof {
            use_type_invariant(self);
        }
        slice_to_vec(self.bytes.as_slice())
    }
}

/// An encoded ML-DSA-87 signature (4627 bytes).
pub struct MlDsa87Signature {
    bytes: Vec<u8>,
}

impl View for MlDsa87Signature {
    type V = Seq<u8>;

    closed spec fn view(&self) -> Seq<u8> {
        self.bytes@
    }
}

impl MlDsa87Signature {
    #[verifier::type_invariant]
    spec fn inv(self) -> bool {
        self.bytes@.len() == MLDSA87_SIG_SIZE
    }

    /// The encoded signature.
    pub fn to_bytes(&self) -> (r: Vec<u8>)
        ensures
            r@ == self@,
            r@.len() == MLDSA87_SIG_SIZE,
    {
        proof {
            use_type_invariant(self);
        }
        slice_to_vec(self.bytes.as_slice())
    }
}

/// An ML-DSA-87 key pair.
pub struct MlDsa87KeyPair {
    sk: MlDsa87SigningKey,
    vk: MlDsa87VerifyingKey,
}

impl MlDsa87KeyPair {
    /// The key pair's seed.
    pub closed spec fn seed(&self) -> Seq<u8> {
        self.sk@
    }

    /// The key pair's verifying key.
    pub closed spec fn vk(&self) -> Seq<u8> {
        self.vk@
    }

    /// The key pair of a 32-byte seed.
    pub fn from_seed(seed: &[u8; 32]) -> (r: Result<Self, PqError>)
        ensures
            r matches Ok(kp) && kp.seed() == seed@ && kp.vk() == mldsa87_vk(seed@),
    {
        let vk = mldsa87_verifying_key_of(seed);
        Ok(MlDsa87KeyPair { sk: MlDsa87SigningKey { seed: *seed }, vk: MlDsa87VerifyingKey { bytes: vk } })
    }

    /// A key pair from a fresh random seed.
    pub fn generate() -> (r: Result<Self, PqError>)
        ensures
            r matches Ok(kp) && kp.seed().len() == 32 && kp.vk() == mldsa87_vk(kp.seed()),
    {
        let seed = to_array32(random_bytes(32).as_slice());
        MlDsa87KeyPair::from_seed(&seed)
    }

    /// The signing key.
    pub fn signing_key(&self) -> (r: MlDsa87SigningKey)
        ensures
            r@ == self.seed(),
    {
        self.sk
    }

    /// The verifying key.
    pub fn verifying_key(&self) -> (r: MlDsa87VerifyingKey)
        ensures
            r@ == self.vk(),
    {
        self.vk.clone()
    }

    /// The seed, for storage.
    pub fn to_seed(&self) -> (r: [u8; 32])
        ensures
            r@ == self.seed(),
    {
        self.sk.seed
    }

    /// The seed and the encoded verifying key.
    pub fn to_bytes(&self) -> (r: ([u8; 32], Vec<u8>))
        ensures
            r.0@ == self.seed(),
            r.1@ == self.vk(),
    {
        (self.sk.seed, self.vk.to_bytes())
    }
}

/// Sign `data` (deterministic ML-DSA-87, empty context).
pub fn sign(data: &[u8], sk: &MlDsa87SigningKey) -> (r: Result<MlDsa87Signature, PqError>)
    ensures
        r matches Ok(s) && s@ == mldsa87_signature(sk@, data@),
{
    let sig = mldsa87_sign(&sk.seed, data);
    Ok(MlDsa87Signature { bytes: sig })
}

/// Whether `sig` is a valid signature of `data` under `vk`.
pub fn verify(data: &[u8], sig: &MlDsa87Signature, vk: &MlDsa87VerifyingKey) -> (r: Result<bool, PqError>)
    ensures
        r == Ok::<bool, PqError>(mldsa87_valid(vk@, data@, sig@)),
{
    proof {
        use_type_invariant(sig);
        use_type_invariant(vk);
    }
    Ok(mldsa87_verify(vk.bytes.as_slice(), data, sig.bytes.as_slice()))
}

/// Sign `data` with an ML-DSA-87 signing key.
pub fn sign_ml_dsa87(data: &[u8], sk: &MlDsa87SigningKey) -> (r: Result<MlDsa87Signature, PqError>)
    ensures
        r matches Ok(s) && s@ == mldsa87_signature(sk@, data@),
{
    sign(data, sk)
}

/// A verifying key from its 2592-byte encoding.
pub fn decode_verifying_key(bytes: &[u8]) -> (r: Result<MlDsa87VerifyingKey, PqError>)
    ensures
        bytes@.len() == MLDSA87_VK_SIZE ==> (r matches Ok(k) && k@ == bytes@),
        bytes@.len() != MLDSA87_VK_SIZE ==> r matches Err(PqError::DecodingError(_)),
{
    if bytes.len() != MLDSA87_VK_SIZE {
        return Err(PqError::DecodingError("Invalid ML-DSA-87 encoded verifying key".to_string()));
    }
    Ok(MlDsa87VerifyingKey { bytes: slice_to_vec(bytes) })
}

/// A fresh ML-DSA-87 signing and verifying key.
pub fn generate_keypair() -> (r: Result<(MlDsa87SigningKey, MlDsa87VerifyingKey), PqError>)
    ensures
        r matches Ok((sk, vk)) && vk@ == mldsa87_vk(sk@),
{
    let kp = match MlDsa87KeyPair::generate() {
        Ok(k) => k,
        Err(e) => return Err(e),
    };
    Ok((kp.signing_key(), kp.verifying_key()))
}

/// The fingerprint of a verifying key: base64 of the first 8 bytes of its
/// SHA-256.
pub fn fingerprint_from_verifying_key(vk: &MlDsa87VerifyingKey) -> (r: String)
    ensures
        r@ == base64_std_encode(sha256(vk@).subrange(0, 8)),
{
    let bytes = vk.to_bytes();
    let hash = sha256_digest(bytes.as_slice());
    let first8 = &hash.as_slice()[0..8];
    assert(first8@ =~= hash@.subrange(0, 8));
    base64_encode(first8)
}

/// An ML-KEM-1024 key pair.
pub struct MlKem1024KeyPair {
    sk: MlKem1024DecapsulationKey,
    pk: MlKem1024EncapsulationKey,
}

impl MlKem1024KeyPair {
    /// The decapsulation seed.
    pub closed spec fn dec(&self) -> Seq<u8> {
        self.sk@
    }

    /// The encapsulation key.
    pub closed spec fn enc(&self) -> Seq<u8> {
        self.pk@
    }

    /// A fresh key pair.
    pub fn generate() -> (r: Result<Self, PqError>)
        ensures
            r matches Ok(kp) && kp.enc() == mlkem1024_ek_of_seed(kp.dec()) && kp.dec().len() == 64,
    {
        match MlKem1024Keypair::generate() {
            Ok(kp) => Ok(MlKem1024KeyPair { sk: kp.dec, pk: kp.enc }),
            Err(_) => Err(PqError::KeyGenerationFailed("ML-KEM-1024".to_string())),
        }
    }

    /// The encapsulation (public) key.
    pub fn public_key(&self) -> (r: &MlKem1024EncapsulationKey)
        ensures
            r@ == self.enc(),
    {
        &self.pk
    }

    /// The decapsulation (secret) key.
    pub fn secret_key(&self) -> (r: &MlKem1024DecapsulationKey)
        ensures
            r@ == self.dec(),
    {
        &self.sk
    }

    /// The secret seed and the encoded public key.
    pub fn to_bytes(&self) -> (r: (Vec<u8>, Vec<u8>))
        ensures
            r.0@ == self.dec(),
            r.1@ == self.enc(),
    {
        (self.sk.to_bytes(), self.pk.to_bytes())
    }
}

/// A signing key pair with its key-exchange key pair.
pub struct PqKeyPair {
    pub ml_dsa87: MlDsa87KeyPair,
    pub ml_kem1024: MlKem1024KeyPair,
}

impl PqKeyPair {
    /// Fresh signing and key-exchange key pairs.
    pub fn generate() -> (r: Result<Self, PqError>)
        ensures
            r matches Ok(kp) && kp.ml_dsa87.vk() == mldsa87_vk(kp.ml_dsa87.seed()),
    {
        let ml_dsa87 = match MlDsa87KeyPair::generate() {
            Ok(k) => k,
            Err(e) => return Err(e),
        };
        let ml_kem1024 = match MlKem1024KeyPair::generate() {
            Ok(k) => k,
            Err(e) => return Err(e),
        };
        Ok(PqKeyPair { ml_dsa87, ml_kem1024 })
    }
}

} // verus!
