//! The hybrid X25519 + ML-KEM-768 KEM: sizes, the ciphertext wire format and
//! the SHA3-256 combiner of the two shared secrets.
use vstd::prelude::*;
use vstd::slice::slice_to_vec;
use vstd::string::StringSliceAdditionalSpecFns;
use crate::codec::{to_array32, to_array64, to_array96};
use crate::error::PqError;
use crate::primitives::{
    hex_encode, hex_lower, mlkem768_check_ek, mlkem768_decaps, mlkem768_decapsulate, mlkem768_ek_from_seed,
    mlkem768_ek_of_seed, mlkem768_ek_valid, mlkem768_encaps, mlkem768_encapsulate_with, random_bytes, sha3_256,
    sha3_256_digest, x25519_diffie_hellman, x25519_public, x25519_public_from_rng_seed, x25519_public_of,
    x25519_seeded_public, x25519_shared, base64_decode, base64_encode, base64_std_decode, base64_std_encode,
};

verus! {

pub const X25519_PK_SIZE: usize = 32;
pub const X25519_CT_SIZE: usize = 32;
pub const MLKEM768_PK_SIZE: usize = 1184;
pub const MLKEM768_CT_SIZE: usize = 1088;
/// X25519 public key followed by an ML-KEM-768 encapsulation key.
pub const COMBINED_PK_SIZE: usize = 1216;
/// X25519 ephemeral key followed by an ML-KEM-768 ciphertext.
pub const COMBINED_CT_SIZE: usize = 1120;
pub const HYBRID_SS_SIZE: usize = 32;

/// Domain tag of the secret combiner.
pub open spec fn hybrid_domain_tag() -> Seq<u8> {
    "add-hybrid-kem-v1".spec_bytes()
}

/// A hybrid ciphertext: the X25519 ephemeral key and the ML-KEM ciphertext.
#[derive(Clone)]
pub struct HybridCiphertext {
    pub x25519_ct: [u8; 32],
    pub mlkem_ct: Vec<u8>,
}

impl HybridCiphertext {
    /// The 1120-byte wire form: X25519 part, then ML-KEM part.
    pub fn to_bytes(&self) -> (r: Vec<u8>)
        requires
            self.mlkem_ct@.len() == MLKEM768_CT_SIZE,
        ensures
            r@ == self.x25519_ct@ + self.mlkem_ct@,
            r@.len() == COMBINED_CT_SIZE,
    {
        let mut r = slice_to_vec(self.x25519_ct.as_slice());
        let mut m = self.mlkem_ct.clone();
        r.append(&mut m);
        r
    }

    /// Parse the wire form; anything but 1120 bytes is refused.
    pub fn from_bytes(bytes: &[u8]) -> (r: Result<Self, PqError>)
        ensures
            bytes@.len() == COMBINED_CT_SIZE ==> (r matches Ok(c) && c.x25519_ct@ == bytes@.subrange(0, 32)
                && c.mlkem_ct@ == bytes@.subrange(32, bytes@.len() as int)),
            bytes@.len() != COMBINED_CT_SIZE ==> r == Err::<Self, PqError>(
                PqError::InvalidKeyLength { expected: COMBINED_CT_SIZE, got: bytes@.len() as usize },
            ),
    {
        if bytes.len() != COMBINED_CT_SIZE {
            return Err(PqError::InvalidKeyLength { expected: COMBINED_CT_SIZE, got: bytes.len() });
        }
        let mut x = [0u8; 32];
        for i in 0..32
            invariant
                bytes@.len() == COMBINED_CT_SIZE,
                forall|j: int| 0 <= j < i ==> x@[j] == bytes@[j],
        {
            x[i] = bytes[i];
        }
        assert(x@ =~= bytes@.subrange(0, 32));
        Ok(HybridCiphertext { x25519_ct: x, mlkem_ct: slice_to_vec(&bytes[32..bytes.len()]) })
    }
}

/// The wire form of a hybrid ciphertext parses back to the same ciphertext,
/// and every 1120-byte string is the wire form of what it parses to.
pub proof fn law_hybrid_ct_wire_roundtrip(x: Seq<u8>, m: Seq<u8>, wire: Seq<u8>)
    requires
        x.len() == 32,
        m.len() == MLKEM768_CT_SIZE,
        wire.len() == COMBINED_CT_SIZE,
    ensures
        (x + m).subrange(0, 32) == x,
        (x + m).subrange(32, (x + m).len() as int) == m,
        wire.subrange(0, 32) + wire.subrange(32, wire.len() as int) == wire,
{
    assert((x + m).subrange(0, 32) =~= x);
    assert((x + m).subrange(32, (x + m).len() as int) =~= m);
    assert(wire.subrange(0, 32) + wire.subrange(32, wire.len() as int) =~= wire);
}

/// A 32-byte hybrid shared secret.
#[derive(Clone)]
pub struct HybridSharedSecret {
    secret: [u8; 32],
}

impl View for HybridSharedSecret {
    type V = Seq<u8>;

    closed spec fn view(&self) -> Seq<u8> {
        self.secret@
    }
}

impl HybridSharedSecret {
    /// The secret bytes.
    pub fn as_bytes(&self) -> (r: &[u8; 32])
        ensures
            r@ == self@,
    {
        &self.secret
    }

    /// The secret in lower-case hex.
    pub fn to_hex(&self) -> (r: String)
        ensures
            r@ == hex_lower(self@),
    {
        hex_encode(self.secret.as_slice())
    }

    /// A secret from its 32 bytes.
    pub fn from_array(bytes: [u8; 32]) -> (r: Self)
        ensures
            r@ == bytes@,
    {
        HybridSharedSecret { secret: bytes }
    }

    /// A secret from exactly 32 bytes.
    pub fn from_bytes(bytes: &[u8]) -> (r: Result<Self, PqError>)
        ensures
            bytes@.len() == HYBRID_SS_SIZE ==> (r matches Ok(s) && s@ == bytes@),
            bytes@.len() != HYBRID_SS_SIZE ==> r == Err::<Self, PqError>(
                PqError::InvalidKeyLength { expected: HYBRID_SS_SIZE, got: bytes@.len() as usize },
            ),
    {
        if bytes.len() != HYBRID_SS_SIZE {
            return Err(PqError::InvalidKeyLength { expected: HYBRID_SS_SIZE, got: bytes.len() });
        }
        let mut secret = [0u8; 32];
        for i in 0..32
            invariant
                bytes@.len() == 32,
                forall|j: int| 0 <= j < i ==> secret@[j] == bytes@[j],
        {
            secret[i] = bytes[i];
        }
        assert(secret@ =~= bytes@);
        Ok(HybridSharedSecret { secret })
    }
}

/// The combined secret: SHA3-256 over the domain tag, both shared secrets,
/// the X25519 ciphertext and the X25519 public key.
pub open spec fn combined_secret(ss_x25519: Seq<u8>, ss_mlkem: Seq<u8>, ct_x25519: Seq<u8>, pk_x25519: Seq<u8>) -> Seq<u8> {
    sha3_256(hybrid_domain_tag() + ss_x25519 + ss_mlkem + ct_x25519 + pk_x25519)
}

/// The hybrid secret binds everything it combines: it is the SHA3-256 of
/// an input that holds, after the domain tag, the X25519 secret, the ML-KEM
/// secret, the X25519 ciphertext and the X25519 public key, each at its own
/// place.  So two ML-KEM secrets that differ give hash inputs that differ.
pub proof fn law_combined_secret_binds_both(sx: Seq<u8>, sm: Seq<u8>, c: Seq<u8>, p: Seq<u8>, sm2: Seq<u8>)
    requires
        sx.len() == 32,
        sm.len() == 32,
        c.len() == 32,
        p.len() == 32,
        sm2.len() == 32,
    ensures
        ({
            let t = hybrid_domain_tag().len() as int;
            exists|inp: Seq<u8>|
                #![trigger sha3_256(inp)]
                combined_secret(sx, sm, c, p) == sha3_256(inp) && inp.len() == t + 128 && inp.subrange(0, t)
                    == hybrid_domain_tag() && inp.subrange(t, t + 32) == sx && inp.subrange(t + 32, t + 64) == sm
                    && inp.subrange(t + 64, t + 96) == c && inp.subrange(t + 96, t + 128) == p
        }),
        sm != sm2 ==> exists|i1: Seq<u8>, i2: Seq<u8>|
            #![trigger sha3_256(i1), sha3_256(i2)]
            combined_secret(sx, sm, c, p) == sha3_256(i1) && combined_secret(sx, sm2, c, p) == sha3_256(i2) && i1
                != i2,
{
    let tag = hybrid_domain_tag();
    let t = tag.len() as int;
    let inp = tag + sx + sm + c + p;
    assert(inp.subrange(0, t) =~= tag);
    assert(inp.subrange(t, t + 32) =~= sx);
    assert(inp.subrange(t + 32, t + 64) =~= sm);
    assert(inp.subrange(t + 64, t + 96) =~= c);
    assert(inp.subrange(t + 96, t + 128) =~= p);
    assert(combined_secret(sx, sm, c, p) == sha3_256(inp));
    let inp2 = tag + sx + sm2 + c + p;
    assert(combined_secret(sx, sm2, c, p) == sha3_256(inp2));
    if sm != sm2 {
        assert(inp2.subrange(t + 32, t + 64) =~= sm2);
        assert(inp != inp2);
    }
}

/// Combine the X25519 and ML-KEM shared secrets, bound to the X25519
/// ciphertext and public key.
pub fn combine_shared_secrets(ss_x25519: &[u8; 32], ss_mlkem: &[u8], ct_x25519: &[u8; 32], pk_x25519: &[u8; 32]) -> (r: HybridSharedSecret)
    ensures
        r@ == combined_secret(ss_x25519@, ss_mlkem@, ct_x25519@, pk_x25519@),
{
    let mut input = slice_to_vec("add-hybrid-kem-v1".as_bytes());
    let mut a = slice_to_vec(ss_x25519.as_slice());
    let mut b = slice_to_vec(ss_mlkem);
    let mut c = slice_to_vec(ct_x25519.as_slice());
    let mut d = slice_to_vec(pk_x25519.as_slice());
    input.append(&mut a);
    input.append(&mut b);
    input.append(&mut c);
    input.append(&mut d);
    let digest = sha3_256_digest(input.as_slice());
    match HybridSharedSecret::from_bytes(digest.as_slice()) {
        Ok(s) => s,
        Err(_) => HybridSharedSecret { secret: [0u8; 32] },
    }
}

/// An ML-KEM-768 encapsulation key: 1184 bytes that decode to a key.
pub struct MlKem768EncapsulationKey {
    bytes: Vec<u8>,
}

impl View for MlKem768EncapsulationKey {
    type V = Seq<u8>;

    closed spec fn view(&self) -> Seq<u8> {
        self.bytes@
    }
}

impl Clone for MlKem768EncapsulationKey {
    fn clone(&self) -> (r: Self)
        ensures
            r@ == self@,
    {
        proof {
            use_type_invariant(self);
        }
        MlKem768EncapsulationKey { bytes: slice_to_vec(self.bytes.as_slice()) }
    }
}

impl MlKem768EncapsulationKey {
    #[verifier::type_invariant]
    spec fn inv(self) -> bool {
        self.bytes@.len() == MLKEM768_PK_SIZE && mlkem768_ek_valid(self.bytes@)
    }

    /// Parse an encoded key; `None` unless it is 1184 bytes that decode.
    pub fn from_slice(bytes: &[u8]) -> (r: Option<Self>)
        ensures
            r is Some <==> bytes@.len() == MLKEM768_PK_SIZE && mlkem768_ek_valid(bytes@),
            r matches Some(k) ==> k@ == bytes@,
    {
        if bytes.len() != MLKEM768_PK_SIZE {
            return None;
        }
        if !mlkem768_check_ek(bytes) {
            return None;
        }
        Some(MlKem768EncapsulationKey { bytes: slice_to_vec(bytes) })
    }

    /// The all-zero key (which decodes).
    pub fn zero_key() -> (k: Self)
        ensures
            k@ == Seq::new(1184, |i: int| 0u8),
    {
        let z: Vec<u8> = vec![0u8; 1184];
        assert(z@ =~= Seq::new(1184, |i: int| 0u8));
        let ok = mlkem768_check_ek(z.as_slice());
        MlKem768EncapsulationKey { bytes: z }
    }

    /// The encoded key.
    pub fn to_bytes(&self) -> (r: Vec<u8>)
        ensures
            r@ == self@,
            r@.len() == MLKEM768_PK_SIZE,
            mlkem768_ek_valid(r@),
    {
        proof {
            use_type_invariant(self);
        }
        slice_to_vec(self.bytes.as_slice())
    }
}

/// An ML-KEM-768 decapsulation key, kept as its 64-byte seed.
pub struct MlKem768DecapsulationKey {
    seed: Vec<u8>,
}

impl View for MlKem768DecapsulationKey {
    type V = Seq<u8>;

    closed spec fn view(&self) -> Seq<u8> {
        self.seed@
    }
}

impl Clone for MlKem768DecapsulationKey {
    fn clone(&self) -> (r: Self)
        ensures
            r@ == self@,
    {
        proof {
            use_type_invariant(self);
        }
        MlKem768DecapsulationKey { seed: slice_to_vec(self.seed.as_slice()) }
    }
}

impl MlKem768DecapsulationKey {
    #[verifier::type_invariant]
    spec fn inv(self) -> bool {
        self.seed@.len() == 64
    }

    /// The key of a 64-byte seed.
    pub fn from_seed(seed: &[u8; 64]) -> (r: Self)
        ensures
            r@ == seed@,
    {
        MlKem768DecapsulationKey { seed: slice_to_vec(seed.as_slice()) }
    }

    /// The seed.
    pub fn to_bytes(&self) -> (r: Vec<u8>)
        ensures
            r@ == self@,
            r@.len() == 64,
    {
        proof {
            use_type_invariant(self);
        }
        slice_to_vec(self.seed.as_slice())
    }

    /// The matching encapsulation key.
    pub fn encapsulation_key(&self) -> (r: MlKem768EncapsulationKey)
        ensures
            r@ == mlkem768_ek_of_seed(self@),
    {
        proof {
            use_type_invariant(self);
        }
        MlKem768EncapsulationKey { bytes: mlkem768_ek_from_seed(self.seed.as_slice()) }
    }

    /// Decapsulate a 1088-byte ciphertext.
    pub fn decapsulate(&self, ct: &[u8]) -> (ss: Vec<u8>)
        requires
            ct@.len() == MLKEM768_CT_SIZE,
        ensures
            ss@ == mlkem768_decaps(self@, ct@),
            ss@.len() == 32,
    {
        proof {
            use_type_invariant(self);
        }
        mlkem768_decapsulate(self.seed.as_slice(), ct)
    }
}

/// Encapsulate to an ML-KEM-768 key with the 32-byte message `m`.
pub fn mlkem768_encapsulate_to(key: &MlKem768EncapsulationKey, m: &[u8]) -> (out: (Vec<u8>, Vec<u8>))
    requires
        m@.len() == 32,
    ensures
        (out.0@, out.1@) == mlkem768_encaps(key@, m@),
        out.0@.len() == MLKEM768_CT_SIZE,
        out.1@.len() == 32,
{
    let ek = key.to_bytes();
    mlkem768_encapsulate_with(ek.as_slice(), m)
}

/// A hybrid key pair: X25519 secret and public key, ML-KEM-768
/// decapsulation and encapsulation keys.
#[derive(Clone)]
pub struct HybridKeypair {
    x25519_secret: [u8; 32],
    x25519_public: [u8; 32],
    mlkem_dec: MlKem768DecapsulationKey,
    mlkem_enc: MlKem768EncapsulationKey,
}

impl HybridKeypair {
    /// The X25519 secret.
    pub closed spec fn secret(&self) -> Seq<u8> {
        self.x25519_secret@
    }

    /// The X25519 public key.
    pub closed spec fn public(&self) -> Seq<u8> {
        self.x25519_public@
    }

    /// The ML-KEM decapsulation seed.
    pub closed spec fn dec_seed(&self) -> Seq<u8> {
        self.mlkem_dec@
    }

    /// The ML-KEM encapsulation key.
    pub closed spec fn enc(&self) -> Seq<u8> {
        self.mlkem_enc@
    }

    /// The key pair drawn from 32 random bytes for X25519 and a 64-byte
    /// ML-KEM seed: the X25519 secret is the public key of the random
    /// bytes, and the public key is that of the secret.
    pub fn from_random(x25519_random: &[u8; 32], mlkem_seed: &[u8; 64]) -> (kp: Self)
        ensures
            kp.secret() == x25519_public_of(x25519_random@),
            kp.public() == x25519_public_of(kp.secret()),
            kp.dec_seed() == mlkem_seed@,
            kp.enc() == mlkem768_ek_of_seed(mlkem_seed@),
    {
        let x25519_secret = x25519_public(x25519_random);
        let x25519_pub = x25519_public(&x25519_secret);
        let mlkem_dec = MlKem768DecapsulationKey::from_seed(mlkem_seed);
        let mlkem_enc = mlkem_dec.encapsulation_key();
        HybridKeypair { x25519_secret, x25519_public: x25519_pub, mlkem_dec, mlkem_enc }
    }

    /// A fresh key pair from OS randomness.
    pub fn generate() -> (r: Result<Self, PqError>)
        ensures
            r matches Ok(kp) && kp.public() == x25519_public_of(kp.secret()) && kp.enc() == mlkem768_ek_of_seed(
                kp.dec_seed(),
            ) && kp.dec_seed().len() == 64,
    {
        let r1 = random_bytes(32);
        let r2 = random_bytes(64);
        let kp = HybridKeypair::from_random(&to_array32(r1.as_slice()), &to_array64(r2.as_slice()));
        Ok(kp)
    }

    /// The key pair of a 64-byte seed: the X25519 secret is the public key
    /// of the X25519 secret drawn from a generator seeded with the first 32
    /// bytes; the ML-KEM keys come from the whole seed.
    pub fn from_seed(seed: &[u8; 64]) -> (r: Result<Self, PqError>)
        ensures
            r matches Ok(kp) && kp.secret() == x25519_seeded_public(seed@.subrange(0, 32)) && kp.public()
                == x25519_public_of(kp.secret()) && kp.dec_seed() == seed@ && kp.enc() == mlkem768_ek_of_seed(seed@),
    {
        let s32 = to_array32(&seed.as_slice()[0..32]);
        assert(s32@ =~= seed@.subrange(0, 32));
        let x25519_secret = x25519_public_from_rng_seed(&s32);
        let x25519_pub = x25519_public(&x25519_secret);
        let mlkem_dec = MlKem768DecapsulationKey::from_seed(seed);
        let mlkem_enc = mlkem_dec.encapsulation_key();
        Ok(HybridKeypair { x25519_secret, x25519_public: x25519_pub, mlkem_dec, mlkem_enc })
    }

    /// A key pair from its parts, as given.
    pub fn from_components(
        x25519_secret: [u8; 32],
        x25519_public: [u8; 32],
        mlkem_dec: MlKem768DecapsulationKey,
        mlkem_enc: MlKem768EncapsulationKey,
    ) -> (kp: Self)
        ensures
            kp.secret() == x25519_secret@,
            kp.public() == x25519_public@,
            kp.dec_seed() == mlkem_dec@,
            kp.enc() == mlkem_enc@,
    {
        HybridKeypair { x25519_secret, x25519_public, mlkem_dec, mlkem_enc }
    }

    /// The X25519 public key.
    pub fn x25519_public(&self) -> (r: [u8; 32])
        ensures
            r@ == self.public(),
    {
        self.x25519_public
    }

    /// The ML-KEM encapsulation key.
    pub fn mlkem_encapsulation_key(&self) -> (r: MlKem768EncapsulationKey)
        ensures
            r@ == self.enc(),
    {
        self.mlkem_enc.clone()
    }

    /// The X25519 public key followed by the ML-KEM encapsulation key.
    pub fn combined_public_key(&self) -> (r: Vec<u8>)
        ensures
            r@ == self.public() + self.enc(),
            r@.len() == COMBINED_PK_SIZE,
    {
        let mut pk = slice_to_vec(self.x25519_public.as_slice());
        let mut e = self.mlkem_enc.to_bytes();
        pk.append(&mut e);
        pk
    }

    /// The ML-KEM encapsulation key of a combined public key.
    pub fn from_combined_public_key(bytes: &[u8]) -> (r: Result<MlKem768EncapsulationKey, PqError>)
        ensures
            bytes@.len() != COMBINED_PK_SIZE ==> r == Err::<MlKem768EncapsulationKey, PqError>(
                PqError::InvalidKeyLength { expected: COMBINED_PK_SIZE, got: bytes@.len() as usize },
            ),
            bytes@.len() == COMBINED_PK_SIZE ==> if mlkem768_ek_valid(bytes@.subrange(32, bytes@.len() as int)) {
                r matches Ok(k) && k@ == bytes@.subrange(32, bytes@.len() as int)
            } else {
                r == Err::<MlKem768EncapsulationKey, PqError>(
                    PqError::InvalidKeyLength { expected: MLKEM768_PK_SIZE, got: (bytes@.len() - 32) as usize },
                )
            },
    {
        if bytes.len() != COMBINED_PK_SIZE {
            return Err(PqError::InvalidKeyLength { expected: COMBINED_PK_SIZE, got: bytes.len() });
        }
        let tail = &bytes[32..bytes.len()];
        assert(tail@ =~= bytes@.subrange(32, bytes@.len() as int));
        match MlKem768EncapsulationKey::from_slice(tail) {
            Some(k) => Ok(k),
            None => Err(PqError::InvalidKeyLength { expected: MLKEM768_PK_SIZE, got: bytes.len() - 32 }),
        }
    }

    /// The X25519 secret followed by the ML-KEM seed.
    pub fn combined_private_key(&self) -> (r: [u8; 96])
        ensures
            r@ == self.secret() + self.dec_seed(),
    {
        let mut v = slice_to_vec(self.x25519_secret.as_slice());
        let mut s = self.mlkem_dec.to_bytes();
        v.append(&mut s);
        to_array96(v.as_slice())
    }

    /// The key pair of a combined private key: the public keys are derived
    /// from the secret parts.
    pub fn from_combined_private_key(bytes: &[u8; 96]) -> (r: Result<Self, PqError>)
        ensures
            r matches Ok(kp) && kp.secret() == bytes@.subrange(0, 32) && kp.public() == x25519_public_of(kp.secret())
                && kp.dec_seed() == bytes@.subrange(32, 96) && kp.enc() == mlkem768_ek_of_seed(bytes@.subrange(32, 96)),
    {
        let x25519_secret = to_array32(&bytes.as_slice()[0..32]);
        let seed = to_array64(&bytes.as_slice()[32..96]);
        assert(x25519_secret@ =~= bytes@.subrange(0, 32));
        assert(seed@ =~= bytes@.subrange(32, 96));
        let x25519_pub = x25519_public(&x25519_secret);
        let mlkem_dec = MlKem768DecapsulationKey::from_seed(&seed);
        let mlkem_enc = mlkem_dec.encapsulation_key();
        Ok(HybridKeypair { x25519_secret, x25519_public: x25519_pub, mlkem_dec, mlkem_enc })
    }
}

/// A hybrid encapsulation to the recipient's ML-KEM key `pk` and X25519
/// key `recipient_x`, bound to the initiator's X25519 key, drawn with
/// ephemeral secret `eph` and message `m`: the ephemeral public key, the
/// ML-KEM ciphertext, and the secret combining the X25519 agreement of the
/// ephemeral secret with the recipient and the ML-KEM secret.
pub open spec fn hybrid_encaps_of(pk: Seq<u8>, recipient_x: Seq<u8>, initiator_pk: Seq<u8>, eph: Seq<u8>, m: Seq<u8>) -> (
    Seq<u8>,
    Seq<u8>,
    Seq<u8>,
) {
    let e = x25519_public_of(eph);
    let k = mlkem768_encaps(pk, m);
    (e, k.0, combined_secret(x25519_shared(eph, recipient_x), k.1, e, initiator_pk))
}

/// Hybrid encapsulation with the given ephemeral X25519 secret and ML-KEM
/// message.
pub fn hybrid_encapsulate_with(
    recipient_pk: &MlKem768EncapsulationKey,
    recipient_x25519_pk: &[u8; 32],
    initiator_x25519_pk: &[u8; 32],
    eph_secret: &[u8; 32],
    m: &[u8; 32],
) -> (r: (HybridCiphertext, HybridSharedSecret))
    ensures
        (r.0.x25519_ct@, r.0.mlkem_ct@, r.1@) == hybrid_encaps_of(
            recipient_pk@,
            recipient_x25519_pk@,
            initiator_x25519_pk@,
            eph_secret@,
            m@,
        ),
        r.0.mlkem_ct@.len() == MLKEM768_CT_SIZE,
{
    let eph_pub = x25519_public(eph_secret);
    let (mlkem_ct, mlkem_ss) = mlkem768_encapsulate_to(recipient_pk, m.as_slice());
    let dh = x25519_diffie_hellman(eph_secret, recipient_x25519_pk);
    let ss = combine_shared_secrets(&dh, mlkem_ss.as_slice(), &eph_pub, initiator_x25519_pk);
    (HybridCiphertext { x25519_ct: eph_pub, mlkem_ct }, ss)
}

/// Hybrid encapsulation to a recipient's ML-KEM and X25519 keys with a
/// fresh ephemeral secret and message.
pub fn hybrid_encapsulate(
    recipient_pk: &MlKem768EncapsulationKey,
    recipient_x25519_pk: &[u8; 32],
    initiator_x25519_pk: &[u8; 32],
) -> (r: Result<(HybridCiphertext, HybridSharedSecret), PqError>)
    ensures
        r matches Ok((ct, ss)) && ct.mlkem_ct@.len() == MLKEM768_CT_SIZE && exists|eph: Seq<u8>, m: Seq<u8>|
            eph.len() == 32 && m.len() == 32 && (ct.x25519_ct@, ct.mlkem_ct@, ss@) == #[trigger] hybrid_encaps_of(
                recipient_pk@,
                recipient_x25519_pk@,
                initiator_x25519_pk@,
                eph,
                m,
            ),
{
    let eph = to_array32(random_bytes(32).as_slice());
    let m = to_array32(random_bytes(32).as_slice());
    Ok(hybrid_encapsulate_with(recipient_pk, recipient_x25519_pk, initiator_x25519_pk, &eph, &m))
}

/// The secret a hybrid decapsulation derives: the X25519 shared secret of
/// our secret and the ciphertext's X25519 part, the ML-KEM decapsulation,
/// bound to the X25519 part and the sender's key.
pub open spec fn hybrid_decaps_of(ct_x25519: Seq<u8>, ct_mlkem: Seq<u8>, secret: Seq<u8>, seed: Seq<u8>, sender_pk: Seq<u8>) -> Seq<u8> {
    combined_secret(x25519_shared(secret, ct_x25519), mlkem768_decaps(seed, ct_mlkem), ct_x25519, sender_pk)
}

/// Hybrid decapsulation with our key pair; the ML-KEM part must be 1088
/// bytes.
pub fn hybrid_decapsulate(ct: &HybridCiphertext, our_keypair: &HybridKeypair, sender_x25519_pk: &[u8; 32]) -> (r: Result<
    HybridSharedSecret,
    PqError,
>)
    ensures
        ct.mlkem_ct@.len() != MLKEM768_CT_SIZE ==> r == Err::<HybridSharedSecret, PqError>(
            PqError::InvalidKeyLength { expected: MLKEM768_CT_SIZE, got: ct.mlkem_ct@.len() as usize },
        ),
        ct.mlkem_ct@.len() == MLKEM768_CT_SIZE ==> (r matches Ok(ss) && ss@ == hybrid_decaps_of(
            ct.x25519_ct@,
            ct.mlkem_ct@,
            our_keypair.secret(),
            our_keypair.dec_seed(),
            sender_x25519_pk@,
        )),
{
    if ct.mlkem_ct.len() != MLKEM768_CT_SIZE {
        return Err(PqError::InvalidKeyLength { expected: MLKEM768_CT_SIZE, got: ct.mlkem_ct.len() });
    }
    let mlkem_ss = our_keypair.mlkem_dec.decapsulate(ct.mlkem_ct.as_slice());
    let dh = x25519_diffie_hellman(&our_keypair.x25519_secret, &ct.x25519_ct);
    Ok(combine_shared_secrets(&dh, mlkem_ss.as_slice(), &ct.x25519_ct, sender_x25519_pk))
}

/// Encapsulate in both directions: to the peer's keys (bound to our X25519
/// key) and to our own keys (bound to the peer's X25519 key).
pub fn bidirectional_exchange(
    our_keypair: &HybridKeypair,
    their_combined_pk: &MlKem768EncapsulationKey,
    their_x25519_pk: &[u8; 32],
) -> (r: Result<(HybridCiphertext, HybridSharedSecret, HybridCiphertext, HybridSharedSecret), PqError>)
    ensures
        r matches Ok((our_ct, our_ss, their_ct, their_ss)) && (exists|eph: Seq<u8>, m: Seq<u8>|
            eph.len() == 32 && m.len() == 32 && (our_ct.x25519_ct@, our_ct.mlkem_ct@, our_ss@)
                == #[trigger] hybrid_encaps_of(their_combined_pk@, their_x25519_pk@, our_keypair.public(), eph, m)) && (exists|
            eph: Seq<u8>,
            m: Seq<u8>,
        |
            eph.len() == 32 && m.len() == 32 && (their_ct.x25519_ct@, their_ct.mlkem_ct@, their_ss@)
                == #[trigger] hybrid_encaps_of(our_keypair.enc(), our_keypair.public(), their_x25519_pk@, eph, m)),
{
    let our_pub = our_keypair.x25519_public();
    let (our_ct, our_ss) = match hybrid_encapsulate(their_combined_pk, their_x25519_pk, &our_pub) {
        Ok(p) => p,
        Err(e) => return Err(e),
    };
    let their_pk = our_keypair.mlkem_encapsulation_key();
    let (their_ct, their_ss) = match hybrid_encapsulate(&their_pk, &our_pub, their_x25519_pk) {
        Ok(p) => p,
        Err(e) => return Err(e),
    };
    Ok((our_ct, our_ss, their_ct, their_ss))
}

/// One hybrid ratchet step to a peer, drawn with ephemeral secret `eph` and
/// message `m`: the ephemeral public key, the ML-KEM ciphertext, and the
/// secret combining the X25519 agreement with the peer and the ML-KEM
/// secret, bound to our X25519 key.
pub open spec fn ratchet_step_of(our_pk: Seq<u8>, their_pk: Seq<u8>, their_x25519_pk: Seq<u8>, eph: Seq<u8>, m: Seq<u8>) -> (
    Seq<u8>,
    Seq<u8>,
    Seq<u8>,
) {
    let e = x25519_public_of(eph);
    let k = mlkem768_encaps(their_pk, m);
    (e, k.0, combined_secret(x25519_shared(eph, their_x25519_pk), k.1, e, our_pk))
}

/// A hybrid ratchet step with the given ephemeral secret and message.
pub fn ratchet_step_with(
    our_keypair: &HybridKeypair,
    their_combined_pk: &MlKem768EncapsulationKey,
    their_x25519_pk: &[u8; 32],
    eph_secret: &[u8; 32],
    m: &[u8; 32],
) -> (r: (HybridCiphertext, HybridSharedSecret))
    ensures
        (r.0.x25519_ct@, r.0.mlkem_ct@, r.1@) == ratchet_step_of(
            our_keypair.public(),
            their_combined_pk@,
            their_x25519_pk@,
            eph_secret@,
            m@,
        ),
        r.0.mlkem_ct@.len() == MLKEM768_CT_SIZE,
{
    let eph_pub = x25519_public(eph_secret);
    let (mlkem_ct, mlkem_ss) = mlkem768_encapsulate_to(their_combined_pk, m.as_slice());
    let dh = x25519_diffie_hellman(eph_secret, their_x25519_pk);
    let our_pub = our_keypair.x25519_public();
    let ss = combine_shared_secrets(&dh, mlkem_ss.as_slice(), &eph_pub, &our_pub);
    (HybridCiphertext { x25519_ct: eph_pub, mlkem_ct }, ss)
}

/// A hybrid ratchet step with a fresh ephemeral secret and message.
pub fn ratchet_step(our_keypair: &HybridKeypair, their_combined_pk: &MlKem768EncapsulationKey, their_x25519_pk: &[u8; 32]) -> (r:
    Result<(HybridCiphertext, HybridSharedSecret), PqError>)
    ensures
        r matches Ok((ct, ss)) && ct.mlkem_ct@.len() == MLKEM768_CT_SIZE && exists|eph: Seq<u8>, m: Seq<u8>|
            eph.len() == 32 && m.len() == 32 && (ct.x25519_ct@, ct.mlkem_ct@, ss@) == #[trigger] ratchet_step_of(
                our_keypair.public(),
                their_combined_pk@,
                their_x25519_pk@,
                eph,
                m,
            ),
{
    let eph = to_array32(random_bytes(32).as_slice());
    let m = to_array32(random_bytes(32).as_slice());
    Ok(ratchet_step_with(our_keypair, their_combined_pk, their_x25519_pk, &eph, &m))
}

/// Base64 of a ciphertext's wire form.
pub fn encode_hybrid_ct(ct: &HybridCiphertext) -> (r: String)
    requires
        ct.mlkem_ct@.len() == MLKEM768_CT_SIZE,
    ensures
        r@ == base64_std_encode(ct.x25519_ct@ + ct.mlkem_ct@),
{
    let b = ct.to_bytes();
    base64_encode(b.as_slice())
}

/// Parse a base64 ciphertext.
pub fn decode_hybrid_ct(b64: &str) -> (r: Result<HybridCiphertext, PqError>)
    ensures
        match base64_std_decode(b64@) {
            None => r matches Err(PqError::DecapsulationFailed(_)),
            Some(bytes) => if bytes.len() == COMBINED_CT_SIZE {
                r matches Ok(c) && c.x25519_ct@ == bytes.subrange(0, 32) && c.mlkem_ct@ == bytes.subrange(
                    32,
                    bytes.len() as int,
                )
            } else {
                r == Err::<HybridCiphertext, PqError>(
                    PqError::InvalidKeyLength { expected: COMBINED_CT_SIZE, got: bytes.len() as usize },
                )
            },
        },
{
    match base64_decode(b64) {
        Some(bytes) => HybridCiphertext::from_bytes(bytes.as_slice()),
        None => Err(PqError::DecapsulationFailed("base64 decode".to_string())),
    }
}

/// Base64 of a key pair's combined public key.
pub fn encode_combined_pk(kp: &HybridKeypair) -> (r: String)
    ensures
        r@ == base64_std_encode(kp.public() + kp.enc()),
{
    let pk = kp.combined_public_key();
    base64_encode(pk.as_slice())
}

/// The ML-KEM encapsulation key of a base64 combined public key.
pub fn decode_combined_pk(b64: &str) -> (r: Result<MlKem768EncapsulationKey, PqError>)
    ensures
        match base64_std_decode(b64@) {
            None => r == Err::<MlKem768EncapsulationKey, PqError>(
                PqError::InvalidKeyLength { expected: COMBINED_PK_SIZE, got: 0 },
            ),
            Some(bytes) => if bytes.len() != COMBINED_PK_SIZE {
                r == Err::<MlKem768EncapsulationKey, PqError>(
                    PqError::InvalidKeyLength { expected: COMBINED_PK_SIZE, got: bytes.len() as usize },
                )
            } else if mlkem768_ek_valid(bytes.subrange(32, bytes.len() as int)) {
                r matches Ok(k) && k@ == bytes.subrange(32, bytes.len() as int)
            } else {
                r == Err::<MlKem768EncapsulationKey, PqError>(
                    PqError::InvalidKeyLength { expected: MLKEM768_PK_SIZE, got: (bytes.len() - 32) as usize },
                )
            },
        },
{
    match base64_decode(b64) {
        Some(bytes) => HybridKeypair::from_combined_public_key(bytes.as_slice()),
        None => Err(PqError::InvalidKeyLength { expected: COMBINED_PK_SIZE, got: 0 }),
    }
}

/// A hybrid ratchet step is decapsulated by its recipient: when X25519
/// agreement is symmetric and ML-KEM decapsulation recovers what was
/// encapsulated (the properties of both primitives), the recipient's
/// decapsulation with the sender's X25519 key yields the sender's secret.
pub proof fn law_ratchet_step_decapsulates(
    sender_pk: Seq<u8>,
    recipient_secret: Seq<u8>,
    recipient_seed: Seq<u8>,
    eph: Seq<u8>,
    m: Seq<u8>,
)
    requires
        x25519_shared(eph, x25519_public_of(recipient_secret)) == x25519_shared(recipient_secret, x25519_public_of(eph)),
        mlkem768_decaps(recipient_seed, mlkem768_encaps(mlkem768_ek_of_seed(recipient_seed), m).0)
            == mlkem768_encaps(mlkem768_ek_of_seed(recipient_seed), m).1,
    ensures
        ({
            let (x, c, ss) = ratchet_step_of(
                sender_pk,
                mlkem768_ek_of_seed(recipient_seed),
                x25519_public_of(recipient_secret),
                eph,
                m,
            );
            hybrid_decaps_of(x, c, recipient_secret, recipient_seed, sender_pk) == ss
        }),
{
}


/// A hybrid encapsulation to a recipient's keys decapsulates, with the
/// recipient's X25519 secret and ML-KEM seed, to the encapsulated secret:
/// given that the X25519 agreement is symmetric and the ML-KEM
/// decapsulation recovers the encapsulated secret for these values.
pub proof fn law_hybrid_decapsulates(
    initiator_pk: Seq<u8>,
    recipient_secret: Seq<u8>,
    recipient_seed: Seq<u8>,
    eph: Seq<u8>,
    m: Seq<u8>,
)
    requires
        x25519_shared(eph, x25519_public_of(recipient_secret)) == x25519_shared(recipient_secret, x25519_public_of(eph)),
        mlkem768_decaps(recipient_seed, mlkem768_encaps(mlkem768_ek_of_seed(recipient_seed), m).0)
            == mlkem768_encaps(mlkem768_ek_of_seed(recipient_seed), m).1,
    ensures
        ({
            let (x, c, ss) = hybrid_encaps_of(
                mlkem768_ek_of_seed(recipient_seed),
                x25519_public_of(recipient_secret),
                initiator_pk,
                eph,
                m,
            );
            hybrid_decaps_of(x, c, recipient_secret, recipient_seed, initiator_pk) == ss
        }),
{
}

} // verus!
