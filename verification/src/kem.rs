//! Byte-level helpers of the KEM ratchet: the encapsulation context that
//! binds an epoch and a sequence number, and the length-prefixed framing of
//! a key pair.
use vstd::prelude::*;
use vstd::slice::slice_to_vec;
use vstd::string::StringSliceAdditionalSpecFns;
use crate::codec::{to_array32, to_array64, u16_be, u16_to_be, u64_be, u64_to_be};
use crate::error::PqError;
use crate::hybrid_kem::{
    mlkem768_encapsulate_to, HybridCiphertext, HybridKeypair, HybridSharedSecret, MlKem768DecapsulationKey,
    COMBINED_CT_SIZE, COMBINED_PK_SIZE, MLKEM768_CT_SIZE, MLKEM768_PK_SIZE,
};
use crate::kyber::{MlKem1024DecapsulationKey, MlKem1024EncapsulationKey, MlKem1024Keypair};
use crate::primitives::{
    mlkem1024_decaps, mlkem1024_encaps, mlkem768_decaps, mlkem768_ek_of_seed, mlkem768_ek_valid, mlkem768_encaps,
    random_bytes, sha3_256, sha3_256_digest, x25519_diffie_hellman, x25519_public, x25519_public_of, x25519_shared,
    MLKEM1024_CT_LEN,
};

verus! {

/// Domain tag of a KEM context.
pub open spec fn kem_context_tag() -> Seq<u8> {
    "add-kem-context-v1".spec_bytes()
}

/// The KEM context of `epoch` and `seq`: the tag, then both numbers big-endian.
pub open spec fn kem_context(epoch: u64, seq: u64) -> Seq<u8> {
    kem_context_tag() + u64_be(epoch) + u64_be(seq)
}

/// Build the KEM context of `epoch` and `seq`.
pub fn make_kem_context(epoch: u64, seq: u64) -> (ctx: Vec<u8>)
    ensures
        ctx@ == kem_context(epoch, seq),
{
    let mut ctx = slice_to_vec("add-kem-context-v1".as_bytes());
    let mut e = u64_to_be(epoch);
    let mut s = u64_to_be(seq);
    ctx.append(&mut e);
    ctx.append(&mut s);
    ctx
}

/// Different sequence numbers give different contexts (and so do different
/// epochs): the context binds both.
pub proof fn law_kem_context_binds(e1: u64, s1: u64, e2: u64, s2: u64)
    ensures
        kem_context(e1, s1) == kem_context(e2, s2) ==> e1 == e2 && s1 == s2,
{
    crate::codec::lemma_u64_be_roundtrip(e1);
    crate::codec::lemma_u64_be_roundtrip(e2);
    crate::codec::lemma_u64_be_roundtrip(s1);
    crate::codec::lemma_u64_be_roundtrip(s2);
    let tl: int = kem_context_tag().len() as int;
    if kem_context(e1, s1) == kem_context(e2, s2) {
        let c = kem_context(e1, s1);
        assert(c.subrange(tl, tl + 8) =~= u64_be(e1));
        assert(kem_context(e2, s2).subrange(tl, tl + 8) =~= u64_be(e2));
        assert(c.subrange(tl + 8, tl + 16) =~= u64_be(s1));
        assert(kem_context(e2, s2).subrange(tl + 8, tl + 16) =~= u64_be(s2));
    }
}

/// The framing of a key pair: each part preceded by its length as two
/// big-endian bytes.
pub open spec fn keypair_frame(pk: Seq<u8>, sk: Seq<u8>) -> Seq<u8> {
    u16_be(pk.len() as u16) + pk + u16_be(sk.len() as u16) + sk
}

/// Frame a public key and a secret key (each at most 65535 bytes).
pub fn serialize_keypair(pk_bytes: &[u8], sk_bytes: &[u8]) -> (buf: Vec<u8>)
    requires
        pk_bytes@.len() <= 0xffff,
        sk_bytes@.len() <= 0xffff,
    ensures
        buf@ == keypair_frame(pk_bytes@, sk_bytes@),
{
    let mut buf = u16_to_be(pk_bytes.len() as u16);
    let mut pk = slice_to_vec(pk_bytes);
    let mut sl = u16_to_be(sk_bytes.len() as u16);
    let mut sk = slice_to_vec(sk_bytes);
    buf.append(&mut pk);
    buf.append(&mut sl);
    buf.append(&mut sk);
    buf
}

/// The two length fields of a framing, read back.
pub open spec fn frame_pk_len(wire: Seq<u8>) -> int {
    wire[0] as int * 256 + wire[1] as int
}

pub open spec fn frame_sk_len(wire: Seq<u8>) -> int {
    let sk_start = 2 + frame_pk_len(wire) + 2;
    wire[sk_start - 2] as int * 256 + wire[sk_start - 1] as int
}

/// Split a framed key pair into its public and secret parts.  Refused:
/// fewer than 4 bytes, or lengths that run past the end.  The secret key of
/// the hybrid KEM is a 64-byte seed; any other length is refused.
pub fn deserialize_keypair(wire: &[u8]) -> (r: Result<(Vec<u8>, Vec<u8>), PqError>)
    ensures
        wire@.len() < 4 ==> r == Err::<(Vec<u8>, Vec<u8>), PqError>(PqError::InvalidKeyLength { expected: 4, got: wire@.len() as usize }),
        wire@.len() >= 4 && 2 + frame_pk_len(wire@) + 2 > wire@.len() ==> r == Err::<(Vec<u8>, Vec<u8>), PqError>(
            PqError::InvalidKeyLength { expected: 4, got: wire@.len() as usize },
        ),
        wire@.len() >= 4 && 2 + frame_pk_len(wire@) + 2 <= wire@.len() && 4 + frame_pk_len(wire@) + frame_sk_len(wire@)
            > wire@.len() ==> r == Err::<(Vec<u8>, Vec<u8>), PqError>(
            PqError::InvalidKeyLength {
                expected: (4 + frame_pk_len(wire@) + frame_sk_len(wire@)) as usize,
                got: wire@.len() as usize,
            },
        ),
        wire@.len() >= 4 && 4 + frame_pk_len(wire@) + frame_sk_len(wire@) <= wire@.len() ==> ({
            let sk_start = 4 + frame_pk_len(wire@);
            let pk = wire@.subrange(2, sk_start - 2);
            let sk = wire@.subrange(sk_start, sk_start + frame_sk_len(wire@));
            if sk.len() == 64 {
                r matches Ok((p, s)) && p@ == pk && s@ == sk
            } else {
                r == Err::<(Vec<u8>, Vec<u8>), PqError>(PqError::InvalidKeyLength { expected: 64, got: sk.len() as usize })
            }
        }),
{
    if wire.len() < 4 {
        return Err(PqError::InvalidKeyLength { expected: 4, got: wire.len() });
    }
    let pk_len = (wire[0] as usize) * 256 + (wire[1] as usize);
    let sk_start = 2 + pk_len + 2;
    if sk_start > wire.len() {
        return Err(PqError::InvalidKeyLength { expected: 4, got: wire.len() });
    }
    let sk_len = (wire[sk_start - 2] as usize) * 256 + (wire[sk_start - 1] as usize);
    let sk_end = sk_start + sk_len;
    if sk_end > wire.len() {
        return Err(PqError::InvalidKeyLength { expected: sk_end, got: wire.len() });
    }
    let pk = slice_to_vec(&wire[2..sk_start - 2]);
    let sk = slice_to_vec(&wire[sk_start..sk_end]);
    if sk.len() != 64 {
        return Err(PqError::InvalidKeyLength { expected: 64, got: sk.len() });
    }
    Ok((pk, sk))
}

/// A framed key pair splits back into the same parts.
pub proof fn law_keypair_frame_roundtrip(pk: Seq<u8>, sk: Seq<u8>)
    requires
        pk.len() <= 0xffff,
        sk.len() == 64,
    ensures
        ({
            let w = keypair_frame(pk, sk);
            &&& w.len() >= 4
            &&& frame_pk_len(w) == (pk.len() as int)
            &&& frame_sk_len(w) == (sk.len() as int)
            &&& 4 + frame_pk_len(w) + frame_sk_len(w) == w.len()
            &&& w.subrange(2, 2 + (pk.len() as int)) == pk
            &&& w.subrange(4 + (pk.len() as int), 4 + (pk.len() as int) + (sk.len() as int)) == sk
        }),
{
    let w = keypair_frame(pk, sk);
    let n = (pk.len() as int) as u16;
    assert(n as int == (pk.len() as int));
    assert((n / 256) as u8 as int * 256 + (n % 256) as u8 as int == n as int);
    let m = (sk.len() as int) as u16;
    assert((m / 256) as u8 as int * 256 + (m % 256) as u8 as int == m as int);
    assert(w[0] == (n / 256) as u8);
    assert(w[1] == (n % 256) as u8);
    assert(w[2 + (pk.len() as int)] == (m / 256) as u8);
    assert(w[3 + (pk.len() as int)] == (m % 256) as u8);
    assert(w.subrange(2, 2 + (pk.len() as int)) =~= pk);
    assert(w.subrange(4 + (pk.len() as int), 4 + (pk.len() as int) + (sk.len() as int)) =~= sk);
}

/// The ML-KEM seed derived from an encapsulation key: its SHA3-256 digest
/// followed by 32 zero bytes.
pub open spec fn seed_of_enc(enc: Seq<u8>) -> Seq<u8> {
    sha3_256(enc) + Seq::new(32, |i: int| 0u8)
}

/// The decapsulation key derived from an encapsulation key's bytes.
pub fn seed_to_decap_key(enc: &[u8]) -> (dk: MlKem768DecapsulationKey)
    requires
        enc@.len() == MLKEM768_PK_SIZE,
    ensures
        dk@ == seed_of_enc(enc@),
{
    let digest = sha3_256_digest(enc);
    let mut seed = [0u8; 64];
    let mut i: usize = 0;
    while i < 32
        invariant
            i <= 32,
            digest@.len() == 32,
            forall|j: int| 0 <= j < i ==> seed@[j] == digest@[j],
            forall|j: int| 32 <= j < 64 ==> seed@[j] == 0,
        decreases 32 - i,
    {
        seed[i] = digest[i];
        i = i + 1;
    }
    assert(seed@ =~= seed_of_enc(enc@));
    MlKem768DecapsulationKey::from_seed(&seed)
}

/// The secret of a context-bound hybrid encapsulation: SHA3-256 over the
/// context tag, the context, the X25519 and ML-KEM secrets, the X25519
/// ciphertext and the recipient's X25519 key.
pub open spec fn context_secret(context: Seq<u8>, dh: Seq<u8>, ss: Seq<u8>, x25519_ct: Seq<u8>, pk: Seq<u8>) -> Seq<u8> {
    sha3_256(kem_context_tag() + context + dh + ss + x25519_ct + pk)
}

/// A context-bound encapsulation to a hybrid key pair drawn with ephemeral
/// secret `eph` and message `m`: (X25519 part, ML-KEM ciphertext, secret).
pub open spec fn context_encaps_of(
    recipient_pk: Seq<u8>,
    recipient_enc: Seq<u8>,
    context: Seq<u8>,
    eph: Seq<u8>,
    m: Seq<u8>,
) -> (Seq<u8>, Seq<u8>, Seq<u8>) {
    let e = x25519_public_of(eph);
    let k = mlkem768_encaps(recipient_enc, m);
    (e, k.0, context_secret(context, x25519_shared(eph, recipient_pk), k.1, e, recipient_pk))
}

/// Context-bound hybrid encapsulation with the given ephemeral secret and
/// ML-KEM message.
pub fn hybrid_encapsulate_with_context_using(
    recipient: &HybridKeypair,
    context: &[u8],
    eph_secret: &[u8; 32],
    m: &[u8; 32],
) -> (r: (HybridCiphertext, HybridSharedSecret))
    ensures
        (r.0.x25519_ct@, r.0.mlkem_ct@, r.1@) == context_encaps_of(
            recipient.public(),
            recipient.enc(),
            context@,
            eph_secret@,
            m@,
        ),
        r.0.mlkem_ct@.len() == MLKEM768_CT_SIZE,
{
    let eph_pub = x25519_public(eph_secret);
    let enc = recipient.mlkem_encapsulation_key();
    let (mlkem_ct, mlkem_ss) = mlkem768_encapsulate_to(&enc, m.as_slice());
    let rpk = recipient.x25519_public();
    let dh = x25519_diffie_hellman(eph_secret, &rpk);
    let mut input = slice_to_vec("add-kem-context-v1".as_bytes());
    input.extend_from_slice(context);
    input.extend_from_slice(dh.as_slice());
    input.extend_from_slice(mlkem_ss.as_slice());
    input.extend_from_slice(eph_pub.as_slice());
    input.extend_from_slice(rpk.as_slice());
    assert(input@ =~= kem_context_tag() + context@ + dh@ + mlkem_ss@ + eph_pub@ + rpk@);
    let digest = sha3_256_digest(input.as_slice());
    let secret = match HybridSharedSecret::from_bytes(digest.as_slice()) {
        Ok(s) => s,
        Err(_) => HybridSharedSecret::from_array([0u8; 32]),
    };
    (HybridCiphertext { x25519_ct: eph_pub, mlkem_ct }, secret)
}

/// Context-bound hybrid encapsulation with a fresh ephemeral secret.
pub fn hybrid_encapsulate_with_context(recipient: &HybridKeypair, context: &[u8]) -> (r: Result<
    (HybridCiphertext, HybridSharedSecret),
    PqError,
>)
    ensures
        r matches Ok((ct, ss)) && ct.mlkem_ct@.len() == MLKEM768_CT_SIZE && exists|eph: Seq<u8>, m: Seq<u8>|
            eph.len() == 32 && m.len() == 32 && (ct.x25519_ct@, ct.mlkem_ct@, ss@) == #[trigger] context_encaps_of(
                recipient.public(),
                recipient.enc(),
                context@,
                eph,
                m,
            ),
{
    let eph = to_array32(random_bytes(32).as_slice());
    let m = to_array32(random_bytes(32).as_slice());
    Ok(hybrid_encapsulate_with_context_using(recipient, context, &eph, &m))
}

/// The secret of a context-bound decapsulation with a decapsulation seed:
/// the X25519 secret is the seed's first 32 bytes, and the X25519
/// ciphertext stands in for the key it is bound to.
pub open spec fn context_decaps_of(seed: Seq<u8>, x25519_ct: Seq<u8>, mlkem_ct: Seq<u8>, context: Seq<u8>) -> Seq<u8> {
    context_secret(
        context,
        x25519_shared(seed.subrange(0, 32), x25519_ct),
        mlkem768_decaps(seed, mlkem_ct),
        x25519_ct,
        x25519_ct,
    )
}

/// Context-bound hybrid decapsulation; the ML-KEM part must be 1088 bytes.
pub fn hybrid_decapsulate_with_context(sk: &MlKem768DecapsulationKey, ct: &HybridCiphertext, context: &[u8]) -> (r: Result<
    HybridSharedSecret,
    PqError,
>)
    ensures
        ct.mlkem_ct@.len() != MLKEM768_CT_SIZE ==> r == Err::<HybridSharedSecret, PqError>(
            PqError::InvalidKeyLength { expected: MLKEM768_CT_SIZE, got: ct.mlkem_ct@.len() as usize },
        ),
        ct.mlkem_ct@.len() == MLKEM768_CT_SIZE ==> (r matches Ok(ss) && ss@ == context_decaps_of(
            sk@,
            ct.x25519_ct@,
            ct.mlkem_ct@,
            context@,
        )),
{
    if ct.mlkem_ct.len() != MLKEM768_CT_SIZE {
        return Err(PqError::InvalidKeyLength { expected: MLKEM768_CT_SIZE, got: ct.mlkem_ct.len() });
    }
    let mlkem_ss = sk.decapsulate(ct.mlkem_ct.as_slice());
    let sk_bytes = sk.to_bytes();
    let x_secret = to_array32(&sk_bytes.as_slice()[0..32]);
    assert(x_secret@ =~= sk@.subrange(0, 32));
    let dh = x25519_diffie_hellman(&x_secret, &ct.x25519_ct);
    let mut input = slice_to_vec("add-kem-context-v1".as_bytes());
    input.extend_from_slice(context);
    input.extend_from_slice(dh.as_slice());
    input.extend_from_slice(mlkem_ss.as_slice());
    input.extend_from_slice(ct.x25519_ct.as_slice());
    input.extend_from_slice(ct.x25519_ct.as_slice());
    assert(input@ =~= kem_context_tag() + context@ + dh@ + mlkem_ss@ + ct.x25519_ct@ + ct.x25519_ct@);
    let digest = sha3_256_digest(input.as_slice());
    match HybridSharedSecret::from_bytes(digest.as_slice()) {
        Ok(s) => Ok(s),
        Err(_) => Ok(HybridSharedSecret::from_array([0u8; 32])),
    }
}

/// The hybrid X25519 + ML-KEM-768 KEM used by the ratchet.
#[derive(Debug, Clone, Copy)]
pub struct HybridKemRatchet;

/// A KEM a ratchet can run on: key generation, encapsulation under a
/// context, decapsulation, and the byte forms of keys and ciphertexts.
pub trait KemRatchet {
    type PublicKey;
    type DecapKey;
    type Ciphertext;
    type SharedSecret;

    /// A ciphertext that has a wire form.
    spec fn ct_encodable(&self, ct: &Self::Ciphertext) -> bool;

    /// A fresh key pair.
    fn generate_keypair(&self) -> Result<(Self::PublicKey, Self::DecapKey), PqError>;

    /// Encapsulate to a public key under a context.
    fn encapsulate(&self, pk: &Self::PublicKey, context: &[u8]) -> Result<(Self::Ciphertext, Self::SharedSecret), PqError>;

    /// Decapsulate a ciphertext under a context.
    fn decapsulate(&self, sk: &Self::DecapKey, ct: &Self::Ciphertext, context: &[u8]) -> Result<Self::SharedSecret, PqError>;

    /// The wire form of a public key.
    fn pk_to_bytes(&self, pk: &Self::PublicKey) -> Vec<u8>;

    /// A public key from its wire form.
    fn pk_from_bytes(&self, bytes: &[u8]) -> Result<Self::PublicKey, PqError>;

    /// The wire form of a ciphertext.
    fn ct_to_bytes(&self, ct: &Self::Ciphertext) -> Vec<u8>
        requires
            self.ct_encodable(ct),
    ;

    /// A ciphertext from its wire form.
    fn ct_from_bytes(&self, bytes: &[u8]) -> Result<Self::Ciphertext, PqError>;

    /// The bytes of a secret key.
    fn sk_to_bytes(&self, sk: &Self::DecapKey) -> Vec<u8>;

    /// A secret key from its bytes.
    fn sk_from_bytes(&self, bytes: &[u8]) -> Result<Self::DecapKey, PqError>;
}

impl KemRatchet for HybridKemRatchet {
    type PublicKey = HybridKeypair;
    type DecapKey = [u8; 64];
    type Ciphertext = HybridCiphertext;
    type SharedSecret = HybridSharedSecret;

    /// The ML-KEM part has the ML-KEM-768 ciphertext size.
    open spec fn ct_encodable(&self, ct: &HybridCiphertext) -> bool {
        ct.mlkem_ct@.len() == MLKEM768_CT_SIZE
    }

    /// A fresh key pair and, as its secret, the seed derived from its
    /// encapsulation key.
    fn generate_keypair(&self) -> (r: Result<(HybridKeypair, [u8; 64]), PqError>)
        ensures
            r matches Ok((kp, sk)) && sk@ == seed_of_enc(kp.enc()) && kp.public() == x25519_public_of(kp.secret())
                && kp.enc() == mlkem768_ek_of_seed(kp.dec_seed()),
    {
        let kp = match HybridKeypair::generate() {
            Ok(k) => k,
            Err(e) => return Err(e),
        };
        let enc = kp.mlkem_encapsulation_key().to_bytes();
        let dec = seed_to_decap_key(enc.as_slice());
        let raw = to_array64(dec.to_bytes().as_slice());
        Ok((kp, raw))
    }

    /// Context-bound encapsulation to a key pair.
    fn encapsulate(&self, pk: &HybridKeypair, context: &[u8]) -> (r: Result<(HybridCiphertext, HybridSharedSecret), PqError>)
        ensures
            r matches Ok((ct, ss)) && ct.mlkem_ct@.len() == MLKEM768_CT_SIZE && exists|eph: Seq<u8>, m: Seq<u8>|
                eph.len() == 32 && m.len() == 32 && (ct.x25519_ct@, ct.mlkem_ct@, ss@) == #[trigger] context_encaps_of(
                    pk.public(),
                    pk.enc(),
                    context@,
                    eph,
                    m,
                ),
    {
        hybrid_encapsulate_with_context(pk, context)
    }

    /// Context-bound decapsulation with a 64-byte seed.
    fn decapsulate(&self, sk: &[u8; 64], ct: &HybridCiphertext, context: &[u8]) -> (r: Result<HybridSharedSecret, PqError>)
        ensures
            ct.mlkem_ct@.len() != MLKEM768_CT_SIZE ==> r == Err::<HybridSharedSecret, PqError>(
                PqError::InvalidKeyLength { expected: MLKEM768_CT_SIZE, got: ct.mlkem_ct@.len() as usize },
            ),
            ct.mlkem_ct@.len() == MLKEM768_CT_SIZE ==> (r matches Ok(ss) && ss@ == context_decaps_of(
                sk@,
                ct.x25519_ct@,
                ct.mlkem_ct@,
                context@,
            )),
    {
        let dec = MlKem768DecapsulationKey::from_seed(sk);
        hybrid_decapsulate_with_context(&dec, ct, context)
    }

    /// The combined public key.
    fn pk_to_bytes(&self, pk: &HybridKeypair) -> (r: Vec<u8>)
        ensures
            r@ == pk.public() + pk.enc(),
    {
        pk.combined_public_key()
    }

    /// A key pair from a combined public key: the X25519 key as given (its
    /// bytes also fill the secret slot) and ML-KEM keys derived from the
    /// encapsulation key.
    fn pk_from_bytes(&self, bytes: &[u8]) -> (r: Result<HybridKeypair, PqError>)
        ensures
            bytes@.len() != COMBINED_PK_SIZE ==> r == Err::<HybridKeypair, PqError>(
                PqError::InvalidKeyLength { expected: COMBINED_PK_SIZE, got: bytes@.len() as usize },
            ),
            bytes@.len() == COMBINED_PK_SIZE ==> if mlkem768_ek_valid(bytes@.subrange(32, bytes@.len() as int)) {
                r matches Ok(kp) && kp.public() == bytes@.subrange(0, 32) && kp.secret() == bytes@.subrange(0, 32)
                    && kp.dec_seed() == seed_of_enc(bytes@.subrange(32, bytes@.len() as int)) && kp.enc()
                    == mlkem768_ek_of_seed(kp.dec_seed())
            } else {
                r == Err::<HybridKeypair, PqError>(
                    PqError::InvalidKeyLength { expected: MLKEM768_PK_SIZE, got: (bytes@.len() - 32) as usize },
                )
            },
    {
        let enc = match HybridKeypair::from_combined_public_key(bytes) {
            Ok(e) => e,
            Err(e) => return Err(e),
        };
        let x = to_array32(&bytes[0..32]);
        assert(x@ =~= bytes@.subrange(0, 32));
        let enc_bytes = enc.to_bytes();
        let dec = seed_to_decap_key(enc_bytes.as_slice());
        let derived_enc = dec.encapsulation_key();
        Ok(HybridKeypair::from_components(x, x, dec, derived_enc))
    }

    /// The wire form of a ciphertext.
    fn ct_to_bytes(&self, ct: &HybridCiphertext) -> (r: Vec<u8>)
        ensures
            r@ == ct.x25519_ct@ + ct.mlkem_ct@,
    {
        ct.to_bytes()
    }

    /// Parse a ciphertext's wire form.
    fn ct_from_bytes(&self, bytes: &[u8]) -> (r: Result<HybridCiphertext, PqError>)
        ensures
            bytes@.len() == COMBINED_CT_SIZE ==> (r matches Ok(c) && c.x25519_ct@ == bytes@.subrange(0, 32)
                && c.mlkem_ct@ == bytes@.subrange(32, bytes@.len() as int)),
            bytes@.len() != COMBINED_CT_SIZE ==> r == Err::<HybridCiphertext, PqError>(
                PqError::InvalidKeyLength { expected: COMBINED_CT_SIZE, got: bytes@.len() as usize },
            ),
    {
        HybridCiphertext::from_bytes(bytes)
    }

    /// The secret key's bytes.
    fn sk_to_bytes(&self, sk: &[u8; 64]) -> (r: Vec<u8>)
        ensures
            r@ == sk@,
    {
        slice_to_vec(sk.as_slice())
    }

    /// A secret key from exactly 64 bytes.
    fn sk_from_bytes(&self, bytes: &[u8]) -> (r: Result<[u8; 64], PqError>)
        ensures
            bytes@.len() == 64 ==> (r matches Ok(sk) && sk@ == bytes@),
            bytes@.len() != 64 ==> r == Err::<[u8; 64], PqError>(
                PqError::InvalidKeyLength { expected: 64, got: bytes@.len() as usize },
            ),
    {
        if bytes.len() != 64 {
            return Err(PqError::InvalidKeyLength { expected: 64, got: bytes.len() });
        }
        Ok(to_array64(bytes))
    }
}

/// Encapsulate a fresh secret to an ML-KEM-1024 key.
pub fn mlkem1024_encapsulate(ek: &MlKem1024EncapsulationKey) -> (r: Result<(Vec<u8>, Vec<u8>), PqError>)
    ensures
        r matches Ok((ct, ss)) && exists|m: Seq<u8>| m.len() == 32 && #[trigger] mlkem1024_encaps(ek@, m) == (ct@, ss@),
{
    match MlKem1024Keypair::encapsulate(ek) {
        Ok(pair) => Ok(pair),
        Err(_) => Err(PqError::EncapsulationFailed("ML-KEM-1024".to_string())),
    }
}

/// Decapsulate an ML-KEM-1024 ciphertext.
pub fn mlkem1024_decapsulate(dk: &MlKem1024DecapsulationKey, ct: &Vec<u8>) -> (r: Result<Vec<u8>, PqError>)
    requires
        ct@.len() == MLKEM1024_CT_LEN,
    ensures
        r matches Ok(ss) && ss@ == mlkem1024_decaps(dk@, ct@),
{
    Ok(dk.decapsulate(ct.as_slice()))
}

} // verus!
