//! The symmetric half of the KEM ratchet: sending and receiving chains that
//! advance once per message, a bounded table of message keys for
//! out-of-order delivery, and AES-256-GCM message encryption.
use vstd::prelude::*;
use vstd::slice::slice_to_vec;
use vstd::string::StringSliceAdditionalSpecFns;
use crate::codec::{to_array12, to_array32, to_array64};
use crate::error::PqError;
use crate::hybrid_kem::{
    combine_shared_secrets, combined_secret, mlkem768_encapsulate_to, ratchet_step_of, HybridCiphertext, HybridKeypair, HybridSharedSecret,
    MlKem768DecapsulationKey, MlKem768EncapsulationKey, MLKEM768_CT_SIZE, MLKEM768_PK_SIZE,
};
use crate::kem::{
    context_decaps_of, context_encaps_of, hybrid_decapsulate_with_context, hybrid_encapsulate_with_context_using,
    kem_context, make_kem_context, seed_of_enc, seed_to_decap_key,
};
use crate::primitives::{
    aes256gcm_decrypt, aes256gcm_encrypt, aes256gcm_open, aes256gcm_seal, aes_gcm_max_len,
    hkdf_sha256, hkdf_sha256_expand, mlkem768_ek_of_seed, mlkem768_encaps, mlkem768_ek_valid, random_bytes, x25519_diffie_hellman,
    x25519_public, x25519_public_of, x25519_shared,
};
use crate::pqxdh::PqxDhRatchetState;
use crate::ratchet_pq::{KemRatchetMessage, RatchetState, RatchetStateBase};
use crate::text::{decimal, text_with_two_numbers};

verus! {

broadcast use {vstd::array::group_array_axioms, vstd::seq_lib::group_to_multiset_ensures};

/// Bound on the message-key table.
pub const MAX_SKIPPED_KEYS: usize = 1024;

/// Largest accepted distance between the receive position and a message number.
pub const MAX_SKIP_AHEAD: u64 = 1024;

/// HKDF context of a chain step.
pub open spec fn msg_key_info() -> Seq<u8> {
    "add-pq-ratchet-msg-key-v1".spec_bytes()
}

/// One chain step from chain key `ck` and the combined shared secret `ss`:
/// HKDF-SHA256 without salt over `ck || ss`, 64 bytes split into the
/// message key and the next chain key.
pub open spec fn kem_chain_step(ck: Seq<u8>, ss: Seq<u8>) -> (Seq<u8>, Seq<u8>) {
    let out = hkdf_sha256(None, ck + ss, msg_key_info(), 64);
    (out.subrange(0, 32), out.subrange(32, 64))
}

/// The 32-byte array with the given bytes.
pub open spec fn key32(s: Seq<u8>) -> [u8; 32] {
    choose|a: [u8; 32]| a@ == s
}

/// An array is the `key32` of its own bytes.
pub proof fn lemma_key32(a: [u8; 32])
    ensures
        key32(a@) == a,
{
    let b = key32(a@);
    assert(a@ == a@);
    assert(b@ == a@);
    assert(b =~= a) by {
        assert forall|i: int| 0 <= i < 32 implies b[i] == a[i] by {
            assert(b@[i] == a@[i]);
        }
    }
}

/// The message key of one chain step, as an array.
pub open spec fn step_key(ck: Seq<u8>, ss: Seq<u8>) -> [u8; 32] {
    key32(kem_chain_step(ck, ss).0)
}

/// The chain key after `n` steps.
pub open spec fn chain_after(ck: Seq<u8>, ss: Seq<u8>, n: nat) -> Seq<u8>
    decreases n,
{
    if n == 0 {
        ck
    } else {
        kem_chain_step(chain_after(ck, ss, (n - 1) as nat), ss).1
    }
}

/// Whether the table holds an entry for message number `seq`.
pub open spec fn has_seq(s: Seq<(u64, [u8; 32])>, seq: u64) -> bool {
    exists|i: int| 0 <= i < s.len() && (#[trigger] s[i]).0 == seq
}

/// The key of the first entry for `seq`, if any.
pub open spec fn lookup_seq(s: Seq<(u64, [u8; 32])>, seq: u64) -> Option<[u8; 32]>
    decreases s.len(),
{
    if s.len() == 0 {
        None
    } else if s[0].0 == seq {
        Some(s[0].1)
    } else {
        lookup_seq(s.drop_first(), seq)
    }
}

/// Entries in ascending order of message number.
pub open spec fn sorted_by_seq(s: Seq<(u64, [u8; 32])>) -> bool {
    forall|i: int, j: int| 0 <= i <= j < s.len() ==> s[i].0 <= s[j].0
}

/// `new` is `full` sorted by message number with its first entry dropped.
pub open spec fn evicts_oldest(full: Seq<(u64, [u8; 32])>, new: Seq<(u64, [u8; 32])>) -> bool {
    exists|p: Seq<(u64, [u8; 32])>|
        #[trigger] p.to_multiset() == full.to_multiset() && sorted_by_seq(p) && new == p.drop_first()
}

/// The table after pruning: over the bound, the oldest entry goes.
pub open spec fn pruned_to(s: Seq<(u64, [u8; 32])>, new: Seq<(u64, [u8; 32])>) -> bool {
    if s.len() > MAX_SKIPPED_KEYS {
        evicts_oldest(s, new)
    } else {
        new == s
    }
}

/// The table after storing `key` for `seq`: unchanged when `seq` already
/// has an entry, otherwise the entry is appended and the table pruned.
pub open spec fn stored(s: Seq<(u64, [u8; 32])>, seq: u64, key: [u8; 32], new: Seq<(u64, [u8; 32])>) -> bool {
    if has_seq(s, seq) {
        new == s
    } else {
        pruned_to(s.push((seq, key)), new)
    }
}

/// `trail` lists the tables of `n` chain steps from `ck`: it starts at
/// `a`, ends at `b`, and step `i` stores the key of message number
/// `start + i`.
pub open spec fn stored_trail(
    a: Seq<(u64, [u8; 32])>,
    start: int,
    ck: Seq<u8>,
    ss: Seq<u8>,
    n: nat,
    b: Seq<(u64, [u8; 32])>,
    trail: Seq<Seq<(u64, [u8; 32])>>,
) -> bool {
    &&& trail.len() == n + 1
    &&& trail[0] == a
    &&& trail[n as int] == b
    &&& forall|i: int|
        0 <= i < n ==> stored(
            #[trigger] trail[i],
            (start + i) as u64,
            step_key(chain_after(ck, ss, i as nat), ss),
            trail[i + 1],
        )
}

/// The table after `n` chain steps from `ck` storing the keys of message
/// numbers `start`, `start + 1`, ...
pub open spec fn stored_run(
    a: Seq<(u64, [u8; 32])>,
    start: int,
    ck: Seq<u8>,
    ss: Seq<u8>,
    n: nat,
    b: Seq<(u64, [u8; 32])>,
) -> bool {
    exists|trail: Seq<Seq<(u64, [u8; 32])>>| #[trigger] stored_trail(a, start, ck, ss, n, b, trail)
}

/// `slice::sort_by_key` keyed on the message number (std).  std documents
/// it as a sort: the result is a permutation of the input in ascending
/// order of the key.
#[verifier::external_body]
fn sort_entries_by_seq(v: &mut Vec<(u64, [u8; 32])>)
    ensures
        final(v)@.to_multiset() == old(v)@.to_multiset(),
        sorted_by_seq(final(v)@),
{
    v.sort_by_key(|e| e.0);
}

/// Over the bound, sort the table and drop its oldest entry.
fn prune_entries(v: &mut Vec<(u64, [u8; 32])>)
    ensures
        pruned_to(old(v)@, final(v)@),
{
    if v.len() > MAX_SKIPPED_KEYS {
        let ghost before = v@;
        sort_entries_by_seq(v);
        let ghost p = v@;
        assert(p.len() == p.to_multiset().len());
        assert(before.len() == before.to_multiset().len());
        let _ = v.remove(0);
        assert(v@ =~= p.drop_first());
        assert(p.to_multiset() == old(v)@.to_multiset() && sorted_by_seq(p) && v@ == p.drop_first());
    }
}

/// Store a key unless its message number already has one, then prune.
fn store_entry(v: &mut Vec<(u64, [u8; 32])>, seq: u64, key: [u8; 32])
    ensures
        stored(old(v)@, seq, key, final(v)@),
{
    let mut i: usize = 0;
    while i < v.len()
        invariant
            i <= v@.len(),
            forall|j: int| 0 <= j < i ==> (#[trigger] v@[j]).0 != seq,
        decreases v@.len() - i,
    {
        if v[i].0 == seq {
            assert(has_seq(v@, seq)) by {
                assert(v@[i as int].0 == seq);
            }
            return;
        }
        i = i + 1;
    }
    v.push((seq, key));
    prune_entries(v);
}

/// The first key stored for `seq`.
fn lookup_entry(v: &Vec<(u64, [u8; 32])>, seq: u64) -> (r: Option<[u8; 32]>)
    ensures
        r == lookup_seq(v@, seq),
{
    let mut i: usize = 0;
    assert(v@.subrange(0, v@.len() as int) =~= v@);
    while i < v.len()
        invariant
            i <= v@.len(),
            lookup_seq(v@, seq) == lookup_seq(v@.subrange(i as int, v@.len() as int), seq),
        decreases v@.len() - i,
    {
        let ghost rest = v@.subrange(i as int, v@.len() as int);
        assert(rest[0] == v@[i as int]);
        if v[i].0 == seq {
            return Some(v[i].1);
        }
        assert(rest.drop_first() =~= v@.subrange(i + 1, v@.len() as int));
        i = i + 1;
    }
    None
}

/// Ephemeral key material of one side: its X25519 public key, its ML-KEM
/// decapsulation seed and encapsulation key, and the X25519 secret.
#[derive(Clone)]
pub struct EphemeralKeys {
    pub x25519_pk: [u8; 32],
    pub mlkem_dec: MlKem768DecapsulationKey,
    pub mlkem_enc: MlKem768EncapsulationKey,
    x25519_secret: [u8; 32],
}

impl EphemeralKeys {
    /// Assemble ephemeral keys.
    pub fn new(
        x25519_pk: [u8; 32],
        mlkem_dec: MlKem768DecapsulationKey,
        mlkem_enc: MlKem768EncapsulationKey,
        x25519_secret: [u8; 32],
    ) -> (k: Self)
        ensures
            k.public_key() == x25519_pk,
            k.decapsulation_seed() == mlkem_dec@,
            k.encapsulation_key() == mlkem_enc@,
            k.secret() == x25519_secret,
    {
        EphemeralKeys { x25519_pk, mlkem_dec, mlkem_enc, x25519_secret }
    }

    /// The X25519 public key.
    pub closed spec fn public_key(&self) -> [u8; 32] {
        self.x25519_pk
    }

    /// The ML-KEM decapsulation seed.
    pub closed spec fn decapsulation_seed(&self) -> Seq<u8> {
        self.mlkem_dec@
    }

    /// The ML-KEM encapsulation key.
    pub closed spec fn encapsulation_key(&self) -> Seq<u8> {
        self.mlkem_enc@
    }

    /// The X25519 secret.
    pub closed spec fn secret(&self) -> [u8; 32] {
        self.x25519_secret
    }
}

/// The state of one side of a KEM ratchet session.
#[derive(Clone)]
pub struct KemRatchetState {
    pub base: RatchetStateBase,
    pub our_ephemeral: EphemeralKeys,
    pub their_mlkem_enc: MlKem768EncapsulationKey,
    pub their_x25519_pk: [u8; 32],
    pub skipped_keys: Vec<(u64, [u8; 32])>,
    pub send_seq: u64,
    pub recv_seq: u64,
    pub state: RatchetState,
}

/// Everything but the two chain keys, the two positions and the key table
/// is equal.
pub open spec fn same_but_chains(a: KemRatchetState, b: KemRatchetState) -> bool {
    &&& b.base.root_key == a.base.root_key
    &&& b.base.send_message_counter == a.base.send_message_counter
    &&& b.base.recv_message_counter == a.base.recv_message_counter
    &&& b.base.is_initiator == a.base.is_initiator
    &&& b.our_ephemeral == a.our_ephemeral
    &&& b.their_mlkem_enc == a.their_mlkem_enc
    &&& b.their_x25519_pk == a.their_x25519_pk
    &&& b.state == a.state
}

/// The state after one step of the sending chain with secret `ss`.
pub open spec fn sent_step(a: KemRatchetState, ss: Seq<u8>, b: KemRatchetState) -> bool {
    &&& same_but_chains(a, b)
    &&& b.base.recv_chain_key == a.base.recv_chain_key
    &&& b.recv_seq == a.recv_seq
    &&& b.send_seq == a.send_seq + 1
    &&& b.base.send_chain_key@ == kem_chain_step(a.base.send_chain_key@, ss).1
    &&& stored(a.skipped_keys@, a.send_seq, step_key(a.base.send_chain_key@, ss), b.skipped_keys@)
}

/// The state after the receiving chain has been advanced `n` steps with
/// secret `ss`.
pub open spec fn received_steps(a: KemRatchetState, ss: Seq<u8>, n: nat, b: KemRatchetState) -> bool {
    &&& same_but_chains(a, b)
    &&& b.base.send_chain_key == a.base.send_chain_key
    &&& b.send_seq == a.send_seq
    &&& b.recv_seq == a.recv_seq + n
    &&& b.base.recv_chain_key@ == chain_after(a.base.recv_chain_key@, ss, n)
    &&& stored_run(a.skipped_keys@, a.recv_seq as int, a.base.recv_chain_key@, ss, n, b.skipped_keys@)
}

/// How many receiving steps bring the position past message number `seq`.
pub open spec fn steps_to(recv_seq: u64, seq: u64) -> nat {
    if recv_seq <= seq {
        (seq + 1 - recv_seq) as nat
    } else {
        0
    }
}

/// Whether a message number is too far ahead of the receive position.
pub open spec fn too_far_ahead(recv_seq: u64, seq: u64) -> bool {
    seq > recv_seq && seq - recv_seq > MAX_SKIP_AHEAD
}

/// The message for a message number `gap` positions ahead.
pub open spec fn gap_message(gap: nat) -> Seq<char> {
    "seq gap too large: "@ + decimal(gap) + " > "@ + decimal(MAX_SKIP_AHEAD as nat)
}

/// The refusal of a message number `gap` positions ahead.
fn gap_error(gap: u64) -> (e: PqError)
    ensures
        e matches PqError::DerivationFailed(m) && m@ == gap_message(gap as nat),
{
    proof {
        reveal_strlit("seq gap too large: ");
        reveal_strlit(" > ");
        reveal_strlit("");
    }
    let m = text_with_two_numbers("seq gap too large: ", gap, " > ", MAX_SKIP_AHEAD, "");
    assert(m@ =~= gap_message(gap as nat));
    PqError::DerivationFailed(m)
}

/// What decrypting with the table `table` gives for message number `seq`.
pub open spec fn decrypt_outcome(
    table: Seq<(u64, [u8; 32])>,
    seq: u64,
    nonce: Seq<u8>,
    ct: Seq<u8>,
    r: Result<Vec<u8>, PqError>,
) -> bool {
    match lookup_seq(table, seq) {
        None => r matches Err(PqError::DecapsulationFailed(_)),
        Some(k) => match aes256gcm_open(k@, nonce, Seq::empty(), ct) {
            Some(pt) => r matches Ok(p) && p@ == pt,
            None => r matches Err(PqError::DecapsulationFailed(_)),
        },
    }
}

impl KemRatchetState {
    /// A fresh session state awaiting the peer's KEM response, with both
    /// positions at zero and an empty key table.
    pub fn new(
        base: RatchetStateBase,
        our_ephemeral: EphemeralKeys,
        their_mlkem_enc: MlKem768EncapsulationKey,
        their_x25519_pk: [u8; 32],
    ) -> (s: Self)
        ensures
            s.base == base,
            s.our_ephemeral == our_ephemeral,
            s.their_mlkem_enc == their_mlkem_enc,
            s.their_x25519_pk == their_x25519_pk,
            s.skipped_keys@ == Seq::<(u64, [u8; 32])>::empty(),
            s.send_seq == 0,
            s.recv_seq == 0,
            s.state == RatchetState::AwaitingKemResponse,
    {
        KemRatchetState {
            base,
            our_ephemeral,
            their_mlkem_enc,
            their_x25519_pk,
            skipped_keys: Vec::new(),
            send_seq: 0,
            recv_seq: 0,
            state: RatchetState::AwaitingKemResponse,
        }
    }

    /// One chain step: the message key and the next chain key.
    pub fn derive_message_key(chain_key: &[u8; 32], combined_ss: &[u8; 32]) -> (r: Result<([u8; 32], [u8; 32]), PqError>)
        ensures
            r matches Ok((mk, ck)) && (mk@, ck@) == kem_chain_step(chain_key@, combined_ss@),
    {
        let mut input: Vec<u8> = slice_to_vec(chain_key.as_slice());
        input.extend_from_slice(combined_ss.as_slice());
        assert(input@ == chain_key@ + combined_ss@);
        let info = "add-pq-ratchet-msg-key-v1".as_bytes();
        match hkdf_sha256_expand(None, input.as_slice(), info, 64) {
            Some(output) => {
                let mk = to_array32(&output.as_slice()[0..32]);
                let ck = to_array32(&output.as_slice()[32..64]);
                assert(mk@ =~= output@.subrange(0, 32));
                assert(ck@ =~= output@.subrange(32, 64));
                Ok((mk, ck))
            },
            None => Err(PqError::DerivationFailed("message key".to_string())),
        }
    }

    /// Advance the sending chain, remembering the message key under the
    /// current send position.
    fn advance_send_chain(&mut self, combined_ss: &[u8; 32]) -> (r: Result<(), PqError>)
        requires
            old(self).send_seq < u64::MAX,
        ensures
            r is Ok,
            sent_step(*old(self), combined_ss@, *final(self)),
    {
        let (msg_key, new_chain_key) = match Self::derive_message_key(&self.base.send_chain_key, combined_ss) {
            Ok(pair) => pair,
            Err(e) => return Err(e),
        };
        proof {
            lemma_key32(msg_key);
        }
        store_entry(&mut self.skipped_keys, self.send_seq, msg_key);
        self.base.send_chain_key = new_chain_key;
        self.send_seq = self.send_seq + 1;
        Ok(())
    }

    /// Advance the receiving chain, remembering the message key under the
    /// current receive position.
    fn advance_recv_chain(&mut self, combined_ss: &[u8; 32]) -> (r: Result<(), PqError>)
        requires
            old(self).recv_seq < u64::MAX,
        ensures
            r is Ok,
            same_but_chains(*old(self), *final(self)),
            final(self).base.send_chain_key == old(self).base.send_chain_key,
            final(self).send_seq == old(self).send_seq,
            final(self).recv_seq == old(self).recv_seq + 1,
            final(self).base.recv_chain_key@ == kem_chain_step(old(self).base.recv_chain_key@, combined_ss@).1,
            stored(
                old(self).skipped_keys@,
                old(self).recv_seq,
                step_key(old(self).base.recv_chain_key@, combined_ss@),
                final(self).skipped_keys@,
            ),
    {
        let (msg_key, new_chain_key) = match Self::derive_message_key(&self.base.recv_chain_key, combined_ss) {
            Ok(pair) => pair,
            Err(e) => return Err(e),
        };
        proof {
            lemma_key32(msg_key);
        }
        store_entry(&mut self.skipped_keys, self.recv_seq, msg_key);
        self.base.recv_chain_key = new_chain_key;
        self.recv_seq = self.recv_seq + 1;
        Ok(())
    }

    /// Remember `msg_key` for message number `seq`, unless one is already
    /// stored for it; over the bound, the oldest entry is dropped.
    pub fn store_skipped_key(&mut self, seq: u64, msg_key: [u8; 32])
        ensures
            stored(old(self).skipped_keys@, seq, msg_key, final(self).skipped_keys@),
            same_but_chains(*old(self), *final(self)),
            final(self).base == old(self).base,
            final(self).send_seq == old(self).send_seq,
            final(self).recv_seq == old(self).recv_seq,
    {
        store_entry(&mut self.skipped_keys, seq, msg_key);
    }

    /// The first key remembered for message number `seq`.
    pub fn get_message_key(&self, seq: u64) -> (r: Option<[u8; 32]>)
        ensures
            r == lookup_seq(self.skipped_keys@, seq),
    {
        lookup_entry(&self.skipped_keys, seq)
    }

    /// Over the bound, sort the table and drop its oldest entry.
    pub fn prune_skipped_keys(&mut self)
        ensures
            pruned_to(old(self).skipped_keys@, final(self).skipped_keys@),
            same_but_chains(*old(self), *final(self)),
            final(self).base == old(self).base,
            final(self).send_seq == old(self).send_seq,
            final(self).recv_seq == old(self).recv_seq,
    {
        prune_entries(&mut self.skipped_keys);
    }

    /// Encrypt with the next sending key under a nonce derived from 12
    /// random bytes: the first two are masked with the root key's first
    /// byte.  The key is the one the table holds for the send position
    /// after the step (the fresh key, unless that position already had an
    /// entry).
    pub fn encrypt_with_random(&mut self, plaintext: &[u8], combined_ss: &[u8; 32], random: [u8; 12]) -> (r: Result<(Vec<u8>, [u8; 12]), PqError>)
        requires
            old(self).send_seq < u64::MAX,
        ensures
            sent_step(*old(self), combined_ss@, *final(self)),
            match lookup_seq(final(self).skipped_keys@, old(self).send_seq) {
                None => r matches Err(PqError::DerivationFailed(_)),
                Some(k) => {
                    &&& plaintext@.len() <= aes_gcm_max_len() ==> r is Ok
                    &&& r matches Ok((ct, nonce)) ==> {
                        &&& nonce@ == masked_nonce(random@, old(self).base.root_key[0])
                        &&& ct@ == aes256gcm_seal(k@, nonce@, Seq::empty(), plaintext@)
                    }
                    &&& r is Err ==> r matches Err(PqError::EncapsulationFailed(_))
                },
            },
    {
        match self.advance_send_chain(combined_ss) {
            Ok(()) => {},
            Err(e) => return Err(e),
        }
        let msg_key = match self.get_message_key(self.send_seq - 1) {
            Some(k) => k,
            None => return Err(PqError::DerivationFailed("missing msg key".to_string())),
        };
        let epoch_byte = self.base.root_key[0];
        let mut nonce = random;
        nonce[0] = nonce[0] ^ epoch_byte;
        nonce[1] = nonce[1] ^ epoch_byte;
        assert(nonce@ =~= masked_nonce(random@, epoch_byte));
        let empty: [u8; 0] = [];
        match aes256gcm_encrypt(msg_key.as_slice(), nonce.as_slice(), empty.as_slice(), plaintext) {
            Some(ct) => {
                assert(empty@ =~= Seq::<u8>::empty());
                Ok((ct, nonce))
            },
            None => Err(PqError::EncapsulationFailed("AES-GCM encrypt".to_string())),
        }
    }

    /// Encrypt with the next sending key under a fresh random nonce whose
    /// first two bytes are masked with the root key's first byte.
    pub fn encrypt_message(&mut self, plaintext: &[u8], combined_ss: &[u8; 32]) -> (r: Result<(Vec<u8>, [u8; 12]), PqError>)
        requires
            old(self).send_seq < u64::MAX,
        ensures
            sent_step(*old(self), combined_ss@, *final(self)),
            match lookup_seq(final(self).skipped_keys@, old(self).send_seq) {
                None => r matches Err(PqError::DerivationFailed(_)),
                Some(k) => {
                    &&& plaintext@.len() <= aes_gcm_max_len() ==> r is Ok
                    &&& r matches Ok((ct, nonce)) ==> ct@ == aes256gcm_seal(k@, nonce@, Seq::empty(), plaintext@)
                    &&& r is Err ==> r matches Err(PqError::EncapsulationFailed(_))
                },
            },
    {
        let random = random_bytes(12);
        let random = to_array12(random.as_slice());
        self.encrypt_with_random(plaintext, combined_ss, random)
    }

    /// Advance the receiving chain until its position is past `seq`,
    /// remembering every key on the way.
    fn catch_up_recv(&mut self, seq: u64, combined_ss: &[u8; 32])
        requires
            seq < u64::MAX,
        ensures
            received_steps(*old(self), combined_ss@, steps_to(old(self).recv_seq, seq), *final(self)),
    {
        let ghost a = *self;
        let ghost ss = combined_ss@;
        let ghost mut trail: Seq<Seq<(u64, [u8; 32])>> = seq![a.skipped_keys@];
        assert(stored_trail(a.skipped_keys@, a.recv_seq as int, a.base.recv_chain_key@, ss, 0, a.skipped_keys@, trail));
        while self.recv_seq <= seq
            invariant
                seq < u64::MAX,
                a.recv_seq <= self.recv_seq,
                self.recv_seq > a.recv_seq ==> self.recv_seq <= seq + 1,
                ss == combined_ss@,
                received_steps(a, ss, (self.recv_seq - a.recv_seq) as nat, *self),
                stored_trail(
                    a.skipped_keys@,
                    a.recv_seq as int,
                    a.base.recv_chain_key@,
                    ss,
                    (self.recv_seq - a.recv_seq) as nat,
                    self.skipped_keys@,
                    trail,
                ),
            decreases seq + 1 - self.recv_seq,
        {
            let ghost before = *self;
            let ghost n = (self.recv_seq - a.recv_seq) as nat;
            match self.advance_recv_chain(combined_ss) {
                Ok(()) => {},
                Err(_) => {},
            }
            proof {
                let t2 = trail.push(self.skipped_keys@);
                assert(before.base.recv_chain_key@ == chain_after(a.base.recv_chain_key@, ss, n));
                assert forall|i: int| 0 <= i < n + 1 implies stored(
                    #[trigger] t2[i],
                    (a.recv_seq as int + i) as u64,
                    step_key(chain_after(a.base.recv_chain_key@, ss, i as nat), ss),
                    t2[i + 1],
                ) by {
                    if i < n {
                        assert(t2[i] == trail[i]);
                        assert(t2[i + 1] == trail[i + 1]);
                    } else {
                        assert(t2[i] == before.skipped_keys@);
                    }
                }
                trail = t2;
                assert(stored_trail(
                    a.skipped_keys@,
                    a.recv_seq as int,
                    a.base.recv_chain_key@,
                    ss,
                    (self.recv_seq - a.recv_seq) as nat,
                    self.skipped_keys@,
                    trail,
                ));
            }
        }
        assert((self.recv_seq - a.recv_seq) as nat == steps_to(a.recv_seq, seq));
    }

    /// Decrypt message `seq`: advance the receiving chain past `seq`
    /// (remembering every key on the way), then decrypt with the key the
    /// table holds for `seq`.  Refused when `seq` is more than
    /// `MAX_SKIP_AHEAD` ahead of the receive position.
    pub fn decrypt_message(&mut self, seq: u64, combined_ss: &[u8; 32], nonce: &[u8; 12], ciphertext: &[u8]) -> (r: Result<Vec<u8>, PqError>)
        requires
            seq < u64::MAX,
        ensures
            too_far_ahead(old(self).recv_seq, seq) ==> {
                &&& r matches Err(PqError::DerivationFailed(m)) && m@ == gap_message((seq - old(self).recv_seq) as nat)
                &&& *final(self) == *old(self)
            },
            !too_far_ahead(old(self).recv_seq, seq) ==> {
                &&& received_steps(*old(self), combined_ss@, steps_to(old(self).recv_seq, seq), *final(self))
                &&& decrypt_outcome(final(self).skipped_keys@, seq, nonce@, ciphertext@, r)
            },
    {
        if seq > self.recv_seq && seq - self.recv_seq > MAX_SKIP_AHEAD {
            return Err(gap_error(seq - self.recv_seq));
        }
        self.catch_up_recv(seq, combined_ss);
        let msg_key = match self.get_message_key(seq) {
            Some(k) => k,
            None => return Err(PqError::DecapsulationFailed("missing msg key for seq".to_string())),
        };
        let empty: [u8; 0] = [];
        assert(empty@ =~= Seq::<u8>::empty());
        match aes256gcm_decrypt(msg_key.as_slice(), nonce.as_slice(), empty.as_slice(), ciphertext) {
            Some(pt) => Ok(pt),
            None => Err(PqError::DecapsulationFailed("AES-GCM decrypt / auth failure".to_string())),
        }
    }
}

/// Lookup finds an entry exactly when the table has one, and appending an
/// entry only adds a result for its own message number when none was there.
pub proof fn lemma_lookup_push(s: Seq<(u64, [u8; 32])>, e: (u64, [u8; 32]), k: u64)
    ensures
        lookup_seq(s, k) is None <==> !has_seq(s, k),
        lookup_seq(s.push(e), k) == (match lookup_seq(s, k) {
            Some(v) => Some(v),
            None => if e.0 == k { Some(e.1) } else { None },
        }),
    decreases s.len(),
{
    if s.len() == 0 {
        assert(s.push(e)[0] == e);
        assert(s.push(e).drop_first() =~= Seq::<(u64, [u8; 32])>::empty());
        assert(lookup_seq(s.push(e).drop_first(), k) is None);
    } else {
        lemma_lookup_push(s.drop_first(), e, k);
        assert(s.push(e).drop_first() =~= s.drop_first().push(e));
        assert(s.push(e)[0] == s[0]);
        if has_seq(s, k) && s[0].0 != k {
            let i = choose|i: int| 0 <= i < s.len() && (#[trigger] s[i]).0 == k;
            assert(s.drop_first()[i - 1] == s[i]);
        }
        if has_seq(s.drop_first(), k) {
            let i = choose|i: int| 0 <= i < s.drop_first().len() && (#[trigger] s.drop_first()[i]).0 == k;
            assert(s[i + 1] == s.drop_first()[i]);
        }
    }
}

/// Storing a key for a new message number in a table below its bound makes
/// that key the one found for the number, and leaves every other lookup as
/// it was.
pub proof fn law_store_then_lookup(s: Seq<(u64, [u8; 32])>, seq: u64, key: [u8; 32], new: Seq<(u64, [u8; 32])>, other: u64)
    requires
        !has_seq(s, seq),
        s.len() < MAX_SKIPPED_KEYS,
        stored(s, seq, key, new),
    ensures
        lookup_seq(new, seq) == Some(key),
        other != seq ==> lookup_seq(new, other) == lookup_seq(s, other),
{
    lemma_lookup_push(s, (seq, key), seq);
    lemma_lookup_push(s, (seq, key), other);
}

/// Sender and receiver agree: when the sender's chain key and position are
/// the receiver's, and neither table already holds that position (nor is
/// full), one sending step and one receiving step store the same message
/// key under the same number and leave equal chain keys.
pub proof fn law_kem_chains_agree(
    a: KemRatchetState,
    a2: KemRatchetState,
    b: KemRatchetState,
    b2: KemRatchetState,
    ss: Seq<u8>,
)
    requires
        sent_step(a, ss, a2),
        received_steps(b, ss, 1, b2),
        a.base.send_chain_key == b.base.recv_chain_key,
        a.send_seq == b.recv_seq,
        !has_seq(a.skipped_keys@, a.send_seq),
        a.skipped_keys@.len() < MAX_SKIPPED_KEYS,
        !has_seq(b.skipped_keys@, b.recv_seq),
        b.skipped_keys@.len() < MAX_SKIPPED_KEYS,
    ensures
        lookup_seq(a2.skipped_keys@, a.send_seq) == Some(step_key(a.base.send_chain_key@, ss)),
        lookup_seq(b2.skipped_keys@, b.recv_seq) == Some(step_key(a.base.send_chain_key@, ss)),
        a2.base.send_chain_key == b2.base.recv_chain_key,
        a2.send_seq == b2.recv_seq,
{
    law_store_then_lookup(a.skipped_keys@, a.send_seq, step_key(a.base.send_chain_key@, ss), a2.skipped_keys@, a.send_seq);
    let trail = choose|t: Seq<Seq<(u64, [u8; 32])>>|
        #[trigger] stored_trail(b.skipped_keys@, b.recv_seq as int, b.base.recv_chain_key@, ss, 1, b2.skipped_keys@, t);
    assert(stored(trail[0], (b.recv_seq as int + 0) as u64, step_key(chain_after(b.base.recv_chain_key@, ss, 0), ss), trail[1]));
    law_store_then_lookup(b.skipped_keys@, b.recv_seq, step_key(b.base.recv_chain_key@, ss), b2.skipped_keys@, b.recv_seq);
    assert(chain_after(b.base.recv_chain_key@, ss, 1) == kem_chain_step(b.base.recv_chain_key@, ss).1);
    assert(a2.base.send_chain_key@ == b2.base.recv_chain_key@);
    assert(a2.base.send_chain_key =~= b2.base.recv_chain_key);
}

/// The double-ratchet interface kept for earlier callers, over a KEM
/// ratchet state.
#[derive(Clone)]
pub struct PqDoubleRatchet {
    pub inner: KemRatchetState,
}

impl PqDoubleRatchet {
    /// Wrap the ratchet state of a PQXDH handshake.  Our ephemeral ML-KEM
    /// keys are placeholders: the all-zero decapsulation seed and the
    /// peer's encapsulation key; the X25519 secret slot holds our public key.
    pub fn from_pqxdh(
        base: PqxDhRatchetState,
        our_ephemeral_pk: [u8; 32],
        their_ephemeral_pk: [u8; 32],
        their_mlkem_enc: MlKem768EncapsulationKey,
    ) -> (r: Self)
        ensures
            r.inner.base.root_key == base.root_key,
            r.inner.base.send_chain_key == base.send_chain_key,
            r.inner.base.recv_chain_key == base.recv_chain_key,
            r.inner.base.send_message_counter == base.send_message_counter,
            r.inner.base.recv_message_counter == base.recv_message_counter,
            r.inner.base.is_initiator == base.is_initiator,
            r.inner.our_ephemeral.public_key() == our_ephemeral_pk,
            r.inner.our_ephemeral.decapsulation_seed() == Seq::new(64, |i: int| 0u8),
            r.inner.our_ephemeral.encapsulation_key() == their_mlkem_enc@,
            r.inner.our_ephemeral.secret() == our_ephemeral_pk,
            r.inner.their_mlkem_enc == their_mlkem_enc,
            r.inner.their_x25519_pk == their_ephemeral_pk,
            r.inner.skipped_keys@ == Seq::<(u64, [u8; 32])>::empty(),
            r.inner.send_seq == 0,
            r.inner.recv_seq == 0,
            r.inner.state == RatchetState::AwaitingKemResponse,
    {
        let base_inner = RatchetStateBase {
            root_key: base.root_key,
            send_chain_key: base.send_chain_key,
            recv_chain_key: base.recv_chain_key,
            send_message_counter: base.send_message_counter,
            recv_message_counter: base.recv_message_counter,
            is_initiator: base.is_initiator,
        };
        let zero: [u8; 64] = [0u8; 64];
        assert(zero@ =~= Seq::new(64, |i: int| 0u8));
        let zero_seed = MlKem768DecapsulationKey::from_seed(&zero);
        let enc_copy = their_mlkem_enc.clone();
        let our_ephemeral = EphemeralKeys::new(our_ephemeral_pk, zero_seed, enc_copy, our_ephemeral_pk);
        let inner = KemRatchetState::new(base_inner, our_ephemeral, their_mlkem_enc, their_ephemeral_pk);
        PqDoubleRatchet { inner }
    }

    /// One chain step: the message key and the next chain key.
    pub fn derive_message_key(chain_key: &[u8; 32], combined_ss: &[u8; 32]) -> (r: Result<([u8; 32], [u8; 32]), PqError>)
        ensures
            r matches Ok((mk, ck)) && (mk@, ck@) == kem_chain_step(chain_key@, combined_ss@),
    {
        KemRatchetState::derive_message_key(chain_key, combined_ss)
    }

    /// The first key remembered for message number `seq`.
    pub fn get_skipped_key(&self, seq: u64) -> (r: Option<[u8; 32]>)
        ensures
            r == lookup_seq(self.inner.skipped_keys@, seq),
    {
        self.inner.get_message_key(seq)
    }

    /// Remember `msg_key` for message number `seq` (see
    /// `KemRatchetState::store_skipped_key`).
    pub fn store_skipped_key(&mut self, seq: u64, msg_key: [u8; 32])
        ensures
            stored(old(self).inner.skipped_keys@, seq, msg_key, final(self).inner.skipped_keys@),
            same_but_chains(old(self).inner, final(self).inner),
            final(self).inner.base == old(self).inner.base,
            final(self).inner.send_seq == old(self).inner.send_seq,
            final(self).inner.recv_seq == old(self).inner.recv_seq,
    {
        self.inner.store_skipped_key(seq, msg_key);
    }

    /// Over the bound, drop the oldest remembered key.
    pub fn prune_skipped_keys(&mut self)
        ensures
            pruned_to(old(self).inner.skipped_keys@, final(self).inner.skipped_keys@),
            same_but_chains(old(self).inner, final(self).inner),
            final(self).inner.base == old(self).inner.base,
            final(self).inner.send_seq == old(self).inner.send_seq,
            final(self).inner.recv_seq == old(self).inner.recv_seq,
    {
        self.inner.prune_skipped_keys();
    }

    /// An epoch change with the given ephemeral X25519 secret and ML-KEM
    /// message: our ephemeral public key becomes that of the new secret,
    /// and the sending chain key is re-derived from the secret combining
    /// the X25519 agreement with the peer's ephemeral key and an
    /// encapsulation to the peer's ML-KEM key, bound to our key pair's
    /// X25519 key.
    pub fn ratchet_epoch_with(
        &mut self,
        our_keypair: &HybridKeypair,
        peer_mlkem_enc: &MlKem768EncapsulationKey,
        eph_secret: &[u8; 32],
        m: &[u8; 32],
    ) -> (r: Result<(HybridCiphertext, HybridSharedSecret), PqError>)
        ensures
            ({
                let (x, c, ss) = ratchet_step_of(
                    our_keypair.public(),
                    peer_mlkem_enc@,
                    old(self).inner.their_x25519_pk@,
                    eph_secret@,
                    m@,
                );
                &&& r matches Ok((ct, secret)) && ct.x25519_ct@ == x && ct.mlkem_ct@ == c && secret@ == ss
                &&& final(self).inner.base.send_chain_key@ == hkdf_sha256(
                    Some(old(self).inner.base.send_chain_key@),
                    ss,
                    chain_update_info(),
                    32,
                )
                &&& final(self).inner.our_ephemeral.public_key()@ == x
            }),
            final(self).inner.our_ephemeral.decapsulation_seed() == old(self).inner.our_ephemeral.decapsulation_seed(),
            final(self).inner.our_ephemeral.encapsulation_key() == old(self).inner.our_ephemeral.encapsulation_key(),
            final(self).inner.our_ephemeral.secret() == old(self).inner.our_ephemeral.secret(),
            final(self).inner.base.root_key == old(self).inner.base.root_key,
            final(self).inner.base.recv_chain_key == old(self).inner.base.recv_chain_key,
            final(self).inner.their_x25519_pk == old(self).inner.their_x25519_pk,
            final(self).inner.their_mlkem_enc == old(self).inner.their_mlkem_enc,
            final(self).inner.skipped_keys == old(self).inner.skipped_keys,
            final(self).inner.send_seq == old(self).inner.send_seq,
            final(self).inner.recv_seq == old(self).inner.recv_seq,
    {
        let new_pk = x25519_public(eph_secret);
        self.inner.our_ephemeral.x25519_pk = new_pk;
        let dh = x25519_diffie_hellman(eph_secret, &self.inner.their_x25519_pk);
        let (mlkem_ct, mlkem_ss) = mlkem768_encapsulate_to(peer_mlkem_enc, m.as_slice());
        let our_pub = our_keypair.x25519_public();
        let combined_ss = combine_shared_secrets(&dh, mlkem_ss.as_slice(), &new_pk, &our_pub);
        let ct = HybridCiphertext { x25519_ct: new_pk, mlkem_ct };
        let new_chain_key = match hkdf_sha256_expand(
            Some(self.inner.base.send_chain_key.as_slice()),
            combined_ss.as_bytes().as_slice(),
            "add-pq-ratchet-chain-update-v1".as_bytes(),
            32,
        ) {
            Some(k) => k,
            None => return Err(PqError::DerivationFailed("ratchet chain update".to_string())),
        };
        self.inner.base.send_chain_key = to_array32(new_chain_key.as_slice());
        Ok((ct, combined_ss))
    }

    /// An epoch change with a fresh ephemeral secret and ML-KEM message.
    pub fn ratchet_epoch(&mut self, our_keypair: &HybridKeypair, peer_mlkem_enc: &MlKem768EncapsulationKey) -> (r: Result<
        (HybridCiphertext, HybridSharedSecret),
        PqError,
    >)
        ensures
            exists|eph: Seq<u8>, m: Seq<u8>| {
                let (x, c, ss) = #[trigger] ratchet_step_of(
                    our_keypair.public(),
                    peer_mlkem_enc@,
                    old(self).inner.their_x25519_pk@,
                    eph,
                    m,
                );
                &&& eph.len() == 32 && m.len() == 32
                &&& r matches Ok((ct, secret)) && ct.x25519_ct@ == x && ct.mlkem_ct@ == c && secret@ == ss
                &&& final(self).inner.base.send_chain_key@ == hkdf_sha256(
                    Some(old(self).inner.base.send_chain_key@),
                    ss,
                    chain_update_info(),
                    32,
                )
                &&& final(self).inner.our_ephemeral.public_key()@ == x
            },
            final(self).inner.base.root_key == old(self).inner.base.root_key,
            final(self).inner.base.recv_chain_key == old(self).inner.base.recv_chain_key,
            final(self).inner.skipped_keys == old(self).inner.skipped_keys,
            final(self).inner.send_seq == old(self).inner.send_seq,
            final(self).inner.recv_seq == old(self).inner.recv_seq,
    {
        let eph = to_array32(random_bytes(32).as_slice());
        let m = to_array32(random_bytes(32).as_slice());
        self.ratchet_epoch_with(our_keypair, peer_mlkem_enc, &eph, &m)
    }

    /// Re-derive the root key from the X25519 agreement of the given
    /// ephemeral secret with a peer's ephemeral key.
    pub fn update_root_key_with(&mut self, peer_eph_pk: &[u8; 32], eph_secret: &[u8; 32]) -> (r: Result<(), PqError>)
        ensures
            r is Ok,
            final(self).inner.base.root_key@ == hkdf_sha256(
                Some(old(self).inner.base.root_key@),
                x25519_shared(eph_secret@, peer_eph_pk@),
                root_update_info(),
                32,
            ),
            final(self).inner.base.send_chain_key == old(self).inner.base.send_chain_key,
            final(self).inner.base.recv_chain_key == old(self).inner.base.recv_chain_key,
            final(self).inner.our_ephemeral == old(self).inner.our_ephemeral,
            final(self).inner.skipped_keys == old(self).inner.skipped_keys,
            final(self).inner.send_seq == old(self).inner.send_seq,
            final(self).inner.recv_seq == old(self).inner.recv_seq,
    {
        let dh = x25519_diffie_hellman(eph_secret, peer_eph_pk);
        let new_root = match hkdf_sha256_expand(
            Some(self.inner.base.root_key.as_slice()),
            dh.as_slice(),
            "add-pq-ratchet-root-update-v1".as_bytes(),
            32,
        ) {
            Some(k) => k,
            None => return Err(PqError::DerivationFailed("root key update".to_string())),
        };
        self.inner.base.root_key = to_array32(new_root.as_slice());
        Ok(())
    }

    /// Re-derive the root key from a fresh ephemeral agreement with a peer.
    pub fn update_root_key(&mut self, peer_eph_pk: &[u8; 32]) -> (r: Result<(), PqError>)
        ensures
            r is Ok,
            exists|eph: Seq<u8>|
                eph.len() == 32 && final(self).inner.base.root_key@ == hkdf_sha256(
                    Some(old(self).inner.base.root_key@),
                    #[trigger] x25519_shared(eph, peer_eph_pk@),
                    root_update_info(),
                    32,
                ),
            final(self).inner.base.send_chain_key == old(self).inner.base.send_chain_key,
            final(self).inner.base.recv_chain_key == old(self).inner.base.recv_chain_key,
            final(self).inner.skipped_keys == old(self).inner.skipped_keys,
    {
        let eph = to_array32(random_bytes(32).as_slice());
        self.update_root_key_with(peer_eph_pk, &eph)
    }

    /// Advance the sending chain and return, in place of the message
    /// ciphertext, a hybrid ciphertext of our ephemeral X25519 key and an
    /// encapsulation (with message `m`) to our own ML-KEM key, with the
    /// nonce (derived from `random`).
    pub fn encrypt_message_with(
        &mut self,
        plaintext: &[u8],
        combined_ss: &[u8; 32],
        random: [u8; 12],
        m: &[u8; 32],
    ) -> (r: Result<(HybridCiphertext, Vec<u8>), PqError>)
        requires
            old(self).inner.send_seq < u64::MAX,
        ensures
            sent_step(old(self).inner, combined_ss@, final(self).inner),
            match lookup_seq(final(self).inner.skipped_keys@, old(self).inner.send_seq) {
                None => r matches Err(PqError::DerivationFailed(_)),
                Some(k) => {
                    &&& plaintext@.len() <= aes_gcm_max_len() ==> r is Ok
                    &&& r matches Ok((ct, nonce)) ==> {
                        &&& nonce@ == masked_nonce(random@, old(self).inner.base.root_key[0])
                        &&& ct.x25519_ct == old(self).inner.our_ephemeral.public_key()
                        &&& ct.mlkem_ct@ == mlkem768_encaps(old(self).inner.our_ephemeral.encapsulation_key(), m@).0
                        &&& ct.mlkem_ct@.len() == MLKEM768_CT_SIZE
                    }
                    &&& r is Err ==> r matches Err(PqError::EncapsulationFailed(_))
                },
            },
    {
        let (_ciphertext, nonce) = match self.inner.encrypt_with_random(plaintext, combined_ss, random) {
            Ok(p) => p,
            Err(e) => return Err(e),
        };
        let (mlkem_ct, _) = mlkem768_encapsulate_to(&self.inner.our_ephemeral.mlkem_enc, m.as_slice());
        let ct = HybridCiphertext { x25519_ct: self.inner.our_ephemeral.x25519_pk, mlkem_ct };
        Ok((ct, slice_to_vec(nonce.as_slice())))
    }

    /// `encrypt_message_with` on fresh random values.
    pub fn encrypt_message(&mut self, plaintext: &[u8], combined_ss: &[u8; 32]) -> (r: Result<(HybridCiphertext, Vec<u8>), PqError>)
        requires
            old(self).inner.send_seq < u64::MAX,
        ensures
            sent_step(old(self).inner, combined_ss@, final(self).inner),
            match lookup_seq(final(self).inner.skipped_keys@, old(self).inner.send_seq) {
                None => r matches Err(PqError::DerivationFailed(_)),
                Some(k) => {
                    &&& plaintext@.len() <= aes_gcm_max_len() ==> r is Ok
                    &&& r matches Ok((ct, nonce)) ==> ct.x25519_ct == old(self).inner.our_ephemeral.public_key()
                        && nonce@.len() == 12 && ct.mlkem_ct@.len() == MLKEM768_CT_SIZE
                    &&& r is Err ==> r matches Err(PqError::EncapsulationFailed(_))
                },
            },
    {
        let random = to_array12(random_bytes(12).as_slice());
        let m = to_array32(random_bytes(32).as_slice());
        self.encrypt_message_with(plaintext, combined_ss, random, &m)
    }

    /// The message key for `seq`: advance the receiving chain past it and
    /// return the key the table holds for it.  The nonce and ciphertext are
    /// not used.
    pub fn decrypt_message(&mut self, seq: u64, combined_ss: &[u8; 32], _nonce: &[u8; 12], _ciphertext: &[u8]) -> (r: Result<[u8; 32], PqError>)
        requires
            seq < u64::MAX,
        ensures
            too_far_ahead(old(self).inner.recv_seq, seq) ==> {
                &&& r matches Err(PqError::DerivationFailed(m)) && m@ == gap_message((seq - old(self).inner.recv_seq) as nat)
                &&& *final(self) == *old(self)
            },
            !too_far_ahead(old(self).inner.recv_seq, seq) ==> {
                &&& received_steps(old(self).inner, combined_ss@, steps_to(old(self).inner.recv_seq, seq), final(self).inner)
                &&& match lookup_seq(final(self).inner.skipped_keys@, seq) {
                    Some(k) => r == Ok::<[u8; 32], PqError>(k),
                    None => r matches Err(PqError::DecapsulationFailed(_)),
                }
            },
    {
        if seq > self.inner.recv_seq && seq - self.inner.recv_seq > MAX_SKIP_AHEAD {
            return Err(gap_error(seq - self.inner.recv_seq));
        }
        self.inner.catch_up_recv(seq, combined_ss);
        match self.inner.get_message_key(seq) {
            Some(k) => Ok(k),
            None => Err(PqError::DecapsulationFailed("missing msg key".to_string())),
        }
    }
}

/// HKDF context of a root key update.
pub open spec fn root_update_info() -> Seq<u8> {
    "add-pq-ratchet-root-update-v1".spec_bytes()
}

/// HKDF context of a sending-chain update at an epoch change.
pub open spec fn chain_update_info() -> Seq<u8> {
    "add-pq-ratchet-chain-update-v1".spec_bytes()
}

/// The random values one root ratchet step draws: the new X25519 secret,
/// the X25519 bytes and ML-KEM seed of the new key pair, and the ephemeral
/// secret and message of the encapsulation to it.
pub struct RootStepRandomness {
    pub x25519_secret: [u8; 32],
    pub keypair_x25519: [u8; 32],
    pub keypair_seed: [u8; 64],
    pub encaps_eph: [u8; 32],
    pub encaps_m: [u8; 32],
}

/// The ciphertext a root step sends: the new X25519 public key and the
/// ML-KEM ciphertext of the context-bound encapsulation to the new key pair.
pub open spec fn root_step_ct(s: KemRatchetState, rnd: RootStepRandomness) -> (Seq<u8>, Seq<u8>) {
    let kp_secret = x25519_public_of(rnd.keypair_x25519@);
    let kp_public = x25519_public_of(kp_secret);
    let kp_enc = mlkem768_ek_of_seed(rnd.keypair_seed@);
    let ctx = kem_context(s.base.root_key[0] as u64, s.send_seq);
    (x25519_public_of(rnd.x25519_secret@), context_encaps_of(kp_public, kp_enc, ctx, rnd.encaps_eph@, rnd.encaps_m@).1)
}

/// The secret a root step combines: the X25519 agreement of the new secret
/// with the peer, the context-bound decapsulation of the peer's response
/// with our current ML-KEM seed, bound to the response's X25519 part and
/// our new public key.
pub open spec fn root_step_secret(s: KemRatchetState, rnd: RootStepRandomness, peer_x: Seq<u8>, peer_m: Seq<u8>) -> Seq<u8> {
    let new_pk = x25519_public_of(rnd.x25519_secret@);
    let ctx = kem_context(s.base.root_key[0] as u64, s.recv_seq);
    combined_secret(
        x25519_shared(rnd.x25519_secret@, s.their_x25519_pk@),
        context_decaps_of(s.our_ephemeral.decapsulation_seed(), peer_x, peer_m, ctx),
        peer_x,
        new_pk,
    )
}

impl KemRatchetState {
    /// The KEM ping-pong step with the given random values: a new X25519
    /// key and ML-KEM key pair, an encapsulation to the new key pair under
    /// the sending context, decapsulation of the peer's response under the
    /// receiving context, and a root key update from the combined secret.
    /// A response whose ML-KEM part is not 1088 bytes is refused and the
    /// state is left as it was.
    pub fn advance_root_ratchet_with(&mut self, peer_response_ct: &HybridCiphertext, rnd: &RootStepRandomness) -> (r: Result<
        (HybridCiphertext, HybridSharedSecret),
        PqError,
    >)
        ensures
            peer_response_ct.mlkem_ct@.len() != MLKEM768_CT_SIZE ==> {
                &&& r == Err::<(HybridCiphertext, HybridSharedSecret), PqError>(
                    PqError::InvalidKeyLength { expected: MLKEM768_CT_SIZE, got: peer_response_ct.mlkem_ct@.len() as usize },
                )
                &&& *final(self) == *old(self)
            },
            peer_response_ct.mlkem_ct@.len() == MLKEM768_CT_SIZE ==> {
                let ss = root_step_secret(*old(self), *rnd, peer_response_ct.x25519_ct@, peer_response_ct.mlkem_ct@);
                let new_pk = x25519_public_of(rnd.x25519_secret@);
                &&& r matches Ok((ct, secret)) && (ct.x25519_ct@, ct.mlkem_ct@) == root_step_ct(*old(self), *rnd)
                    && secret@ == ss
                &&& final(self).base.root_key@ == hkdf_sha256(Some(old(self).base.root_key@), ss, root_update_info(), 32)
                &&& final(self).our_ephemeral.public_key()@ == new_pk
                &&& final(self).our_ephemeral.secret()@ == new_pk
                &&& final(self).our_ephemeral.encapsulation_key() == mlkem768_ek_of_seed(rnd.keypair_seed@)
                &&& final(self).our_ephemeral.decapsulation_seed() == seed_of_enc(mlkem768_ek_of_seed(rnd.keypair_seed@))
                &&& final(self).base.send_chain_key == old(self).base.send_chain_key
                &&& final(self).base.recv_chain_key == old(self).base.recv_chain_key
                &&& final(self).base.send_message_counter == old(self).base.send_message_counter
                &&& final(self).base.recv_message_counter == old(self).base.recv_message_counter
                &&& final(self).base.is_initiator == old(self).base.is_initiator
                &&& final(self).their_mlkem_enc == old(self).their_mlkem_enc
                &&& final(self).their_x25519_pk == old(self).their_x25519_pk
                &&& final(self).skipped_keys == old(self).skipped_keys
                &&& final(self).send_seq == old(self).send_seq
                &&& final(self).recv_seq == old(self).recv_seq
                &&& final(self).state == old(self).state
            },
    {
        let new_pk = x25519_public(&rnd.x25519_secret);
        let new_kp = HybridKeypair::from_random(&rnd.keypair_x25519, &rnd.keypair_seed);
        let new_enc = new_kp.mlkem_encapsulation_key();
        let new_dec = seed_to_decap_key(new_enc.to_bytes().as_slice());
        let epoch = self.base.root_key[0] as u64;
        let our_context = make_kem_context(epoch, self.send_seq);
        let (encaps_ct, _) = hybrid_encapsulate_with_context_using(&new_kp, our_context.as_slice(), &rnd.encaps_eph, &rnd.encaps_m);
        let dh = x25519_diffie_hellman(&rnd.x25519_secret, &self.their_x25519_pk);
        let our_ct = HybridCiphertext { x25519_ct: new_pk, mlkem_ct: encaps_ct.mlkem_ct };
        let their_context = make_kem_context(epoch, self.recv_seq);
        let decaps_ss = match hybrid_decapsulate_with_context(&self.our_ephemeral.mlkem_dec, peer_response_ct, their_context.as_slice()) {
            Ok(s) => s,
            Err(e) => return Err(e),
        };
        let combined_ss = combine_shared_secrets(&dh, decaps_ss.as_bytes().as_slice(), &peer_response_ct.x25519_ct, &new_pk);
        self.our_ephemeral = EphemeralKeys::new(new_pk, new_dec, new_enc, new_pk);
        let new_root = match hkdf_sha256_expand(
            Some(self.base.root_key.as_slice()),
            combined_ss.as_bytes().as_slice(),
            "add-pq-ratchet-root-update-v1".as_bytes(),
            32,
        ) {
            Some(k) => k,
            None => return Err(PqError::DerivationFailed("root key update".to_string())),
        };
        self.base.root_key = to_array32(new_root.as_slice());
        Ok((our_ct, combined_ss))
    }

    /// The KEM ping-pong step with fresh random values.
    pub fn advance_root_ratchet(&mut self, peer_response_ct: &HybridCiphertext) -> (r: Result<
        (HybridCiphertext, HybridSharedSecret),
        PqError,
    >)
        ensures
            peer_response_ct.mlkem_ct@.len() != MLKEM768_CT_SIZE ==> {
                &&& r == Err::<(HybridCiphertext, HybridSharedSecret), PqError>(
                    PqError::InvalidKeyLength { expected: MLKEM768_CT_SIZE, got: peer_response_ct.mlkem_ct@.len() as usize },
                )
                &&& *final(self) == *old(self)
            },
            peer_response_ct.mlkem_ct@.len() == MLKEM768_CT_SIZE ==> exists|rnd: RootStepRandomness| {
                let ss = root_step_secret(*old(self), rnd, peer_response_ct.x25519_ct@, peer_response_ct.mlkem_ct@);
                &&& r matches Ok((ct, secret)) && (ct.x25519_ct@, ct.mlkem_ct@) == #[trigger] root_step_ct(*old(self), rnd)
                    && secret@ == ss
                &&& final(self).base.root_key@ == hkdf_sha256(Some(old(self).base.root_key@), ss, root_update_info(), 32)
                &&& final(self).our_ephemeral.public_key()@ == x25519_public_of(rnd.x25519_secret@)
                &&& final(self).skipped_keys == old(self).skipped_keys
                &&& final(self).base.send_chain_key == old(self).base.send_chain_key
                &&& final(self).base.recv_chain_key == old(self).base.recv_chain_key
                &&& final(self).send_seq == old(self).send_seq
                &&& final(self).recv_seq == old(self).recv_seq
            },
    {
        let rnd = RootStepRandomness {
            x25519_secret: to_array32(random_bytes(32).as_slice()),
            keypair_x25519: to_array32(random_bytes(32).as_slice()),
            keypair_seed: to_array64(random_bytes(64).as_slice()),
            encaps_eph: to_array32(random_bytes(32).as_slice()),
            encaps_m: to_array32(random_bytes(32).as_slice()),
        };
        self.advance_root_ratchet_with(peer_response_ct, &rnd)
    }

    /// `handle_kem_request` where it is defined: `None` for a request whose
    /// ML-KEM key parses (there the step cannot complete), otherwise its
    /// answer.
    pub fn try_handle_kem_request(&mut self, msg: &KemRatchetMessage) -> (r: Option<Result<HybridCiphertext, PqError>>)
        ensures
            (msg.mlkem_enc_key@.len() == MLKEM768_PK_SIZE && mlkem768_ek_valid(msg.mlkem_enc_key@)) <==> r is None,
            r matches Some(res) ==> res == Err::<HybridCiphertext, PqError>(
                PqError::InvalidKeyLength { expected: MLKEM768_PK_SIZE, got: msg.mlkem_enc_key@.len() as usize },
            ),
            *final(self) == *old(self),
    {
        match MlKem768EncapsulationKey::from_slice(msg.mlkem_enc_key.as_slice()) {
            Some(_) => None,
            None => Some(self.handle_kem_request(msg)),
        }
    }

    /// Answer a peer's KEM request.  Only a request whose ML-KEM key does
    /// not parse is answered (with the parse error); on a well-formed key
    /// the step cannot complete, so such requests are outside this
    /// function's domain.
    pub fn handle_kem_request(&mut self, msg: &KemRatchetMessage) -> (r: Result<HybridCiphertext, PqError>)
        requires
            !(msg.mlkem_enc_key@.len() == MLKEM768_PK_SIZE && mlkem768_ek_valid(msg.mlkem_enc_key@)),
        ensures
            r == Err::<HybridCiphertext, PqError>(
                PqError::InvalidKeyLength { expected: MLKEM768_PK_SIZE, got: msg.mlkem_enc_key@.len() as usize },
            ),
            *final(self) == *old(self),
    {
        match MlKem768EncapsulationKey::from_slice(msg.mlkem_enc_key.as_slice()) {
            Some(_) => Err(PqError::InvalidKeyLength { expected: MLKEM768_PK_SIZE, got: msg.mlkem_enc_key.len() }),
            None => Err(PqError::InvalidKeyLength { expected: MLKEM768_PK_SIZE, got: msg.mlkem_enc_key.len() }),
        }
    }
}

/// A 12-byte nonce with its first two bytes masked by `epoch_byte`.
pub open spec fn masked_nonce(random: Seq<u8>, epoch_byte: u8) -> Seq<u8> {
    random.update(0, random[0] ^ epoch_byte).update(1, random[1] ^ epoch_byte)
}

/// The message for an overfull key table of `n` entries.
pub open spec fn overfull_message(n: nat) -> Seq<char> {
    "skipped_keys ("@ + decimal(n) + ") exceeds maximum ("@ + decimal(MAX_SKIPPED_KEYS as nat) + ")"@
}

/// The problem `verify_ratchet_properties` reports for a state, if any.
pub open spec fn ratchet_problem(s: KemRatchetState) -> Option<Seq<char>> {
    if s.base.send_chain_key@ == Seq::new(32, |i: int| 0u8) && s.send_seq > 0 {
        Some("send chain key not advanced after messages"@)
    } else if s.send_seq > 1_000_000 || s.recv_seq > 1_000_000 {
        Some("message counter overflow"@)
    } else if s.skipped_keys@.len() > MAX_SKIPPED_KEYS {
        Some(overfull_message(s.skipped_keys@.len()))
    } else {
        None
    }
}

/// Whether all 32 bytes are zero.
pub fn is_all_zero(a: &[u8; 32]) -> (r: bool)
    ensures
        r == (a@ == Seq::new(32, |i: int| 0u8)),
{
    let mut i: usize = 0;
    while i < 32
        invariant
            i <= 32,
            forall|j: int| 0 <= j < i ==> a@[j] == 0,
        decreases 32 - i,
    {
        if a[i] != 0 {
            assert(a@[i as int] != Seq::new(32, |i: int| 0u8)[i as int]);
            return false;
        }
        i = i + 1;
    }
    assert(a@ =~= Seq::new(32, |i: int| 0u8));
    true
}

/// Sanity checks on a ratchet state: a sending chain that moved, message
/// counters below a million, and a key table within its bound.
pub fn verify_ratchet_properties(state: &KemRatchetState) -> (r: Result<(), String>)
    ensures
        match ratchet_problem(*state) {
            None => r is Ok,
            Some(m) => r matches Err(e) && e@ == m,
        },
{
    if is_all_zero(&state.base.send_chain_key) && state.send_seq > 0 {
        return Err("send chain key not advanced after messages".to_string());
    }
    if state.send_seq > 1_000_000 || state.recv_seq > 1_000_000 {
        return Err("message counter overflow".to_string());
    }
    if state.skipped_keys.len() > MAX_SKIPPED_KEYS {
        let n = state.skipped_keys.len();
        proof {
            reveal_strlit("skipped_keys (");
            reveal_strlit(") exceeds maximum (");
            reveal_strlit(")");
        }
        return Err(text_with_two_numbers("skipped_keys (", n as u64, ") exceeds maximum (", MAX_SKIPPED_KEYS as u64, ")"));
    }
    Ok(())
}

} // verus!
