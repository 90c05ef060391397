//! What the double-ratchet session promises across calls: the two ends of a
//! session start on matching chains, a message decrypts at the other end and
//! keeps the chains in step, messages may arrive out of order, and a replayed
//! message decrypts again without moving the chains.
use vstd::prelude::*;
use crate::primitives::{aes256gcm_open, aes256gcm_seal, mlkem1024_decaps, mlkem1024_encaps};
use crate::ratchet::{
    NONCE_SIZE, MAX_SKIP_AHEAD, MAX_SKIPPED_KEYS, RatchetModel, advance_recv, after_send, chain_step,
    decrypt_model, has_kyber_trailer, initial_model, kyber_len_trailer, kyber_sent, remember, simple_decrypt_model,
    skip_forward,
};
use crate::skipped::{
    entries_distinct, entries_has, entries_index, entries_insert, entries_lookup, entries_prune,
    lemma_insert_wf, lemma_prune_wf,
};

verus! {

/// The chain key after `n` steps from `ck`.
pub open spec fn chain_key_at(ck: Seq<u8>, n: nat) -> Seq<u8>
    decreases n,
{
    if n == 0 {
        ck
    } else {
        chain_key_at(chain_step(ck).1, (n - 1) as nat)
    }
}

/// The message key of the `n`-th message on the chain that starts at `ck`.
pub open spec fn msg_key_at(ck: Seq<u8>, n: nat) -> Seq<u8> {
    chain_step(chain_key_at(ck, n)).0
}

/// The state after `k` messages sent on the linear chain.
pub open spec fn linear_sends(a: RatchetModel, k: nat) -> RatchetModel
    decreases k,
{
    if k == 0 {
        a
    } else {
        linear_sends(after_send(a, a.send_chain_key), (k - 1) as nat)
    }
}

proof fn lemma_chain_key_step(ck: Seq<u8>, n: nat)
    ensures
        chain_key_at(ck, n + 1) == chain_step(chain_key_at(ck, n)).1,
    decreases n,
{
    let next = chain_step(ck).1;
    assert(chain_key_at(ck, n + 1) == chain_key_at(next, n));
    if n > 0 {
        lemma_chain_key_step(next, (n - 1) as nat);
        assert(chain_key_at(ck, n) == chain_key_at(next, (n - 1) as nat));
    } else {
        assert(chain_key_at(next, 0) == next);
    }
}

/// Both ends of a two-party session start with the initiator's send chain
/// as the responder's receive chain and the other way round; a self session
/// sends and receives on one chain.
pub proof fn law_initial_chains_agree(
    peer_a: Seq<char>,
    nid_a: Seq<char>,
    our_a: Seq<char>,
    peer_b: Seq<char>,
    nid_b: Seq<char>,
    our_b: Seq<char>,
    shared_secret: Seq<u8>,
)
    ensures
        ({
            let a = initial_model(peer_a, nid_a, our_a, true, false, shared_secret);
            let b = initial_model(peer_b, nid_b, our_b, false, false, shared_secret);
            &&& a.send_chain_key == b.recv_chain_key
            &&& a.recv_chain_key == b.send_chain_key
            &&& a.root_key == b.root_key
        }),
        ({
            let s = initial_model(peer_a, nid_a, our_a, true, true, shared_secret);
            s.send_chain_key == s.recv_chain_key
        }),
{
}

/// Sending `k` messages on the linear chain moves the send chain `k` steps
/// and counts them; the `i`-th of them is sealed with `msg_key_at(.., i)`.
pub proof fn law_linear_sends(a: RatchetModel, k: nat)
    ensures
        linear_sends(a, k).send_chain_key == chain_key_at(a.send_chain_key, k),
        linear_sends(a, k).send_n == a.send_n + k,
        forall|i: nat| i < k ==> chain_step(#[trigger] linear_sends(a, i).send_chain_key).0 == msg_key_at(
            a.send_chain_key,
            i,
        ),
    decreases k,
{
    if k > 0 {
        let a1 = after_send(a, a.send_chain_key);
        law_linear_sends(a1, (k - 1) as nat);
        assert forall|i: nat| i < k implies chain_step(#[trigger] linear_sends(a, i).send_chain_key).0
            == msg_key_at(a.send_chain_key, i) by {
            if i > 0 {
                law_linear_sends(a1, (i - 1) as nat);
            }
        }
    }
}

/// A message sealed on the sender's linear chain decrypts at a receiver whose
/// receive chain and counter match it, and afterwards the receiver's chain
/// equals the sender's again (two-party sessions) and counts one more.
/// Left out: blobs under 30 bytes (plaintexts under 2 bytes) and bodies whose
/// last two bytes happen to read as a Kyber trailer, which the receiver
/// parses as the Kyber format.
pub proof fn law_linear_message_roundtrip(a: RatchetModel, b: RatchetModel, pt: Seq<u8>, blob: Seq<u8>, seq: u64, dec: Seq<u8>)
    requires
        a.send_chain_key == b.recv_chain_key,
        b.recv_n == seq,
        !entries_has(b.skipped, seq),
        blob.len() >= NONCE_SIZE + 16 + 2,
        aes256gcm_open(
            chain_step(a.send_chain_key).0,
            blob.subrange(0, NONCE_SIZE as int),
            Seq::empty(),
            blob.subrange(NONCE_SIZE as int, blob.len() as int),
        ) == Some(pt),
        !has_kyber_trailer(blob.subrange(NONCE_SIZE as int, blob.len() as int)),
    ensures
        decrypt_model(b, blob, seq, dec).1 == Some(pt),
        decrypt_model(b, blob, seq, dec).0.recv_n == seq + 1,
        decrypt_model(b, blob, seq, dec).0.send_chain_key == b.send_chain_key,
        !a.self_mode && !b.self_mode ==> decrypt_model(b, blob, seq, dec).0.recv_chain_key == after_send(
            a,
            a.send_chain_key,
        ).send_chain_key,
{
    assert(entries_lookup(b.skipped, seq) is None);
    assert(skip_forward(b, seq as nat) == b);
}

/// A Kyber message decrypts at a receiver whose receive chain matches the
/// sender's send chain, as long as decapsulation recovers the encapsulated
/// secret; afterwards the receiver's chain equals the sender's again
/// (two-party sessions).
pub proof fn law_kyber_message_roundtrip(
    a: RatchetModel,
    a1: RatchetModel,
    b: RatchetModel,
    ek: Seq<u8>,
    pt: Seq<u8>,
    m: Seq<u8>,
    blob: Seq<u8>,
    seq: u64,
    dec: Seq<u8>,
)
    requires
        kyber_sent(a, a1, ek, pt, m, blob),
        b.recv_chain_key == a.send_chain_key,
        !entries_has(b.skipped, seq),
        mlkem1024_decaps(dec, mlkem1024_encaps(ek, m).0) == mlkem1024_encaps(ek, m).1,
    ensures
        decrypt_model(b, blob, seq, dec).1 == Some(pt),
        decrypt_model(b, blob, seq, dec).0.recv_n == b.recv_n + 1,
        decrypt_model(b, blob, seq, dec).0.send_chain_key == b.send_chain_key,
        !a.self_mode && !b.self_mode ==> decrypt_model(b, blob, seq, dec).0.recv_chain_key
            == a1.send_chain_key,
{
    let (kct, ss) = mlkem1024_encaps(ek, m);
    let mk = chain_step(a.send_chain_key + ss).0;
    let (nonce, ct) = choose|nonce: Seq<u8>, ct: Seq<u8>|
        nonce.len() == NONCE_SIZE && ct == aes256gcm_seal(mk, nonce, Seq::empty(), pt)
            && aes256gcm_open(mk, nonce, Seq::empty(), ct) == Some(pt)
            && #[trigger] (nonce + ct + kct + kyber_len_trailer()) == blob;
    assert(entries_lookup(b.skipped, seq) is None);
    let body = blob.subrange(NONCE_SIZE as int, blob.len() as int);
    assert(body =~= ct + kct + kyber_len_trailer());
    assert(blob.subrange(0, NONCE_SIZE as int) =~= nonce);
    assert(body[body.len() - 2] == 6u8);
    assert(body[body.len() - 1] == 32u8);
    assert(has_kyber_trailer(body));
    let end = body.len() - 2 - 1568;
    assert(end == ct.len());
    assert(body.subrange(0, end) =~= ct);
    assert(body.subrange(end, body.len() - 2) =~= kct);
}

/// Remembering a key for a message number the table lacks appends it, and
/// it survives pruning.
proof fn lemma_remember_new(m: RatchetModel, n: u64, key: Seq<u8>)
    requires
        entries_distinct(m.skipped),
        !entries_has(m.skipped, n),
    ensures
        entries_distinct(remember(m, n, key).skipped),
        entries_lookup(remember(m, n, key).skipped, n) == Some(key),
        forall|j: u64| j != n && #[trigger] entries_has(remember(m, n, key).skipped, j)
            ==> entries_lookup(remember(m, n, key).skipped, j) == entries_lookup(m.skipped, j),
        forall|j: u64| #[trigger] entries_lookup(m.skipped, j) is None && j != n
            ==> !entries_has(remember(m, n, key).skipped, j),
        m.skipped.len() < MAX_SKIPPED_KEYS ==> remember(m, n, key).skipped == m.skipped.push((n, key)),
{
    let ins = entries_insert(m.skipped, n, key);
    lemma_insert_wf(m.skipped, n, key);
    lemma_prune_wf(ins, MAX_SKIPPED_KEYS as nat);
    let t = entries_prune(ins, MAX_SKIPPED_KEYS as nat);
    assert(ins == m.skipped.push((n, key)));
    assert(t.last() == (n, key));
    assert(t[t.len() - 1].0 == n);
    assert(entries_has(t, n));
    assert forall|j: u64| #[trigger] entries_lookup(m.skipped, j) is None && j != n implies !entries_has(t, j) by {
        if entries_has(t, j) {
            assert(entries_lookup(t, j) == entries_lookup(ins, j));
        }
    }
}

/// Walking the receive chain forward keeps the table free of duplicates and
/// never adds an entry at or beyond the target.
proof fn lemma_skip_forward_absent(m: RatchetModel, seq: nat, k: u64)
    requires
        entries_distinct(m.skipped),
        !entries_has(m.skipped, k),
        k >= seq,
    ensures
        entries_distinct(skip_forward(m, seq).skipped),
        !entries_has(skip_forward(m, seq).skipped, k),
        skip_forward(m, seq).recv_n >= m.recv_n,
    decreases seq - m.recv_n,
{
    if m.recv_n < seq {
        let mk = chain_step(m.recv_chain_key).0;
        let m1 = advance_recv(m, m.recv_chain_key);
        lemma_remember_new_or_old(m1, m.recv_n as u64, mk, k);
        let m2 = remember(m1, m.recv_n as u64, mk);
        lemma_skip_forward_absent(RatchetModel { recv_n: m.recv_n + 1, ..m2 }, seq, k);
    }
}

/// Remembering any message number other than `k` keeps `k` absent and the
/// table free of duplicates.
proof fn lemma_remember_new_or_old(m: RatchetModel, n: u64, key: Seq<u8>, k: u64)
    requires
        entries_distinct(m.skipped),
        !entries_has(m.skipped, k),
        n != k,
    ensures
        entries_distinct(remember(m, n, key).skipped),
        !entries_has(remember(m, n, key).skipped, k),
{
    let ins = entries_insert(m.skipped, n, key);
    lemma_insert_wf(m.skipped, n, key);
    lemma_prune_wf(ins, MAX_SKIPPED_KEYS as nat);
    let t = entries_prune(ins, MAX_SKIPPED_KEYS as nat);
    if entries_has(t, k) {
        assert(entries_lookup(t, k) == entries_lookup(ins, k));
    }
}

/// A message that decrypted on the linear chain or from the skipped-key
/// table decrypts again when replayed, to the same plaintext, and the replay
/// moves neither chain.  Left out: messages that came in on the Kyber path,
/// whose replay the receiver authenticates over the whole body (Kyber
/// ciphertext included) and so refuses.
pub proof fn law_replay_decrypts_again(b: RatchetModel, raw: Seq<u8>, seq: u64, dec: Seq<u8>)
    requires
        entries_distinct(b.skipped),
        decrypt_model(b, raw, seq, dec).1 is Some,
        entries_has(b.skipped, seq) || !has_kyber_trailer(raw.subrange(NONCE_SIZE as int, raw.len() as int)),
    ensures
        ({
            let b1 = decrypt_model(b, raw, seq, dec).0;
            let again = decrypt_model(b1, raw, seq, dec);
            &&& again.1 == decrypt_model(b, raw, seq, dec).1
            &&& again.0.recv_chain_key == b1.recv_chain_key
            &&& again.0.send_chain_key == b1.send_chain_key
            &&& again.0.skipped == b1.skipped
        }),
{
    let nonce = raw.subrange(0, NONCE_SIZE as int);
    let body = raw.subrange(NONCE_SIZE as int, raw.len() as int);
    if !entries_has(b.skipped, seq) {
        assert(entries_lookup(b.skipped, seq) is None);
        let m1 = skip_forward(b, seq as nat);
        lemma_skip_forward_absent(b, seq as nat, seq);
        let mk = chain_step(m1.recv_chain_key).0;
        let m2 = advance_recv(m1, m1.recv_chain_key);
        assert(aes256gcm_open(mk, nonce, Seq::empty(), body) is Some);
        lemma_remember_new(RatchetModel { recv_n: m2.recv_n + 1, ..m2 }, seq, mk);
    }
}

/// Walking a two-party receive chain forward from `recv_n` to `seq` stores
/// the message key of every message passed over, in chain order.
proof fn lemma_skip_forward_exact(m: RatchetModel, seq: nat)
    requires
        !m.self_mode,
        entries_distinct(m.skipped),
        m.recv_n <= seq <= u64::MAX,
        forall|j: u64| m.recv_n <= j < seq ==> !#[trigger] entries_has(m.skipped, j),
        m.skipped.len() + (seq - m.recv_n) <= MAX_SKIPPED_KEYS,
    ensures
        ({
            let r = skip_forward(m, seq);
            &&& r.recv_n == seq
            &&& r.recv_chain_key == chain_key_at(m.recv_chain_key, (seq - m.recv_n) as nat)
            &&& r.send_chain_key == m.send_chain_key
            &&& r.self_mode == m.self_mode
            &&& entries_distinct(r.skipped)
            &&& r.skipped.len() == m.skipped.len() + (seq - m.recv_n)
            &&& forall|j: u64| m.recv_n <= j < seq ==> #[trigger] entries_lookup(r.skipped, j) == Some(
                msg_key_at(m.recv_chain_key, (j - m.recv_n) as nat),
            )
            &&& forall|j: u64| !(m.recv_n <= j < seq) ==> #[trigger] entries_lookup(r.skipped, j)
                == entries_lookup(m.skipped, j)
        }),
    decreases seq - m.recv_n,
{
    if m.recv_n < seq {
        let ck = m.recv_chain_key;
        let mk = chain_step(ck).0;
        let n = m.recv_n as u64;
        assert(n as nat == m.recv_n);
        let m1 = advance_recv(m, ck);
        assert(!entries_has(m1.skipped, n));
        lemma_remember_new(m1, n, mk);
        let m2 = remember(m1, n, mk);
        let m3 = RatchetModel { recv_n: m.recv_n + 1, ..m2 };
        assert forall|j: u64| m3.recv_n <= j < seq implies !#[trigger] entries_has(m3.skipped, j) by {
            assert(!entries_has(m.skipped, j));
            assert(entries_lookup(m.skipped, j) is None);
        }
        assert forall|j: u64| j != n implies #[trigger] entries_lookup(m3.skipped, j) == entries_lookup(m.skipped, j) by {
            if entries_has(m3.skipped, j) {
            } else {
                if entries_has(m.skipped, j) {
                    assert(m3.skipped == m.skipped.push((n, mk)));
                    let i = entries_index(m.skipped, j);
                    assert(m3.skipped[i].0 == j);
                }
            }
        }
        lemma_skip_forward_exact(m3, seq);
        let r = skip_forward(m, seq);
        assert(r == skip_forward(m3, seq));
        assert(chain_key_at(ck, (seq - m.recv_n) as nat) == chain_key_at(chain_step(ck).1, (seq - m3.recv_n) as nat));
        assert forall|j: u64| m.recv_n <= j < seq implies #[trigger] entries_lookup(r.skipped, j) == Some(
            msg_key_at(ck, (j - m.recv_n) as nat),
        ) by {
            if j == n {
                assert(entries_lookup(r.skipped, j) == entries_lookup(m3.skipped, j));
                assert(chain_key_at(ck, 0) == ck);
            } else {
                assert(chain_key_at(ck, (j - m.recv_n) as nat) == chain_key_at(chain_step(ck).1, (j - m3.recv_n) as nat));
            }
        }
    }
}

/// Messages may arrive out of order: a message ahead of the receive
/// position decrypts, and the keys of every message passed over are kept,
/// in chain order, for when those arrive.  Left out: gaps beyond
/// `MAX_SKIP_AHEAD`, tables that would overflow `MAX_SKIPPED_KEYS` (the
/// oldest keys are then forgotten), self sessions, and the short and
/// trailer-like blobs of `law_linear_message_roundtrip`.
pub proof fn law_out_of_order_delivery(b: RatchetModel, pt: Seq<u8>, raw: Seq<u8>, seq: u64, dec: Seq<u8>)
    requires
        !b.self_mode,
        entries_distinct(b.skipped),
        b.recv_n <= seq,
        seq - b.recv_n <= MAX_SKIP_AHEAD,
        forall|j: u64| b.recv_n <= j <= seq ==> !#[trigger] entries_has(b.skipped, j),
        b.skipped.len() + (seq - b.recv_n) + 1 <= MAX_SKIPPED_KEYS,
        raw.len() >= NONCE_SIZE + 16 + 2,
        aes256gcm_open(
            msg_key_at(b.recv_chain_key, (seq - b.recv_n) as nat),
            raw.subrange(0, NONCE_SIZE as int),
            Seq::empty(),
            raw.subrange(NONCE_SIZE as int, raw.len() as int),
        ) == Some(pt),
        !has_kyber_trailer(raw.subrange(NONCE_SIZE as int, raw.len() as int)),
    ensures
        ({
            let (b1, out) = decrypt_model(b, raw, seq, dec);
            &&& out == Some(pt)
            &&& b1.recv_n == seq + 1
            &&& b1.recv_chain_key == chain_key_at(b.recv_chain_key, (seq - b.recv_n + 1) as nat)
            &&& forall|j: u64| b.recv_n <= j <= seq ==> #[trigger] entries_lookup(b1.skipped, j) == Some(
                msg_key_at(b.recv_chain_key, (j - b.recv_n) as nat),
            )
        }),
{
    assert(!entries_has(b.skipped, seq));
    assert(entries_lookup(b.skipped, seq) is None);
    lemma_skip_forward_exact(b, seq as nat);
    let m1 = skip_forward(b, seq as nat);
    let mk = chain_step(m1.recv_chain_key).0;
    let m2 = advance_recv(m1, m1.recv_chain_key);
    let m3 = RatchetModel { recv_n: m2.recv_n + 1, ..m2 };
    assert(!entries_has(m1.skipped, seq)) by {
        assert(entries_lookup(m1.skipped, seq) == entries_lookup(b.skipped, seq));
    }
    lemma_remember_new(m3, seq, mk);
    lemma_chain_key_step(b.recv_chain_key, (seq - b.recv_n) as nat);
    let b1 = remember(m3, seq, mk);
    assert(b1.skipped == m1.skipped.push((seq, mk)));
    assert forall|j: u64| b.recv_n <= j <= seq implies #[trigger] entries_lookup(b1.skipped, j) == Some(
        msg_key_at(b.recv_chain_key, (j - b.recv_n) as nat),
    ) by {
        if j != seq {
            assert(entries_lookup(m1.skipped, j) is Some);
            assert(entries_has(m1.skipped, j));
            let i = entries_index(m1.skipped, j);
            assert(b1.skipped[i].0 == j);
            assert(entries_has(b1.skipped, j));
        }
    }
}

/// A message whose key is in the skipped-key table decrypts from it without
/// moving either chain.
pub proof fn law_skipped_message_decrypts(b: RatchetModel, pt: Seq<u8>, raw: Seq<u8>, seq: u64, dec: Seq<u8>)
    requires
        raw.len() >= NONCE_SIZE + 16 + 2,
        entries_lookup(b.skipped, seq) matches Some(k) && aes256gcm_open(
            k,
            raw.subrange(0, NONCE_SIZE as int),
            Seq::empty(),
            raw.subrange(NONCE_SIZE as int, raw.len() as int),
        ) == Some(pt),
    ensures
        decrypt_model(b, raw, seq, dec).1 == Some(pt),
        decrypt_model(b, raw, seq, dec).0.recv_chain_key == b.recv_chain_key,
        decrypt_model(b, raw, seq, dec).0.send_chain_key == b.send_chain_key,
        decrypt_model(b, raw, seq, dec).0.skipped == b.skipped,
{
}

} // verus!
