//! Double Ratchet session: HKDF-SHA256 chains, a fresh ML-KEM-1024
//! encapsulation mixed into the chain for every message after the first,
//! and AES-256-GCM message encryption.  Out-of-order and replayed messages
//! are served from a bounded table of skipped message keys.
use vstd::prelude::*;
use vstd::slice::slice_to_vec;
use vstd::string::StringSliceAdditionalSpecFns;
use vstd::utf8::{decode_utf8, valid_utf8};
use crate::error::CryptoError;
use crate::kyber::{MlKem1024EncapsulationKey, MlKem1024Keypair};
use crate::primitives::{
    MLKEM1024_CT_LEN, aes256gcm_decrypt, aes256gcm_encrypt, aes256gcm_open, aes256gcm_seal,
    aes_gcm_max_len, base64_decode, base64_std_decode, hkdf_sha256, hkdf_sha256_expand,
    mlkem1024_decaps, mlkem1024_encaps, random_bytes, string_from_utf8,
};
use crate::skipped::{
    entries_distinct, entries_has, entries_insert, entries_keys_sized, entries_lookup,
    entries_prune, entries_view, find_entry, insert_entry, lemma_insert_wf, lemma_prune_wf,
    prune_entries,
};

verus! {

/// AES-GCM nonce length.
pub const NONCE_SIZE: usize = 12;
/// Bound on the skipped-key table.
pub const MAX_SKIPPED_KEYS: usize = 1024;
/// Largest accepted gap between the receive position and a message number.
pub const MAX_SKIP_AHEAD: u64 = 1024;

/// HKDF context of the root key.
pub open spec fn info_root() -> Seq<u8> {
    "add-double-ratchet-v1-root".spec_bytes()
}

/// HKDF context of the two initial chain keys.
pub open spec fn info_chains() -> Seq<u8> {
    "add-double-ratchet-v1-chains".spec_bytes()
}

/// HKDF context of one chain step.
pub open spec fn info_step() -> Seq<u8> {
    "add-double-ratchet-v1-step".spec_bytes()
}

/// One chain step: (message key, next chain key).
pub open spec fn chain_step(ck: Seq<u8>) -> (Seq<u8>, Seq<u8>) {
    let out = hkdf_sha256(None, ck, info_step(), 64);
    (out.subrange(0, 32), out.subrange(32, 64))
}

/// Everything a session holds, as plain values.
pub struct RatchetModel {
    pub peer_fp: Seq<char>,
    pub peer_nid: Seq<char>,
    pub our_fp: Seq<char>,
    pub is_initiator: bool,
    pub self_mode: bool,
    pub root_key: Seq<u8>,
    pub send_chain_key: Seq<u8>,
    pub recv_chain_key: Seq<u8>,
    pub send_n: nat,
    pub recv_n: nat,
    pub skipped: Seq<(u64, Seq<u8>)>,
}

/// The state of a session, as persisted.  `skipped_keys` maps message
/// numbers to message keys, oldest first.
#[derive(Clone)]
pub struct RatchetState {
    pub peer_fp: String,
    pub peer_nid: String,
    pub our_fp: String,
    pub is_initiator: bool,
    pub self_mode: bool,
    pub root_key: Vec<u8>,
    pub send_chain_key: Vec<u8>,
    pub recv_chain_key: Vec<u8>,
    pub send_message_number: u64,
    pub recv_message_number: u64,
    pub skipped_keys: Vec<(u64, Vec<u8>)>,
}

impl View for RatchetState {
    type V = RatchetModel;

    open spec fn view(&self) -> RatchetModel {
        RatchetModel {
            peer_fp: self.peer_fp@,
            peer_nid: self.peer_nid@,
            our_fp: self.our_fp@,
            is_initiator: self.is_initiator,
            self_mode: self.self_mode,
            root_key: self.root_key@,
            send_chain_key: self.send_chain_key@,
            recv_chain_key: self.recv_chain_key@,
            send_n: self.send_message_number as nat,
            recv_n: self.recv_message_number as nat,
            skipped: entries_view(self.skipped_keys@),
        }
    }
}

/// A state the session can work with: the skipped-key table has no
/// duplicate message numbers and only 32-byte keys.
pub open spec fn model_wf(m: RatchetModel) -> bool {
    entries_distinct(m.skipped) && entries_keys_sized(m.skipped)
}

/// The state right after the key agreement on `shared_secret`.
pub open spec fn initial_model(
    peer_fp: Seq<char>,
    peer_nid: Seq<char>,
    our_fp: Seq<char>,
    is_initiator: bool,
    self_mode: bool,
    shared_secret: Seq<u8>,
) -> RatchetModel {
    let chains = hkdf_sha256(None, shared_secret, info_chains(), 64);
    let first = chains.subrange(0, 32);
    let second = chains.subrange(32, 64);
    let send = if is_initiator { first } else { second };
    let recv = if self_mode { send } else if is_initiator { second } else { first };
    RatchetModel {
        peer_fp,
        peer_nid,
        our_fp,
        is_initiator,
        self_mode,
        root_key: hkdf_sha256(None, shared_secret, info_root(), 32),
        send_chain_key: send,
        recv_chain_key: recv,
        send_n: 0,
        recv_n: 0,
        skipped: Seq::empty(),
    }
}

/// The send chain after deriving a message key from `input` (in self mode
/// the receive chain is the same chain and advances with it).
pub open spec fn advance_send(m: RatchetModel, input: Seq<u8>) -> RatchetModel {
    let next = chain_step(input).1;
    RatchetModel {
        send_chain_key: next,
        recv_chain_key: if m.self_mode { next } else { m.recv_chain_key },
        ..m
    }
}

/// The state after a message was sent with a key derived from `input`.
pub open spec fn after_send(m: RatchetModel, input: Seq<u8>) -> RatchetModel {
    RatchetModel { send_n: m.send_n + 1, ..advance_send(m, input) }
}

/// The Kyber trailer: the 16-bit big-endian length of a 1568-byte ciphertext.
pub open spec fn kyber_len_trailer() -> Seq<u8> {
    seq![6u8, 32u8]
}

/// What sending `pt` with Kyber encapsulation randomness `m` to `ek` does:
/// the send chain advances with the encapsulated secret mixed in, and a
/// successful result is `nonce || AES-GCM ciphertext || kyber ct || trailer`.
pub open spec fn kyber_send_outcome(
    old: RatchetModel,
    new: RatchetModel,
    ek: Seq<u8>,
    pt: Seq<u8>,
    m: Seq<u8>,
    r: Result<Vec<u8>, CryptoError>,
) -> bool {
    match r {
        Ok(blob) => kyber_sent(old, new, ek, pt, m, blob@),
        Err(e) => new == advance_send(old, old.send_chain_key + mlkem1024_encaps(ek, m).1)
            && e matches CryptoError::EncryptFailed(_),
    }
}

/// A successful Kyber send of `pt` produced `blob`: the send chain advanced
/// with the encapsulated secret mixed in, and `blob` is
/// `nonce || AES-GCM ciphertext || kyber ct || trailer`.
pub open spec fn kyber_sent(
    old: RatchetModel,
    new: RatchetModel,
    ek: Seq<u8>,
    pt: Seq<u8>,
    m: Seq<u8>,
    blob: Seq<u8>,
) -> bool {
    let (kct, ss) = mlkem1024_encaps(ek, m);
    let mixed = old.send_chain_key + ss;
    let mk = chain_step(mixed).0;
    &&& new == after_send(old, mixed)
    &&& kct.len() == MLKEM1024_CT_LEN
    &&& exists|nonce: Seq<u8>, ct: Seq<u8>|
        nonce.len() == NONCE_SIZE && ct == aes256gcm_seal(mk, nonce, Seq::empty(), pt)
            && aes256gcm_open(mk, nonce, Seq::empty(), ct) == Some(pt)
            && #[trigger] (nonce + ct + kct + kyber_len_trailer()) == blob
}

/// How the plaintext bytes of a decryption turn into the returned string.
pub open spec fn text_outcome(out: Option<Seq<u8>>, r: Result<String, CryptoError>) -> bool {
    match out {
        Some(pt) => if valid_utf8(pt) {
            r matches Ok(s) && s@ == decode_utf8(pt)
        } else {
            r matches Err(CryptoError::DecryptFailed(_))
        },
        None => r matches Err(CryptoError::DecryptFailed(_)),
    }
}

/// The table bounded to `MAX_SKIPPED_KEYS` entries.
pub open spec fn pruned(m: RatchetModel) -> RatchetModel {
    RatchetModel { skipped: entries_prune(m.skipped, MAX_SKIPPED_KEYS as nat), ..m }
}

/// Remember `key` for message `n`, keeping the table bounded.
pub open spec fn remember(m: RatchetModel, n: u64, key: Seq<u8>) -> RatchetModel {
    RatchetModel {
        skipped: entries_prune(entries_insert(m.skipped, n, key), MAX_SKIPPED_KEYS as nat),
        ..m
    }
}

/// The receive chain after deriving from `input` (two-party sessions advance it).
pub open spec fn advance_recv(m: RatchetModel, input: Seq<u8>) -> RatchetModel {
    RatchetModel {
        recv_chain_key: if m.self_mode { m.recv_chain_key } else { chain_step(input).1 },
        ..m
    }
}

/// Walk the linear receive chain up to message number `seq`, remembering
/// the key of every skipped message.
pub open spec fn skip_forward(m: RatchetModel, seq: nat) -> RatchetModel
    decreases seq - m.recv_n,
{
    if m.recv_n >= seq {
        m
    } else {
        let mk = chain_step(m.recv_chain_key).0;
        let m2 = remember(advance_recv(m, m.recv_chain_key), m.recv_n as u64, mk);
        skip_forward(RatchetModel { recv_n: m.recv_n + 1, ..m2 }, seq)
    }
}

/// Decryption on the linear chain: the new state and the plaintext bytes
/// (`None` when the gap is too large or the message does not authenticate).
pub open spec fn simple_decrypt_model(m: RatchetModel, nonce: Seq<u8>, body: Seq<u8>, seq: u64) -> (
    RatchetModel,
    Option<Seq<u8>>,
) {
    if seq - m.recv_n > MAX_SKIP_AHEAD {
        (m, None)
    } else {
        let m1 = skip_forward(m, seq as nat);
        let mk = chain_step(m1.recv_chain_key).0;
        let m2 = advance_recv(m1, m1.recv_chain_key);
        match aes256gcm_open(mk, nonce, Seq::empty(), body) {
            None => (m2, None),
            Some(pt) => (remember(RatchetModel { recv_n: m2.recv_n + 1, ..m2 }, seq, mk), Some(pt)),
        }
    }
}

/// The 16-bit big-endian length trailer of a message body.
pub open spec fn trailer_len(body: Seq<u8>) -> int {
    body[body.len() - 2] as int * 256 + body[body.len() - 1] as int
}

/// Whether the body ends in a Kyber ciphertext and its length.
pub open spec fn has_kyber_trailer(body: Seq<u8>) -> bool {
    body.len() > 2 && trailer_len(body) > 0 && trailer_len(body) + 2 <= body.len()
}

/// Decryption of a decoded message blob `raw` claimed to be message `seq`,
/// using the decapsulation seed `dec`: the new state and the plaintext
/// bytes, or `None` on any failure.
pub open spec fn decrypt_model(m: RatchetModel, raw: Seq<u8>, seq: u64, dec: Seq<u8>) -> (
    RatchetModel,
    Option<Seq<u8>>,
) {
    if raw.len() < NONCE_SIZE + 16 + 2 {
        (m, None)
    } else {
        let nonce = raw.subrange(0, NONCE_SIZE as int);
        let body = raw.subrange(NONCE_SIZE as int, raw.len() as int);
        match entries_lookup(m.skipped, seq) {
            Some(stored) => match aes256gcm_open(stored, nonce, Seq::empty(), body) {
                None => (m, None),
                Some(pt) => (
                    RatchetModel {
                        recv_n: if m.recv_n >= seq + 1 { m.recv_n } else { (seq + 1) as nat },
                        ..m
                    },
                    Some(pt),
                ),
            },
            None => if has_kyber_trailer(body) {
                let kl = trailer_len(body);
                let end = body.len() - 2 - kl;
                let aes_ct = body.subrange(0, end);
                let kct = body.subrange(end, body.len() - 2);
                if kct.len() != MLKEM1024_CT_LEN {
                    (m, None)
                } else {
                    let mixed = m.recv_chain_key + mlkem1024_decaps(dec, kct);
                    let mk = chain_step(mixed).0;
                    let m1 = advance_recv(m, mixed);
                    match aes256gcm_open(mk, nonce, Seq::empty(), aes_ct) {
                        None => (m1, None),
                        Some(pt) => (
                            remember(RatchetModel { recv_n: m1.recv_n + 1, ..m1 }, seq, mk),
                            Some(pt),
                        ),
                    }
                }
            } else {
                simple_decrypt_model(m, nonce, body, seq)
            },
        }
    }
}

/// A double-ratchet session with one peer.
pub struct DoubleRatchetSession {
    state: RatchetState,
}

impl View for DoubleRatchetSession {
    type V = RatchetModel;

    closed spec fn view(&self) -> RatchetModel {
        self.state@
    }
}

impl DoubleRatchetSession {
    /// One chain step from `chain_key`: (message key, next chain key).
    pub fn derive_message_key(chain_key: &[u8]) -> (r: Result<(Vec<u8>, Vec<u8>), CryptoError>)
        ensures
            r matches Ok((mk, ck)) && (mk@, ck@) == chain_step(chain_key@) && mk@.len() == 32,
    {
        let info = "add-double-ratchet-v1-step".as_bytes();
        match hkdf_sha256_expand(None, chain_key, info, 64) {
            Some(output) => {
                let mk = slice_to_vec(&output.as_slice()[0..32]);
                let ck = slice_to_vec(&output.as_slice()[32..64]);
                Ok((mk, ck))
            },
            None => Err(CryptoError::Ratchet("HKDF step".to_string())),
        }
    }

    /// Start a two-party session from a shared secret of at least 32 bytes.
    pub fn new(
        peer_fp: &str,
        peer_nid: &str,
        our_fp: &str,
        is_initiator: bool,
        shared_secret: &[u8],
    ) -> (r: Result<Self, CryptoError>)
        ensures
            shared_secret@.len() < 32 ==> r matches Err(CryptoError::Ratchet(_)),
            shared_secret@.len() >= 32 ==> (r matches Ok(s) && s@ == initial_model(
                peer_fp@,
                peer_nid@,
                our_fp@,
                is_initiator,
                false,
                shared_secret@,
            )),
            r matches Ok(s) ==> s@.root_key.len() == 32 && s@.send_chain_key.len() == 32 && s@.recv_chain_key.len() == 32,
    {
        Self::new_with_mode(peer_fp, peer_nid, our_fp, is_initiator, false, shared_secret)
    }

    /// A self-message session: one shared chain for sending and receiving.
    pub fn new_self(peer_fp: &str, peer_nid: &str, our_fp: &str, shared_secret: &[u8]) -> (r: Result<
        Self,
        CryptoError,
    >)
        ensures
            shared_secret@.len() < 32 ==> r matches Err(CryptoError::Ratchet(_)),
            shared_secret@.len() >= 32 ==> (r matches Ok(s) && s@ == initial_model(
                peer_fp@,
                peer_nid@,
                our_fp@,
                true,
                true,
                shared_secret@,
            )),
            r matches Ok(s) ==> s@.root_key.len() == 32 && s@.send_chain_key.len() == 32 && s@.recv_chain_key.len() == 32,
    {
        Self::new_with_mode(peer_fp, peer_nid, our_fp, true, true, shared_secret)
    }

    fn new_with_mode(
        peer_fp: &str,
        peer_nid: &str,
        our_fp: &str,
        is_initiator: bool,
        self_mode: bool,
        shared_secret: &[u8],
    ) -> (r: Result<Self, CryptoError>)
        ensures
            shared_secret@.len() < 32 ==> r matches Err(CryptoError::Ratchet(_)),
            shared_secret@.len() >= 32 ==> (r matches Ok(s) && s@ == initial_model(
                peer_fp@,
                peer_nid@,
                our_fp@,
                is_initiator,
                self_mode,
                shared_secret@,
            )),
            r matches Ok(s) ==> s@.root_key.len() == 32 && s@.send_chain_key.len() == 32 && s@.recv_chain_key.len() == 32,
    {
        if shared_secret.len() < 32 {
            return Err(CryptoError::Ratchet("shared_secret must be at least 32 bytes".to_string()));
        }
        let root_key = match hkdf_sha256_expand(None, shared_secret, "add-double-ratchet-v1-root".as_bytes(), 32) {
            Some(k) => k,
            None => return Err(CryptoError::Ratchet("HKDF root_key".to_string())),
        };
        let chain_keys = match hkdf_sha256_expand(None, shared_secret, "add-double-ratchet-v1-chains".as_bytes(), 64) {
            Some(k) => k,
            None => return Err(CryptoError::Ratchet("HKDF chain_keys".to_string())),
        };
        let first = slice_to_vec(&chain_keys.as_slice()[0..32]);
        let second = slice_to_vec(&chain_keys.as_slice()[32..64]);
        let (send_ck, recv_ck) = if is_initiator { (first, second) } else { (second, first) };
        let recv_ck = if self_mode { send_ck.clone() } else { recv_ck };
        let state = RatchetState {
            peer_fp: peer_fp.to_string(),
            peer_nid: peer_nid.to_string(),
            our_fp: our_fp.to_string(),
            is_initiator,
            self_mode,
            root_key,
            send_chain_key: send_ck,
            recv_chain_key: recv_ck,
            send_message_number: 0,
            recv_message_number: 0,
            skipped_keys: Vec::new(),
        };
        proof {
            broadcast use vstd::string::group_string_axioms;
        }
        let s = DoubleRatchetSession { state };
        assert(s@.skipped =~= Seq::<(u64, Seq<u8>)>::empty());
        Ok(s)
    }

    /// The persisted state.
    pub fn state(&self) -> (r: &RatchetState)
        ensures
            r@ == self@,
    {
        &self.state
    }

    /// Whether a persisted state can be resumed: no duplicate message numbers
    /// in the skipped-key table, and only 32-byte keys in it.
    pub fn state_is_well_formed(state: &RatchetState) -> (r: bool)
        ensures
            r == model_wf(state@),
    {
        let ghost s = entries_view(state.skipped_keys@);
        let n = state.skipped_keys.len();
        let mut i: usize = 0;
        while i < n
            invariant
                n == state.skipped_keys@.len(),
                s == entries_view(state.skipped_keys@),
                i <= n,
                forall|a: int, b: int| 0 <= a < i && 0 <= b < n && a != b ==> s[a].0 != s[b].0,
                forall|a: int| 0 <= a < i ==> (#[trigger] s[a]).1.len() == 32,
            decreases n - i,
        {
            if state.skipped_keys[i].1.len() != 32 {
                assert(s[i as int].1.len() != 32);
                return false;
            }
            let mut j: usize = 0;
            while j < n
                invariant
                    n == state.skipped_keys@.len(),
                    s == entries_view(state.skipped_keys@),
                    i < n,
                    j <= n,
                    forall|b: int| 0 <= b < j && b != i ==> s[i as int].0 != #[trigger] s[b].0,
                decreases n - j,
            {
                if j != i && state.skipped_keys[j].0 == state.skipped_keys[i].0 {
                    assert(s[i as int].0 == s[j as int].0);
                    return false;
                }
                j = j + 1;
            }
            i = i + 1;
        }
        true
    }

    /// Resume a session from a well-formed persisted state.
    pub fn from_state(state: RatchetState) -> (s: Self)
        requires
            model_wf(state@),
        ensures
            s@ == state@,
    {
        DoubleRatchetSession { state }
    }

    /// Keep the skipped-key table bounded: drop the oldest entry when it
    /// holds more than `MAX_SKIPPED_KEYS`.
    fn prune_skipped_keys(&mut self)
        ensures
            final(self)@ == pruned(old(self)@),
    {
        prune_entries(&mut self.state.skipped_keys, MAX_SKIPPED_KEYS);
    }

    /// Remember the 32-byte key of message `n`.
    fn remember_key(&mut self, n: u64, key: Vec<u8>)
        requires
            model_wf(old(self)@),
            key@.len() == 32,
        ensures
            final(self)@ == remember(old(self)@, n, key@),
            model_wf(final(self)@),
            old(self)@.skipped.len() <= MAX_SKIPPED_KEYS ==> final(self)@.skipped.len() <= MAX_SKIPPED_KEYS,
    {
        proof {
            lemma_insert_wf(old(self)@.skipped, n, key@);
            lemma_prune_wf(entries_insert(old(self)@.skipped, n, key@), MAX_SKIPPED_KEYS as nat);
        }
        insert_entry(&mut self.state.skipped_keys, n, key);
        self.prune_skipped_keys();
    }

    /// Encrypt the first message of a session on the linear send chain:
    /// `nonce || AES-GCM(message key, plaintext)`.
    pub fn encrypt_first(&mut self, plaintext: &str, _kyber_ct: &[u8], _shared_secret: &[u8]) -> (r: Result<
        Vec<u8>,
        CryptoError,
    >)
        requires
            old(self)@.send_n < u64::MAX,
        ensures
            ({
                let mk = chain_step(old(self)@.send_chain_key).0;
                match r {
                    Ok(blob) => final(self)@ == after_send(old(self)@, old(self)@.send_chain_key)
                        && blob@.len() == NONCE_SIZE + plaintext.spec_bytes().len() + 16 && blob@.subrange(NONCE_SIZE as int, blob@.len() as int)
                        == aes256gcm_seal(
                        mk,
                        blob@.subrange(0, NONCE_SIZE as int),
                        Seq::empty(),
                        plaintext.spec_bytes(),
                    ) && aes256gcm_open(
                        mk,
                        blob@.subrange(0, NONCE_SIZE as int),
                        Seq::empty(),
                        blob@.subrange(NONCE_SIZE as int, blob@.len() as int),
                    ) == Some(plaintext.spec_bytes()),
                    Err(e) => final(self)@ == advance_send(old(self)@, old(self)@.send_chain_key)
                        && e matches CryptoError::EncryptFailed(_),
                }
            }),
            plaintext.spec_bytes().len() <= aes_gcm_max_len() ==> r is Ok,
    {
        let (msg_key, new_ck) = match Self::derive_message_key(self.state.send_chain_key.as_slice()) {
            Ok(k) => k,
            Err(e) => return Err(e),
        };
        self.state.send_chain_key = new_ck.clone();
        if self.state.self_mode {
            self.state.recv_chain_key = new_ck;
        }
        let nonce = random_bytes(NONCE_SIZE);
        let aad: Vec<u8> = Vec::new();
        let ct = match aes256gcm_encrypt(msg_key.as_slice(), nonce.as_slice(), aad.as_slice(), plaintext.as_bytes()) {
            Some(ct) => ct,
            None => return Err(CryptoError::EncryptFailed("AES-GCM: aead::Error".to_string())),
        };
        let mut result = nonce;
        let ghost nv = result@;
        result.extend_from_slice(ct.as_slice());
        assert(result@.subrange(0, NONCE_SIZE as int) =~= nv);
        assert(result@.subrange(NONCE_SIZE as int, result@.len() as int) =~= ct@);
        self.state.send_message_number = self.state.send_message_number + 1;
        Ok(result)
    }

    /// Encrypt a message with a fresh ML-KEM-1024 encapsulation to the
    /// recipient mixed into the send chain:
    /// `nonce || AES-GCM(message key, plaintext) || kyber ct || len(kyber ct) as u16 BE`.
    pub fn encrypt_message(&mut self, plaintext: &str, recipient_kyber_enc: &MlKem1024EncapsulationKey) -> (r: Result<
        Vec<u8>,
        CryptoError,
    >)
        requires
            old(self)@.send_n < u64::MAX,
        ensures
            exists|m: Seq<u8>|
                m.len() == 32 && #[trigger] kyber_send_outcome(
                    old(self)@,
                    final(self)@,
                    recipient_kyber_enc@,
                    plaintext.spec_bytes(),
                    m,
                    r,
                ),
            plaintext.spec_bytes().len() <= aes_gcm_max_len() ==> r is Ok,
    {
        let (kyber_ct, kyber_ss) = match MlKem1024Keypair::encapsulate(recipient_kyber_enc) {
            Ok(x) => x,
            Err(e) => return Err(CryptoError::EncryptFailed("kyber encapsulate".to_string())),
        };
        let ghost m = choose|m: Seq<u8>|
            m.len() == 32 && #[trigger] mlkem1024_encaps(recipient_kyber_enc@, m) == (kyber_ct@, kyber_ss@);
        let ghost old_model = self@;
        let mut mixed: Vec<u8> = Vec::new();
        mixed.extend_from_slice(self.state.send_chain_key.as_slice());
        mixed.extend_from_slice(kyber_ss.as_slice());
        assert(mixed@ =~= old_model.send_chain_key + kyber_ss@);
        let (msg_key, new_ck) = match Self::derive_message_key(mixed.as_slice()) {
            Ok(k) => k,
            Err(e) => return Err(e),
        };
        self.state.send_chain_key = new_ck.clone();
        if self.state.self_mode {
            self.state.recv_chain_key = new_ck;
        }
        let nonce = random_bytes(NONCE_SIZE);
        let aad: Vec<u8> = Vec::new();
        let ct = match aes256gcm_encrypt(msg_key.as_slice(), nonce.as_slice(), aad.as_slice(), plaintext.as_bytes()) {
            Some(ct) => ct,
            None => {
                let r: Result<Vec<u8>, CryptoError> = Err(
                    CryptoError::EncryptFailed("AES-GCM: aead::Error".to_string()),
                );
                assert(kyber_send_outcome(old_model, self@, recipient_kyber_enc@, plaintext.spec_bytes(), m, r));
                return r;
            },
        };
        let ghost nv = nonce@;
        let mut result = nonce;
        result.extend_from_slice(ct.as_slice());
        result.extend_from_slice(kyber_ct.as_slice());
        let kl = kyber_ct.len();
        result.push((kl / 256) as u8);
        result.push((kl % 256) as u8);
        assert(result@ =~= nv + ct@ + kyber_ct@ + kyber_len_trailer());
        self.state.send_message_number = self.state.send_message_number + 1;
        assert(mlkem1024_encaps(recipient_kyber_enc@, m) == (kyber_ct@, kyber_ss@));
        assert(nv + ct@ + kyber_ct@ + kyber_len_trailer() == result@);
        let ghost mk = chain_step(old_model.send_chain_key + kyber_ss@).0;
        assert(msg_key@ == mk);
        assert(ct@ == aes256gcm_seal(mk, nv, Seq::empty(), plaintext.spec_bytes()));
        assert(aes256gcm_open(mk, nv, Seq::empty(), ct@) == Some(plaintext.spec_bytes()));
        assert(nv.len() == NONCE_SIZE);
        let ghost kct = mlkem1024_encaps(recipient_kyber_enc@, m).0;
        assert(kct == kyber_ct@);
        assert(nv + ct@ + kct + kyber_len_trailer() == result@);
        assert(exists|nonce: Seq<u8>, ct: Seq<u8>|
            nonce.len() == NONCE_SIZE && ct == aes256gcm_seal(mk, nonce, Seq::empty(), plaintext.spec_bytes())
                && aes256gcm_open(mk, nonce, Seq::empty(), ct) == Some(plaintext.spec_bytes())
                && #[trigger] (nonce + ct + kct + kyber_len_trailer()) == result@);
        let r: Result<Vec<u8>, CryptoError> = Ok(result);
        assert(kyber_send_outcome(old_model, self@, recipient_kyber_enc@, plaintext.spec_bytes(), m, r));
        r
    }

    /// Decrypt on the linear (no-Kyber) chain, first walking the chain
    /// forward to `seq` and remembering the keys of skipped messages.
    fn simple_decrypt(&mut self, nonce: &[u8], body: &[u8], seq: u64) -> (r: Result<Vec<u8>, CryptoError>)
        requires
            model_wf(old(self)@),
            nonce@.len() == NONCE_SIZE,
            seq < u64::MAX,
            old(self)@.recv_n < u64::MAX,
        ensures
            final(self)@ == simple_decrypt_model(old(self)@, nonce@, body@, seq).0,
            model_wf(final(self)@),
            old(self)@.skipped.len() <= MAX_SKIPPED_KEYS ==> final(self)@.skipped.len() <= MAX_SKIPPED_KEYS,
            match simple_decrypt_model(old(self)@, nonce@, body@, seq).1 {
                Some(pt) => r matches Ok(v) && v@ == pt,
                None => r matches Err(CryptoError::DecryptFailed(_)),
            },
    {
        let ghost m0 = self@;
        let recv = self.state.recv_message_number;
        if seq > recv && seq - recv > MAX_SKIP_AHEAD {
            return Err(CryptoError::DecryptFailed("seq gap too large".to_string()));
        }
        while self.state.recv_message_number < seq
            invariant
                model_wf(self@),
                skip_forward(self@, seq as nat) == skip_forward(m0, seq as nat),
                self@.recv_n < u64::MAX,
                seq < u64::MAX,
                m0.skipped.len() <= MAX_SKIPPED_KEYS ==> self@.skipped.len() <= MAX_SKIPPED_KEYS,
            decreases seq - self@.recv_n,
        {
            let ghost before = self@;
            let (mk, new_ck) = match Self::derive_message_key(self.state.recv_chain_key.as_slice()) {
                Ok(k) => k,
                Err(e) => return Err(e),
            };
            if !self.state.self_mode {
                self.state.recv_chain_key = new_ck;
            }
            let idx = self.state.recv_message_number;
            self.remember_key(idx, mk);
            self.state.recv_message_number = idx + 1;
            assert(self@ == RatchetModel {
                recv_n: before.recv_n + 1,
                ..remember(advance_recv(before, before.recv_chain_key), before.recv_n as u64, chain_step(before.recv_chain_key).0)
            });
        }
        let ghost m1 = self@;
        assert(m1 == skip_forward(m0, seq as nat));
        let (msg_key, new_ck) = match Self::derive_message_key(self.state.recv_chain_key.as_slice()) {
            Ok(k) => k,
            Err(e) => return Err(e),
        };
        if !self.state.self_mode {
            self.state.recv_chain_key = new_ck;
        }
        let aad: Vec<u8> = Vec::new();
        let pt = match aes256gcm_decrypt(msg_key.as_slice(), nonce, aad.as_slice(), body) {
            Some(pt) => pt,
            None => return Err(CryptoError::DecryptFailed("AES-GCM: aead::Error".to_string())),
        };
        self.state.recv_message_number = self.state.recv_message_number + 1;
        self.remember_key(seq, msg_key);
        Ok(pt)
    }

    /// Decrypt a base64 message blob claimed to be message number `seq`.
    /// Keys of earlier messages are looked up first (out-of-order delivery
    /// and replays); a trailing Kyber ciphertext selects the Kyber path;
    /// anything else is decrypted on the linear chain.
    pub fn decrypt_message(&mut self, ciphertext_b64: &str, our_kyber: &MlKem1024Keypair, seq: u64) -> (r: Result<
        String,
        CryptoError,
    >)
        requires
            model_wf(old(self)@),
            seq < u64::MAX,
            old(self)@.recv_n < u64::MAX,
        ensures
            model_wf(final(self)@),
            old(self)@.skipped.len() <= MAX_SKIPPED_KEYS ==> final(self)@.skipped.len() <= MAX_SKIPPED_KEYS,
            match base64_std_decode(ciphertext_b64@) {
                None => final(self)@ == old(self)@ && r matches Err(CryptoError::DecryptFailed(_)),
                Some(raw) => final(self)@ == decrypt_model(old(self)@, raw, seq, our_kyber.dec@).0
                    && text_outcome(decrypt_model(old(self)@, raw, seq, our_kyber.dec@).1, r),
            },
    {
        let raw = match base64_decode(ciphertext_b64) {
            Some(raw) => raw,
            None => return Err(CryptoError::DecryptFailed("base64 decode".to_string())),
        };
        match self.decrypt_raw(raw.as_slice(), our_kyber, seq) {
            Ok(pt) => match string_from_utf8(pt) {
                Some(text) => Ok(text),
                None => Err(CryptoError::DecryptFailed("utf8".to_string())),
            },
            Err(e) => Err(e),
        }
    }

    /// Decrypt the decoded blob; the plaintext bytes.
    fn decrypt_raw(&mut self, raw: &[u8], our_kyber: &MlKem1024Keypair, seq: u64) -> (r: Result<Vec<u8>, CryptoError>)
        requires
            model_wf(old(self)@),
            seq < u64::MAX,
            old(self)@.recv_n < u64::MAX,
        ensures
            final(self)@ == decrypt_model(old(self)@, raw@, seq, our_kyber.dec@).0,
            model_wf(final(self)@),
            old(self)@.skipped.len() <= MAX_SKIPPED_KEYS ==> final(self)@.skipped.len() <= MAX_SKIPPED_KEYS,
            match decrypt_model(old(self)@, raw@, seq, our_kyber.dec@).1 {
                Some(pt) => r matches Ok(v) && v@ == pt,
                None => r matches Err(CryptoError::DecryptFailed(_)),
            },
    {
        if raw.len() < NONCE_SIZE + 16 + 2 {
            return Err(CryptoError::DecryptFailed("ciphertext too short".to_string()));
        }
        let nonce = &raw[0..NONCE_SIZE];
        let body = &raw[NONCE_SIZE..raw.len()];
        let aad: Vec<u8> = Vec::new();
        let ghost m0 = self@;
        match find_entry(&self.state.skipped_keys, seq) {
            Some(i) => {
                proof {
                    assert(entries_view(self.state.skipped_keys@)[i as int].1 == self.state.skipped_keys@[i as int].1@);
                }
                let pt = match aes256gcm_decrypt(self.state.skipped_keys[i].1.as_slice(), nonce, aad.as_slice(), body) {
                    Some(pt) => pt,
                    None => return Err(CryptoError::DecryptFailed("AES-GCM (skipped)".to_string())),
                };
                if self.state.recv_message_number < seq + 1 {
                    self.state.recv_message_number = seq + 1;
                }
                return Ok(pt);
            },
            None => {},
        }
        let blen = body.len();
        let kyber_len: usize = (body[blen - 2] as usize) * 256 + (body[blen - 1] as usize);
        if kyber_len > 0 && kyber_len + 2 <= blen {
            let aes_ct_end = blen - 2 - kyber_len;
            let aes_ct = &body[0..aes_ct_end];
            let kyber_ct = &body[aes_ct_end..blen - 2];
            if kyber_ct.len() != MLKEM1024_CT_LEN {
                return Err(CryptoError::DecryptFailed("kyber parse".to_string()));
            }
            let kyber_ss = match our_kyber.decapsulate(kyber_ct) {
                Ok(ss) => ss,
                Err(e) => return Err(CryptoError::DecryptFailed("kyber dec".to_string())),
            };
            let mut mixed: Vec<u8> = Vec::new();
            mixed.extend_from_slice(self.state.recv_chain_key.as_slice());
            mixed.extend_from_slice(kyber_ss.as_slice());
            assert(mixed@ =~= m0.recv_chain_key + mlkem1024_decaps(our_kyber.dec@, kyber_ct@));
            let (msg_key, new_ck) = match Self::derive_message_key(mixed.as_slice()) {
                Ok(k) => k,
                Err(e) => return Err(e),
            };
            if !self.state.self_mode {
                self.state.recv_chain_key = new_ck;
            }
            let pt = match aes256gcm_decrypt(msg_key.as_slice(), nonce, aad.as_slice(), aes_ct) {
                Some(pt) => pt,
                None => return Err(CryptoError::DecryptFailed("AES-GCM".to_string())),
            };
            self.state.recv_message_number = self.state.recv_message_number + 1;
            self.remember_key(seq, msg_key);
            Ok(pt)
        } else {
            self.simple_decrypt(nonce, body, seq)
        }
    }

    /// Decrypt the first message of a session (no Kyber ciphertext) as
    /// message number 0 on the linear chain.
    pub fn decrypt_first(&mut self, ciphertext_b64: &str, _our_kyber: &MlKem1024Keypair) -> (r: Result<
        String,
        CryptoError,
    >)
        requires
            model_wf(old(self)@),
            old(self)@.recv_n < u64::MAX,
        ensures
            model_wf(final(self)@),
            match base64_std_decode(ciphertext_b64@) {
                None => final(self)@ == old(self)@ && r matches Err(CryptoError::DecryptFailed(_)),
                Some(raw) => if raw.len() < NONCE_SIZE + 16 {
                    final(self)@ == old(self)@ && r matches Err(CryptoError::DecryptFailed(_))
                } else {
                    let (m2, out) = simple_decrypt_model(
                        old(self)@,
                        raw.subrange(0, NONCE_SIZE as int),
                        raw.subrange(NONCE_SIZE as int, raw.len() as int),
                        0,
                    );
                    final(self)@ == m2 && text_outcome(out, r)
                },
            },
    {
        let raw = match base64_decode(ciphertext_b64) {
            Some(raw) => raw,
            None => return Err(CryptoError::DecryptFailed("base64 decode".to_string())),
        };
        if raw.len() < NONCE_SIZE + 16 {
            return Err(CryptoError::DecryptFailed("ciphertext too short".to_string()));
        }
        let nonce = &raw.as_slice()[0..NONCE_SIZE];
        let body = &raw.as_slice()[NONCE_SIZE..raw.len()];
        match self.simple_decrypt(nonce, body, 0) {
            Ok(pt) => match string_from_utf8(pt) {
                Some(text) => Ok(text),
                None => Err(CryptoError::DecryptFailed("utf8".to_string())),
            },
            Err(e) => Err(e),
        }
    }
}

} // verus!
