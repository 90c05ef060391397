//! Blind PIR contact discovery: fixed-size contact entries packed into
//! fixed-size bins, two cuckoo candidate bins per contact, and XOR masking
//! of the bins a client fetches.
use vstd::prelude::*;
use vstd::slice::slice_to_vec;
use vstd::utf8::encode_utf8;
use vstd::string::StringSliceAdditionalSpecFns;
use std::collections::HashMap;
use crate::error::CryptoError;
use crate::messaging::lossy_text;
use crate::primitives::{random_bytes, sha256, sha256_digest, string_from_utf8_lossy};

verus! {

broadcast use vstd::std_specs::hash::group_hash_axioms;

/// Size of one contact entry: a 32-byte fingerprint hash and padded metadata.
pub const PIR_ENTRY_SIZE: usize = 224;
/// Size of one bin: `PIR_MAX_ENTRIES_PER_BIN` entries.
pub const PIR_BIN_SIZE: usize = 4032;
/// Entries per bin.
pub const PIR_MAX_ENTRIES_PER_BIN: usize = 18;
/// Candidate bins per contact.
pub const PIR_CUCKOO_FANOUT: usize = 2;

/// A request for one bin.
#[derive(Debug, Clone)]
pub struct PirQueryToken {
    pub bin_index: u32,
    pub xor_mask: Vec<u8>,
    pub client_ephemeral_pk: [u8; 32],
}

/// A server's answer: the bin contents.
#[derive(Debug, Clone)]
pub struct PirResponse {
    pub bin_data: Vec<u8>,
    pub dht_ephemeral_pk: [u8; 32],
    pub nonce: [u8; 8],
}

/// A contact entry; `metadata` holds the whole padded entry.
#[derive(Debug, Clone)]
pub struct PirContactEntry {
    pub fingerprint_hash: [u8; 32],
    pub metadata: Vec<u8>,
}

/// `n` zero bytes.
pub open spec fn zeros(n: nat) -> Seq<u8> {
    Seq::new(n, |i: int| 0u8)
}

/// The padded entry for a fingerprint hash and metadata: the hash, then at
/// most 192 bytes of metadata, then zeros up to `PIR_ENTRY_SIZE`.
pub open spec fn padded_entry(hash: Seq<u8>, metadata: Seq<u8>) -> Seq<u8> {
    let n = if metadata.len() < 192 { metadata.len() } else { 192 };
    hash + metadata.subrange(0, n as int) + zeros((192 - n) as nat)
}

/// Byte-wise XOR over the shorter of the two lengths.
pub open spec fn xor_seq(data: Seq<u8>, mask: Seq<u8>) -> Seq<u8> {
    let n = if data.len() < mask.len() { data.len() } else { mask.len() };
    Seq::new(n, |i: int| data[i] ^ mask[i])
}

/// The `k`-th entry of a bin.
pub open spec fn chunk(data: Seq<u8>, k: int) -> Seq<u8> {
    data.subrange(k * 224, k * 224 + 224)
}

/// Entry `k` is complete and carries fingerprint hash `target`.
pub open spec fn entry_matches_at(data: Seq<u8>, target: Seq<u8>, k: int) -> bool {
    0 <= k && k * 224 + 224 <= data.len() && chunk(data, k).subrange(0, 32) == target
}

/// Entry `k` is the first complete entry carrying `target`.
pub open spec fn first_match_at(data: Seq<u8>, target: Seq<u8>, k: int) -> bool {
    entry_matches_at(data, target, k) && forall|j: int| 0 <= j < k ==> !#[trigger] entry_matches_at(data, target, j)
}

/// The bin at `idx`, or an all-zero bin where there is none.
pub open spec fn bin_or_empty(bins: Map<u32, Seq<u8>>, idx: u32) -> Seq<u8> {
    if bins.contains_key(idx) {
        bins[idx]
    } else {
        zeros(4032)
    }
}

/// Slot `k` of a bin holds only zero bytes.
pub open spec fn slot_empty(bin: Seq<u8>, k: int) -> bool {
    forall|i: int| k * 224 <= i < k * 224 + 224 ==> bin[i] == 0
}

/// Slot `k` is the first empty slot of a bin.
pub open spec fn first_empty_slot(bin: Seq<u8>, k: int) -> bool {
    0 <= k < 18 && slot_empty(bin, k) && forall|j: int| 0 <= j < k ==> !#[trigger] slot_empty(bin, j)
}

/// The first empty slot of a bin (meaningful when it has one).
pub open spec fn empty_slot_of(bin: Seq<u8>) -> int {
    choose|k: int| first_empty_slot(bin, k)
}

/// The bin with slot `k` replaced by `entry`.
pub open spec fn place(bin: Seq<u8>, k: int, entry: Seq<u8>) -> Seq<u8> {
    bin.subrange(0, k * 224) + entry + bin.subrange(k * 224 + 224, bin.len() as int)
}

/// The big-endian encoding of a 32-bit number.
pub open spec fn u32_be(x: u32) -> Seq<u8> {
    seq![(x / 16777216) as u8, ((x / 65536) % 256) as u8, ((x / 256) % 256) as u8, (x % 256) as u8]
}

/// The number a big-endian 4-byte prefix encodes.
pub open spec fn be_u32_prefix(b: Seq<u8>) -> u32 {
    (b[0] as int * 16777216 + b[1] as int * 65536 + b[2] as int * 256 + b[3] as int) as u32
}

/// Candidate bin `i` of a fingerprint hash.
pub open spec fn cuckoo_bin(hash: Seq<u8>, i: int) -> u32 {
    be_u32_prefix(sha256("pir-cuckoo-v1".spec_bytes() + hash + u32_be(i as u32)))
}

/// The public key that goes with an ephemeral secret.
pub open spec fn pir_public_of(secret: Seq<u8>) -> Seq<u8> {
    sha256("pir-ephemeral-pk-v1".spec_bytes() + secret)
}

fn array32(v: &[u8]) -> (a: [u8; 32])
    requires
        v@.len() == 32,
    ensures
        a@ == v@,
{
    let mut a = [0u8; 32];
    for i in 0..32
        invariant
            v@.len() == 32,
            forall|j: int| 0 <= j < i ==> a@[j] == v@[j],
    {
        a[i] = v[i];
    }
    assert(a@ =~= v@);
    a
}

fn array8(v: &[u8]) -> (a: [u8; 8])
    requires
        v@.len() == 8,
    ensures
        a@ == v@,
{
    let mut a = [0u8; 8];
    for i in 0..8
        invariant
            v@.len() == 8,
            forall|j: int| 0 <= j < i ==> a@[j] == v@[j],
    {
        a[i] = v[i];
    }
    assert(a@ =~= v@);
    a
}

impl PirContactEntry {
    /// The entry for a fingerprint hash, with the metadata cut to fit.
    pub fn new(fingerprint_hash: [u8; 32], metadata: &[u8]) -> (r: Result<Self, CryptoError>)
        ensures
            r matches Ok(e) && e.fingerprint_hash == fingerprint_hash && e.metadata@ == padded_entry(
                fingerprint_hash@,
                metadata@,
            ),
    {
        let meta_len = if metadata.len() < PIR_ENTRY_SIZE - 32 { metadata.len() } else { PIR_ENTRY_SIZE - 32 };
        let mut padded: Vec<u8> = Vec::new();
        for i in 0..32
            invariant
                padded@ =~= fingerprint_hash@.subrange(0, i as int),
        {
            padded.push(fingerprint_hash[i]);
        }
        for i in 0..meta_len
            invariant
                meta_len <= metadata@.len(),
                padded@ =~= fingerprint_hash@ + metadata@.subrange(0, i as int),
        {
            padded.push(metadata[i]);
        }
        let ghost before = padded@;
        let mut i = meta_len;
        while i < 192
            invariant
                meta_len <= i <= 192,
                padded@ =~= before + zeros((i - meta_len) as nat),
            decreases 192 - i,
        {
            padded.push(0u8);
            i = i + 1;
        }
        Ok(PirContactEntry { fingerprint_hash, metadata: padded })
    }

    /// Whether the entry carries fingerprint hash `hash`.
    pub fn matches(&self, hash: &[u8; 32]) -> (r: bool)
        ensures
            r == (self.fingerprint_hash@ == hash@),
    {
        let mut i: usize = 0;
        while i < 32
            invariant
                i <= 32,
                forall|j: int| 0 <= j < i ==> self.fingerprint_hash@[j] == hash@[j],
            decreases 32 - i,
        {
            if self.fingerprint_hash[i] != hash[i] {
                return false;
            }
            i = i + 1;
        }
        assert(self.fingerprint_hash@ =~= hash@);
        true
    }

    /// The padded entry bytes.
    pub fn to_bytes(&self) -> (r: &[u8])
        ensures
            r@ == self.metadata@,
    {
        self.metadata.as_slice()
    }

    /// The entry held in `bytes`: its hash is the first 32 bytes.
    pub fn from_bytes(bytes: &[u8; 224]) -> (e: Self)
        ensures
            e.fingerprint_hash@ == bytes@.subrange(0, 32),
            e.metadata@ == bytes@,
    {
        let s = bytes.as_slice();
        let hash = array32(&s[0..32]);
        PirContactEntry { fingerprint_hash: hash, metadata: slice_to_vec(s) }
    }
}

/// A client's ephemeral key pair for PIR queries.
#[derive(Debug)]
pub struct PirClient {
    ephemeral_secret: [u8; 32],
    ephemeral_public: [u8; 32],
}

impl PirClient {
    #[verifier::type_invariant]
    spec fn keys_match(self) -> bool {
        self.ephemeral_public@ == pir_public_of(self.ephemeral_secret@)
    }

    /// The ephemeral secret.
    pub closed spec fn secret(self) -> Seq<u8> {
        self.ephemeral_secret@
    }

    /// A client with a fresh random secret.
    pub fn new() -> (c: Self)
        ensures
            c.secret().len() == 32,
    {
        let secret_v = random_bytes(32);
        let mut input: Vec<u8> = slice_to_vec("pir-ephemeral-pk-v1".as_bytes());
        let mut extra = secret_v.clone();
        input.append(&mut extra);
        let digest = sha256_digest(input.as_slice());
        let c = PirClient { ephemeral_secret: array32(secret_v.as_slice()), ephemeral_public: array32(digest.as_slice()) };
        c
    }

    /// One query token per candidate bin of the contact, each with a random
    /// 4032-byte mask and this client's public key.
    pub fn query_contact(&self, fingerprint_hash: &[u8; 32]) -> (r: Result<Vec<PirQueryToken>, CryptoError>)
        ensures
            r matches Ok(tokens) && tokens@.len() == PIR_CUCKOO_FANOUT && forall|i: int|
                0 <= i < PIR_CUCKOO_FANOUT ==> {
                    &&& (#[trigger] tokens@[i]).bin_index == cuckoo_bin(fingerprint_hash@, i)
                    &&& tokens@[i].xor_mask@.len() == PIR_BIN_SIZE
                    &&& tokens@[i].client_ephemeral_pk@ == pir_public_of(self.secret())
                },
    {
        proof {
            use_type_invariant(self);
        }
        let bins = cuckoo_hash_bins(fingerprint_hash, PIR_CUCKOO_FANOUT);
        let mut tokens: Vec<PirQueryToken> = Vec::new();
        for k in 0..PIR_CUCKOO_FANOUT
            invariant
                bins@.len() == PIR_CUCKOO_FANOUT,
                forall|i: int| 0 <= i < PIR_CUCKOO_FANOUT ==> bins@[i] == cuckoo_bin(fingerprint_hash@, i),
                self.ephemeral_public@ == pir_public_of(self.secret()),
                tokens@.len() == k,
                forall|i: int|
                    0 <= i < k ==> {
                        &&& (#[trigger] tokens@[i]).bin_index == cuckoo_bin(fingerprint_hash@, i)
                        &&& tokens@[i].xor_mask@.len() == PIR_BIN_SIZE
                        &&& tokens@[i].client_ephemeral_pk@ == pir_public_of(self.secret())
                    },
        {
            let xor_mask = random_bytes(PIR_BIN_SIZE);
            tokens.push(PirQueryToken { bin_index: bins[k], xor_mask, client_ephemeral_pk: self.ephemeral_public });
        }
        Ok(tokens)
    }

    /// Unmask the bin and return the first complete entry carrying
    /// `target_hash`, if any.
    pub fn process_response(&self, response: &PirResponse, xor_mask: &[u8], target_hash: &[u8; 32]) -> (r: Result<
        Option<PirContactEntry>,
        CryptoError,
    >)
        ensures
            ({
                let masked = xor_seq(response.bin_data@, xor_mask@);
                match r {
                    Ok(Some(e)) => exists|k: int|
                        first_match_at(masked, target_hash@, k) && e.metadata@ == #[trigger] chunk(masked, k)
                            && e.fingerprint_hash@ == target_hash@,
                    Ok(None) => forall|k: int| !#[trigger] entry_matches_at(masked, target_hash@, k),
                    Err(_) => false,
                }
            }),
    {
        let masked = xor_apply(response.bin_data.as_slice(), xor_mask);
        let ghost m = masked@;
        let n = masked.len();
        let mut off: usize = 0;
        let ghost mut k: int = 0;
        while off <= n && n - off >= 224
            invariant
                n == m.len(),
                m == masked@,
                m == xor_seq(response.bin_data@, xor_mask@),
                off == k * 224,
                k >= 0,
                off <= n + 224,
                forall|j: int| 0 <= j < k ==> !#[trigger] entry_matches_at(m, target_hash@, j),
            decreases n + 224 - off,
        {
            let mut j: usize = 0;
            let mut same = true;
            while j < 32
                invariant
                    off == k * 224,
                    off + 224 <= n,
                    n == m.len(),
                    m == masked@,
                    j <= 32,
                    same == forall|t: int| 0 <= t < j ==> m[off + t] == target_hash@[t],
                decreases 32 - j,
            {
                if masked[off + j] != target_hash[j] {
                    same = false;
                }
                j = j + 1;
            }
            if same {
                assert(chunk(m, k).subrange(0, 32) =~= target_hash@);
                let hash = array32(&masked.as_slice()[off..off + 32]);
                assert(hash@ =~= target_hash@);
                let entry = PirContactEntry { fingerprint_hash: hash, metadata: slice_to_vec(&masked.as_slice()[off..off + 224]) };
                assert(entry.metadata@ =~= chunk(m, k));
                assert(first_match_at(m, target_hash@, k));
                assert(exists|k2: int|
                    first_match_at(m, target_hash@, k2) && entry.metadata@ == #[trigger] chunk(m, k2)
                        && entry.fingerprint_hash@ == target_hash@);
                assert(m == xor_seq(response.bin_data@, xor_mask@));
                let r: Result<Option<PirContactEntry>, CryptoError> = Ok(Some(entry));
                assert(r matches Ok(Some(e)) && exists|k2: int|
                    first_match_at(m, target_hash@, k2) && e.metadata@ == #[trigger] chunk(m, k2)
                        && e.fingerprint_hash@ == target_hash@);
                return r;
            }
            assert(!(chunk(m, k).subrange(0, 32) =~= target_hash@)) by {
                let t = choose|t: int| 0 <= t < 32 && m[off + t] != target_hash@[t];
                assert(chunk(m, k).subrange(0, 32)[t] == m[off + t]);
            }
            off = off + 224;
            proof {
                k = k + 1;
            }
        }
        assert forall|j: int| !#[trigger] entry_matches_at(m, target_hash@, j) by {
            if 0 <= j && j >= k {
            }
        }
        Ok(None)
    }

    /// Where to register a contact: its first candidate bin, with an entry
    /// carrying no metadata.
    pub fn prepare_registration(&self, fingerprint_hash: &[u8; 32]) -> (r: Result<(u32, PirContactEntry), CryptoError>)
        ensures
            r matches Ok((bin, e)) && bin == cuckoo_bin(fingerprint_hash@, 0) && e.fingerprint_hash
                == *fingerprint_hash && e.metadata@ == padded_entry(fingerprint_hash@, Seq::empty()),
    {
        let bins = cuckoo_hash_bins(fingerprint_hash, PIR_CUCKOO_FANOUT);
        let chosen = bins[0];
        let empty: Vec<u8> = Vec::new();
        match PirContactEntry::new(*fingerprint_hash, empty.as_slice()) {
            Ok(entry) => Ok((chosen, entry)),
            Err(e) => Err(e),
        }
    }

    /// The ephemeral public key: the SHA-256 of a fixed label and the secret.
    pub fn ephemeral_pk(&self) -> (r: &[u8; 32])
        ensures
            r@ == pir_public_of(self.secret()),
    {
        proof {
            use_type_invariant(self);
        }
        &self.ephemeral_public
    }
}

/// The server side: bins by index.
#[derive(Debug)]
pub struct PirRegistry {
    bins: HashMap<u32, Vec<u8>>,
}

impl PirRegistry {
    #[verifier::type_invariant]
    spec fn bins_sized(self) -> bool {
        forall|k: u32| #[trigger] self.bins@.contains_key(k) ==> self.bins@[k]@.len() == PIR_BIN_SIZE
    }

    /// The bins, as byte sequences.
    pub closed spec fn bins_view(self) -> Map<u32, Seq<u8>> {
        self.bins@.map_values(|v: Vec<u8>| v@)
    }

    /// An empty registry.
    pub fn new() -> (r: Self)
        ensures
            r.bins_view() == Map::<u32, Seq<u8>>::empty(),
    {
        let r = PirRegistry { bins: HashMap::new() };
        assert(r.bins_view() =~= Map::<u32, Seq<u8>>::empty());
        r
    }

    /// Put `entry` into the first empty slot of bin `bin_index` (a missing
    /// bin starts out all zeros); a full bin is refused.
    pub fn add_entry(&mut self, bin_index: u32, entry: &PirContactEntry) -> (r: Result<(), CryptoError>)
        requires
            entry.metadata@.len() == PIR_ENTRY_SIZE,
        ensures
            ({
                let old_bin = bin_or_empty(old(self).bins_view(), bin_index);
                match r {
                    Ok(()) => first_empty_slot(old_bin, empty_slot_of(old_bin)) && final(self).bins_view()
                        == old(self).bins_view().insert(bin_index, place(old_bin, empty_slot_of(old_bin), entry.metadata@)),
                    Err(e) => e matches CryptoError::Pir(_) && final(self).bins_view() == old(self).bins_view()
                        && forall|k: int| 0 <= k < 18 ==> !#[trigger] slot_empty(old_bin, k),
                }
            }),
    {
        proof {
            use_type_invariant(&*self);
        }
        let ghost old_view = self.bins_view();
        let mut bin: Vec<u8> = match self.bins.get(&bin_index) {
            Some(b) => b.clone(),
            None => {
                let mut z: Vec<u8> = Vec::new();
                for i in 0..4032
                    invariant
                        z@ =~= zeros(i as nat),
                {
                    z.push(0u8);
                }
                z
            },
        };
        let ghost old_bin = bin@;
        assert(old_bin == (if old_view.contains_key(bin_index) { old_view[bin_index] } else { zeros(4032) }));
        assert(old_bin.len() == 4032);
        let mut k: usize = 0;
        while k < 18
            invariant
                bin@ == old_bin,
                old_bin.len() == 4032,
                entry.metadata@.len() == 224,
                self.bins_view() == old_view,
                old_view == old(self).bins_view(),
                old_bin == (if old_view.contains_key(bin_index) { old_view[bin_index] } else { zeros(4032) }),
                forall|key: u32| #[trigger] self.bins@.contains_key(key) ==> self.bins@[key]@.len() == PIR_BIN_SIZE,
                k <= 18,
                forall|j: int| 0 <= j < k ==> !#[trigger] slot_empty(old_bin, j),
            decreases 18 - k,
        {
            let off = k * 224;
            let mut i: usize = 0;
            let mut empty = true;
            while i < 224
                invariant
                    off == k * 224,
                    k < 18,
                    bin@ == old_bin,
                    old_bin.len() == 4032,
                    i <= 224,
                    empty == forall|t: int| off <= t < off + i ==> old_bin[t] == 0,
                decreases 224 - i,
            {
                if bin[off + i] != 0 {
                    empty = false;
                }
                i = i + 1;
            }
            if empty {
                assert(slot_empty(old_bin, k as int));
                let mut t: usize = 0;
                while t < 224
                    invariant
                        off == k * 224,
                        k < 18,
                        entry.metadata@.len() == 224,
                        old_bin.len() == 4032,
                        bin@.len() == 4032,
                        t <= 224,
                        forall|x: int| 0 <= x < off ==> bin@[x] == old_bin[x],
                        forall|x: int| off + 224 <= x < 4032 ==> bin@[x] == old_bin[x],
                        forall|x: int| off <= x < off + t ==> bin@[x] == entry.metadata@[x - off],
                    decreases 224 - t,
                {
                    bin.set(off + t, entry.metadata[t]);
                    t = t + 1;
                }
                assert(bin@ =~= place(old_bin, k as int, entry.metadata@));
                assert(first_empty_slot(old_bin, k as int));
                let mut bins: HashMap<u32, Vec<u8>> = HashMap::new();
                std::mem::swap(&mut bins, &mut self.bins);
                bins.insert(bin_index, bin);
                assert forall|key: u32| #[trigger] bins@.contains_key(key) implies bins@[key]@.len() == PIR_BIN_SIZE by {
                    if key != bin_index {
                        assert(old_view.contains_key(key));
                    }
                }
                self.bins = bins;
                assert(self.bins_view() =~= old_view.insert(bin_index, place(old_bin, k as int, entry.metadata@)));
                assert(first_empty_slot(old_bin, k as int));
                let ghost e = empty_slot_of(old_bin);
                assert(first_empty_slot(old_bin, e));
                assert(e == k as int) by {
                    if e < k as int {
                        assert(!slot_empty(old_bin, e));
                    } else if e > k as int {
                        assert(!slot_empty(old_bin, k as int));
                    }
                }
                return Ok(());
            }
            k = k + 1;
        }
        Err(CryptoError::Pir("bin is full".to_string()))
    }

    /// The contents of bin `bin_index`, if it exists.
    pub fn get_bin(&self, bin_index: u32) -> (r: Option<&[u8]>)
        ensures
            match r {
                Some(b) => self.bins_view().contains_key(bin_index) && b@ == self.bins_view()[bin_index],
                None => !self.bins_view().contains_key(bin_index),
            },
    {
        match self.bins.get(&bin_index) {
            Some(v) => Some(v.as_slice()),
            None => None,
        }
    }

    /// Answer a query with the whole bin (and a fresh random key and nonce);
    /// `None` for a bin that does not exist.
    pub fn handle_query(&self, query: &PirQueryToken) -> (r: Option<PirResponse>)
        ensures
            match r {
                Some(resp) => self.bins_view().contains_key(query.bin_index) && resp.bin_data@
                    == self.bins_view()[query.bin_index],
                None => !self.bins_view().contains_key(query.bin_index),
            },
    {
        let bin = match self.get_bin(query.bin_index) {
            Some(b) => b,
            None => return None,
        };
        let nonce = random_bytes(8);
        let pk = random_bytes(32);
        Some(PirResponse { bin_data: slice_to_vec(bin), dht_ephemeral_pk: array32(pk.as_slice()), nonce: array8(nonce.as_slice()) })
    }

    /// Number of bins holding data.
    pub fn bin_count(&self) -> (r: usize)
        ensures
            r == self.bins_view().len(),
    {
        assert(self.bins_view().dom() =~= self.bins@.dom());
        self.bins.len()
    }
}

/// The `fanout` candidate bins of a fingerprint hash: bin `i` is the first
/// four bytes, big-endian, of SHA-256 over a fixed label, the hash and `i`.
pub fn cuckoo_hash_bins(fingerprint_hash: &[u8; 32], fanout: usize) -> (bins: Vec<u32>)
    ensures
        bins@.len() == fanout,
        forall|i: int| 0 <= i < fanout ==> bins@[i] == cuckoo_bin(fingerprint_hash@, i),
{
    let mut bins: Vec<u32> = Vec::new();
    for i in 0..fanout
        invariant
            bins@.len() == i,
            forall|j: int| 0 <= j < i ==> bins@[j] == cuckoo_bin(fingerprint_hash@, j),
    {
        let n = i as u32;
        let mut input: Vec<u8> = slice_to_vec("pir-cuckoo-v1".as_bytes());
        let mut hash_part = slice_to_vec(fingerprint_hash.as_slice());
        input.append(&mut hash_part);
        input.push((n / 16777216) as u8);
        input.push(((n / 65536) % 256) as u8);
        input.push(((n / 256) % 256) as u8);
        input.push((n % 256) as u8);
        assert(input@ =~= "pir-cuckoo-v1".spec_bytes() + fingerprint_hash@ + u32_be(i as u32));
        let digest = sha256_digest(input.as_slice());
        let b = (digest[0] as u32) * 16777216 + (digest[1] as u32) * 65536 + (digest[2] as u32) * 256 + (digest[3] as u32);
        bins.push(b);
    }
    bins
}

/// Byte-wise XOR of `data` and `mask` over the shorter length.
pub fn xor_apply(data: &[u8], mask: &[u8]) -> (r: Vec<u8>)
    ensures
        r@ == xor_seq(data@, mask@),
{
    let n = if data.len() < mask.len() { data.len() } else { mask.len() };
    let mut r: Vec<u8> = Vec::new();
    for i in 0..n
        invariant
            n <= data@.len(),
            n <= mask@.len(),
            r@.len() == i,
            forall|j: int| 0 <= j < i ==> r@[j] == data@[j] ^ mask@[j],
    {
        r.push(data[i] ^ mask[i]);
    }
    assert(r@ =~= xor_seq(data@, mask@));
    r
}

/// Masking twice with the same mask gives the data back.
pub proof fn law_xor_mask_twice(data: Seq<u8>, mask: Seq<u8>)
    requires
        data.len() <= mask.len(),
    ensures
        xor_seq(xor_seq(data, mask), mask) == data,
{
    assert forall|i: int| 0 <= i < data.len() implies #[trigger] xor_seq(xor_seq(data, mask), mask)[i] == data[i] by {
        let a = data[i];
        let b = mask[i];
        assert((a ^ b) ^ b == a) by (bit_vector);
    }
    assert(xor_seq(xor_seq(data, mask), mask) =~= data);
}

/// A zero mask leaves the data as it is.
pub proof fn law_xor_zero_mask(data: Seq<u8>)
    ensures
        xor_seq(data, zeros(data.len())) == data,
{
    assert forall|i: int| 0 <= i < data.len() implies #[trigger] xor_seq(data, zeros(data.len()))[i] == data[i] by {
        let a = data[i];
        assert(a ^ 0u8 == a) by (bit_vector);
    }
    assert(xor_seq(data, zeros(data.len())) =~= data);
}

/// A contact registered in a bin it is the first to use is found again by
/// unmasking the fetched bin.
pub proof fn law_registered_contact_found(hash: Seq<u8>, entry: Seq<u8>, mask: Seq<u8>)
    requires
        entry.len() == PIR_ENTRY_SIZE,
        entry.subrange(0, 32) == hash,
        mask == zeros(PIR_BIN_SIZE as nat),
    ensures
        first_empty_slot(zeros(4032), 0),
        first_match_at(xor_seq(place(zeros(4032), 0, entry), mask), hash, 0),
        chunk(xor_seq(place(zeros(4032), 0, entry), mask), 0) == entry,
{
    let bin = place(zeros(4032), 0, entry);
    assert(bin.len() == 4032);
    law_xor_zero_mask(bin);
    assert(xor_seq(bin, mask) == bin);
    assert(chunk(bin, 0) =~= entry);
    assert(slot_empty(zeros(4032), 0));
}


/// The bin has an empty slot among its 18.
pub open spec fn has_empty_slot(bin: Seq<u8>) -> bool {
    exists|k: int| 0 <= k < 18 && #[trigger] slot_empty(bin, k)
}

/// Bins after registering each `(null_id, fingerprint)` contact in turn:
/// the entry (SHA-256 of the fingerprint, the Null ID as metadata) goes to
/// the first empty slot of the first candidate bin; `None` once a bin is
/// full.
pub open spec fn contacts_registry(contacts: Seq<(String, String)>) -> Option<Map<u32, Seq<u8>>>
    decreases contacts.len(),
{
    if contacts.len() == 0 {
        Some(Map::empty())
    } else {
        match contacts_registry(contacts.drop_last()) {
            None => None,
            Some(m) => {
                let hash = sha256(encode_utf8(contacts.last().1@));
                let bin = cuckoo_bin(hash, 0);
                let old_bin = bin_or_empty(m, bin);
                if has_empty_slot(old_bin) {
                    Some(
                        m.insert(
                            bin,
                            place(old_bin, empty_slot_of(old_bin), padded_entry(hash, encode_utf8(contacts.last().0@))),
                        ),
                    )
                } else {
                    None
                }
            },
        }
    }
}

/// Bytes without their trailing zero bytes.
pub open spec fn strip_zero_tail(b: Seq<u8>) -> Seq<u8>
    decreases b.len(),
{
    if b.len() > 0 && b.last() == 0 {
        strip_zero_tail(b.drop_last())
    } else {
        b
    }
}

/// The Null ID an entry carries: its metadata without the zero padding,
/// as text.
pub open spec fn entry_nid(entry: Seq<u8>) -> Seq<char> {
    lossy_text(strip_zero_tail(entry.subrange(32, 224)))
}

/// What one query token finds: the non-empty Null ID of the first entry
/// with the hash in the unmasked bin.
pub open spec fn token_finds(bins: Map<u32, Seq<u8>>, hash: Seq<u8>, t: PirQueryToken) -> Option<Seq<char>> {
    if bins.contains_key(t.bin_index) {
        let masked = xor_seq(bins[t.bin_index], t.xor_mask@);
        if exists|k: int| first_match_at(masked, hash, k) {
            let n = entry_nid(chunk(masked, choose|k: int| first_match_at(masked, hash, k)));
            if n.len() > 0 {
                Some(n)
            } else {
                None
            }
        } else {
            None
        }
    } else {
        None
    }
}

/// What the first token that finds anything finds.
pub open spec fn tokens_find(bins: Map<u32, Seq<u8>>, hash: Seq<u8>, tokens: Seq<PirQueryToken>) -> Option<Seq<char>>
    decreases tokens.len(),
{
    if tokens.len() == 0 {
        None
    } else {
        match token_finds(bins, hash, tokens[0]) {
            Some(n) => Some(n),
            None => tokens_find(bins, hash, tokens.drop_first()),
        }
    }
}

/// At most one entry is the first match.
proof fn lemma_first_match_unique(data: Seq<u8>, target: Seq<u8>, k1: int, k2: int)
    requires
        first_match_at(data, target, k1),
        first_match_at(data, target, k2),
    ensures
        k1 == k2,
{
    if k1 < k2 {
        assert(!entry_matches_at(data, target, k1));
    } else if k2 < k1 {
        assert(!entry_matches_at(data, target, k2));
    }
}

/// Drop the trailing zero bytes.
fn strip_zeros(b: &[u8]) -> (r: Vec<u8>)
    ensures
        r@ == strip_zero_tail(b@),
{
    let mut n = b.len();
    assert(b@.subrange(0, n as int) =~= b@);
    while n > 0 && b[n - 1] == 0
        invariant
            n <= b@.len(),
            strip_zero_tail(b@) == strip_zero_tail(b@.subrange(0, n as int)),
        decreases n,
    {
        assert(b@.subrange(0, n as int).drop_last() =~= b@.subrange(0, n - 1));
        n = n - 1;
    }
    let r = slice_to_vec(&b[0..n]);
    assert(r@ =~= b@.subrange(0, n as int));
    r
}

/// Client-side cache of the contacts in a blind registry.
pub struct PirContactCache {
    registry: PirRegistry,
}

impl PirContactCache {
    /// The registry's bins.
    pub closed spec fn bins(self) -> Map<u32, Seq<u8>> {
        self.registry.bins_view()
    }

    /// Register every `(null_id, fingerprint)` contact; refused once a bin
    /// is full.
    pub fn build(contacts: &[(String, String)]) -> (r: Result<Self, CryptoError>)
        ensures
            match r {
                Ok(c) => contacts_registry(contacts@) == Some(c.bins()),
                Err(e) => contacts_registry(contacts@) is None && e matches CryptoError::Pir(_),
            },
    {
        let mut registry = PirRegistry::new();
        let mut i: usize = 0;
        assert(contacts@.subrange(0, 0) =~= Seq::<(String, String)>::empty());
        while i < contacts.len()
            invariant
                i <= contacts@.len(),
                contacts_registry(contacts@.subrange(0, i as int)) == Some(registry.bins_view()),
            decreases contacts@.len() - i,
        {
            let ghost before = contacts@.subrange(0, i as int);
            let ghost after = contacts@.subrange(0, i + 1);
            assert(after.drop_last() =~= before);
            assert(after.last() == contacts@[i as int]);
            let nid = &contacts[i].0;
            let fp = &contacts[i].1;
            let digest = sha256_digest(fp.as_str().as_bytes());
            let hash = array32(digest.as_slice());
            let entry = match PirContactEntry::new(hash, nid.as_str().as_bytes()) {
                Ok(e) => e,
                Err(e) => return Err(e),
            };
            let client = PirClient::new();
            let (bin_idx, _) = match client.prepare_registration(&hash) {
                Ok(p) => p,
                Err(e) => return Err(e),
            };
            let ghost old_bin = bin_or_empty(registry.bins_view(), bin_idx);
            match registry.add_entry(bin_idx, &entry) {
                Ok(()) => {},
                Err(e) => {
                    proof {
                        if has_empty_slot(old_bin) {
                            let k = choose|k: int| 0 <= k < 18 && #[trigger] slot_empty(old_bin, k);
                            assert(slot_empty(old_bin, k));
                        }
                        lemma_registry_stays_none(contacts@, i as int + 1);
                    }
                    return Err(e);
                },
            }
            i = i + 1;
        }
        assert(contacts@.subrange(0, contacts@.len() as int) =~= contacts@);
        Ok(PirContactCache { registry })
    }

    /// The Null ID of the contact with this fingerprint, as the given query
    /// tokens find it (see `tokens_find`).
    pub fn lookup_with_tokens(&self, client: &PirClient, fingerprint: &str, tokens: &[PirQueryToken]) -> (r: Option<String>)
        ensures
            match (r, tokens_find(self.bins(), sha256(fingerprint.spec_bytes()), tokens@)) {
                (Some(n), Some(sn)) => n@ == sn,
                (None, None) => true,
                _ => false,
            },
    {
        let digest = sha256_digest(fingerprint.as_bytes());
        let hash = array32(digest.as_slice());
        let ghost bins = self.bins();
        let mut i: usize = 0;
        assert(tokens@.subrange(0, tokens@.len() as int) =~= tokens@);
        while i < tokens.len()
            invariant
                i <= tokens@.len(),
                hash@ == sha256(fingerprint.spec_bytes()),
                bins == self.bins(),
                tokens_find(bins, hash@, tokens@) == tokens_find(bins, hash@, tokens@.subrange(i as int, tokens@.len() as int)),
            decreases tokens@.len() - i,
        {
            let ghost rest = tokens@.subrange(i as int, tokens@.len() as int);
            assert(rest[0] == tokens@[i as int]);
            assert(rest.drop_first() =~= tokens@.subrange(i + 1, tokens@.len() as int));
            let token = &tokens[i];
            match self.registry.handle_query(token) {
                Some(resp) => {
                    let ghost masked = xor_seq(resp.bin_data@, token.xor_mask@);
                    match client.process_response(&resp, token.xor_mask.as_slice(), &hash) {
                        Ok(Some(entry)) => {
                            let ghost k = choose|k: int|
                                first_match_at(masked, hash@, k) && entry.metadata@ == #[trigger] chunk(masked, k)
                                    && entry.fingerprint_hash@ == hash@;
                            proof {
                                let k2 = choose|k: int| first_match_at(masked, hash@, k);
                                lemma_first_match_unique(masked, hash@, k, k2);
                            }
                            let raw = entry.to_bytes();
                            let tail = &raw[32..224];
                            assert(tail@ =~= raw@.subrange(32, 224));
                            let meta = strip_zeros(tail);
                            let nid = string_from_utf8_lossy(meta.as_slice());
                            if !nid.as_str().is_empty() {
                                return Some(nid);
                            }
                        },
                        Ok(None) => {
                            proof {
                                if exists|k: int| first_match_at(masked, hash@, k) {
                                    let k = choose|k: int| first_match_at(masked, hash@, k);
                                    assert(entry_matches_at(masked, hash@, k));
                                }
                            }
                        },
                        Err(_) => {},
                    }
                },
                None => {},
            }
            i = i + 1;
        }
        None
    }

    /// Look a contact up by fingerprint with fresh randomly masked queries
    /// for both candidate bins.
    pub fn lookup(&self, fingerprint: &str) -> (r: Result<Option<String>, CryptoError>)
        ensures
            r matches Ok(found) && exists|tokens: Seq<PirQueryToken>|
                {
                    &&& tokens.len() == PIR_CUCKOO_FANOUT
                    &&& forall|i: int|
                        0 <= i < PIR_CUCKOO_FANOUT ==> (#[trigger] tokens[i]).bin_index == cuckoo_bin(
                            sha256(fingerprint.spec_bytes()),
                            i,
                        ) && tokens[i].xor_mask@.len() == PIR_BIN_SIZE
                    &&& match (found, tokens_find(self.bins(), sha256(fingerprint.spec_bytes()), tokens)) {
                        (Some(n), Some(sn)) => n@ == sn,
                        (None, None) => true,
                        _ => false,
                    }
                },
    {
        let digest = sha256_digest(fingerprint.as_bytes());
        let hash = array32(digest.as_slice());
        let client = PirClient::new();
        let tokens = match client.query_contact(&hash) {
            Ok(t) => t,
            Err(e) => return Err(e),
        };
        let ts = tokens.as_slice();
        assert(ts@ == tokens@);
        let found = self.lookup_with_tokens(&client, fingerprint, ts);
        Ok(found)
    }
}

/// Once registration fails it stays failed for longer contact lists.
proof fn lemma_registry_stays_none(contacts: Seq<(String, String)>, n: int)
    requires
        0 <= n <= contacts.len(),
        contacts_registry(contacts.subrange(0, n)) is None,
    ensures
        contacts_registry(contacts) is None,
    decreases contacts.len() - n,
{
    if n < contacts.len() {
        assert(contacts.subrange(0, n + 1).drop_last() =~= contacts.subrange(0, n));
        lemma_registry_stays_none(contacts, n + 1);
    } else {
        assert(contacts.subrange(0, n) =~= contacts);
    }
}


/// Zero bytes appended to bytes that end in a non-zero byte are exactly
/// what stripping the zero tail removes.
proof fn lemma_strip_zero_padding(b: Seq<u8>, m: nat)
    requires
        b.len() > 0,
        b.last() != 0,
    ensures
        strip_zero_tail(b + zeros(m)) == b,
    decreases m,
{
    if m == 0 {
        assert(b + zeros(0) =~= b);
    } else {
        let s = b + zeros(m);
        assert(s.last() == 0);
        assert(s.drop_last() =~= b + zeros((m - 1) as nat));
        lemma_strip_zero_padding(b, (m - 1) as nat);
    }
}

/// A contact cached on its own is found again, under its own Null ID, by a
/// query whose first token asks for its first candidate bin with a zero
/// mask (Null IDs of 1 to 192 bytes that do not end in a NUL; a SHA-256
/// digest is 32 bytes, as `sha256_digest` states).
pub proof fn law_cached_contact_found(nid: String, fp: String, tokens: Seq<PirQueryToken>)
    requires
        tokens.len() > 0,
        tokens[0].bin_index == cuckoo_bin(sha256(encode_utf8(fp@)), 0),
        tokens[0].xor_mask@ == zeros(PIR_BIN_SIZE as nat),
        sha256(encode_utf8(fp@)).len() == 32,
        0 < encode_utf8(nid@).len() <= 192,
        encode_utf8(nid@).last() != 0,
    ensures
        contacts_registry(seq![(nid, fp)]) matches Some(bins) && tokens_find(bins, sha256(encode_utf8(fp@)), tokens)
            == Some(nid@),
{
    let contacts = seq![(nid, fp)];
    let hash = sha256(encode_utf8(fp@));
    let nb = encode_utf8(nid@);
    let entry = padded_entry(hash, nb);
    assert(contacts.drop_last() =~= Seq::<(String, String)>::empty());
    let bin = cuckoo_bin(hash, 0);
    let m0 = Map::<u32, Seq<u8>>::empty();
    assert(bin_or_empty(m0, bin) == zeros(4032));
    assert(slot_empty(zeros(4032), 0));
    assert(has_empty_slot(zeros(4032)));
    assert(nb.subrange(0, nb.len() as int) =~= nb);
    assert(entry.len() == 224);
    assert(entry.subrange(0, 32) =~= hash);
    law_registered_contact_found(hash, entry, tokens[0].xor_mask@);
    let k0 = empty_slot_of(zeros(4032));
    assert(first_empty_slot(zeros(4032), k0));
    assert(k0 == 0) by {
        if k0 > 0 {
            assert(!slot_empty(zeros(4032), 0));
        }
    }
    let placed = place(zeros(4032), 0, entry);
    let bins = m0.insert(bin, placed);
    assert(contacts_registry(contacts.drop_last()) == Some(m0));
    assert(contacts.last() == (nid, fp));
    assert(place(bin_or_empty(m0, bin), empty_slot_of(bin_or_empty(m0, bin)), entry) == placed);
    assert(contacts_registry(contacts) == Some(bins));
    let masked = xor_seq(bins[bin], tokens[0].xor_mask@);
    assert(first_match_at(masked, hash, 0));
    let k = choose|k: int| first_match_at(masked, hash, k);
    lemma_first_match_unique(masked, hash, k, 0);
    assert(chunk(masked, k) == entry);
    assert(entry.subrange(32, 224) =~= nb + zeros((192 - nb.len()) as nat));
    lemma_strip_zero_padding(nb, (192 - nb.len()) as nat);
    vstd::utf8::encode_utf8_valid_utf8(nid@);
    vstd::utf8::encode_utf8_decode_utf8(nid@);
    assert(entry_nid(entry) == nid@);
    assert(token_finds(bins, hash, tokens[0]) == Some(nid@));
}

} // verus!
