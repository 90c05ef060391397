//! A small association list from message numbers to 32-byte message keys,
//! kept free of duplicate keys, used for out-of-order and replayed messages.
use vstd::prelude::*;

verus! {

/// The entries viewed as plain values.
pub open spec fn entries_view(v: Seq<(u64, Vec<u8>)>) -> Seq<(u64, Seq<u8>)> {
    v.map_values(|e: (u64, Vec<u8>)| (e.0, e.1@))
}

/// No message number occurs twice.
pub open spec fn entries_distinct(s: Seq<(u64, Seq<u8>)>) -> bool {
    forall|i: int, j: int| 0 <= i < s.len() && 0 <= j < s.len() && i != j ==> s[i].0 != s[j].0
}

/// Every stored key is 32 bytes.
pub open spec fn entries_keys_sized(s: Seq<(u64, Seq<u8>)>) -> bool {
    forall|i: int| 0 <= i < s.len() ==> (#[trigger] s[i]).1.len() == 32
}

/// Whether message number `k` has an entry.
pub open spec fn entries_has(s: Seq<(u64, Seq<u8>)>, k: u64) -> bool {
    exists|i: int| 0 <= i < s.len() && (#[trigger] s[i]).0 == k
}

/// The index of the entry for `k` (meaningful when it has one).
pub open spec fn entries_index(s: Seq<(u64, Seq<u8>)>, k: u64) -> int {
    choose|i: int| 0 <= i < s.len() && (#[trigger] s[i]).0 == k
}

/// The key stored for `k`, if any.
pub open spec fn entries_lookup(s: Seq<(u64, Seq<u8>)>, k: u64) -> Option<Seq<u8>> {
    if entries_has(s, k) {
        Some(s[entries_index(s, k)].1)
    } else {
        None
    }
}

/// Store `v` for `k`: replace the existing entry in place, or append.
pub open spec fn entries_insert(s: Seq<(u64, Seq<u8>)>, k: u64, v: Seq<u8>) -> Seq<(u64, Seq<u8>)> {
    if entries_has(s, k) {
        s.update(entries_index(s, k), (k, v))
    } else {
        s.push((k, v))
    }
}

/// Bound the table: when it holds more than `max` entries, drop the oldest.
pub open spec fn entries_prune(s: Seq<(u64, Seq<u8>)>, max: nat) -> Seq<(u64, Seq<u8>)> {
    if s.len() > max {
        s.drop_first()
    } else {
        s
    }
}

/// Insertion keeps the table free of duplicates and keeps keys sized.
pub proof fn lemma_insert_wf(s: Seq<(u64, Seq<u8>)>, k: u64, v: Seq<u8>)
    requires
        entries_distinct(s),
    ensures
        entries_distinct(entries_insert(s, k, v)),
        entries_keys_sized(s) && v.len() == 32 ==> entries_keys_sized(entries_insert(s, k, v)),
        entries_lookup(entries_insert(s, k, v), k) == Some(v),
        forall|j: u64| j != k ==> entries_lookup(entries_insert(s, k, v), j) == entries_lookup(s, j),
        entries_insert(s, k, v).len() <= s.len() + 1,
{
    let t = entries_insert(s, k, v);
    if entries_has(s, k) {
        let idx = entries_index(s, k);
        assert(t[idx].0 == k);
        assert forall|j: u64| j != k implies entries_lookup(t, j) == entries_lookup(s, j) by {
            if entries_has(s, j) {
                let i = entries_index(s, j);
                assert(t[i] == s[i]);
                assert(entries_has(t, j));
                let i2 = entries_index(t, j);
                assert(i2 == i);
            } else {
                if entries_has(t, j) {
                    let i2 = entries_index(t, j);
                    assert(s[i2].0 == j);
                }
            }
        }
    } else {
        assert(t[s.len() as int].0 == k);
        assert forall|j: u64| j != k implies entries_lookup(t, j) == entries_lookup(s, j) by {
            if entries_has(s, j) {
                let i = entries_index(s, j);
                assert(t[i] == s[i]);
                assert(entries_has(t, j));
            } else {
                if entries_has(t, j) {
                    let i2 = entries_index(t, j);
                    assert(s[i2].0 == j);
                }
            }
        }
    }
}

/// Pruning keeps the table free of duplicates, keeps keys sized, only ever
/// forgets entries, and leaves at most `max` entries when it held at most
/// `max + 1`.
pub proof fn lemma_prune_wf(s: Seq<(u64, Seq<u8>)>, max: nat)
    requires
        entries_distinct(s),
    ensures
        entries_distinct(entries_prune(s, max)),
        entries_keys_sized(s) ==> entries_keys_sized(entries_prune(s, max)),
        forall|j: u64| #[trigger] entries_has(entries_prune(s, max), j) ==> entries_lookup(entries_prune(s, max), j)
            == entries_lookup(s, j),
        s.len() <= max + 1 ==> entries_prune(s, max).len() <= max,
        s.len() >= 2 ==> entries_prune(s, max).last() == s.last(),
{
    let t = entries_prune(s, max);
    if s.len() > max {
        assert forall|j: u64| #[trigger] entries_has(t, j) implies entries_lookup(t, j) == entries_lookup(s, j) by {
            let i = entries_index(t, j);
            assert(s[i + 1] == t[i]);
            assert(entries_has(s, j));
            let i2 = entries_index(s, j);
            assert(i2 == i + 1);
        }
    }
}

/// Index of the entry for `k`, if any.
pub fn find_entry(v: &Vec<(u64, Vec<u8>)>, k: u64) -> (r: Option<usize>)
    ensures
        r is None <==> !entries_has(entries_view(v@), k),
        r matches Some(i) ==> i < v@.len() && v@[i as int].0 == k,
        entries_distinct(entries_view(v@)) ==> (r matches Some(i) ==> i == entries_index(entries_view(v@), k)),
{
    let ghost s = entries_view(v@);
    let mut i: usize = 0;
    while i < v.len()
        invariant
            i <= v@.len(),
            s == entries_view(v@),
            forall|j: int| 0 <= j < i ==> (#[trigger] s[j]).0 != k,
        decreases v@.len() - i,
    {
        if v[i].0 == k {
            assert(s[i as int].0 == k);
            return Some(i);
        }
        i = i + 1;
    }
    None
}

/// Store a 32-byte key for message number `k` (replacing any earlier one).
pub fn insert_entry(v: &mut Vec<(u64, Vec<u8>)>, k: u64, key: Vec<u8>)
    requires
        entries_distinct(entries_view(old(v)@)),
    ensures
        entries_view(final(v)@) == entries_insert(entries_view(old(v)@), k, key@),
{
    let ghost s = entries_view(v@);
    let ghost kv = key@;
    match find_entry(v, k) {
        Some(i) => {
            v.set(i, (k, key));
            assert(entries_view(v@) =~= s.update(i as int, (k, kv)));
        },
        None => {
            v.push((k, key));
            assert(entries_view(v@) =~= s.push((k, kv)));
        },
    }
}

/// Drop the oldest entry while the table holds more than `max`.
pub fn prune_entries(v: &mut Vec<(u64, Vec<u8>)>, max: usize)
    ensures
        entries_view(final(v)@) == entries_prune(entries_view(old(v)@), max as nat),
{
    let ghost s = entries_view(v@);
    if v.len() > max {
        v.remove(0);
        assert(entries_view(v@) =~= s.drop_first());
    }
}

} // verus!
