//! Holders of key material that wipe it: zeroing of buffers, key material
//! that can be purged, and key material moved out of its source buffer.
use vstd::prelude::*;
use vstd::slice::slice_to_vec;

verus! {

/// Page size of the guard pages around guarded allocations.
pub const GUARD_PAGE_SIZE: usize = 4096;

/// `n` zero bytes.
pub open spec fn zero_bytes(n: nat) -> Seq<u8> {
    Seq::new(n, |i: int| 0u8)
}

/// Overwrite every byte of the buffer with zero.
pub fn secure_zero_memory(buffer: &mut [u8])
    ensures
        final(buffer)@ == zero_bytes(old(buffer)@.len()),
{
    let n = buffer.len();
    let mut i: usize = 0;
    while i < n
        invariant
            buffer@.len() == n,
            i <= n,
            forall|j: int| 0 <= j < i ==> buffer@[j] == 0u8,
        decreases n - i,
    {
        buffer[i] = 0u8;
        i = i + 1;
    }
    assert(buffer@ =~= zero_bytes(n as nat));
}

/// Key material, with a record of whether its pages were to be locked.
#[derive(Debug)]
pub struct SecureKeyMaterial {
    key_material: Vec<u8>,
    locked: bool,
}

impl Clone for SecureKeyMaterial {
    fn clone(&self) -> (r: Self)
        ensures
            r.bytes_view() == self.bytes_view(),
            r.is_locked() == self.is_locked(),
    {
        SecureKeyMaterial { key_material: self.key_material.clone(), locked: self.locked }
    }
}

impl SecureKeyMaterial {
    /// The key bytes.
    pub closed spec fn bytes_view(self) -> Seq<u8> {
        self.key_material@
    }

    /// Whether the pages are marked locked.
    pub closed spec fn is_locked(self) -> bool {
        self.locked
    }

    /// Hold `key_bytes`; non-empty material is marked locked when
    /// `lock_pages` asks for it.
    pub fn new(key_bytes: Vec<u8>, lock_pages: bool) -> (r: Self)
        ensures
            r.bytes_view() == key_bytes@,
            r.is_locked() == (lock_pages && key_bytes@.len() > 0),
    {
        let locked = lock_pages && key_bytes.len() > 0;
        SecureKeyMaterial { key_material: key_bytes, locked }
    }

    /// The key bytes.
    pub fn bytes(&self) -> (r: &[u8])
        ensures
            r@ == self.bytes_view(),
    {
        self.key_material.as_slice()
    }

    /// Number of key bytes.
    pub fn len(&self) -> (r: usize)
        ensures
            r == self.bytes_view().len(),
    {
        self.key_material.len()
    }

    /// Whether there are no key bytes.
    pub fn is_empty(&self) -> (r: bool)
        ensures
            r == (self.bytes_view().len() == 0),
    {
        self.key_material.len() == 0
    }

    /// Zero the key bytes and drop the lock mark.
    pub fn purge(&mut self)
        ensures
            final(self).bytes_view() == zero_bytes(old(self).bytes_view().len()),
            !final(self).is_locked(),
    {
        let n = self.key_material.len();
        let mut i: usize = 0;
        while i < n
            invariant
                self.key_material@.len() == n,
                i <= n,
                forall|j: int| 0 <= j < i ==> self.key_material@[j] == 0u8,
            decreases n - i,
        {
            self.key_material.set(i, 0u8);
            i = i + 1;
        }
        assert(self.key_material@ =~= zero_bytes(n as nat));
        self.locked = false;
    }
}

impl SecureKeyMaterial {
    /// Mutable access to the key bytes; what is written through it becomes
    /// the key material.
    pub fn key_material_mut(&mut self) -> (r: &mut [u8])
        ensures
            r@ == old(self).bytes_view(),
            final(self).bytes_view() == final(r)@,
            final(self).is_locked() == old(self).is_locked(),
    {
        self.key_material.as_mut_slice()
    }
}

/// Key material moved out of its source buffer.
pub struct GuardedKeyMaterial {
    data: Vec<u8>,
}

impl GuardedKeyMaterial {
    /// The held bytes.
    pub closed spec fn bytes_view(self) -> Seq<u8> {
        self.data@
    }

    /// Take a copy of `key_bytes` and zero the source.
    pub fn new(key_bytes: &mut [u8]) -> (r: Option<Self>)
        ensures
            r matches Some(g) && g.bytes_view() == old(key_bytes)@,
            final(key_bytes)@ == zero_bytes(old(key_bytes)@.len()),
    {
        let data = slice_to_vec(key_bytes);
        secure_zero_memory(key_bytes);
        Some(GuardedKeyMaterial { data })
    }

    /// The held bytes.
    pub fn bytes(&self) -> (r: &[u8])
        ensures
            r@ == self.bytes_view(),
    {
        self.data.as_slice()
    }

    /// Number of held bytes.
    pub fn len(&self) -> (r: usize)
        ensures
            r == self.bytes_view().len(),
    {
        self.data.len()
    }

    /// Whether no bytes are held.
    pub fn is_empty(&self) -> (r: bool)
        ensures
            r == (self.bytes_view().len() == 0),
    {
        self.data.len() == 0
    }
}

} // verus!
