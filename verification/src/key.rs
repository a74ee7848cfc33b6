use vstd::prelude::*;

verus! {

/// Number of bytes in a key.
pub const KEY_LEN: usize = 32;

/// A 32-byte reference to an identity, an asset type or a storage address.
#[derive(Clone, Copy, Debug)]
pub struct Key {
    pub bytes: [u8; 32],
}

impl View for Key {
    type V = Seq<u8>;

    open spec fn view(&self) -> Seq<u8> {
        self.bytes@
    }
}

impl Key {
    /// The key made of the given bytes.
    pub fn new(bytes: [u8; 32]) -> (k: Key)
        ensures
            k@ == bytes@,
    {
        Key { bytes }
    }

    /// The bytes of the key as a vector.
    pub fn to_vec(&self) -> (v: Vec<u8>)
        ensures
            v@ == self@,
    {
        let mut v: Vec<u8> = Vec::new();
        let mut i: usize = 0;
        while i < 32
            invariant
                i <= 32,
                v@ == self@.subrange(0, i as int),
            decreases 32 - i,
        {
            v.push(self.bytes[i]);
            i += 1;
        }
        v
    }

    /// Whether two keys hold the same bytes.
    pub fn same(&self, other: &Key) -> (r: bool)
        ensures
            r == (self@ == other@),
    {
        let mut i: usize = 0;
        while i < 32
            invariant
                i <= 32,
                self@.subrange(0, i as int) == other@.subrange(0, i as int),
            decreases 32 - i,
        {
            if self.bytes[i] != other.bytes[i] {
                assert(self@[i as int] != other@[i as int]);
                return false;
            }
            assert(self@.subrange(0, i as int + 1) == self@.subrange(0, i as int).push(
                self@[i as int],
            ));
            assert(other@.subrange(0, i as int + 1) == other@.subrange(0, i as int).push(
                other@[i as int],
            ));
            i += 1;
        }
        assert(self@.subrange(0, 32) == self@);
        assert(other@.subrange(0, 32) == other@);
        true
    }

    /// The key that `bytes` hold from place `start` on; `None` where fewer
    /// than 32 bytes follow.
    pub fn read(bytes: &[u8], start: usize) -> (r: Option<Key>)
        ensures
            match r {
                Some(k) => start + 32 <= bytes@.len() && k@ == bytes@.subrange(
                    start as int,
                    start + 32,
                ),
                None => start + 32 > bytes@.len(),
            },
    {
        let len: usize = bytes.len();
        if len < 32 || start > len - 32 {
            return None;
        }
        let mut held = [0u8; 32];
        let mut i: usize = 0;
        while i < 32
            invariant
                i <= 32,
                start + 32 <= len,
                len == bytes@.len(),
                forall|j: int| 0 <= j < i ==> held@[j] == bytes@[start + j],
            decreases 32 - i,
        {
            held[i] = bytes[start + i];
            i += 1;
        }
        let k = Key { bytes: held };
        assert(k@ =~= bytes@.subrange(start as int, start + 32));
        Some(k)
    }
}

} // verus!
