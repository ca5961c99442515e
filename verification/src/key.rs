//! Account keys.

use vstd::prelude::*;

verus! {

/// Number of bytes in an account key.
pub const KEY_LEN: usize = 32;

/// The address of an account on the ledger. Its view is its 32 bytes.
#[derive(Clone, Copy, Debug, PartialEq, Eq, Hash)]
pub struct Key {
    pub bytes: [u8; 32],
}

impl View for Key {
    type V = Seq<u8>;

    open spec fn view(&self) -> Seq<u8> {
        self.bytes@
    }
}

impl Key {
    /// The key with these bytes.
    pub fn new(bytes: [u8; 32]) -> (key: Key)
        ensures
            key.bytes == bytes,
    {
        Key { bytes }
    }

    /// Byte-for-byte comparison of two keys.
    pub fn same_as(&self, other: &Key) -> (same: bool)
        ensures
            same == (self@ == other@),
            same == (*self == *other),
    {
        let mut i: usize = 0;
        while i < KEY_LEN
            invariant
                i <= KEY_LEN,
                forall|k: int| 0 <= k < i ==> self.bytes[k] == other.bytes[k],
            decreases KEY_LEN - i,
        {
            if self.bytes[i] != other.bytes[i] {
                return false;
            }
            i += 1;
        }
        proof {
            assert(self@ =~= other@);
            lemma_key_by_bytes(*self, *other);
        }
        true
    }

    /// Copies a key out of a buffer.
    pub fn read_from(buf: &[u8], offset: usize) -> (key: Key)
        requires
            offset + KEY_LEN <= buf.len(),
        ensures
            key@ == buf@.subrange(offset as int, offset + KEY_LEN),
    {
        let mut bytes: [u8; 32] = [0; 32];
        let mut i: usize = 0;
        while i < KEY_LEN
            invariant
                i <= KEY_LEN,
                offset + KEY_LEN <= buf.len(),
                forall|k: int| 0 <= k < i ==> bytes[k] == buf[offset + k],
            decreases KEY_LEN - i,
        {
            bytes[i] = buf[offset + i];
            i += 1;
        }
        let key = Key { bytes };
        assert(key@ =~= buf@.subrange(offset as int, offset + KEY_LEN));
        key
    }
}

/// Two keys with the same bytes are the same key.
pub proof fn lemma_key_by_bytes(a: Key, b: Key)
    requires
        a@ == b@,
    ensures
        a == b,
{
    assert(a.bytes =~= b.bytes);
}

} // verus!
