//! Node identifiers.
//!
//! A `NodeId` is a short string of at most [`MAX_ID_LEN`] bytes that names one
//! node on the network. It is compared by value, cheap to copy, and stored
//! inline so that no allocation is needed on embedded targets.

use vstd::prelude::*;

verus! {

/// Upper bound on the length of a node identifier, in bytes.
pub const MAX_ID_LEN: usize = 48;

/// Identifier of one node, held inline as a length-prefixed byte array.
#[derive(Clone, Copy, Debug, PartialEq)]
pub struct NodeId {
    bytes: [u8; 48],
    len: u8,
}

impl View for NodeId {
    type V = Seq<u8>;

    closed spec fn view(&self) -> Seq<u8> {
        self.bytes@.take(self.len as int)
    }
}

impl NodeId {
    #[verifier::type_invariant]
    spec fn inv(self) -> bool {
        self.len <= 48
    }

    /// Build an identifier from raw bytes; fails when the name is too long.
    pub fn from_bytes(s: &[u8]) -> (r: Option<NodeId>)
        ensures
            s@.len() <= MAX_ID_LEN ==> (r matches Some(id) && id@ == s@),
            s@.len() > MAX_ID_LEN ==> r is None,
    {
        if s.len() > 48 {
            return None;
        }
        let mut bytes = [0u8; 48];
        let mut i: usize = 0;
        while i < s.len()
            invariant
                i <= s@.len() <= 48,
                bytes@.len() == 48,
                forall|j: int| 0 <= j < i ==> bytes@[j] == s@[j],
            decreases s@.len() - i,
        {
            bytes[i] = s[i];
            i += 1;
        }
        let id = NodeId { bytes, len: s.len() as u8 };
        proof {
            assert(id@ =~= s@);
        }
        Some(id)
    }

    /// Number of bytes in the identifier.
    pub fn len(&self) -> (r: usize)
        ensures
            r == self@.len(),
            r <= MAX_ID_LEN,
    {
        proof {
            use_type_invariant(self);
        }
        self.len as usize
    }

    /// Byte at position `i`.
    pub fn byte_at(&self, i: usize) -> (r: u8)
        requires
            i < self@.len(),
        ensures
            r == self@[i as int],
    {
        proof {
            use_type_invariant(self);
        }
        self.bytes[i]
    }

    /// The identifier's bytes as a fresh vector.
    pub fn to_vec(&self) -> (r: Vec<u8>)
        ensures
            r@ == self@,
    {
        proof {
            use_type_invariant(self);
        }
        let mut v: Vec<u8> = Vec::new();
        let mut i: usize = 0;
        let n = self.len as usize;
        while i < n
            invariant
                i <= n,
                n == self@.len(),
                n <= 48,
                self.inv(),
                v@.len() == i,
                forall|j: int| 0 <= j < i ==> v@[j] == self@[j],
            decreases n - i,
        {
            v.push(self.bytes[i]);
            i += 1;
        }
        proof {
            assert(v@ =~= self@);
        }
        v
    }

    /// Copy `n` bytes out of `buf`, starting at `start`, into a fresh identifier.
    pub fn read_from(buf: &[u8], start: usize, n: usize) -> (r: NodeId)
        requires
            n <= MAX_ID_LEN,
            start + n <= buf@.len(),
        ensures
            r@ == buf@.subrange(start as int, start as int + n as int),
    {
        let mut bytes = [0u8; 48];
        let mut i: usize = 0;
        let buf_len = buf.len();
        while i < n
            invariant
                i <= n <= 48,
                start + n <= buf@.len(),
                buf@.len() == buf_len,
                bytes@.len() == 48,
                forall|j: int| 0 <= j < i ==> bytes@[j] == buf@[start + j],
            decreases n - i,
        {
            bytes[i] = buf[start + i];
            i += 1;
        }
        let id = NodeId { bytes, len: n as u8 };
        proof {
            assert(id@ =~= buf@.subrange(start as int, start as int + n as int));
        }
        id
    }

    /// Value equality on identifiers.
    pub fn eq_id(&self, other: &NodeId) -> (r: bool)
        ensures
            r == (self@ == other@),
    {
        proof {
            use_type_invariant(self);
            use_type_invariant(other);
        }
        if self.len != other.len {
            proof {
                assert(self@.len() != other@.len());
            }
            return false;
        }
        let n = self.len as usize;
        let mut i: usize = 0;
        while i < n
            invariant
                i <= n,
                n == self@.len() == other@.len(),
                n <= 48,
                self.inv(),
                other.inv(),
                forall|j: int| 0 <= j < i ==> self@[j] == other@[j],
            decreases n - i,
        {
            if self.bytes[i] != other.bytes[i] {
                proof {
                    assert(self@[i as int] != other@[i as int]);
                }
                return false;
            }
            i += 1;
        }
        proof {
            assert(self@ =~= other@);
        }
        true
    }
}

} // verus!
