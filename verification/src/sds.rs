//! Short-string storage: a payload either fits a fixed inline buffer or goes
//! to the heap.  The choice is made once, at construction, by payload size.

use vstd::prelude::*;

verus! {

/// Inline capacity: payloads at most this long are stored inline.
pub const EMB_LEN: usize = 54;

/// A short string stored inline: an explicit length and a fixed buffer, with
/// no heap allocation.  Bytes past `len` are zero padding.
#[derive(Debug, PartialEq, Eq, Clone, Copy)]
pub struct EmbStr {
    pub len: u8,
    pub buf: [u8; 54],
}

/// A string stored in a heap buffer.
#[derive(Debug, PartialEq, Eq, Clone)]
pub struct Raw {
    pub buf: Vec<u8>,
}

impl EmbStr {
    /// The stored length never exceeds the inline capacity.
    pub open spec fn wf(self) -> bool {
        self.len <= 54
    }

    /// Copies `v` inline, truncated to the inline capacity; the rest of the
    /// buffer is zero.
    pub fn from_vec(v: &Vec<u8>) -> (r: EmbStr)
        ensures
            r.wf(),
            r.len == if v@.len() <= 54 {
                v@.len() as u8
            } else {
                54u8
            },
            r@ == if v@.len() <= 54 {
                v@
            } else {
                v@.take(54)
            },
            forall|i: int| r.len <= i < 54 ==> r.buf@[i] == 0u8,
    {
        let n = if v.len() <= EMB_LEN {
            v.len()
        } else {
            EMB_LEN
        };
        let mut buf: [u8; 54] = [0u8; 54];
        let mut i: usize = 0;
        while i < n
            invariant
                i <= n <= 54,
                n <= v@.len(),
                n == if v@.len() <= 54 {
                    v@.len() as int
                } else {
                    54
                },
                forall|j: int| 0 <= j < i ==> buf@[j] == v@[j],
                forall|j: int| i <= j < 54 ==> buf@[j] == 0u8,
            decreases n - i,
        {
            buf[i] = v[i];
            i = i + 1;
        }
        let r = EmbStr { len: n as u8, buf };
        assert(r@ =~= (if v@.len() <= 54 {
            v@
        } else {
            v@.take(54)
        }));
        r
    }

    /// Copies the inline bytes back out.
    pub fn to_vec(&self) -> (r: Vec<u8>)
        requires
            self.wf(),
        ensures
            r@ == self@,
    {
        let n = self.len as usize;
        let mut r: Vec<u8> = Vec::new();
        let mut i: usize = 0;
        while i < n
            invariant
                i <= n <= 54,
                n == self.len as int,
                r@ == self.buf@.take(i as int),
            decreases n - i,
        {
            r.push(self.buf[i]);
            i = i + 1;
            assert(r@ =~= self.buf@.take(i as int));
        }
        r
    }
}

impl View for EmbStr {
    type V = Seq<u8>;

    open spec fn view(&self) -> Seq<u8> {
        self.buf@.take(self.len as int)
    }
}

impl Raw {
    /// Takes ownership of `v` as the heap buffer.
    pub fn from_vec(v: Vec<u8>) -> (r: Raw)
        ensures
            r@ == v@,
    {
        Raw { buf: v }
    }

    /// Hands the heap buffer back out.
    pub fn to_vec(self) -> (r: Vec<u8>)
        ensures
            r@ == self@,
    {
        self.buf
    }
}

impl View for Raw {
    type V = Seq<u8>;

    open spec fn view(&self) -> Seq<u8> {
        self.buf@
    }
}

} // verus!
