//! Bit vectors of the `bitvec` crate, used as visibility and validity masks.
use vstd::prelude::*;

verus! {

/// A `bitvec::vec::BitVec`: a sequence of bits.
#[verifier::external_body]
pub struct Bits {
    inner: bitvec::vec::BitVec,
}

/// The most bits that a `BitVec` can hold: `BitSlice::MAX_BITS`, which bitvec defines as
/// `usize::MAX >> 3`.
pub const MAX_BITS: usize = usize::MAX >> 3;

/// The bits that a bit vector holds, in order.
pub uninterp spec fn bits(b: Bits) -> Seq<bool>;

/// `BitVec::new`: no bits.
#[verifier::external_body]
fn bits_new() -> (r: Bits)
    ensures
        bits(r).len() == 0,
{
    Bits { inner: bitvec::vec::BitVec::new() }
}

/// `BitVec::repeat`: `len` copies of `bit`. It panics above `BitSlice::MAX_BITS` bits.
#[verifier::external_body]
fn bits_repeat(bit: bool, len: usize) -> (r: Bits)
    requires
        len <= MAX_BITS,
    ensures
        bits(r).len() == len,
        forall|i: int| 0 <= i < len ==> #[trigger] bits(r)[i] == bit,
{
    Bits { inner: bitvec::vec::BitVec::repeat(bit, len) }
}

/// `BitVec::len`. No bit-vector holds more than `BitSlice::MAX_BITS` bits.
#[verifier::external_body]
fn bits_len(b: &Bits) -> (r: usize)
    ensures
        r == bits(*b).len(),
        r <= MAX_BITS,
{
    b.inner.len()
}

/// `BitSlice::get` of one position: the bit there, `None` past the end.
#[verifier::external_body]
fn bits_get(b: &Bits, i: usize) -> (r: Option<bool>)
    ensures
        r == if i < bits(*b).len() {
            Some(bits(*b)[i as int])
        } else {
            None
        },
{
    b.inner.get(i).map(|bit| *bit)
}

/// `BitVec::push`. It panics when the vector would exceed `BitSlice::MAX_BITS` bits.
#[verifier::external_body]
fn bits_push(b: &mut Bits, bit: bool)
    requires
        bits(*old(b)).len() < MAX_BITS,
    ensures
        bits(*final(b)) == bits(*old(b)).push(bit),
{
    b.inner.push(bit);
}

/// `BitVec &= &BitVec` on two vectors of one length: each bit is and-ed with the bit at the same
/// position.
#[verifier::external_body]
fn bits_and_assign(b: &mut Bits, other: &Bits)
    requires
        bits(*old(b)).len() == bits(*other).len(),
    ensures
        bits(*final(b)).len() == bits(*old(b)).len(),
        forall|i: int|
            0 <= i < bits(*old(b)).len() ==> #[trigger] bits(*final(b))[i] == (bits(*old(b))[i] && bits(*other)[i]),
{
    b.inner &= &other.inner;
}

/// The positions of the set bits, in increasing order.
pub open spec fn ones(s: Seq<bool>) -> Seq<int>
    decreases s.len(),
{
    if s.len() == 0 {
        Seq::empty()
    } else if s.last() {
        ones(s.drop_last()).push(s.len() - 1)
    } else {
        ones(s.drop_last())
    }
}

/// There are no more set bits than bits.
pub proof fn lemma_ones_len(s: Seq<bool>)
    ensures
        ones(s).len() <= s.len(),
    decreases s.len(),
{
    if s.len() > 0 {
        lemma_ones_len(s.drop_last());
    }
}

impl Bits {
    /// No bits.
    pub fn new() -> (r: Bits)
        ensures
            bits(r).len() == 0,
    {
        bits_new()
    }

    /// `len` copies of `bit`.
    pub fn repeat(bit: bool, len: usize) -> (r: Bits)
        requires
            len <= MAX_BITS,
        ensures
            bits(r) == Seq::new(len as nat, |_i: int| bit),
    {
        let r = bits_repeat(bit, len);
        assert(bits(r) =~= Seq::new(len as nat, |_i: int| bit));
        r
    }

    pub fn len(&self) -> (r: usize)
        ensures
            r == bits(*self).len(),
            r <= MAX_BITS,
    {
        bits_len(self)
    }

    /// The bit at `i`, `None` past the end.
    pub fn get(&self, i: usize) -> (r: Option<bool>)
        ensures
            r == if i < bits(*self).len() {
                Some(bits(*self)[i as int])
            } else {
                None
            },
    {
        bits_get(self, i)
    }

    pub fn push(&mut self, bit: bool)
        requires
            bits(*old(self)).len() < MAX_BITS,
        ensures
            bits(*final(self)) == bits(*old(self)).push(bit),
    {
        bits_push(self, bit)
    }

    /// The bits of `flags`, in order.
    pub fn from_bools(flags: &[bool]) -> (r: Bits)
        requires
            flags@.len() <= MAX_BITS,
        ensures
            bits(r) == flags@,
    {
        let mut b = bits_new();
        let mut i: usize = 0;
        while i < flags.len()
            invariant
                i <= flags@.len(),
                flags@.len() <= MAX_BITS,
                bits(b) == flags@.take(i as int),
            decreases flags@.len() - i,
        {
            bits_push(&mut b, flags[i]);
            proof {
                assert(flags@.take(i + 1) =~= flags@.take(i as int).push(flags@[i as int]));
            }
            i = i + 1;
        }
        proof {
            assert(flags@.take(flags@.len() as int) =~= flags@);
        }
        b
    }

    /// The bits, in order.
    pub fn to_bools(&self) -> (r: Vec<bool>)
        ensures
            r@ == bits(*self),
    {
        let n = bits_len(self);
        let mut out: Vec<bool> = Vec::new();
        let mut i: usize = 0;
        while i < n
            invariant
                i <= n,
                n == bits(*self).len(),
                out@ == bits(*self).take(i as int),
            decreases n - i,
        {
            let bit = bits_get(self, i).unwrap();
            out.push(bit);
            proof {
                assert(bits(*self).take(i + 1) =~= bits(*self).take(i as int).push(bits(*self)[i as int]));
            }
            i = i + 1;
        }
        proof {
            assert(bits(*self).take(n as int) =~= bits(*self));
        }
        out
    }

    /// Clears every bit that is clear in `other`, a vector of the same length.
    pub fn and_assign(&mut self, other: &Bits)
        requires
            bits(*old(self)).len() == bits(*other).len(),
        ensures
            bits(*final(self)).len() == bits(*old(self)).len(),
            forall|i: int|
                0 <= i < bits(*old(self)).len() ==> #[trigger] bits(*final(self))[i] == (bits(*old(self))[i]
                    && bits(*other)[i]),
    {
        bits_and_assign(self, other)
    }

    /// The positions of the set bits, in increasing order, as `BitSlice::iter_ones` walks them.
    pub fn iter_ones(&self) -> (r: Vec<usize>)
        ensures
            r@.map_values(|p: usize| p as int) == ones(bits(*self)),
    {
        let n = bits_len(self);
        let mut out: Vec<usize> = Vec::new();
        let mut i: usize = 0;
        while i < n
            invariant
                i <= n,
                n == bits(*self).len(),
                out@.map_values(|p: usize| p as int) == ones(bits(*self).take(i as int)),
            decreases n - i,
        {
            let bit = bits_get(self, i).unwrap();
            let ghost before = out@;
            proof {
                assert(bits(*self).take(i + 1).drop_last() =~= bits(*self).take(i as int));
            }
            if bit {
                out.push(i);
                proof {
                    assert(out@.map_values(|p: usize| p as int) =~= before.map_values(|p: usize| p as int).push(
                        i as int,
                    ));
                }
            }
            i = i + 1;
        }
        proof {
            assert(bits(*self).take(n as int) =~= bits(*self));
        }
        out
    }
}

} // verus!
