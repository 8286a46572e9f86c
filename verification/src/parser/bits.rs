//! Bit vectors, as the per-file flags of an archive are kept.

use vstd::prelude::*;

verus! {

/// A growable vector of bits, stored by the `bitvec` crate.
///
/// Its model is the sequence of its bits. Nothing else of it is visible to
/// the verifier: the functions below that touch the storage state what the
/// `bitvec` crate does, and are believed.
#[verifier::external_body]
#[derive(Debug, PartialEq, Eq)]
pub struct Bits {
    bits: bitvec::vec::BitVec,
}

/// The bits that a vector holds, in order.
pub uninterp spec fn bits_of(bits: Bits) -> Seq<bool>;

/// The most bits a vector can hold: `BitSlice::MAX_BITS` of the `bitvec`
/// crate, an eighth of the address space.
pub open spec fn max_bits() -> nat {
    (usize::MAX / 8) as nat
}

impl View for Bits {
    type V = Seq<bool>;

    open spec fn view(&self) -> Seq<bool> {
        bits_of(*self)
    }
}

/// `BitVec::new`: a vector without bits.
#[verifier::external_body]
fn bitvec_new() -> (r: Bits)
    ensures
        bits_of(r) == Seq::<bool>::empty(),
{
    Bits { bits: bitvec::vec::BitVec::new() }
}

/// `BitVec::push`: appends one bit and leaves the others as they were. The
/// crate panics when the new length would exceed `BitSlice::MAX_BITS`, so
/// that case is excluded.
#[verifier::external_body]
fn bitvec_push(bits: &mut Bits, bit: bool)
    requires
        bits_of(*old(bits)).len() < max_bits(),
    ensures
        bits_of(*final(bits)) == bits_of(*old(bits)).push(bit),
{
    bits.bits.push(bit)
}

/// `BitVec::len`: the number of bits, which the crate keeps at or below
/// `BitSlice::MAX_BITS`.
#[verifier::external_body]
fn bitvec_len(bits: &Bits) -> (n: usize)
    ensures
        n == bits_of(*bits).len(),
        n <= max_bits(),
{
    bits.bits.len()
}

/// Indexing of a `BitSlice` by `usize`: the bit at position `i`. The crate
/// panics when `i` is not below the length, so that case is excluded.
#[verifier::external_body]
fn bitvec_index(bits: &Bits, i: usize) -> (bit: bool)
    requires
        i < bits_of(*bits).len(),
    ensures
        bit == bits_of(*bits)[i as int],
{
    bits.bits[i]
}

/// The number of set bits among the first `n` of `bits`.
pub open spec fn count_set(bits: Seq<bool>, n: nat) -> nat
    decreases n,
{
    if n == 0 {
        0
    } else {
        count_set(bits, (n - 1) as nat) + if bits[n - 1] {
            1nat
        } else {
            0nat
        }
    }
}

/// No more bits are set than there are.
pub proof fn lemma_count_set_bound(bits: Seq<bool>, n: nat)
    ensures
        count_set(bits, n) <= n,
    decreases n,
{
    if n > 0 {
        lemma_count_set_bound(bits, (n - 1) as nat);
    }
}

impl Bits {
    /// The empty vector.
    pub fn new() -> (r: Bits)
        ensures
            r@ == Seq::<bool>::empty(),
    {
        bitvec_new()
    }

    /// Appends `bit`.
    pub fn push(&mut self, bit: bool)
        requires
            old(self)@.len() < max_bits(),
        ensures
            final(self)@ == old(self)@.push(bit),
    {
        bitvec_push(self, bit)
    }

    /// The number of bits.
    pub fn len(&self) -> (n: usize)
        ensures
            n == self@.len(),
            n <= max_bits(),
    {
        bitvec_len(self)
    }

    /// The bit at position `i`.
    pub fn get(&self, i: usize) -> (bit: bool)
        requires
            i < self@.len(),
        ensures
            bit == self@[i as int],
    {
        bitvec_index(self, i)
    }

    /// The number of set bits.
    pub fn count_ones(&self) -> (n: usize)
        ensures
            n == count_set(self@, self@.len()),
    {
        let len = self.len();
        let mut n: usize = 0;
        let mut i: usize = 0;
        while i < len
            invariant
                i <= len,
                len == self@.len(),
                n == count_set(self@, i as nat),
                n <= i,
            decreases len - i,
        {
            if self.get(i) {
                n = n + 1;
            }
            i = i + 1;
        }
        n
    }

    /// The vector that holds `bools`, or `None` when they are more than a
    /// vector can hold.
    pub fn from_bools(bools: &[bool]) -> (r: Option<Bits>)
        ensures
            bools@.len() <= max_bits() ==> r.is_some() && r.unwrap()@ == bools@,
            bools@.len() > max_bits() ==> r.is_none(),
    {
        if bools.len() > usize::MAX / 8 {
            return None;
        }
        let mut bits = Bits::new();
        let mut i: usize = 0;
        while i < bools.len()
            invariant
                i <= bools@.len(),
                bools@.len() <= max_bits(),
                bits@ == bools@.take(i as int),
            decreases bools@.len() - i,
        {
            proof {
                assert(bools@.take(i as int).push(bools@[i as int]) =~= bools@.take(i + 1));
            }
            bits.push(bools[i]);
            i = i + 1;
        }
        proof {
            assert(bools@.take(bools@.len() as int) =~= bools@);
        }
        Some(bits)
    }
}

impl Clone for Bits {
    fn clone(&self) -> (r: Bits)
        ensures
            r@ == self@,
    {
        let len = self.len();
        let mut r = Bits::new();
        let mut i: usize = 0;
        while i < len
            invariant
                i <= len,
                len == self@.len(),
                len <= max_bits(),
                r@ == self@.take(i as int),
            decreases len - i,
        {
            proof {
                assert(self@.take(i as int).push(self@[i as int]) =~= self@.take(i + 1));
            }
            r.push(self.get(i));
            i = i + 1;
        }
        proof {
            assert(self@.take(len as int) =~= self@);
        }
        r
    }
}

} // verus!
