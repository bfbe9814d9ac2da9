//! Block interleavers: a permutation of the indices of a block.
use vstd::prelude::*;

pub mod permutation;
pub mod qpp;
pub mod umts;
pub mod umts_permutation;

verus! {

/// One entry of an interleaver: an index of the block and its interleaved index.
#[derive(Clone, Copy)]
pub struct InterleaverMapping(
    /// The index in the block.
    pub usize,
    /// The interleaved index.
    pub usize,
);

impl core::ops::Deref for InterleaverMapping {
    type Target = usize;

    /// The interleaved index.
    fn deref(&self) -> (interleaved: &usize)
        ensures
            *interleaved == self.1,
    {
        &self.1
    }
}

/// The buffer that `deinterleave` leaves after its first `n` writes:
/// write `i` puts `source[i]` at the position `permutation[i]` of the target.
pub open spec fn deinterleaved<T>(permutation: Seq<int>, source: Seq<T>, target: Seq<T>, n: nat) -> Seq<T>
    decreases n,
{
    if n == 0 {
        target
    } else {
        deinterleaved(permutation, source, target, (n - 1) as nat).update(
            permutation[n - 1],
            source[n - 1],
        )
    }
}

/// The buffer that `interleave` fills: position `i` holds `source[permutation[i]]`.
pub open spec fn interleaved<T>(permutation: Seq<int>, source: Seq<T>) -> Seq<T> {
    Seq::new(permutation.len(), |i: int| source[permutation[i]])
}

/// The interleaved indices of an interleaver, in their order.
pub open spec fn permutation<I: Interleaver + ?Sized>(interleaver: &I) -> Seq<int> {
    Seq::new(interleaver.spec_len(), |i: int| interleaver.permuted(i))
}

/// A block interleaver.
pub trait Interleaver {
    /// The block length `k`.
    spec fn spec_len(&self) -> nat;

    /// The interleaved index that belongs to index `i`.
    spec fn permuted(&self, i: int) -> int;

    /// The interleaver length.
    fn len(&self) -> (k: usize)
        ensures
            k == self.spec_len(),
    ;

    /// Get the interleaved index of `i`.
    ///
    /// It is slower to call this function `k` times than to walk the
    /// permuted sequence that `iter` gives.
    fn get(&self, i: usize) -> (ii: usize)
        requires
            i < self.spec_len(),
        ensures
            ii == self.permuted(i as int),
            ii < self.spec_len(),
    ;

    /// Get the permuted sequence: entry `i` is the pair of `i` and its interleaved index.
    fn iter(&self) -> (mappings: Vec<InterleaverMapping>)
        ensures
            mappings@.len() == self.spec_len(),
            forall|i: int|
                0 <= i < self.spec_len() ==> (#[trigger] mappings@[i]).0 == i && mappings@[i].1
                    == self.permuted(i) && self.permuted(i) < self.spec_len(),
    ;

    /// Interleave `source` into `interleaved`: `interleaved[i] = source[pi(i)]`.
    ///
    /// The sequence of the interleaved indices in the contract is the one
    /// that `permutation` names.
    fn interleave<T: Copy + Default + Sized>(&self, source: &[T], interleaved: &mut [T])
        requires
            source@.len() == self.spec_len(),
            old(interleaved)@.len() == self.spec_len(),
        ensures
            final(interleaved)@ == self::interleaved(
                Seq::new(self.spec_len(), |i: int| self.permuted(i)),
                source@,
            ),
    {
        let mappings = self.iter();
        let n = mappings.len();
        let mut index: usize = 0;
        while index < n
            invariant
                index <= n,
                n == self.spec_len(),
                mappings@.len() == n,
                source@.len() == n,
                interleaved@.len() == n,
                forall|i: int|
                    0 <= i < n ==> (#[trigger] mappings@[i]).0 == i && mappings@[i].1
                        == self.permuted(i) && self.permuted(i) < n,
                forall|i: int| 0 <= i < index ==> interleaved@[i] == source@[self.permuted(i)],
            decreases n - index,
        {
            let InterleaverMapping(i, ii) = mappings[index];
            interleaved[i] = source[ii];
            index += 1;
        }
        assert(interleaved@ =~= self::interleaved(
            Seq::new(self.spec_len(), |i: int| self.permuted(i)),
            source@,
        ));
    }

    /// Deinterleave `source` into `deinterleaved`: `deinterleaved[pi(i)] = source[i]`.
    ///
    /// The sequence of the interleaved indices in the contract is the one
    /// that `permutation` names.
    fn deinterleave<T: Copy + Default + Sized>(&self, source: &[T], deinterleaved: &mut [T])
        requires
            source@.len() == self.spec_len(),
            old(deinterleaved)@.len() == self.spec_len(),
        ensures
            final(deinterleaved)@.len() == old(deinterleaved)@.len(),
            final(deinterleaved)@ == self::deinterleaved(
                Seq::new(self.spec_len(), |i: int| self.permuted(i)),
                source@,
                old(deinterleaved)@,
                self.spec_len(),
            ),
    {
        let mappings = self.iter();
        let n = mappings.len();
        let mut index: usize = 0;
        while index < n
            invariant
                index <= n,
                n == self.spec_len(),
                mappings@.len() == n,
                source@.len() == n,
                deinterleaved@.len() == n,
                forall|i: int|
                    0 <= i < n ==> (#[trigger] mappings@[i]).0 == i && mappings@[i].1
                        == self.permuted(i) && self.permuted(i) < n,
                deinterleaved@ == self::deinterleaved(
                    Seq::new(self.spec_len(), |i: int| self.permuted(i)),
                    source@,
                    old(deinterleaved)@,
                    index as nat,
                ),
            decreases n - index,
        {
            let InterleaverMapping(i, ii) = mappings[index];
            deinterleaved[ii] = source[i];
            index += 1;
        }
    }
}

} // verus!
