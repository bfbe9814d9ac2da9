//! The quadratic polynomial permutation (QPP) interleaver.
//!
//! The permutation is `pi(i) = (f1 * i + f2 * i^2) mod k`. It can be walked
//! without multiplications through the recurrence
//! `pi(i + 1) = (pi(i) + g(i)) mod k` with `g(i + 1) = (g(i) + 2 * f2) mod k`,
//! starting from `pi(0) = 0` and `g(0) = (f1 + f2) mod k`.
use vstd::prelude::*;
use vstd::arithmetic::div_mod::{lemma_add_mod_noop, lemma_mod_bound, lemma_mul_mod_noop_right, lemma_small_mod};
use super::{Interleaver, InterleaverMapping};

verus! {

/// The interleaved index `pi(i)` of a QPP interleaver of length `k`.
pub open spec fn qpp_index(k: int, f1: int, f2: int, i: int) -> int {
    (f1 * i + f2 * i * i) % k
}

/// The increment `g(i) = pi(i + 1) - pi(i)` of the recurrence, modulo `k`.
pub open spec fn qpp_increment(k: int, f1: int, f2: int, i: int) -> int {
    (f1 + f2 + 2 * f2 * i) % k
}

/// The recurrence holds of the closed formula: one step of `pi` adds `g`,
/// one step of `g` adds `2 * f2`, both modulo `k`.
pub proof fn lemma_qpp_recurrence(k: int, f1: int, f2: int, i: int)
    requires
        k > 0,
    ensures
        qpp_index(k, f1, f2, 0) == 0,
        qpp_increment(k, f1, f2, 0) == (f1 + f2) % k,
        qpp_index(k, f1, f2, i + 1) == (qpp_index(k, f1, f2, i) + qpp_increment(k, f1, f2, i)) % k,
        qpp_increment(k, f1, f2, i + 1) == (qpp_increment(k, f1, f2, i) + (2 * f2) % k) % k,
{
    let p = f1 * i + f2 * i * i;
    let g = f1 + f2 + 2 * f2 * i;
    assert(0int % k == 0) by {
        lemma_small_mod(0, k as nat);
    }
    assert(f1 * (i + 1) + f2 * (i + 1) * (i + 1) == p + g) by (nonlinear_arith)
        requires
            p == f1 * i + f2 * i * i,
            g == f1 + f2 + 2 * f2 * i,
    ;
    assert(f1 + f2 + 2 * f2 * (i + 1) == g + 2 * f2) by (nonlinear_arith)
        requires
            g == f1 + f2 + 2 * f2 * i,
    ;
    lemma_add_mod_noop(p, g, k);
    lemma_add_mod_noop(g, 2 * f2, k);
}

/// What a QPP interleaver is: its length and the two coefficients.
pub struct QppParameters {
    pub length: nat,
    pub f1: nat,
    pub f2: nat,
}

/// Quadratic Polynomial Permutation (QPP) interleaver.
#[derive(Clone, Copy)]
pub struct QppInterleaver {
    /// The block length `k` in bits.
    length: usize,
    f1: u16,
    f2: u16,
}

impl View for QppInterleaver {
    type V = QppParameters;

    closed spec fn view(&self) -> QppParameters {
        QppParameters { length: self.length as nat, f1: self.f1 as nat, f2: self.f2 as nat }
    }
}

impl QppInterleaver {
    /// Create a new interleaver.
    pub fn new(length: usize, f1: u16, f2: u16) -> (interleaver: Self)
        ensures
            interleaver@ == (QppParameters { length: length as nat, f1: f1 as nat, f2: f2 as nat }),
    {
        Self { length, f1, f2 }
    }

    /// Start the incremental walk of the permuted sequence at index 0.
    pub fn iterator(&self) -> (iterator: QppIterator)
        requires
            self@.length > 0,
        ensures
            iterator.parameters() == self@,
            iterator.index() == 0,
    {
        let length = self.length as u128;
        let twice = 2 * (self.f2 as u128);
        let sum = self.f1 as u128 + self.f2 as u128;
        proof {
            lemma_qpp_recurrence(self.length as int, self.f1 as int, self.f2 as int, 0);
            lemma_mod_bound(twice as int, length as int);
            lemma_mod_bound(sum as int, length as int);
        }
        QppIterator {
            length: self.length,
            incr: (twice % length) as usize,
            pi: 0,
            g: (sum % length) as usize,
            i: 0,
            f1: Ghost(self.f1 as nat),
            f2: Ghost(self.f2 as nat),
        }
    }
}

impl Interleaver for QppInterleaver {
    open spec fn spec_len(&self) -> nat {
        self@.length
    }

    open spec fn permuted(&self, i: int) -> int {
        qpp_index(self@.length as int, self@.f1 as int, self@.f2 as int, i)
    }

    fn len(&self) -> (k: usize) {
        self.length
    }

    fn get(&self, i: usize) -> (ii: usize) {
        let wide_i = i as u128;
        let f1 = self.f1 as u128;
        let f2 = self.f2 as u128;
        let length = self.length as u128;
        assert(wide_i * wide_i <= 0xffff_ffff_ffff_ffff * 0xffff_ffff_ffff_ffff) by (nonlinear_arith)
            requires
                wide_i <= 0xffff_ffff_ffff_ffff,
        ;
        let square = (wide_i * wide_i) % length;
        assert(f1 * wide_i <= 0xffff * 0xffff_ffff_ffff_ffff) by (nonlinear_arith)
            requires
                f1 <= 0xffff,
                wide_i <= 0xffff_ffff_ffff_ffff,
        ;
        assert(f2 * square <= 0xffff * 0xffff_ffff_ffff_ffff) by (nonlinear_arith)
            requires
                f2 <= 0xffff,
                square <= 0xffff_ffff_ffff_ffff,
        ;
        let ii = (f1 * wide_i + f2 * square) % length;
        proof {
            let k = length as int;
            lemma_mul_mod_noop_right(f2 as int, wide_i * wide_i, k);
            lemma_add_mod_noop(f1 * wide_i, f2 * square, k);
            lemma_add_mod_noop(f1 * wide_i, f2 * (wide_i * wide_i), k);
            assert(f2 * (wide_i * wide_i) == f2 * wide_i * wide_i) by (nonlinear_arith);
            lemma_mod_bound((f1 * wide_i + f2 * square) as int, k);
        }
        ii as usize
    }

    fn iter(&self) -> (mappings: Vec<InterleaverMapping>) {
        let mut mappings: Vec<InterleaverMapping> = Vec::new();
        if self.length == 0 {
            return mappings;
        }
        let mut iterator = self.iterator();
        let mut count: usize = 0;
        while count < self.length
            invariant
                count <= self.length,
                self@.length > 0,
                iterator.parameters() == self@,
                iterator.index() == count,
                mappings@.len() == count,
                forall|i: int|
                    0 <= i < count ==> (#[trigger] mappings@[i]).0 == i && mappings@[i].1
                        == self.permuted(i) && self.permuted(i) < self.spec_len(),
            decreases self.length - count,
        {
            match iterator.next() {
                Some(mapping) => {
                    proof {
                        lemma_mod_bound(
                            self@.f1 * count + self@.f2 * count * count,
                            self@.length as int,
                        );
                    }
                    mappings.push(mapping);
                },
                None => {},
            }
            count += 1;
        }
        mappings
    }
}

/// The incremental walk of a QPP interleaver's permuted sequence.
pub struct QppIterator {
    length: usize,
    incr: usize,
    pi: usize,
    g: usize,
    i: usize,
    f1: Ghost<nat>,
    f2: Ghost<nat>,
}

impl QppIterator {
    #[verifier::type_invariant]
    spec fn well_formed(&self) -> bool {
        let k = self.length as int;
        let f1 = self.f1@ as int;
        let f2 = self.f2@ as int;
        &&& k > 0
        &&& self.i <= self.length
        &&& self.incr == (2 * f2) % k
        &&& self.pi == qpp_index(k, f1, f2, self.i as int)
        &&& self.g == qpp_increment(k, f1, f2, self.i as int)
    }

    /// The interleaver that is walked.
    pub closed spec fn parameters(&self) -> QppParameters {
        QppParameters { length: self.length as nat, f1: self.f1@, f2: self.f2@ }
    }

    /// The index of the mapping that `next` gives.
    pub closed spec fn index(&self) -> nat {
        self.i as nat
    }

    /// The next mapping `(i, pi(i))`, or `None` after the last one.
    ///
    /// The mapping is the same that the closed formula gives for `i`.
    pub fn next(&mut self) -> (mapping: Option<InterleaverMapping>)
        ensures
            final(self).parameters() == old(self).parameters(),
            old(self).index() < old(self).parameters().length ==> mapping == Some(
                InterleaverMapping(
                    old(self).index() as usize,
                    qpp_index(
                        old(self).parameters().length as int,
                        old(self).parameters().f1 as int,
                        old(self).parameters().f2 as int,
                        old(self).index() as int,
                    ) as usize,
                ),
            ) && final(self).index() == old(self).index() + 1,
            old(self).index() >= old(self).parameters().length ==> mapping.is_none()
                && final(self).index() == old(self).index(),
    {
        proof {
            use_type_invariant(&*self);
        }
        if self.i < self.length {
            let pi = self.pi;
            let g = self.g;
            let i = self.i;
            let length = self.length as u128;
            proof {
                let k = self.length as int;
                lemma_qpp_recurrence(k, self.f1@ as int, self.f2@ as int, i as int);
                lemma_mod_bound(self.f1@ * i + self.f2@ * i * i, k);
                lemma_mod_bound(self.f1@ + self.f2@ + 2 * self.f2@ * i, k);
                lemma_mod_bound(2 * (self.f2@ as int), k);
                lemma_mod_bound(pi + g, k);
                lemma_mod_bound(g + self.incr, k);
            }
            *self = QppIterator {
                length: self.length,
                incr: self.incr,
                pi: ((pi as u128 + g as u128) % length) as usize,
                g: ((g as u128 + self.incr as u128) % length) as usize,
                i: i + 1,
                f1: self.f1,
                f2: self.f2,
            };
            Some(InterleaverMapping(i, pi))
        } else {
            None
        }
    }

    /// The number of mappings of the whole walk, as lower and upper bound.
    pub fn size_hint(&self) -> (hint: (usize, Option<usize>))
        ensures
            hint.0 == self.parameters().length,
            hint.1 == Some(hint.0),
    {
        (self.length, Some(self.length))
    }
}

} // verus!
