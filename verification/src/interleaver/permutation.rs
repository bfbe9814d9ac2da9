//! When an interleaver is a permutation, and what follows from it.
use vstd::prelude::*;
use vstd::arithmetic::div_mod::{
    lemma_fundamental_div_mod,
    lemma_mod_bound,
    lemma_mod_equivalence,
    lemma_mod_multiples_basic,
    lemma_small_mod,
};
use vstd::relations::injective_on;
use vstd::set_lib::{lemma_int_range, lemma_map_size, lemma_subset_equality, set_int_range};
use super::{deinterleaved, interleaved};
use super::qpp::qpp_index;

verus! {

/// Some index of the block is mapped to `j`.
pub open spec fn has_preimage(permutation: Seq<int>, j: int) -> bool {
    exists|i: int| 0 <= i < permutation.len() && #[trigger] permutation[i] == j
}

/// The indices of the block are mapped to indices of the block, and no two to the same.
pub open spec fn is_injection(permutation: Seq<int>) -> bool {
    &&& forall|i: int| 0 <= i < permutation.len() ==> 0 <= #[trigger] permutation[i] < permutation.len()
    &&& forall|i: int, j: int|
        0 <= i < permutation.len() && 0 <= j < permutation.len() && #[trigger] permutation[i]
            == #[trigger] permutation[j] ==> i == j
}

/// The sequence is a permutation of the indices of its block: it maps them
/// to themselves, no two to the same, and reaches each of them. As a
/// multiset, the sequence holds each index of the block once.
pub open spec fn is_permutation(permutation: Seq<int>) -> bool {
    &&& is_injection(permutation)
    &&& forall|j: int| 0 <= j < permutation.len() ==> #[trigger] has_preimage(permutation, j)
}

/// A map of a finite range into itself that sends no two indices to the
/// same one reaches every index.
pub proof fn lemma_injection_is_permutation(permutation: Seq<int>)
    requires
        is_injection(permutation),
    ensures
        is_permutation(permutation),
{
    let k = permutation.len() as int;
    let perm = |i: int| permutation[i];
    let domain = set_int_range(0, k);
    let image = domain.map(perm);
    lemma_int_range(0, k);
    assert(injective_on(perm, domain));
    lemma_map_size(domain, image, perm);
    assert(image.subset_of(domain)) by {
        assert forall|j: int| image.contains(j) implies domain.contains(j) by {
            let i = choose|i: int| domain.contains(i) && j == perm(i);
            assert(0 <= permutation[i] < k);
        }
    }
    lemma_subset_equality(image, domain);
    assert forall|j: int| 0 <= j < k implies #[trigger] has_preimage(permutation, j) by {
        assert(domain.contains(j));
        assert(image.contains(j));
        let i = choose|i: int| domain.contains(i) && j == perm(i);
        assert(0 <= i < k && permutation[i] == j);
    }
}

/// As a multiset, a permutation of the indices of a block holds what the
/// indices in their own order hold: each index of the block once.
pub proof fn lemma_permutation_multiset(permutation: Seq<int>)
    requires
        is_permutation(permutation),
    ensures
        permutation.to_multiset() == Seq::new(permutation.len(), |i: int| i).to_multiset(),
{
    let k = permutation.len();
    let identity = Seq::new(k, |i: int| i);
    permutation.to_multiset_ensures();
    identity.to_multiset_ensures();
    permutation.lemma_multiset_has_no_duplicates();
    identity.lemma_multiset_has_no_duplicates();
    assert forall|j: int| permutation.to_multiset().count(j) == identity.to_multiset().count(j) by {
        if 0 <= j < k {
            assert(has_preimage(permutation, j));
            assert(identity[j] == j);
            assert(permutation.contains(j));
            assert(identity.contains(j));
        } else {
            assert(!permutation.contains(j));
            assert(!identity.contains(j));
        }
    }
    assert(permutation.to_multiset() =~= identity.to_multiset());
}

/// The interleaved indices of the QPP interleaver with these parameters, in their order.
pub open spec fn qpp_permutation(k: int, f1: int, f2: int) -> Seq<int> {
    Seq::new(k as nat, |i: int| qpp_index(k, f1, f2, i))
}

/// The QPP interleaver with these parameters is a permutation of its block.
pub open spec fn qpp_is_permutation(k: int, f1: int, f2: int) -> bool {
    is_permutation(qpp_permutation(k, f1, f2))
}

/// A multiple of `k` times any factor is a multiple of `k`.
proof fn lemma_multiple_scaled(k: int, x: int, c: int)
    requires
        k > 0,
        x % k == 0,
    ensures
        (x * c) % k == 0,
{
    let q = x / k;
    lemma_fundamental_div_mod(x, k);
    assert(x * c == (q * c) * k) by (nonlinear_arith)
        requires
            x == k * q,
    ;
    lemma_mod_multiples_basic(q * c, k);
}

/// The sum of two multiples of `k` is a multiple of `k`.
proof fn lemma_multiple_sum(k: int, x: int, y: int)
    requires
        k > 0,
        x % k == 0,
        y % k == 0,
    ensures
        (x + y) % k == 0,
{
    let q = x / k;
    let r = y / k;
    lemma_fundamental_div_mod(x, k);
    lemma_fundamental_div_mod(y, k);
    assert(x + y == (q + r) * k) by (nonlinear_arith)
        requires
            x == k * q,
            y == k * r,
    ;
    lemma_mod_multiples_basic(q + r, k);
}

/// If `d` is congruent to `d * (t * p)` and `p * p` to `q`, all modulo `k`,
/// then `d` is congruent to `d * ((t * t) * q)`.
proof fn lemma_congruence_squared(k: int, d: int, t: int, p: int, q: int)
    requires
        k > 0,
        (d - d * (t * p)) % k == 0,
        (p * p - q) % k == 0,
    ensures
        (d - d * ((t * t) * q)) % k == 0,
{
    let c = t * p;
    let e = d * (t * t);
    // d * c is congruent to (d * c) * c, which is e * (p * p)
    lemma_multiple_scaled(k, d - d * c, c);
    assert((d - d * c) * c == d * c - (d * c) * c) by (nonlinear_arith);
    assert((d * c) * c == e * (p * p)) by (nonlinear_arith)
        requires
            c == t * p,
            e == d * (t * t),
    ;
    // e * (p * p) is congruent to e * q
    lemma_multiple_scaled(k, p * p - q, e);
    assert((p * p - q) * e == e * (p * p) - e * q) by (nonlinear_arith);
    assert(e * q == d * ((t * t) * q)) by (nonlinear_arith)
        requires
            e == d * (t * t),
    ;
    lemma_multiple_sum(k, d - d * c, d * c - e * (p * p));
    lemma_multiple_sum(k, d - e * (p * p), e * (p * p) - e * q);
}

/// Two indices of a block that a QPP interleaver maps to the same index are
/// the same, if `f1` has an inverse `u` modulo `k` and the eighth power of
/// `f2` is a multiple of `k` (`a` and `b` are the second and the fourth power,
/// reduced modulo `k`).
proof fn lemma_qpp_collision(k: int, f1: int, f2: int, u: int, a: int, b: int, i: int, j: int)
    requires
        k > 0,
        (u * f1) % k == 1,
        a == (f2 * f2) % k,
        b == (a * a) % k,
        (b * b) % k == 0,
        0 <= i <= j < k,
        qpp_index(k, f1, f2, i) == qpp_index(k, f1, f2, j),
    ensures
        i == j,
{
    let d = j - i;
    let s = i + j;
    let pi = f1 * i + f2 * i * i;
    let pj = f1 * j + f2 * j * j;
    let t = -(u * s);
    // k divides pj - pi = d * (f1 + f2 * s), and so its product with u
    lemma_mod_equivalence(pj, pi, k);
    lemma_multiple_scaled(k, pj - pi, u);
    assert(f2 * j * j - f2 * i * i == (j - i) * (f2 * (i + j))) by (nonlinear_arith);
    assert(f1 * j - f1 * i == (j - i) * f1) by (nonlinear_arith);
    let x = d * f1;
    let y = d * (f2 * s);
    assert((x + y) * u == x * u + y * u) by (nonlinear_arith);
    assert(x * u == d * (u * f1)) by (nonlinear_arith)
        requires
            x == d * f1,
    ;
    assert(y * u == d * ((u * s) * f2)) by (nonlinear_arith)
        requires
            y == d * (f2 * s),
    ;
    // u * f1 is one more than a multiple of k
    let qu = (u * f1) / k;
    lemma_fundamental_div_mod(u * f1, k);
    assert(d * (u * f1) == d + (d * qu) * k) by (nonlinear_arith)
        requires
            u * f1 == k * qu + 1,
    ;
    lemma_mod_multiples_basic(-(d * qu), k);
    assert((-(d * qu)) * k == -((d * qu) * k)) by (nonlinear_arith);
    lemma_multiple_sum(k, (pj - pi) * u, (-(d * qu)) * k);
    assert(d * (t * f2) == -(d * ((u * s) * f2))) by (nonlinear_arith)
        requires
            t == -(u * s),
    ;
    assert((d - d * (t * f2)) % k == 0);
    // f2^2 = a, a^2 = b and b^2 = 0 modulo k
    lemma_fundamental_div_mod(f2 * f2, k);
    lemma_mod_multiples_basic((f2 * f2) / k, k);
    assert((f2 * f2 - a) % k == 0) by {
        assert(f2 * f2 - a == ((f2 * f2) / k) * k) by (nonlinear_arith)
            requires
                f2 * f2 == k * ((f2 * f2) / k) + a,
        ;
    }
    lemma_fundamental_div_mod(a * a, k);
    lemma_mod_multiples_basic((a * a) / k, k);
    assert((a * a - b) % k == 0) by {
        assert(a * a - b == ((a * a) / k) * k) by (nonlinear_arith)
            requires
                a * a == k * ((a * a) / k) + b,
        ;
    }
    lemma_congruence_squared(k, d, t, f2, a);
    let t2 = t * t;
    lemma_congruence_squared(k, d, t2, a, b);
    let t4 = t2 * t2;
    lemma_congruence_squared(k, d, t4, b, 0);
    assert(d * ((t4 * t4) * 0) == 0) by (nonlinear_arith);
    if d > 0 {
        lemma_small_mod(d as nat, k as nat);
    }
}

/// A QPP interleaver is a permutation of its block if `f1` has an inverse
/// `u` modulo `k` and the eighth power of `f2` is a multiple of `k`; `a`
/// and `b` are the second and the fourth power of `f2`, reduced modulo `k`.
pub proof fn lemma_qpp_is_permutation(k: int, f1: int, f2: int, u: int, a: int, b: int)
    requires
        k > 0,
        (u * f1) % k == 1,
        a == (f2 * f2) % k,
        b == (a * a) % k,
        (b * b) % k == 0,
    ensures
        qpp_is_permutation(k, f1, f2),
{
    let perm = qpp_permutation(k, f1, f2);
    assert forall|i: int| 0 <= i < k implies 0 <= #[trigger] perm[i] < k by {
        lemma_mod_bound(f1 * i + f2 * i * i, k);
    }
    assert forall|i: int, j: int|
        0 <= i < k && 0 <= j < k && #[trigger] perm[i] == #[trigger] perm[j] implies i == j by {
        if i <= j {
            lemma_qpp_collision(k, f1, f2, u, a, b, i, j);
        } else {
            lemma_qpp_collision(k, f1, f2, u, a, b, j, i);
        }
    }
    lemma_injection_is_permutation(perm);
}

/// After its first `n` writes, `deinterleave` of an interleaved buffer holds
/// the value of the source at every position written so far.
proof fn lemma_round_trip_prefix<T>(permutation: Seq<int>, source: Seq<T>, target: Seq<T>, n: nat)
    requires
        is_injection(permutation),
        permutation.len() == source.len(),
        target.len() == source.len(),
        n <= source.len(),
    ensures
        deinterleaved(permutation, interleaved(permutation, source), target, n).len() == source.len(),
        forall|m: int|
            0 <= m < n ==> deinterleaved(permutation, interleaved(permutation, source), target, n)[
                #[trigger] permutation[m]
            ] == source[permutation[m]],
    decreases n,
{
    if n > 0 {
        lemma_round_trip_prefix(permutation, source, target, (n - 1) as nat);
        let before = deinterleaved(permutation, interleaved(permutation, source), target, (n - 1) as nat);
        let after = deinterleaved(permutation, interleaved(permutation, source), target, n);
        assert(0 <= permutation[n - 1] < source.len());
        assert(after == before.update(permutation[n - 1], interleaved(permutation, source)[n - 1]));
        assert forall|m: int| 0 <= m < n implies after[#[trigger] permutation[m]] == source[permutation[m]] by {
            assert(0 <= permutation[m] < source.len());
        }
    }
}

/// Interleaving a buffer and deinterleaving the result gives the buffer
/// back, whatever the target buffer held, if the interleaver is a
/// permutation of the block.
pub proof fn lemma_interleave_round_trip<T>(permutation: Seq<int>, source: Seq<T>, target: Seq<T>)
    requires
        is_permutation(permutation),
        permutation.len() == source.len(),
        target.len() == source.len(),
    ensures
        deinterleaved(permutation, interleaved(permutation, source), target, source.len()) == source,
{
    let k = source.len();
    lemma_round_trip_prefix(permutation, source, target, k);
    let result = deinterleaved(permutation, interleaved(permutation, source), target, k);
    assert forall|j: int| 0 <= j < k implies result[j] == source[j] by {
        assert(has_preimage(permutation, j));
        let i = choose|i: int| 0 <= i < k && #[trigger] permutation[i] == j;
        assert(result[permutation[i]] == source[permutation[i]]);
    }
    assert(result =~= source);
}

} // verus!
