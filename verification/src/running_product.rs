//! The algebra of the auxiliary column: products of residues, the running
//! product of fingerprint ratios, and why it closes to one on a permutation.
//!
//! Two columns `left` and `right` are randomized by a challenge `c` into the
//! fingerprints `left[i] + c` and `right[i] + c`. Row `i` of the auxiliary
//! column holds the product of the ratios `(left[j] + c) / (right[j] + c)` over
//! the rows `j <= i`. A row whose denominator has no inverse is a pole.

use crate::field::{
    field_add, field_div, field_inv, field_mul, has_inverse, is_inverse, lemma_field_inv_cancels,
    lemma_field_mul_associative, lemma_field_mul_commutative, lemma_field_mul_one, MODULUS,
};
use vstd::arithmetic::div_mod::{lemma_mul_mod_noop_general, lemma_small_mod};
use vstd::prelude::*;
use vstd::seq_lib::{to_multiset_contains, to_multiset_len, to_multiset_remove};

verus! {

/// The product of all residues of `s` in the field; one for the empty sequence.
pub open spec fn product(s: Seq<nat>) -> nat
    decreases s.len(),
{
    if s.len() == 0 {
        1
    } else {
        field_mul(product(s.drop_last()), s.last())
    }
}

/// The fingerprints of a column: each value plus the challenge.
pub open spec fn fingerprints(column: Seq<nat>, challenge: nat) -> Seq<nat> {
    Seq::new(column.len(), |i: int| field_add(column[i], challenge))
}

/// The fingerprint ratio of one row, `(left + challenge) / (right + challenge)`.
pub open spec fn ratio(left: nat, right: nat, challenge: nat) -> nat {
    field_div(field_add(left, challenge), field_add(right, challenge))
}

/// The auxiliary value of a row: the ratio of row 0 in row 0, and in every
/// later row the value of the row before times the row's own ratio.
pub open spec fn aux_value(left: Seq<nat>, right: Seq<nat>, challenge: nat, row: int) -> nat
    decreases row,
{
    if row <= 0 {
        ratio(left[0], right[0], challenge)
    } else {
        field_mul(
            aux_value(left, right, challenge, row - 1),
            ratio(left[row], right[row], challenge),
        )
    }
}

/// No row is a pole: every denominator `right[i] + challenge` has an inverse.
pub open spec fn pole_free(right: Seq<nat>, challenge: nat) -> bool {
    forall|i: int| 0 <= i < right.len() ==> has_inverse(#[trigger] fingerprints(right, challenge)[i])
}

/// Row `row` is a pole of the simplest kind: its denominator is zero.
pub open spec fn zero_denominator(right: Seq<nat>, challenge: nat, row: int) -> bool {
    field_add(right[row], challenge) == 0
}

/// Four factors may be paired either way.
pub proof fn lemma_field_mul_interchange(a: nat, b: nat, c: nat, d: nat)
    ensures
        field_mul(field_mul(a, b), field_mul(c, d)) == field_mul(field_mul(a, c), field_mul(b, d)),
{
    let m = MODULUS as int;
    lemma_mul_mod_noop_general((a * b) as int, (c * d) as int, m);
    lemma_mul_mod_noop_general((a * c) as int, (b * d) as int, m);
    assert((a * b) * (c * d) == (a * c) * (b * d)) by (nonlinear_arith);
}

/// Any one factor can be taken out of a product and multiplied back in.
pub proof fn lemma_product_remove(s: Seq<nat>, j: int)
    requires
        0 <= j < s.len(),
    ensures
        product(s) == field_mul(product(s.remove(j)), s[j]),
    decreases s.len(),
{
    let t = s.drop_last();
    if j == s.len() - 1 {
        assert(s.remove(j) =~= t);
    } else {
        lemma_product_remove(t, j);
        let rest = t.remove(j);
        assert(s.remove(j).drop_last() =~= rest);
        assert(s.remove(j).last() == s.last());
        // (rest * s[j]) * last == (rest * last) * s[j]
        lemma_field_mul_associative(product(rest), s[j], s.last());
        lemma_field_mul_commutative(s[j], s.last());
        lemma_field_mul_associative(product(rest), s.last(), s[j]);
    }
}

/// The product of a sequence depends only on which residues it holds and how
/// often, not on their order.
pub proof fn lemma_product_rearranged(a: Seq<nat>, b: Seq<nat>)
    requires
        a.to_multiset() == b.to_multiset(),
    ensures
        product(a) == product(b),
    decreases a.len(),
{
    to_multiset_len(a);
    to_multiset_len(b);
    if a.len() > 0 {
        let x = a.last();
        let last = a.len() - 1;
        to_multiset_contains(a, x);
        to_multiset_contains(b, x);
        assert(a.contains(x));
        let j = choose|j: int| 0 <= j < b.len() && b[j] == x;
        to_multiset_remove(a, last);
        to_multiset_remove(b, j);
        lemma_product_rearranged(a.remove(last), b.remove(j));
        lemma_product_remove(a, last);
        lemma_product_remove(b, j);
    }
}

/// Two sequences that hold the same values in some order still do so after
/// every value has gone through the same function.
pub proof fn lemma_map_rearranged<A, B>(a: Seq<A>, b: Seq<A>, f: spec_fn(A) -> B)
    requires
        a.to_multiset() == b.to_multiset(),
    ensures
        a.map_values(f).to_multiset() == b.map_values(f).to_multiset(),
    decreases a.len(),
{
    to_multiset_len(a);
    to_multiset_len(b);
    let fa = a.map_values(f);
    let fb = b.map_values(f);
    if a.len() == 0 {
        assert(fa =~= fb);
    } else {
        let x = a.last();
        let last = a.len() - 1;
        to_multiset_contains(a, x);
        to_multiset_contains(b, x);
        assert(a.contains(x));
        let j = choose|j: int| 0 <= j < b.len() && b[j] == x;
        to_multiset_remove(a, last);
        to_multiset_remove(b, j);
        lemma_map_rearranged(a.remove(last), b.remove(j), f);
        assert(fa.remove(last) =~= a.remove(last).map_values(f));
        assert(fb.remove(j) =~= b.remove(j).map_values(f));
        to_multiset_remove(fa, last);
        to_multiset_remove(fb, j);
        to_multiset_contains(fa, fa[last]);
        to_multiset_contains(fb, fb[j]);
        assert(fa.contains(fa[last]));
        assert(fb.contains(fb[j]));
        assert(fa.to_multiset() =~= fa.to_multiset().remove(fa[last]).insert(fa[last]));
        assert(fb.to_multiset() =~= fb.to_multiset().remove(fb[j]).insert(fb[j]));
    }
}

/// Adding the challenge to every value keeps two rearrangements of each other
/// rearrangements of each other.
pub proof fn lemma_fingerprints_rearranged(a: Seq<nat>, b: Seq<nat>, challenge: nat)
    requires
        a.to_multiset() == b.to_multiset(),
    ensures
        fingerprints(a, challenge).to_multiset() == fingerprints(b, challenge).to_multiset(),
{
    let shift = |value: nat| field_add(value, challenge);
    lemma_map_rearranged(a, b, shift);
    assert(fingerprints(a, challenge) =~= a.map_values(shift));
    assert(fingerprints(b, challenge) =~= b.map_values(shift));
}

/// A product of residues that all have inverses has an inverse.
pub proof fn lemma_product_has_inverse(s: Seq<nat>)
    requires
        forall|i: int| 0 <= i < s.len() ==> has_inverse(#[trigger] s[i]),
    ensures
        has_inverse(product(s)),
    decreases s.len(),
{
    if s.len() == 0 {
        lemma_small_mod(1, MODULUS as nat);
        assert(is_inverse(1, 1));
    } else {
        let t = s.drop_last();
        assert forall|i: int| 0 <= i < t.len() implies has_inverse(#[trigger] t[i]) by {
            assert(t[i] == s[i]);
        }
        lemma_product_has_inverse(t);
        assert(has_inverse(s[s.len() - 1]));
        lemma_field_inv_cancels(product(t));
        lemma_field_inv_cancels(s.last());
        let p = field_inv(product(t));
        let x = field_inv(s.last());
        lemma_field_mul_interchange(product(t), s.last(), p, x);
        lemma_small_mod(1, MODULUS as nat);
        assert(is_inverse(product(s), field_mul(p, x)));
    }
}

/// A factor that has an inverse can be cancelled.
pub proof fn lemma_field_mul_cancel(r: nat, s: nat, d: nat)
    requires
        r < MODULUS,
        s < MODULUS,
        has_inverse(d),
        field_mul(r, d) == field_mul(s, d),
    ensures
        r == s,
{
    lemma_field_inv_cancels(d);
    let e = field_inv(d);
    lemma_field_mul_associative(r, d, e);
    lemma_field_mul_associative(s, d, e);
    lemma_field_mul_one(r);
    lemma_field_mul_one(s);
}

/// The running product telescopes: in every row, the auxiliary value times the
/// product of the denominators so far is the product of the numerators so far.
pub proof fn lemma_running_product_telescopes(
    left: Seq<nat>,
    right: Seq<nat>,
    challenge: nat,
    row: int,
)
    requires
        left.len() == right.len(),
        0 <= row < left.len(),
        pole_free(right, challenge),
    ensures
        field_mul(
            aux_value(left, right, challenge, row),
            product(fingerprints(right, challenge).take(row + 1)),
        ) == product(fingerprints(left, challenge).take(row + 1)),
    decreases row,
{
    let nums = fingerprints(left, challenge);
    let dens = fingerprints(right, challenge);
    let n = nums[row];
    let d = dens[row];
    assert(has_inverse(dens[row]));
    lemma_field_inv_cancels(d);
    let i = field_inv(d);
    assert(nums.take(row + 1).drop_last() =~= nums.take(row));
    assert(dens.take(row + 1).drop_last() =~= dens.take(row));
    let np = product(nums.take(row));
    let dp = product(dens.take(row));
    lemma_field_mul_one(n);
    if row == 0 {
        // (n * i) * (1 * d) == (n * 1) * (i * d) == n == 1 * n
        lemma_field_mul_interchange(n, i, 1, d);
        lemma_field_mul_commutative(1, n);
        lemma_small_mod(1, MODULUS as nat);
    } else {
        lemma_running_product_telescopes(left, right, challenge, row - 1);
        let a = aux_value(left, right, challenge, row - 1);
        // (a * (n * i)) * (dp * d) == (a * dp) * ((n * i) * d) == np * n
        lemma_field_mul_interchange(a, field_mul(n, i), dp, d);
        lemma_field_mul_associative(n, i, d);
    }
}

/// The last auxiliary value is one exactly when the product of the left
/// fingerprints equals the product of the right ones.
pub proof fn lemma_closes_iff_products_agree(left: Seq<nat>, right: Seq<nat>, challenge: nat)
    requires
        left.len() == right.len(),
        left.len() > 0,
        pole_free(right, challenge),
    ensures
        aux_value(left, right, challenge, left.len() - 1) == 1 <==> product(
            fingerprints(left, challenge),
        ) == product(fingerprints(right, challenge)),
{
    let nums = fingerprints(left, challenge);
    let dens = fingerprints(right, challenge);
    let last = left.len() - 1;
    let r = aux_value(left, right, challenge, last);
    lemma_running_product_telescopes(left, right, challenge, last);
    assert(nums.take(last + 1) =~= nums);
    assert(dens.take(last + 1) =~= dens);
    lemma_product_has_inverse(dens);
    lemma_field_mul_one(product(dens));
    if product(nums) == product(dens) {
        lemma_small_mod(1, MODULUS as nat);
        lemma_field_mul_cancel(r, 1, product(dens));
    }
}

/// On a permutation the running product closes: where `right` holds the values
/// of `left` in some other order, and no row is a pole, the last auxiliary
/// value is the multiplicative identity, whatever the challenge.
pub proof fn lemma_permutation_closes(left: Seq<nat>, right: Seq<nat>, challenge: nat)
    requires
        left.len() > 0,
        left.to_multiset() == right.to_multiset(),
        pole_free(right, challenge),
    ensures
        aux_value(left, right, challenge, left.len() - 1) == 1,
{
    to_multiset_len(left);
    to_multiset_len(right);
    lemma_fingerprints_rearranged(left, right, challenge);
    lemma_product_rearranged(fingerprints(left, challenge), fingerprints(right, challenge));
    lemma_closes_iff_products_agree(left, right, challenge);
}

} // verus!
