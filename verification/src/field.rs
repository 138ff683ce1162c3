//! The 62-bit prime field of the proving engine, seen as residues modulo
//! `MODULUS`, and an element type whose arithmetic is done by the engine.

use vstd::arithmetic::div_mod::{
    lemma_mul_mod_noop_left, lemma_mul_mod_noop_right, lemma_small_mod,
};
use vstd::arithmetic::mul::{lemma_mul_is_associative, lemma_mul_is_commutative};
use vstd::prelude::*;
use winterfell::math::fields::f62::BaseElement;
use winterfell::math::{FieldElement, StarkField};

verus! {

/// The field modulus, `2^62 - 111 * 2^39 + 1`.
pub const MODULUS: u64 = 4611624995532046337;

/// The exponent of the largest power of two that divides `MODULUS - 1`: a
/// trace can have at most `2^TWO_ADICITY` rows.
pub const TWO_ADICITY: u32 = 39;

/// Sum of two residues.
pub open spec fn field_add(a: nat, b: nat) -> nat {
    (a + b) % (MODULUS as nat)
}

/// Difference of two residues.
pub open spec fn field_sub(a: nat, b: nat) -> nat {
    ((a - b) % (MODULUS as int)) as nat
}

/// Product of two residues.
pub open spec fn field_mul(a: nat, b: nat) -> nat {
    (a * b) % (MODULUS as nat)
}

/// `r` is the reduced multiplicative inverse of `a`.
pub open spec fn is_inverse(a: nat, r: nat) -> bool {
    r < MODULUS && field_mul(a, r) == 1
}

/// `a` has a multiplicative inverse. In a field this is every residue but
/// zero; here it is what the engine's inversion has shown of a value.
pub open spec fn has_inverse(a: nat) -> bool {
    exists|r: nat| is_inverse(a, r)
}

/// The multiplicative inverse of `a`, and zero for zero.
pub open spec fn field_inv(a: nat) -> nat {
    if a % (MODULUS as nat) == 0 {
        0
    } else {
        choose|r: nat| is_inverse(a, r)
    }
}

/// The quotient `a / b`, that is `a` times the inverse of `b`.
pub open spec fn field_div(a: nat, b: nat) -> nat {
    field_mul(a, field_inv(b))
}

/// Multiplication of residues is commutative.
pub proof fn lemma_field_mul_commutative(a: nat, b: nat)
    ensures
        field_mul(a, b) == field_mul(b, a),
{
    lemma_mul_is_commutative(a as int, b as int);
}

/// Multiplication of residues is associative.
pub proof fn lemma_field_mul_associative(a: nat, b: nat, c: nat)
    ensures
        field_mul(field_mul(a, b), c) == field_mul(a, field_mul(b, c)),
{
    let m = MODULUS as int;
    lemma_mul_mod_noop_left((a * b) as int, c as int, m);
    lemma_mul_mod_noop_right(a as int, (b * c) as int, m);
    lemma_mul_is_associative(a as int, b as int, c as int);
}

/// One is the neutral element of multiplication.
pub proof fn lemma_field_mul_one(a: nat)
    requires
        a < MODULUS,
    ensures
        field_mul(a, 1) == a,
        field_mul(1, a) == a,
{
    lemma_small_mod(a, MODULUS as nat);
}

/// A residue with an inverse is not zero.
pub proof fn lemma_inverse_nonzero(a: nat, r: nat)
    requires
        is_inverse(a, r),
    ensures
        a % (MODULUS as nat) != 0,
{
    let m = MODULUS as int;
    lemma_mul_mod_noop_left(a as int, r as int, m);
    if a % (MODULUS as nat) == 0 {
        assert((a % (MODULUS as nat)) * r == 0) by (nonlinear_arith)
            requires
                a % (MODULUS as nat) == 0,
        ;
    }
}

/// A residue has at most one reduced inverse.
pub proof fn lemma_inverse_unique(a: nat, r: nat, s: nat)
    requires
        is_inverse(a, r),
        is_inverse(a, s),
    ensures
        r == s,
{
    // r = r * (a * s) = (r * a) * s = s
    lemma_field_mul_one(r);
    lemma_field_mul_one(s);
    lemma_field_mul_commutative(a, r);
    lemma_field_mul_associative(r, a, s);
}

/// Whatever is an inverse of `a` is `field_inv(a)`.
pub proof fn lemma_field_inv_is(a: nat, r: nat)
    requires
        is_inverse(a, r),
    ensures
        field_inv(a) == r,
        has_inverse(a),
{
    lemma_inverse_nonzero(a, r);
    let s = choose|s: nat| is_inverse(a, s);
    lemma_inverse_unique(a, r, s);
}

/// A residue with an inverse, times `field_inv` of it, is one.
pub proof fn lemma_field_inv_cancels(a: nat)
    requires
        has_inverse(a),
    ensures
        is_inverse(a, field_inv(a)),
        field_mul(field_inv(a), a) == 1,
{
    let r = choose|r: nat| is_inverse(a, r);
    lemma_field_inv_is(a, r);
    lemma_field_mul_commutative(a, r);
}

/// The difference of two reduced residues is zero exactly when they are equal.
pub proof fn lemma_field_sub_zero(a: nat, b: nat)
    requires
        a < MODULUS,
        b < MODULUS,
    ensures
        field_sub(a, b) == 0 <==> a == b,
        field_sub(a, b) < MODULUS,
{
    let m = MODULUS as int;
    if a >= b {
        lemma_small_mod((a - b) as nat, MODULUS as nat);
    } else {
        assert((a - b) % m == a - b + m) by {
            lemma_small_mod((a - b + m) as nat, MODULUS as nat);
            vstd::arithmetic::div_mod::lemma_mod_add_multiples_vanish(a - b, m);
        }
    }
}

/// `BaseElement`'s `+` on the elements that `a` and `b` stand for, read back
/// as a canonical integer: the sum reduced modulo the field modulus.
#[verifier::external_body]
fn base_add(a: u64, b: u64) -> (r: u64)
    requires
        a < MODULUS,
        b < MODULUS,
    ensures
        r == field_add(a as nat, b as nat),
{
    (BaseElement::new(a) + BaseElement::new(b)).as_int()
}

/// `BaseElement`'s `-` on the elements that `a` and `b` stand for, read back
/// as a canonical integer: the difference reduced modulo the field modulus.
#[verifier::external_body]
fn base_sub(a: u64, b: u64) -> (r: u64)
    requires
        a < MODULUS,
        b < MODULUS,
    ensures
        r == field_sub(a as nat, b as nat),
{
    (BaseElement::new(a) - BaseElement::new(b)).as_int()
}

/// `BaseElement`'s `*` on the elements that `a` and `b` stand for, read back
/// as a canonical integer: the product reduced modulo the field modulus.
#[verifier::external_body]
fn base_mul(a: u64, b: u64) -> (r: u64)
    requires
        a < MODULUS,
        b < MODULUS,
    ensures
        r == field_mul(a as nat, b as nat),
{
    (BaseElement::new(a) * BaseElement::new(b)).as_int()
}

/// `FieldElement::inv` of `BaseElement` on the element that `a` stands for,
/// read back as a canonical integer: zero for zero, and otherwise the reduced
/// value whose product with `a` is one modulo the field modulus.
#[verifier::external_body]
fn base_inv(a: u64) -> (r: u64)
    requires
        a < MODULUS,
    ensures
        r < MODULUS,
        a == 0 ==> r == 0,
        a != 0 ==> field_mul(a as nat, r as nat) == 1,
{
    BaseElement::new(a).inv().as_int()
}

/// An element of the field, held as its canonical representative.
#[derive(Clone, Copy, Debug, PartialEq, Eq, Structural)]
pub struct Felt {
    value: u64,
}

impl View for Felt {
    type V = nat;

    /// The canonical representative.
    closed spec fn view(&self) -> nat {
        self.value as nat
    }
}

impl Felt {
    #[verifier::type_invariant]
    spec fn canonical(self) -> bool {
        self.value < MODULUS
    }

    /// Two elements with the same representative are the same element.
    pub proof fn lemma_view_injective(a: Felt, b: Felt)
        ensures
            a@ == b@ <==> a == b,
    {
    }

    /// The representative of an element fits the integer type it is kept in.
    pub proof fn lemma_view_fits(self)
        ensures
            self@ <= u64::MAX,
    {
    }

    /// The element that `value` stands for: `value` reduced modulo the modulus.
    pub fn new(value: u64) -> (r: Felt)
        ensures
            r@ == value as nat % (MODULUS as nat),
            r@ < MODULUS,
            value < MODULUS ==> r@ == value,
    {
        proof {
            if value < MODULUS {
                lemma_small_mod(value as nat, MODULUS as nat);
            }
        }
        Felt { value: value % MODULUS }
    }

    /// The additive identity.
    pub fn zero() -> (r: Felt)
        ensures
            r@ == 0,
    {
        Felt { value: 0 }
    }

    /// The multiplicative identity.
    pub fn one() -> (r: Felt)
        ensures
            r@ == 1,
    {
        Felt { value: 1 }
    }

    /// The canonical representative, below the modulus.
    pub fn as_int(&self) -> (r: u64)
        ensures
            r == self@,
            r < MODULUS,
    {
        proof {
            use_type_invariant(self);
        }
        self.value
    }

    /// Sum in the field.
    pub fn add(self, rhs: Felt) -> (r: Felt)
        ensures
            r@ == field_add(self@, rhs@),
    {
        proof {
            use_type_invariant(&self);
            use_type_invariant(&rhs);
        }
        Felt { value: base_add(self.value, rhs.value) }
    }

    /// Difference in the field.
    pub fn sub(self, rhs: Felt) -> (r: Felt)
        ensures
            r@ == field_sub(self@, rhs@),
            r@ == 0 <==> self@ == rhs@,
    {
        proof {
            use_type_invariant(&self);
            use_type_invariant(&rhs);
            lemma_field_sub_zero(self@, rhs@);
        }
        Felt { value: base_sub(self.value, rhs.value) }
    }

    /// Product in the field.
    pub fn mul(self, rhs: Felt) -> (r: Felt)
        ensures
            r@ == field_mul(self@, rhs@),
    {
        proof {
            use_type_invariant(&self);
            use_type_invariant(&rhs);
        }
        Felt { value: base_mul(self.value, rhs.value) }
    }

    /// Multiplicative inverse in the field; the inverse of zero is zero.
    pub fn inv(self) -> (r: Felt)
        ensures
            r@ == field_inv(self@),
            self@ != 0 ==> is_inverse(self@, r@),
    {
        proof {
            use_type_invariant(&self);
        }
        let r = base_inv(self.value);
        proof {
            if self.value != 0 {
                lemma_field_inv_is(self@, r as nat);
            } else {
                lemma_small_mod(0, MODULUS as nat);
            }
        }
        Felt { value: r }
    }
}

} // verus!
