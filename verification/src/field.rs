//! A concrete finite-field backend: the prime field of the Mersenne prime
//! `2^61 - 1`, with canonical residues carried in a `u64`.
use vstd::prelude::*;
use vstd::arithmetic::div_mod::{
    lemma_mod_add_multiples_vanish, lemma_mul_mod_noop_left, lemma_mul_mod_noop_right,
    lemma_small_mod,
};
use vstd::arithmetic::mul::lemma_mul_is_associative;
use vstd::arithmetic::power::{lemma_pow_mod_noop, lemma_pow_multiplies, lemma_square_is_pow2, pow};

use crate::FiniteField;

verus! {

/// The field modulus: the Mersenne prime `2^61 - 1`.
pub const MODULUS: u64 = 0x1FFF_FFFF_FFFF_FFFF;

/// Field addition on canonical residues.
pub open spec fn fadd(a: int, b: int) -> int {
    (a + b) % (MODULUS as int)
}

/// Field subtraction on canonical residues.
pub open spec fn fsub(a: int, b: int) -> int {
    (a - b) % (MODULUS as int)
}

/// Field multiplication on canonical residues.
pub open spec fn fmul(a: int, b: int) -> int {
    (a * b) % (MODULUS as int)
}

/// The multiplicative inverse by Fermat's little theorem: `a^(p - 2) mod p`.
pub open spec fn finv(a: int) -> int {
    pow(a, (MODULUS - 2) as nat) % (MODULUS as int)
}

/// Field division: multiplication by the Fermat inverse of the divisor.
pub open spec fn fdiv(a: int, b: int) -> int {
    fmul(a, finv(b))
}

/// One element of the field, kept as its canonical residue.
#[derive(Clone, Copy, PartialEq, Eq, Structural, Debug)]
pub struct Scalar61 {
    pub(crate) v: u64,
}

impl View for Scalar61 {
    type V = int;

    closed spec fn view(&self) -> int {
        self.v as int
    }
}

/// Relies on `rand::random`: draws one `u64` from the thread-local generator.
/// Nothing is promised of the value.
#[verifier::external_body]
fn random_u64() -> u64 {
    rand::random::<u64>()
}

impl Scalar61 {
    #[verifier::type_invariant]
    pub(crate) open spec fn in_range(&self) -> bool {
        0 <= self@ < MODULUS as int
    }

    /// The element congruent to `n`.
    pub fn from_u64(n: u64) -> (r: Self)
        ensures
            r@ == (n as int) % (MODULUS as int),
    {
        Scalar61 { v: n % MODULUS }
    }

    /// Fast exponentiation by squaring: `self^e` in the field.
    pub fn pow_u64(self, e: u64) -> (r: Self)
        ensures
            r@ == pow(self@, e as nat) % (MODULUS as int),
    {
        proof {
            use_type_invariant(self);
        }
        let mut result = Scalar61 { v: 1 };
        let mut base = self;
        let mut k = e;
        proof {
            vstd::arithmetic::mul::lemma_mul_basics(pow(self@, e as nat));
        }
        while k > 0
            invariant
                (result@ * pow(base@, k as nat)) % (MODULUS as int) == pow(self@, e as nat) % (
                MODULUS as int),
            decreases k,
        {
            if k % 2 == 1 {
                let ghost old_result = result@;
                result = result.mul(&base);
                proof {
                    reveal(pow);
                    assert(pow(base@, k as nat) == base@ * pow(base@, (k - 1) as nat));
                    lemma_mul_mod_noop_left(old_result * base@, pow(base@, (k - 1) as nat),
                        MODULUS as int);
                    lemma_mul_is_associative(old_result, base@, pow(base@, (k - 1) as nat));
                }
                k = k - 1;
            } else {
                let ghost old_base = base@;
                base = base.mul(&base);
                proof {
                    lemma_square_is_pow2(old_base);
                    lemma_pow_multiplies(old_base, 2, (k / 2) as nat);
                    lemma_pow_mod_noop(old_base * old_base, (k / 2) as nat, MODULUS as int);
                    lemma_mul_mod_noop_right(result@, pow(base@, (k / 2) as nat), MODULUS as int);
                    lemma_mul_mod_noop_right(result@, pow(old_base * old_base, (k / 2) as nat),
                        MODULUS as int);
                    assert(2 * ((k / 2) as nat) == k as nat);
                }
                k = k / 2;
            }
        }
        proof {
            use_type_invariant(result);
            assert(pow(base@, 0) == 1) by {
                vstd::arithmetic::power::lemma_pow0(base@);
            }
            lemma_small_mod(result@ as nat, MODULUS as nat);
        }
        result
    }
}

impl FiniteField for Scalar61 {
    /// A uniformly random residue, reduced from the trusted generator's draw.
    fn random() -> (r: Self) {
        let raw = random_u64();
        Scalar61 { v: raw % MODULUS }
    }

    fn zero() -> (r: Self)
        ensures
            r@ == 0,
    {
        Scalar61 { v: 0 }
    }

    fn one() -> (r: Self)
        ensures
            r@ == 1,
    {
        Scalar61 { v: 1 }
    }

    fn from_usize(n: usize) -> (r: Self)
        ensures
            r@ == (n as int) % (MODULUS as int),
    {
        Scalar61 { v: (n as u64) % MODULUS }
    }

    fn horner_fold(partial: &Self, coef: &Self, point: &Self) -> (r: Self)
        ensures
            r@ == fadd(fmul(partial@, point@), coef@),
    {
        (*partial).mul(point).add(coef)
    }

    fn mul(self, other: &Self) -> (r: Self)
        ensures
            r@ == fmul(self@, other@),
    {
        proof {
            use_type_invariant(self);
            use_type_invariant(*other);
            assert((self.v as int) * (other.v as int) <= (MODULUS as int) * (MODULUS as int))
                by (nonlinear_arith)
                requires
                    self.v <= MODULUS,
                    other.v <= MODULUS,
            ;
        }
        let prod: u128 = (self.v as u128) * (other.v as u128);
        let rem: u128 = prod % (MODULUS as u128);
        Scalar61 { v: rem as u64 }
    }

    fn sub(self, other: &Self) -> (r: Self)
        ensures
            r@ == fsub(self@, other@),
    {
        proof {
            use_type_invariant(self);
            use_type_invariant(*other);
            lemma_mod_add_multiples_vanish(self@ - other@, MODULUS as int);
            lemma_small_mod(
                (if self.v + (MODULUS - other.v) >= MODULUS {
                    self.v + (MODULUS - other.v) - MODULUS
                } else {
                    self.v + (MODULUS - other.v)
                }) as nat,
                MODULUS as nat,
            );
            if self.v + (MODULUS - other.v) >= MODULUS {
                lemma_mod_add_multiples_vanish(self@ - other@ - MODULUS as int, MODULUS as int);
            }
        }
        let s: u64 = self.v + (MODULUS - other.v);
        if s >= MODULUS {
            Scalar61 { v: s - MODULUS }
        } else {
            Scalar61 { v: s }
        }
    }

    fn add(self, other: &Self) -> (r: Self)
        ensures
            r@ == fadd(self@, other@),
    {
        proof {
            use_type_invariant(self);
            use_type_invariant(*other);
            if self.v + other.v >= MODULUS {
                lemma_mod_add_multiples_vanish(self@ + other@ - MODULUS as int, MODULUS as int);
                lemma_small_mod((self.v + other.v - MODULUS) as nat, MODULUS as nat);
            } else {
                lemma_small_mod((self.v + other.v) as nat, MODULUS as nat);
            }
        }
        let s: u64 = self.v + other.v;
        if s >= MODULUS {
            Scalar61 { v: s - MODULUS }
        } else {
            Scalar61 { v: s }
        }
    }

    fn div(self, other: &Self) -> (r: Self)
        ensures
            r@ == fdiv(self@, other@),
    {
        let inverse = other.pow_u64(MODULUS - 2);
        self.mul(&inverse)
    }
}

} // verus!
