//! Shamir-style threshold sharing and reconstruction over the field.
//!
//! `share` evaluates a random polynomial with the secret as constant term at
//! the public points `1..=n`; `recover` interpolates the supplied
//! `(index, share)` pairs at the point `0`.
use vstd::prelude::*;

use crate::field::{fadd, finv, fmul, fsub, Scalar61, MODULUS};
use crate::{FiniteField, SecretSharing};

verus! {

/// The field values carried by a sequence of elements.
pub open spec fn values(s: Seq<Scalar61>) -> Seq<int> {
    s.map_values(|e: Scalar61| e@)
}

/// The field values of a sequence of 1-based worker indexes.
pub open spec fn index_vals(s: Seq<usize>) -> Seq<int> {
    s.map_values(|u: usize| (u as int) % (MODULUS as int))
}

/// The public evaluation points `1..=n` as field values.  The point `0` is
/// reserved for the secret itself.
pub open spec fn eval_points(n: nat) -> Seq<int> {
    Seq::new(n, |i: int| (i + 1) % (MODULUS as int))
}

/// The polynomial with coefficient sequence `coeffs` (constant term first),
/// evaluated at `x` in the field.
pub open spec fn poly_eval(coeffs: Seq<int>, x: int) -> int
    decreases coeffs.len(),
{
    if coeffs.len() == 0 {
        0
    } else {
        fadd(fmul(poly_eval(coeffs.subrange(1, coeffs.len() as int), x), x), coeffs[0])
    }
}

/// The product of the first `k` points other than point `i` itself: the
/// numerator of the Lagrange basis value at `0` once `k` reaches the length.
pub open spec fn prod_points_except(xs: Seq<int>, i: int, k: int) -> int
    decreases k,
{
    if k <= 0 {
        1
    } else if k - 1 == i {
        prod_points_except(xs, i, k - 1)
    } else {
        fmul(prod_points_except(xs, i, k - 1), xs[k - 1])
    }
}

/// The product of the differences `xs[j] - xs[i]` over the first `k` points
/// with `j != i`: the denominator of the Lagrange basis value.
pub open spec fn prod_diffs_except(xs: Seq<int>, i: int, k: int) -> int
    decreases k,
{
    if k <= 0 {
        1
    } else if k - 1 == i {
        prod_diffs_except(xs, i, k - 1)
    } else {
        fmul(prod_diffs_except(xs, i, k - 1), fsub(xs[k - 1], xs[i]))
    }
}

/// The Lagrange basis polynomial for interpolation point `i`, evaluated at
/// `0`: the weight its share carries in the reconstructed secret.
pub open spec fn lagrange_weight(xs: Seq<int>, i: int) -> int {
    fmul(
        prod_points_except(xs, i, xs.len() as int),
        finv(prod_diffs_except(xs, i, xs.len() as int)),
    )
}

/// The weighted sum of the first `k` shares.
pub open spec fn lagrange_partial(ss: Seq<int>, xs: Seq<int>, k: int) -> int
    decreases k,
{
    if k <= 0 {
        0
    } else {
        fadd(lagrange_partial(ss, xs, k - 1), fmul(ss[k - 1], lagrange_weight(xs, k - 1)))
    }
}

/// Lagrange interpolation of the pairs `(xs[i], ss[i])`, evaluated at `0`.
pub open spec fn lagrange_zero(ss: Seq<int>, xs: Seq<int>) -> int {
    lagrange_partial(ss, xs, ss.len() as int)
}

/// `shares` is a threshold-`t` sharing of `secret`: the evaluations, at the
/// public points `1..=shares.len()`, of a polynomial of degree `t - 1` whose
/// constant term is `secret`, every coefficient a canonical residue.
pub open spec fn is_sharing(shares: Seq<int>, secret: int, t: nat) -> bool {
    exists|coeffs: Seq<int>|
        #![auto]
        {
            &&& coeffs.len() == t
            &&& coeffs[0] == secret
            &&& (forall|j: int| 0 <= j < t ==> 0 <= #[trigger] coeffs[j] < MODULUS as int)
            &&& (forall|i: int|
                0 <= i < shares.len() ==> #[trigger] shares[i] == poly_eval(
                    coeffs,
                    eval_points(shares.len())[i],
                ))
        }
}

proof fn lemma_fmul_distributes_fadd(a: int, b: int, w: int)
    ensures
        fmul(fadd(a, b), w) == fadd(fmul(a, w), fmul(b, w)),
{
    let m = MODULUS as int;
    vstd::arithmetic::div_mod::lemma_mul_mod_noop_left(a + b, w, m);
    vstd::arithmetic::mul::lemma_mul_is_distributive_add_other_way(w, a, b);
    vstd::arithmetic::div_mod::lemma_add_mod_noop(a * w, b * w, m);
}

proof fn lemma_fadd_shuffle(p: int, q: int, u: int, v: int)
    ensures
        fadd(fadd(p, q), fadd(u, v)) == fadd(fadd(p, u), fadd(q, v)),
{
    let m = MODULUS as int;
    vstd::arithmetic::div_mod::lemma_add_mod_noop(p + q, u + v, m);
    vstd::arithmetic::div_mod::lemma_add_mod_noop(p + u, q + v, m);
}

proof fn lemma_lagrange_partial_additive(s1: Seq<int>, s2: Seq<int>, xs: Seq<int>, k: int)
    requires
        s1.len() == s2.len(),
        k <= s1.len(),
    ensures
        lagrange_partial(Seq::new(s1.len(), |i: int| fadd(s1[i], s2[i])), xs, k) == fadd(
            lagrange_partial(s1, xs, k),
            lagrange_partial(s2, xs, k),
        ),
    decreases k,
{
    let comb = Seq::new(s1.len(), |i: int| fadd(s1[i], s2[i]));
    if k <= 0 {
        vstd::arithmetic::div_mod::lemma_small_mod(0nat, MODULUS as nat);
    } else {
        lemma_lagrange_partial_additive(s1, s2, xs, k - 1);
        let w = lagrange_weight(xs, k - 1);
        lemma_fmul_distributes_fadd(s1[k - 1], s2[k - 1], w);
        lemma_fadd_shuffle(
            lagrange_partial(s1, xs, k - 1),
            lagrange_partial(s2, xs, k - 1),
            fmul(s1[k - 1], w),
            fmul(s2[k - 1], w),
        );
    }
}

/// Reconstruction is additive: interpolating the pointwise field sum of two
/// share vectors at `0` gives the field sum of their two interpolations.
/// This is the share-level mechanism the multiplication protocol rests on:
/// when every party adds local combinations of its shares, the sums
/// reconstruct to the corresponding combination of the underlying values.
pub proof fn lemma_lagrange_zero_additive(s1: Seq<int>, s2: Seq<int>, xs: Seq<int>)
    requires
        s1.len() == s2.len(),
    ensures
        lagrange_zero(Seq::new(s1.len(), |i: int| fadd(s1[i], s2[i])), xs) == fadd(
            lagrange_zero(s1, xs),
            lagrange_zero(s2, xs),
        ),
{
    lemma_lagrange_partial_additive(s1, s2, xs, s1.len() as int);
}

proof fn lemma_fmul_distributes_fsub(a: int, b: int, w: int)
    ensures
        fmul(fsub(a, b), w) == fsub(fmul(a, w), fmul(b, w)),
{
    let m = MODULUS as int;
    vstd::arithmetic::div_mod::lemma_mul_mod_noop_left(a - b, w, m);
    vstd::arithmetic::mul::lemma_mul_is_distributive_sub_other_way(w, a, b);
    vstd::arithmetic::div_mod::lemma_sub_mod_noop(a * w, b * w, m);
}

proof fn lemma_fadd_fsub_shuffle(p: int, q: int, u: int, v: int)
    ensures
        fadd(fsub(p, q), fsub(u, v)) == fsub(fadd(p, u), fadd(q, v)),
{
    let m = MODULUS as int;
    vstd::arithmetic::div_mod::lemma_add_mod_noop(p - q, u - v, m);
    vstd::arithmetic::div_mod::lemma_sub_mod_noop(p + u, q + v, m);
}

proof fn lemma_lagrange_partial_subtracts(s1: Seq<int>, s2: Seq<int>, xs: Seq<int>, k: int)
    requires
        s1.len() == s2.len(),
        k <= s1.len(),
    ensures
        lagrange_partial(Seq::new(s1.len(), |i: int| fsub(s1[i], s2[i])), xs, k) == fsub(
            lagrange_partial(s1, xs, k),
            lagrange_partial(s2, xs, k),
        ),
    decreases k,
{
    if k <= 0 {
        vstd::arithmetic::div_mod::lemma_small_mod(0nat, MODULUS as nat);
    } else {
        lemma_lagrange_partial_subtracts(s1, s2, xs, k - 1);
        let w = lagrange_weight(xs, k - 1);
        lemma_fmul_distributes_fsub(s1[k - 1], s2[k - 1], w);
        lemma_fadd_fsub_shuffle(
            lagrange_partial(s1, xs, k - 1),
            lagrange_partial(s2, xs, k - 1),
            fmul(s1[k - 1], w),
            fmul(s2[k - 1], w),
        );
    }
}

/// Reconstruction commutes with pointwise subtraction: interpolating the
/// difference of two share vectors gives the field difference of their
/// interpolations.  This is what the broadcast masks of the multiplication
/// protocol mean: the pairs `(a_i - alpha_i, b_i - beta_i)` reconstruct to
/// `a - alpha` and `b - beta`.
pub proof fn lemma_lagrange_zero_subtracts(s1: Seq<int>, s2: Seq<int>, xs: Seq<int>)
    requires
        s1.len() == s2.len(),
    ensures
        lagrange_zero(Seq::new(s1.len(), |i: int| fsub(s1[i], s2[i])), xs) == fsub(
            lagrange_zero(s1, xs),
            lagrange_zero(s2, xs),
        ),
{
    lemma_lagrange_partial_subtracts(s1, s2, xs, s1.len() as int);
}

proof fn lemma_lagrange_partial_scales(c: int, s: Seq<int>, xs: Seq<int>, k: int)
    requires
        k <= s.len(),
    ensures
        lagrange_partial(Seq::new(s.len(), |i: int| fmul(c, s[i])), xs, k) == fmul(
            c,
            lagrange_partial(s, xs, k),
        ),
    decreases k,
{
    let m = MODULUS as int;
    if k <= 0 {
        vstd::arithmetic::mul::lemma_mul_basics(c);
        vstd::arithmetic::div_mod::lemma_small_mod(0nat, MODULUS as nat);
    } else {
        lemma_lagrange_partial_scales(c, s, xs, k - 1);
        let w = lagrange_weight(xs, k - 1);
        let p = lagrange_partial(s, xs, k - 1);
        let t = fmul(s[k - 1], w);
        // the scaled term: fmul(fmul(c, s[k-1]), w) == fmul(c, t)
        vstd::arithmetic::div_mod::lemma_mul_mod_noop_left(c * s[k - 1], w, m);
        vstd::arithmetic::mul::lemma_mul_is_associative(c, s[k - 1], w);
        vstd::arithmetic::div_mod::lemma_mul_mod_noop_right(c, s[k - 1] * w, m);
        // the scaled sum: fadd(fmul(c, p), fmul(c, t)) == fmul(c, fadd(p, t))
        vstd::arithmetic::div_mod::lemma_mul_mod_noop_right(c, p, m);
        vstd::arithmetic::div_mod::lemma_mul_mod_noop_right(c, t, m);
        vstd::arithmetic::div_mod::lemma_add_mod_noop(c * p, c * t, m);
        vstd::arithmetic::mul::lemma_mul_is_distributive_add(c, p, t);
        vstd::arithmetic::div_mod::lemma_mul_mod_noop_right(c, p + t, m);
    }
}

/// Reconstruction scales: interpolating a share vector with every entry
/// multiplied (in the field) by a public constant gives the constant times
/// the original interpolation.  Together with additivity this makes
/// reconstruction linear in the shares, which is why the parties' local
/// Beaver combinations reconstruct to the combination of the shared values.
pub proof fn lemma_lagrange_zero_scales(c: int, s: Seq<int>, xs: Seq<int>)
    ensures
        lagrange_zero(Seq::new(s.len(), |i: int| fmul(c, s[i])), xs) == fmul(
            c,
            lagrange_zero(s, xs),
        ),
{
    lemma_lagrange_partial_scales(c, s, xs, s.len() as int);
}

/// The sharing round trip for a cohort of one: with `n == t == 1` the single
/// share is the secret itself, and interpolation of it at `0` gives the
/// secret back.
pub proof fn lemma_share_recover_one_party(s: int)
    requires
        0 <= s < MODULUS as int,
    ensures
        ({
            let coeffs = seq![s];
            let shares = Seq::new(1, |i: int| poly_eval(coeffs, eval_points(1)[i]));
            lagrange_zero(shares, eval_points(1)) == s
        }),
{
    let m = MODULUS as int;
    let coeffs = seq![s];
    let xs = eval_points(1);
    vstd::arithmetic::div_mod::lemma_small_mod(1nat, MODULUS as nat);
    vstd::arithmetic::div_mod::lemma_small_mod(0nat, MODULUS as nat);
    vstd::arithmetic::div_mod::lemma_small_mod(s as nat, MODULUS as nat);
    assert(xs[0] == 1);
    assert(coeffs.subrange(1, 1) =~= Seq::<int>::empty());
    assert(poly_eval(coeffs.subrange(1, 1), 1) == 0);
    assert(poly_eval(coeffs, 1) == fadd(fmul(0, 1), s));
    assert(fmul(0, 1) == 0);
    let shares = Seq::new(1, |i: int| poly_eval(coeffs, xs[i]));
    assert(shares[0] == s);
    assert(prod_points_except(xs, 0, 0) == 1);
    assert(prod_points_except(xs, 0, 1) == 1);
    assert(prod_diffs_except(xs, 0, 0) == 1);
    assert(prod_diffs_except(xs, 0, 1) == 1);
    vstd::arithmetic::power::lemma1_pow((MODULUS - 2) as nat);
    assert(finv(1) == 1);
    assert(lagrange_weight(xs, 0) == fmul(1, 1));
    assert(lagrange_partial(shares, xs, 1) == fadd(lagrange_partial(shares, xs, 0), fmul(s, 1)));
    assert(fmul(s, 1) == s);
    assert(lagrange_zero(shares, xs) == s);
}

/// Evaluates the polynomial `coeffs` (constant term first) at `x` by
/// Horner's method.
pub fn poly_eval_at(coeffs: &Vec<Scalar61>, x: Scalar61) -> (r: Scalar61)
    ensures
        r@ == poly_eval(values(coeffs@), x@),
{
    let mut partial = Scalar61::zero();
    let mut k = coeffs.len();
    while k > 0
        invariant
            k <= coeffs.len(),
            partial@ == poly_eval(values(coeffs@).subrange(k as int, coeffs@.len() as int), x@),
        decreases k,
    {
        k = k - 1;
        partial = Scalar61::horner_fold(&partial, &coeffs[k], &x);
        proof {
            let vs = values(coeffs@);
            assert(vs.subrange(k as int, vs.len() as int).subrange(
                1,
                vs.subrange(k as int, vs.len() as int).len() as int,
            ) =~= vs.subrange(k + 1, vs.len() as int));
        }
    }
    proof {
        assert(values(coeffs@).subrange(0, coeffs@.len() as int) =~= values(coeffs@));
    }
    partial
}

/// Evaluates the polynomial at the points `1..=n`, yielding one share per
/// party.
pub fn share_with_coeffs(coeffs: &Vec<Scalar61>, n: usize) -> (shares: Vec<Scalar61>)
    ensures
        shares.len() == n,
        forall|i: int|
            0 <= i < n ==> #[trigger] shares@[i]@ == poly_eval(
                values(coeffs@),
                eval_points(n as nat)[i],
            ),
{
    let mut shares: Vec<Scalar61> = Vec::new();
    let mut i: usize = 0;
    while i < n
        invariant
            i <= n,
            shares@.len() == i,
            forall|j: int|
                0 <= j < i ==> #[trigger] shares@[j]@ == poly_eval(
                    values(coeffs@),
                    eval_points(n as nat)[j],
                ),
        decreases n - i,
    {
        let x = Scalar61::from_usize(i + 1);
        shares.push(poly_eval_at(coeffs, x));
        i = i + 1;
    }
    shares
}

/// The sharing engine itself: a unit type carrying the scheme's two
/// operations.
pub struct Shamir;

impl SecretSharing<Scalar61> for Shamir {
    /// The shares are the evaluations, at the points `1..=n`, of a polynomial
    /// of degree `t - 1` whose constant term is the secret and whose other
    /// coefficients are drawn from the field's random generator.
    fn share(secret: Scalar61, n: usize, t: usize) -> (shares: Vec<Scalar61>)
        ensures
            is_sharing(values(shares@), secret@, t as nat),
    {
        let mut coeffs: Vec<Scalar61> = Vec::new();
        proof {
            use_type_invariant(secret);
        }
        coeffs.push(secret);
        while coeffs.len() < t
            invariant
                1 <= coeffs@.len() <= t,
                coeffs@[0]@ == secret@,
                forall|j: int| 0 <= j < coeffs@.len() ==> 0 <= #[trigger] coeffs@[j]@ < MODULUS as int,
            decreases t - coeffs@.len(),
        {
            let c = Scalar61::random();
            proof {
                use_type_invariant(c);
            }
            coeffs.push(c);
        }
        let shares = share_with_coeffs(&coeffs, n);
        proof {
            let witness = values(coeffs@);
            assert(witness.len() == t);
            assert(witness[0] == secret@);
            assert(values(shares@).len() == n as nat);
            assert(forall|i: int|
                0 <= i < n ==> #[trigger] values(shares@)[i] == poly_eval(
                    witness,
                    eval_points(n as nat)[i],
                ));
        }
        shares
    }

    /// Reconstruction is the Lagrange interpolation of the supplied pairs at
    /// `0`: a pure, order-independent function of its inputs.  `n` and `t`
    /// describe the sharing; all supplied pairs take part.
    fn recover(shares: Vec<Scalar61>, indexes: Vec<usize>, n: usize, t: usize) -> (r: Scalar61)
        ensures
            r@ == lagrange_zero(values(shares@), index_vals(indexes@)),
    {
        let len = shares.len();
        let mut xs: Vec<Scalar61> = Vec::new();
        let mut j: usize = 0;
        while j < len
            invariant
                j <= len,
                len == shares@.len() == indexes@.len(),
                xs@.len() == j,
                forall|k: int| 0 <= k < j ==> #[trigger] xs@[k]@ == index_vals(indexes@)[k],
            decreases len - j,
        {
            xs.push(Scalar61::from_usize(indexes[j]));
            j = j + 1;
        }
        let ghost xvals = index_vals(indexes@);
        let mut acc = Scalar61::zero();
        let mut i: usize = 0;
        while i < len
            invariant
                i <= len,
                len == shares@.len() == indexes@.len(),
                xs@.len() == len,
                forall|k: int| 0 <= k < len ==> #[trigger] xs@[k]@ == xvals[k],
                xvals == index_vals(indexes@),
                acc@ == lagrange_partial(values(shares@), xvals, i as int),
        decreases len - i,
    {
            let mut num = Scalar61::one();
            let mut den = Scalar61::one();
            let mut j2: usize = 0;
            while j2 < len
                invariant
                    j2 <= len,
                    i < len,
                    len == shares@.len() == indexes@.len(),
                    xs@.len() == len,
                    forall|k: int| 0 <= k < len ==> #[trigger] xs@[k]@ == xvals[k],
                    num@ == prod_points_except(xvals, i as int, j2 as int),
                    den@ == prod_diffs_except(xvals, i as int, j2 as int),
                decreases len - j2,
            {
                if j2 != i {
                    num = num.mul(&xs[j2]);
                    den = den.mul(&xs[j2].sub(&xs[i]));
                }
                j2 = j2 + 1;
            }
            proof {
                assert(xvals.len() == len);
            }
            let weight = num.mul(&den.pow_u64(MODULUS - 2));
            acc = acc.add(&shares[i].mul(&weight));
            i = i + 1;
        }
        acc
    }
}

} // verus!
