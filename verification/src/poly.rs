//! Multivariate gate polynomials for the Plonkish arithmetization: a
//! polynomial in `t` variables represented as a sum of monomials, each a
//! coefficient times a product of powers, evaluated over a prime field.
use crate::field::FiniteField;
use crate::utils::all_wf;
use vstd::prelude::*;

verus! {

/// One monomial: `coeff * v_0^(e_0) * ... * v_(t-1)^(e_(t-1))`, where
/// `exponents[j]` is the power of variable `j`.
pub struct Monomial {
    pub coeff: FiniteField,
    pub exponents: Vec<usize>,
}

/// A multivariate polynomial in `t` variables: the sum of its monomials.
/// The arity and degree bounds are validated by the structure that holds
/// the polynomial.
pub struct GatePolynomial {
    pub monomials: Vec<Monomial>,
}

/// `base` raised to the power `e` in `F_p`.
pub open spec fn spec_pow(base: FiniteField, e: nat) -> FiniteField
    decreases e,
{
    if e == 0 {
        FiniteField::spec_one(base.p)
    } else {
        spec_pow(base, (e - 1) as nat).spec_mul(base)
    }
}

/// The total degree of a monomial: the sum of its exponents.
pub open spec fn spec_deg(exps: Seq<usize>) -> nat
    decreases exps.len(),
{
    if exps.len() == 0 {
        0
    } else {
        spec_deg(exps.drop_last()) + exps.last() as nat
    }
}

/// The product of `point[j]` raised to `exps[j]` over all variables.
pub open spec fn spec_prod_pows(point: Seq<FiniteField>, exps: Seq<usize>, p: u64) -> FiniteField
    decreases exps.len(),
{
    if exps.len() == 0 {
        FiniteField::spec_one(p)
    } else {
        spec_prod_pows(point.drop_last(), exps.drop_last(), p).spec_mul(
            spec_pow(point.last(), exps.last() as nat),
        )
    }
}

/// The value of one monomial at `point`.
pub open spec fn spec_eval_monomial(mono: Monomial, point: Seq<FiniteField>, p: u64) -> FiniteField {
    mono.coeff.spec_mul(spec_prod_pows(point, mono.exponents@, p))
}

/// The value of a sum of monomials at `point`.
pub open spec fn spec_eval_poly(monos: Seq<Monomial>, point: Seq<FiniteField>, p: u64) -> FiniteField
    decreases monos.len(),
{
    if monos.len() == 0 {
        FiniteField::spec_zero(p)
    } else {
        spec_eval_poly(monos.drop_last(), point, p).spec_add(
            spec_eval_monomial(monos.last(), point, p),
        )
    }
}

/// A monomial fit for arity `t` over modulus `p`.
pub open spec fn monomial_wf(mono: Monomial, t: nat, p: u64) -> bool {
    mono.exponents@.len() == t && mono.coeff.wf() && mono.coeff.p == p
}

/// Every monomial has arity `t` and a reduced coefficient modulo `p`.
pub open spec fn poly_wf(g: GatePolynomial, t: nat, p: u64) -> bool {
    forall|i: int| 0 <= i < g.monomials@.len() ==> monomial_wf(#[trigger] g.monomials@[i], t, p)
}

/// Every monomial has total degree at most `d`.
pub open spec fn poly_degree_ok(g: GatePolynomial, d: nat) -> bool {
    forall|i: int|
        0 <= i < g.monomials@.len() ==> spec_deg((#[trigger] g.monomials@[i]).exponents@) <= d
}

/// A prefix sum of exponents never exceeds the total degree.
pub proof fn lemma_spec_deg_take(s: Seq<usize>, i: int)
    requires
        0 <= i <= s.len(),
    ensures
        spec_deg(s.take(i)) <= spec_deg(s),
    decreases s.len() - i,
{
    if i == s.len() {
        assert(s.take(i) =~= s);
    } else {
        assert(s.take(i + 1).drop_last() =~= s.take(i));
        assert(s.take(i + 1).last() == s[i]);
        lemma_spec_deg_take(s, i + 1);
    }
}

/// Computes `base^e` by repeated multiplication.
pub fn pow(base: FiniteField, e: usize) -> (r: FiniteField)
    requires
        base.wf(),
        base.p >= 2,
    ensures
        r == spec_pow(base, e as nat),
        r.wf(),
        r.p == base.p,
{
    let mut acc = FiniteField::one(base.p);
    let mut i: usize = 0;
    while i < e
        invariant
            base.wf(),
            base.p >= 2,
            i <= e,
            acc == spec_pow(base, i as nat),
            acc.wf(),
            acc.p == base.p,
        decreases e - i,
    {
        acc = acc.mul(base);
        i = i + 1;
    }
    acc
}

/// Evaluates one monomial at `point`.
pub fn eval_monomial(mono: &Monomial, point: &Vec<FiniteField>, p: u64) -> (r: FiniteField)
    requires
        p >= 2,
        mono.coeff.wf(),
        mono.coeff.p == p,
        point@.len() == mono.exponents@.len(),
        all_wf(point@, p),
    ensures
        r == spec_eval_monomial(*mono, point@, p),
        r.wf(),
        r.p == p,
{
    let mut acc = FiniteField::one(p);
    let mut j: usize = 0;
    while j < point.len()
        invariant
            p >= 2,
            j <= point@.len(),
            point@.len() == mono.exponents@.len(),
            all_wf(point@, p),
            acc == spec_prod_pows(point@.take(j as int), mono.exponents@.take(j as int), p),
            acc.wf(),
            acc.p == p,
        decreases point@.len() - j,
    {
        let f = pow(point[j], mono.exponents[j]);
        acc = acc.mul(f);
        proof {
            assert(point@.take(j + 1).drop_last() =~= point@.take(j as int));
            assert(mono.exponents@.take(j + 1).drop_last() =~= mono.exponents@.take(j as int));
        }
        j = j + 1;
    }
    proof {
        assert(point@.take(point@.len() as int) =~= point@);
        assert(mono.exponents@.take(mono.exponents@.len() as int) =~= mono.exponents@);
    }
    mono.coeff.mul(acc)
}

impl GatePolynomial {
    /// Evaluates the polynomial at `point`: the sum of its monomials'
    /// values.
    pub fn evaluate(&self, point: &Vec<FiniteField>, p: u64) -> (r: FiniteField)
        requires
            p >= 2,
            poly_wf(*self, point@.len(), p),
            all_wf(point@, p),
        ensures
            r == spec_eval_poly(self.monomials@, point@, p),
            r.wf(),
            r.p == p,
    {
        let mut acc = FiniteField::zero(p);
        let mut i: usize = 0;
        while i < self.monomials.len()
            invariant
                p >= 2,
                i <= self.monomials@.len(),
                poly_wf(*self, point@.len(), p),
                all_wf(point@, p),
                acc == spec_eval_poly(self.monomials@.take(i as int), point@, p),
                acc.wf(),
                acc.p == p,
            decreases self.monomials@.len() - i,
        {
            let v = eval_monomial(&self.monomials[i], point, p);
            acc = acc.add(v);
            proof {
                assert(self.monomials@.take(i + 1).drop_last() =~= self.monomials@.take(i as int));
            }
            i = i + 1;
        }
        proof {
            assert(self.monomials@.take(self.monomials@.len() as int) =~= self.monomials@);
        }
        acc
    }
}

/// Decides whether the sum of `exps` is at most `d`, without overflow.
pub fn monomial_degree_at_most(exps: &Vec<usize>, d: usize) -> (b: bool)
    ensures
        b == (spec_deg(exps@) <= d),
{
    let mut acc: usize = 0;
    let mut j: usize = 0;
    while j < exps.len()
        invariant
            j <= exps@.len(),
            acc == spec_deg(exps@.take(j as int)),
            acc <= d,
        decreases exps@.len() - j,
    {
        let e = exps[j];
        proof {
            assert(exps@.take(j + 1).drop_last() =~= exps@.take(j as int));
            assert(exps@.take(j + 1).last() == exps@[j as int]);
        }
        if e > d || acc > d - e {
            proof {
                assert(spec_deg(exps@.take(j + 1)) > d);
                lemma_spec_deg_take(exps@, j + 1);
            }
            return false;
        }
        acc = acc + e;
        j = j + 1;
    }
    proof {
        assert(exps@.take(exps@.len() as int) =~= exps@);
    }
    true
}

} // verus!
