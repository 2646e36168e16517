//! Rank-1 Constraint System: matrices `A`, `B`, `C` and the relation
//! `(A.z) o (B.z) - C.z = 0` over the assignment `z = w ‖ [1] ‖ x`,
//! together with the conversion to the equivalent CCS structure with
//! `t = 3`, `q = 2`, `d = 2`.
use crate::ccs::{
    mats_entries_wf, mats_shape_ok, mats_view, msets_view, multisets_card_ok, multisets_domain_ok,
    spec_ccs_sum, spec_term, CCS,
};
use crate::field::FiniteField;
use crate::utils::{
    all_wf, build_z, clone_matrix, lemma_spec_dot_wf, mat_entries_wf, mat_shape_ok, mat_view,
    matrix_entries_reduced, matrix_has_shape, matrix_vector_prod, spec_dot, spec_hadamard,
    spec_hadasum, spec_mvp, spec_ones, spec_scale, spec_z, spec_zeros, vector_entries_reduced,
};
use crate::Matrix;
use vstd::arithmetic::div_mod::{
    lemma_mod_multiples_vanish, lemma_mod_self_0, lemma_small_mod,
};
use vstd::arithmetic::mul::{lemma_mul_basics, lemma_mul_is_distributive_sub_other_way};
use vstd::pervasive::unreached;
use vstd::prelude::*;

verus! {

/// Error kinds raised by R1CS construction and satisfaction checking.
#[derive(Clone, Copy, Debug, PartialEq, Eq, Structural)]
pub enum R1CSError {
    /// The modulus does not admit distinct additive and multiplicative
    /// identities.
    InvalidModulus,
    /// A declared dimension does not match a supplied collection, or
    /// `n <= l`.
    DimensionMismatch,
    /// A matrix is not an `m x n` rectangle, so the three matrices
    /// cannot share a shape.
    ShapeMismatch,
    /// An element is unreduced or carries a foreign modulus.
    ModulusMismatch,
}

/// An R1CS structure: `m` constraints over `n` variables, `l` of them
/// public, with matrices `a`, `b`, `c` of shape `m x n` over the field
/// with modulus `p`. `nmax` records the advertised bound on nonzero
/// entries; it is informational.
pub struct R1CS {
    pub n: usize,
    pub m: usize,
    pub l: usize,
    pub nmax: usize,
    pub p: u64,
    pub a: Matrix,
    pub b: Matrix,
    pub c: Matrix,
}

/// An R1CS instance: the public input `x` in `F^l`.
pub struct R1CSInstance {
    pub x: Vec<FiniteField>,
}

/// An R1CS witness: the private assignment `w` in `F^(n-l-1)`.
pub struct R1CSWitness {
    pub w: Vec<FiniteField>,
}

impl R1CSInstance {
    pub fn new(x: Vec<FiniteField>) -> (r: R1CSInstance)
        ensures
            r.x@ == x@,
    {
        R1CSInstance { x }
    }
}

impl R1CSWitness {
    pub fn new(w: Vec<FiniteField>) -> (r: R1CSWitness)
        ensures
            r.w@ == w@,
    {
        R1CSWitness { w }
    }
}

/// Row `i` of the R1CS relation: `(a_i . z) * (b_i . z) - (c_i . z) = 0`.
pub open spec fn spec_row_holds(
    ra: Seq<FiniteField>,
    rb: Seq<FiniteField>,
    rc: Seq<FiniteField>,
    z: Seq<FiniteField>,
    p: u64,
) -> bool {
    spec_dot(ra, z, p).spec_mul(spec_dot(rb, z, p)).spec_sub(spec_dot(rc, z, p)).value == 0
}

/// All conditions an R1CS structure must meet at construction.
pub open spec fn spec_r1cs_ok(
    n: usize,
    m: usize,
    l: usize,
    p: u64,
    av: Seq<Seq<FiniteField>>,
    bv: Seq<Seq<FiniteField>>,
    cv: Seq<Seq<FiniteField>>,
) -> bool {
    &&& p >= 2
    &&& n > l
    &&& mat_shape_ok(av, m as nat, n as nat)
    &&& mat_shape_ok(bv, m as nat, n as nat)
    &&& mat_shape_ok(cv, m as nat, n as nat)
    &&& mat_entries_wf(av, p)
    &&& mat_entries_wf(bv, p)
    &&& mat_entries_wf(cv, p)
}

/// The error reported for arguments that fail construction, by the
/// order in which the checks run.
pub open spec fn spec_r1cs_error(
    n: usize,
    m: usize,
    l: usize,
    p: u64,
    av: Seq<Seq<FiniteField>>,
    bv: Seq<Seq<FiniteField>>,
    cv: Seq<Seq<FiniteField>>,
) -> R1CSError {
    if p < 2 {
        R1CSError::InvalidModulus
    } else if n <= l {
        R1CSError::DimensionMismatch
    } else if !(mat_shape_ok(av, m as nat, n as nat) && mat_shape_ok(bv, m as nat, n as nat)
        && mat_shape_ok(cv, m as nat, n as nat)) {
        R1CSError::ShapeMismatch
    } else {
        R1CSError::ModulusMismatch
    }
}

/// The error reported by a satisfaction query whose instance or witness
/// does not fit the structure.
pub open spec fn spec_r1cs_query_error(
    n: usize,
    x: Seq<FiniteField>,
    w: Seq<FiniteField>,
) -> R1CSError {
    if w.len() + 1 + x.len() != n {
        R1CSError::DimensionMismatch
    } else {
        R1CSError::ModulusMismatch
    }
}

impl R1CS {
    /// Internal consistency, established by `new` and assumed by
    /// queries, as every held value was built by `new`.
    pub open spec fn wf(self) -> bool {
        spec_r1cs_ok(
            self.n,
            self.m,
            self.l,
            self.p,
            mat_view(self.a),
            mat_view(self.b),
            mat_view(self.c),
        )
    }

    /// The R1CS relation: every row of `(A.z) o (B.z) - C.z` vanishes
    /// on `z = w ‖ [1] ‖ x`.
    pub open spec fn spec_satisfied(self, x: Seq<FiniteField>, w: Seq<FiniteField>) -> bool {
        let z = spec_z(w, x, self.p);
        forall|i: int|
            0 <= i < self.m ==> spec_row_holds(
                #[trigger] mat_view(self.a)[i],
                mat_view(self.b)[i],
                mat_view(self.c)[i],
                z,
                self.p,
            )
    }

    /// Validating constructor: rejects a modulus without distinct
    /// identities, `n <= l`, a matrix that is not an `m x n` rectangle
    /// (jagged rows included), and unreduced or foreign elements.
    pub fn new(
        n: usize,
        m: usize,
        l: usize,
        nmax: usize,
        p: u64,
        a: Matrix,
        b: Matrix,
        c: Matrix,
    ) -> (r: Result<R1CS, R1CSError>)
        ensures
            r is Ok <==> spec_r1cs_ok(n, m, l, p, mat_view(a), mat_view(b), mat_view(c)),
            r matches Ok(s) ==> s.wf() && s.n == n && s.m == m && s.l == l && s.nmax == nmax
                && s.p == p && mat_view(s.a) == mat_view(a) && mat_view(s.b) == mat_view(b)
                && mat_view(s.c) == mat_view(c),
            r matches Err(e) ==> e == spec_r1cs_error(n, m, l, p, mat_view(a), mat_view(b),
            mat_view(c)),
    {
        if p < 2 {
            return Err(R1CSError::InvalidModulus);
        }
        if n <= l {
            return Err(R1CSError::DimensionMismatch);
        }
        if !matrix_has_shape(&a, m, n) || !matrix_has_shape(&b, m, n) || !matrix_has_shape(
            &c,
            m,
            n,
        ) {
            return Err(R1CSError::ShapeMismatch);
        }
        if !matrix_entries_reduced(&a, p) || !matrix_entries_reduced(&b, p)
            || !matrix_entries_reduced(&c, p) {
            return Err(R1CSError::ModulusMismatch);
        }
        Ok(R1CS { n, m, l, nmax, p, a, b, c })
    }

    /// Decides the R1CS relation for a claimed instance and witness:
    /// assembles `z = w ‖ [1] ‖ x` and checks `(A.z) o (B.z) - C.z = 0`
    /// row by row. Cross-object shapes are validated here; internal
    /// consistency is guaranteed by construction. Pure: the result is a
    /// function of the arguments alone, so repeated calls agree.
    #[verifier::loop_isolation(false)]
    pub fn is_satisfied_by(&self, instance: &R1CSInstance, witness: &R1CSWitness) -> (r: Result<
        bool,
        R1CSError,
    >)
        requires
            self.wf(),
        ensures
            r is Ok <==> (witness.w@.len() + 1 + instance.x@.len() == self.n && all_wf(
                witness.w@,
                self.p,
            ) && all_wf(instance.x@, self.p)),
            r matches Ok(b) ==> b == self.spec_satisfied(instance.x@, witness.w@),
            r matches Err(e) ==> e == spec_r1cs_query_error(self.n, instance.x@, witness.w@),
    {
        let p = self.p;
        if witness.w.len() >= self.n || self.n - 1 - witness.w.len() != instance.x.len() {
            return Err(R1CSError::DimensionMismatch);
        }
        if !vector_entries_reduced(&witness.w, p) || !vector_entries_reduced(&instance.x, p) {
            return Err(R1CSError::ModulusMismatch);
        }
        let z = build_z(&witness.w, &instance.x, p);
        let az = matrix_vector_prod(&self.a, &z, p);
        let bz = matrix_vector_prod(&self.b, &z, p);
        let cz = matrix_vector_prod(&self.c, &z, p);
        let mut i: usize = 0;
        while i < self.m
            invariant
                i <= self.m,
                forall|k: int|
                    0 <= k < i ==> spec_row_holds(
                        #[trigger] mat_view(self.a)[k],
                        mat_view(self.b)[k],
                        mat_view(self.c)[k],
                        z@,
                        p,
                    ),
            decreases self.m - i,
        {
            let lhs = az[i].mul(bz[i]).sub(cz[i]);
            if lhs.value != 0 {
                proof {
                    assert(!spec_row_holds(
                        mat_view(self.a)[i as int],
                        mat_view(self.b)[i as int],
                        mat_view(self.c)[i as int],
                        z@,
                        p,
                    ));
                }
                return Ok(false);
            }
            i = i + 1;
        }
        Ok(true)
    }

    /// Converts to the equivalent CCS structure: `t = 3` matrices
    /// `[A, B, C]`, `q = 2` multisets `[{0,1}, {2}]`, constants
    /// `[1, -1]`, and `d = 2`, preserving `n`, `m`, `l` and `nmax`.
    /// `lemma_r1cs_to_ccs_equivalence` proves that satisfaction is
    /// preserved in both directions.
    pub fn to_ccs(&self) -> (r: CCS)
        requires
            self.wf(),
        ensures
            r.wf(),
            r.n == self.n,
            r.m == self.m,
            r.l == self.l,
            r.nmax == self.nmax,
            r.p == self.p,
            r.t == 3,
            r.q == 2,
            r.d == 2,
            mats_view(r.matrices) == seq![mat_view(self.a), mat_view(self.b), mat_view(self.c)],
            msets_view(r.multisets) == seq![seq![0usize, 1usize], seq![2usize]],
            r.constants@ == seq![
                FiniteField::spec_one(self.p),
                FiniteField::spec_neg_one(self.p),
            ],
    {
        let p = self.p;
        let mut matrices: Vec<Matrix> = Vec::new();
        matrices.push(clone_matrix(&self.a));
        matrices.push(clone_matrix(&self.b));
        matrices.push(clone_matrix(&self.c));
        let mut s0: Vec<usize> = Vec::new();
        s0.push(0);
        s0.push(1);
        let mut s1: Vec<usize> = Vec::new();
        s1.push(2);
        let ghost s0v = s0@;
        let ghost s1v = s1@;
        let mut multisets: Vec<Vec<usize>> = Vec::new();
        multisets.push(s0);
        multisets.push(s1);
        let mut constants: Vec<FiniteField> = Vec::new();
        constants.push(FiniteField::one(p));
        constants.push(FiniteField::neg_one(p));
        proof {
            assert(mats_view(matrices) =~= seq![
                mat_view(self.a),
                mat_view(self.b),
                mat_view(self.c),
            ]);
            assert(s0v =~= seq![0usize, 1usize]);
            assert(s1v =~= seq![2usize]);
            assert(msets_view(multisets) =~= seq![seq![0usize, 1usize], seq![2usize]]);
            assert(constants@ =~= seq![
                FiniteField::spec_one(p),
                FiniteField::spec_neg_one(p),
            ]);
            assert(mats_shape_ok(mats_view(matrices), self.m as nat, self.n as nat));
            assert(mats_entries_wf(mats_view(matrices), p));
            assert(multisets_card_ok(msets_view(multisets), 2nat));
            assert(multisets_domain_ok(msets_view(multisets), 3nat));
            assert(all_wf(constants@, p));
        }
        let r = CCS::new(self.n, self.m, self.l, self.nmax, 3, 2, 2, p, matrices, multisets,
            constants);
        match r {
            Ok(ccs) => ccs,
            Err(_) => unreached(),
        }
    }
}

/// Law: for a modulus admitting distinct identities, `u - v` vanishes
/// exactly when `u + (-1) * v` does, for reduced `u`, `v`.
proof fn lemma_row_equiv(u: FiniteField, v: FiniteField)
    requires
        u.wf(),
        v.wf(),
        u.p == v.p,
        u.p >= 2,
    ensures
        (u.spec_sub(v).value == 0) <==> (u.spec_add(
            FiniteField::spec_neg_one(u.p).spec_mul(v),
        ).value == 0),
{
    let p = u.p as int;
    let uv = u.value as int;
    let vv = v.value as int;
    // (p - 1) * vv == p * vv - vv, and the p * vv summand vanishes mod p
    assert((p - 1) * vv == p * vv - 1 * vv) by {
        lemma_mul_is_distributive_sub_other_way(vv, p, 1);
    }
    lemma_mul_basics(vv);
    assert(((p - 1) * vv) % p == (-vv) % p) by {
        lemma_mod_multiples_vanish(vv, -vv, p);
    }
    if vv == 0 {
        lemma_small_mod(0nat, u.p as nat);
        lemma_small_mod(uv as nat, u.p as nat);
        assert((uv + p) % p == uv % p) by {
            lemma_mod_multiples_vanish(1, uv, p);
        }
    } else {
        assert((-vv) % p == p - vv) by {
            lemma_mod_multiples_vanish(1, -vv, p);
            lemma_small_mod((p - vv) as nat, u.p as nat);
        }
        let x = uv + p - vv;
        if uv == vv {
            lemma_mod_self_0(p);
        } else if x < p {
            lemma_small_mod(x as nat, u.p as nat);
        } else {
            assert(x % p == (x - p) % p) by {
                lemma_mod_multiples_vanish(1, x - p, p);
            }
            lemma_small_mod((x - p) as nat, u.p as nat);
        }
    }
}

/// Law: R1CS-to-CCS conversion preserves satisfaction. For every
/// well-formed R1CS structure, every CCS structure with the converted
/// components, and every instance/witness pair of the right shape, the
/// R1CS relation holds exactly when the CCS relation holds.
pub proof fn lemma_r1cs_to_ccs_equivalence(
    s: R1CS,
    c: CCS,
    x: Seq<FiniteField>,
    w: Seq<FiniteField>,
)
    requires
        s.wf(),
        c.p == s.p,
        c.m == s.m,
        mats_view(c.matrices) == seq![mat_view(s.a), mat_view(s.b), mat_view(s.c)],
        msets_view(c.multisets) == seq![seq![0usize, 1usize], seq![2usize]],
        c.constants@ == seq![FiniteField::spec_one(s.p), FiniteField::spec_neg_one(s.p)],
        w.len() + 1 + x.len() == s.n,
        all_wf(x, s.p),
        all_wf(w, s.p),
    ensures
        s.spec_satisfied(x, w) == c.spec_satisfied(x, w),
{
    reveal_with_fuel(spec_ccs_sum, 4);
    reveal_with_fuel(spec_term, 4);
    let p = s.p;
    let m = s.m as nat;
    let z = spec_z(w, x, p);
    let msv = mats_view(c.matrices);
    let ssv = msets_view(c.multisets);
    let csv = c.constants@;
    assert(all_wf(z, p));
    assert(z.len() == s.n);
    let az = spec_mvp(mat_view(s.a), z, p);
    let bz = spec_mvp(mat_view(s.b), z, p);
    let cz = spec_mvp(mat_view(s.c), z, p);
    // unfold the two-term CCS sum
    let term01 = spec_term(msv, seq![0usize, 1usize], z, m, p);
    let term2 = spec_term(msv, seq![2usize], z, m, p);
    let sum = spec_ccs_sum(msv, ssv, csv, z, m, p);
    assert(ssv.drop_last() =~= seq![seq![0usize, 1usize]]);
    assert(seq![seq![0usize, 1usize]].drop_last() =~= Seq::<Seq<usize>>::empty());
    assert(sum == spec_hadasum(
        spec_ccs_sum(msv, seq![seq![0usize, 1usize]], csv, z, m, p),
        spec_scale(csv[1], term2),
    ));
    assert(spec_ccs_sum(msv, seq![seq![0usize, 1usize]], csv, z, m, p) == spec_hadasum(
        spec_zeros(m, p),
        spec_scale(csv[0], term01),
    ));
    // unfold the two Hadamard terms
    assert(seq![0usize, 1usize].drop_last() =~= seq![0usize]);
    assert(seq![0usize].drop_last() =~= Seq::<usize>::empty());
    assert(seq![2usize].drop_last() =~= Seq::<usize>::empty());
    assert(term01 == spec_hadamard(
        spec_hadamard(spec_ones(m, p), spec_mvp(msv[0], z, p)),
        spec_mvp(msv[1], z, p),
    ));
    assert(term2 == spec_hadamard(spec_ones(m, p), spec_mvp(msv[2], z, p)));
    assert(msv[0] == mat_view(s.a));
    assert(msv[1] == mat_view(s.b));
    assert(msv[2] == mat_view(s.c));
    assert(sum.len() == m);
    // rows agree pointwise
    assert forall|i: int| 0 <= i < m implies (#[trigger] sum[i].value == 0) == spec_row_holds(
        mat_view(s.a)[i],
        mat_view(s.b)[i],
        mat_view(s.c)[i],
        z,
        p,
    ) by {
        lemma_spec_dot_wf(mat_view(s.a)[i], z, p);
        lemma_spec_dot_wf(mat_view(s.b)[i], z, p);
        lemma_spec_dot_wf(mat_view(s.c)[i], z, p);
        let ai = az[i];
        let bi = bz[i];
        let ci = cz[i];
        assert(FiniteField::spec_one(p).spec_mul(ai) == ai) by {
            lemma_mul_basics(ai.value as int);
            lemma_small_mod(ai.value as nat, p as nat);
        }
        assert(FiniteField::spec_one(p).spec_mul(ci) == ci) by {
            lemma_mul_basics(ci.value as int);
            lemma_small_mod(ci.value as nat, p as nat);
        }
        let u = ai.spec_mul(bi);
        assert(u.wf());
        assert(FiniteField::spec_one(p).spec_mul(u) == u) by {
            lemma_mul_basics(u.value as int);
            lemma_small_mod(u.value as nat, p as nat);
        }
        assert(FiniteField::spec_zero(p).spec_add(u) == u) by {
            lemma_small_mod(u.value as nat, p as nat);
        }
        assert(term01[i] == u);
        assert(term2[i] == ci);
        assert(sum[i] == u.spec_add(FiniteField::spec_neg_one(p).spec_mul(ci)));
        lemma_row_equiv(u, ci);
    }
    if s.spec_satisfied(x, w) {
        assert forall|i: int| 0 <= i < sum.len() implies (#[trigger] sum[i]).value == 0 by {
            assert(spec_row_holds(
                mat_view(s.a)[i],
                mat_view(s.b)[i],
                mat_view(s.c)[i],
                z,
                p,
            ));
        }
        assert(c.spec_satisfied(x, w));
    }
    if c.spec_satisfied(x, w) {
        assert forall|i: int| 0 <= i < m implies spec_row_holds(
            #[trigger] mat_view(s.a)[i],
            mat_view(s.b)[i],
            mat_view(s.c)[i],
            z,
            p,
        ) by {
            assert(sum[i].value == 0);
        }
        assert(s.spec_satisfied(x, w));
    }
}

} // verus!
