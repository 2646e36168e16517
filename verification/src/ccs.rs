//! Customizable Constraint System (CCS): `t` matrices combined through
//! `q` multiset-indexed Hadamard products, scaled by `q` constants and
//! summed. A structure is satisfied by an assignment `z = w ‖ [1] ‖ x`
//! when the sum is the zero vector. R1CS is the special case `t = 3`,
//! `q = 2`, `d = 2`.
use crate::field::FiniteField;
use crate::utils::{
    all_wf, all_zero, build_z, hadamard, hadasum, mat_entries_wf, mat_shape_ok, mat_view,
    matrix_entries_reduced, matrix_has_shape, matrix_vector_prod, ones, scale, spec_all_zero,
    spec_hadamard, spec_hadasum, spec_mvp, spec_ones, spec_scale, spec_z, spec_zeros,
    vector_entries_reduced, zeros,
};
use crate::Matrix;
use vstd::prelude::*;

verus! {

/// Error kinds raised by CCS construction and satisfaction checking.
#[derive(Clone, Copy, Debug, PartialEq, Eq, Structural)]
pub enum CCSError {
    /// The modulus does not admit distinct additive and multiplicative
    /// identities.
    InvalidModulus,
    /// A declared dimension does not match a supplied collection, or
    /// `n <= l`.
    DimensionMismatch,
    /// The matrix list does not have length `t`.
    MatrixCountMismatch,
    /// The multiset list does not have length `q`.
    MultisetCountMismatch,
    /// The constant list does not have length `q`.
    ConstantCountMismatch,
    /// A matrix is not an `m x n` rectangle.
    ShapeMismatch,
    /// A multiset has cardinality greater than `d`.
    CardinalityExceeded,
    /// A multiset element falls outside the domain `[0, t-1]`.
    DomainViolation,
    /// An element is unreduced or carries a foreign modulus.
    ModulusMismatch,
}

/// The sequence-of-matrix-views of a list of matrices.
pub open spec fn mats_view(v: Vec<Matrix>) -> Seq<Seq<Seq<FiniteField>>> {
    Seq::new(v@.len(), |i: int| mat_view(v@[i]))
}

/// The sequence-of-sequences view of a list of multisets.
pub open spec fn msets_view(v: Vec<Vec<usize>>) -> Seq<Seq<usize>> {
    Seq::new(v@.len(), |i: int| v@[i]@)
}

/// Every matrix is an `rows x cols` rectangle.
pub open spec fn mats_shape_ok(ms: Seq<Seq<Seq<FiniteField>>>, rows: nat, cols: nat) -> bool {
    forall|i: int| 0 <= i < ms.len() ==> mat_shape_ok(#[trigger] ms[i], rows, cols)
}

/// Every entry of every matrix is reduced modulo `p`.
pub open spec fn mats_entries_wf(ms: Seq<Seq<Seq<FiniteField>>>, p: u64) -> bool {
    forall|i: int| 0 <= i < ms.len() ==> mat_entries_wf(#[trigger] ms[i], p)
}

/// Every multiset has cardinality at most `d`.
pub open spec fn multisets_card_ok(ss: Seq<Seq<usize>>, d: nat) -> bool {
    forall|i: int| 0 <= i < ss.len() ==> (#[trigger] ss[i]).len() <= d
}

/// Every multiset element lies in the domain `[0, t-1]`.
pub open spec fn multisets_domain_ok(ss: Seq<Seq<usize>>, t: nat) -> bool {
    forall|i: int, j: int|
        0 <= i < ss.len() && 0 <= j < ss[i].len() ==> (#[trigger] ss[i][j]) < t
}

/// The Hadamard product over one multiset `s`: the elementwise product
/// of the vectors `M_j . z` for each `j` in `s`, starting from the
/// all-ones vector (a repeated index squares that matrix's contribution).
pub open spec fn spec_term(
    ms: Seq<Seq<Seq<FiniteField>>>,
    s: Seq<usize>,
    z: Seq<FiniteField>,
    rows: nat,
    p: u64,
) -> Seq<FiniteField>
    decreases s.len(),
{
    if s.len() == 0 {
        spec_ones(rows, p)
    } else {
        spec_hadamard(
            spec_term(ms, s.drop_last(), z, rows, p),
            spec_mvp(ms[s.last() as int], z, p),
        )
    }
}

/// The CCS left-hand side: the sum over `i` of
/// `c_i . (Hadamard product over multiset S_i)`.
pub open spec fn spec_ccs_sum(
    ms: Seq<Seq<Seq<FiniteField>>>,
    ss: Seq<Seq<usize>>,
    cs: Seq<FiniteField>,
    z: Seq<FiniteField>,
    rows: nat,
    p: u64,
) -> Seq<FiniteField>
    decreases ss.len(),
{
    if ss.len() == 0 {
        spec_zeros(rows, p)
    } else {
        spec_hadasum(
            spec_ccs_sum(ms, ss.drop_last(), cs, z, rows, p),
            spec_scale(cs[ss.len() - 1], spec_term(ms, ss.last(), z, rows, p)),
        )
    }
}

/// A CCS structure: dimensions, `t` matrices, `q` multisets over
/// `[0, t-1]` of cardinality at most `d`, and `q` constants, all over
/// the field with modulus `p`.
pub struct CCS {
    pub n: usize,
    pub m: usize,
    pub l: usize,
    pub nmax: usize,
    pub t: usize,
    pub q: usize,
    pub d: usize,
    pub p: u64,
    pub matrices: Vec<Matrix>,
    pub multisets: Vec<Vec<usize>>,
    pub constants: Vec<FiniteField>,
}

/// A CCS instance: the public input `x` in `F^l`.
pub struct CCSInstance {
    pub x: Vec<FiniteField>,
}

/// A CCS witness: the private assignment `w` in `F^(n-l-1)`.
pub struct CCSWitness {
    pub w: Vec<FiniteField>,
}

impl CCSInstance {
    pub fn new(x: Vec<FiniteField>) -> (r: CCSInstance)
        ensures
            r.x@ == x@,
    {
        CCSInstance { x }
    }
}

impl CCSWitness {
    pub fn new(w: Vec<FiniteField>) -> (r: CCSWitness)
        ensures
            r.w@ == w@,
    {
        CCSWitness { w }
    }
}

/// All conditions a CCS structure must meet at construction.
pub open spec fn spec_ccs_ok(
    n: usize,
    m: usize,
    l: usize,
    t: usize,
    q: usize,
    d: usize,
    p: u64,
    ms: Seq<Seq<Seq<FiniteField>>>,
    ss: Seq<Seq<usize>>,
    cs: Seq<FiniteField>,
) -> bool {
    &&& p >= 2
    &&& n > l
    &&& ms.len() == t
    &&& ss.len() == q
    &&& cs.len() == q
    &&& mats_shape_ok(ms, m as nat, n as nat)
    &&& multisets_card_ok(ss, d as nat)
    &&& multisets_domain_ok(ss, t as nat)
    &&& mats_entries_wf(ms, p)
    &&& all_wf(cs, p)
}

/// The error reported for arguments that fail construction, by the
/// order in which the checks run.
pub open spec fn spec_ccs_error(
    n: usize,
    m: usize,
    l: usize,
    t: usize,
    q: usize,
    d: usize,
    p: u64,
    ms: Seq<Seq<Seq<FiniteField>>>,
    ss: Seq<Seq<usize>>,
    cs: Seq<FiniteField>,
) -> CCSError {
    if p < 2 {
        CCSError::InvalidModulus
    } else if n <= l {
        CCSError::DimensionMismatch
    } else if ms.len() != t {
        CCSError::MatrixCountMismatch
    } else if ss.len() != q {
        CCSError::MultisetCountMismatch
    } else if cs.len() != q {
        CCSError::ConstantCountMismatch
    } else if !mats_shape_ok(ms, m as nat, n as nat) {
        CCSError::ShapeMismatch
    } else if !multisets_card_ok(ss, d as nat) {
        CCSError::CardinalityExceeded
    } else if !multisets_domain_ok(ss, t as nat) {
        CCSError::DomainViolation
    } else {
        CCSError::ModulusMismatch
    }
}

/// The error reported by a satisfaction query whose instance or witness
/// does not fit the structure.
pub open spec fn spec_ccs_query_error(
    n: usize,
    x: Seq<FiniteField>,
    w: Seq<FiniteField>,
) -> CCSError {
    if w.len() + 1 + x.len() != n {
        CCSError::DimensionMismatch
    } else {
        CCSError::ModulusMismatch
    }
}

impl CCS {
    /// Internal consistency, established by `new` and assumed by
    /// queries, as every held value was built by `new`.
    pub open spec fn wf(self) -> bool {
        spec_ccs_ok(
            self.n,
            self.m,
            self.l,
            self.t,
            self.q,
            self.d,
            self.p,
            mats_view(self.matrices),
            msets_view(self.multisets),
            self.constants@,
        )
    }

    /// The CCS relation: the multiset-indexed sum vanishes on
    /// `z = w ‖ [1] ‖ x`.
    pub open spec fn spec_satisfied(self, x: Seq<FiniteField>, w: Seq<FiniteField>) -> bool {
        spec_all_zero(
            spec_ccs_sum(
                mats_view(self.matrices),
                msets_view(self.multisets),
                self.constants@,
                spec_z(w, x, self.p),
                self.m as nat,
                self.p,
            ),
        )
    }

    /// Validating constructor: every declared dimension, multiset
    /// bound, domain bound and element modulus is checked before the
    /// structure is formed.
    #[verifier::loop_isolation(false)]
    pub fn new(
        n: usize,
        m: usize,
        l: usize,
        nmax: usize,
        t: usize,
        q: usize,
        d: usize,
        p: u64,
        matrices: Vec<Matrix>,
        multisets: Vec<Vec<usize>>,
        constants: Vec<FiniteField>,
    ) -> (r: Result<CCS, CCSError>)
        ensures
            r is Ok <==> spec_ccs_ok(
                n,
                m,
                l,
                t,
                q,
                d,
                p,
                mats_view(matrices),
                msets_view(multisets),
                constants@,
            ),
            r matches Ok(s) ==> s.wf() && s.n == n && s.m == m && s.l == l && s.nmax == nmax
                && s.t == t && s.q == q && s.d == d && s.p == p && mats_view(s.matrices)
                == mats_view(matrices) && msets_view(s.multisets) == msets_view(multisets)
                && s.constants@ == constants@,
            r matches Err(e) ==> e == spec_ccs_error(
                n,
                m,
                l,
                t,
                q,
                d,
                p,
                mats_view(matrices),
                msets_view(multisets),
                constants@,
            ),
    {
        if p < 2 {
            return Err(CCSError::InvalidModulus);
        }
        if n <= l {
            return Err(CCSError::DimensionMismatch);
        }
        if matrices.len() != t {
            return Err(CCSError::MatrixCountMismatch);
        }
        if multisets.len() != q {
            return Err(CCSError::MultisetCountMismatch);
        }
        if constants.len() != q {
            return Err(CCSError::ConstantCountMismatch);
        }
        let mut i: usize = 0;
        while i < matrices.len()
            invariant
                i <= matrices@.len(),
                forall|k: int|
                    0 <= k < i ==> mat_shape_ok(
                        #[trigger] mats_view(matrices)[k],
                        m as nat,
                        n as nat,
                    ),
            decreases matrices@.len() - i,
        {
            let ok = matrix_has_shape(&matrices[i], m, n);
            proof {
                assert(mats_view(matrices)[i as int] == mat_view(matrices@[i as int]));
            }
            if !ok {
                return Err(CCSError::ShapeMismatch);
            }
            i = i + 1;
        }
        let mut i: usize = 0;
        while i < multisets.len()
            invariant
                i <= multisets@.len(),
                forall|k: int| 0 <= k < i ==> (#[trigger] msets_view(multisets)[k]).len() <= d,
            decreases multisets@.len() - i,
        {
            if multisets[i].len() > d {
                proof {
                    assert(msets_view(multisets)[i as int] == multisets@[i as int]@);
                }
                return Err(CCSError::CardinalityExceeded);
            }
            proof {
                assert(msets_view(multisets)[i as int] == multisets@[i as int]@);
            }
            i = i + 1;
        }
        let mut i: usize = 0;
        while i < multisets.len()
            invariant
                i <= multisets@.len(),
                forall|k: int, j: int|
                    0 <= k < i && 0 <= j < msets_view(multisets)[k].len() ==> (#[trigger] msets_view(
                        multisets,
                    )[k][j]) < t,
            decreases multisets@.len() - i,
        {
            let row = &multisets[i];
            let mut j: usize = 0;
            while j < row.len()
                invariant
                    i < multisets@.len(),
                    j <= row@.len(),
                    row@ == multisets@[i as int]@,
                    forall|k: int, jj: int|
                        0 <= k < i && 0 <= jj < msets_view(multisets)[k].len() ==> (
                        #[trigger] msets_view(multisets)[k][jj]) < t,
                    forall|jj: int| 0 <= jj < j ==> (#[trigger] row@[jj]) < t,
                decreases row@.len() - j,
            {
                if row[j] >= t {
                    proof {
                        assert(msets_view(multisets)[i as int][j as int] == row@[j as int]);
                    }
                    return Err(CCSError::DomainViolation);
                }
                j = j + 1;
            }
            proof {
                assert(msets_view(multisets)[i as int] == row@);
            }
            i = i + 1;
        }
        let mut i: usize = 0;
        while i < matrices.len()
            invariant
                i <= matrices@.len(),
                forall|k: int| 0 <= k < i ==> mat_entries_wf(#[trigger] mats_view(matrices)[k], p),
            decreases matrices@.len() - i,
        {
            let ok = matrix_entries_reduced(&matrices[i], p);
            proof {
                assert(mats_view(matrices)[i as int] == mat_view(matrices@[i as int]));
            }
            if !ok {
                return Err(CCSError::ModulusMismatch);
            }
            i = i + 1;
        }
        if !vector_entries_reduced(&constants, p) {
            return Err(CCSError::ModulusMismatch);
        }
        Ok(CCS { n, m, l, nmax, t, q, d, p, matrices, multisets, constants })
    }

    /// Decides the CCS relation for a claimed instance and witness.
    /// Cross-object shapes are validated here; internal consistency is
    /// guaranteed by construction. Pure: the result is a function of
    /// the arguments alone, so repeated calls agree.
    pub fn is_satisfied_by(&self, instance: &CCSInstance, witness: &CCSWitness) -> (r: Result<
        bool,
        CCSError,
    >)
        requires
            self.wf(),
        ensures
            r is Ok <==> (witness.w@.len() + 1 + instance.x@.len() == self.n && all_wf(
                witness.w@,
                self.p,
            ) && all_wf(instance.x@, self.p)),
            r matches Ok(b) ==> b == self.spec_satisfied(instance.x@, witness.w@),
            r matches Err(e) ==> e == spec_ccs_query_error(self.n, instance.x@, witness.w@),
    {
        let p = self.p;
        if witness.w.len() >= self.n || self.n - 1 - witness.w.len() != instance.x.len() {
            return Err(CCSError::DimensionMismatch);
        }
        if !vector_entries_reduced(&witness.w, p) || !vector_entries_reduced(&instance.x, p) {
            return Err(CCSError::ModulusMismatch);
        }
        let z = build_z(&witness.w, &instance.x, p);
        let mut acc = zeros(self.m, p);
        let ghost msv = mats_view(self.matrices);
        let ghost ssv = msets_view(self.multisets);
        let mut i: usize = 0;
        while i < self.q
            invariant
                self.wf(),
                i <= self.q,
                p == self.p,
                z@ == spec_z(witness.w@, instance.x@, p),
                z@.len() == self.n,
                all_wf(z@, p),
                msv == mats_view(self.matrices),
                ssv == msets_view(self.multisets),
                acc@ == spec_ccs_sum(msv, ssv.take(i as int), self.constants@, z@, self.m as nat, p),
                acc@.len() == self.m,
                all_wf(acc@, p),
            decreases self.q - i,
        {
            let s_i = &self.multisets[i];
            let mut term = ones(self.m, p);
            let mut j: usize = 0;
            while j < s_i.len()
                invariant
                    self.wf(),
                    i < self.q,
                    j <= s_i@.len(),
                    p == self.p,
                    s_i@ == self.multisets@[i as int]@,
                    z@.len() == self.n,
                    all_wf(z@, p),
                    msv == mats_view(self.matrices),
                    ssv == msets_view(self.multisets),
                    term@ == spec_term(msv, s_i@.take(j as int), z@, self.m as nat, p),
                    term@.len() == self.m,
                    all_wf(term@, p),
                decreases s_i@.len() - j,
            {
                let idx = s_i[j];
                proof {
                    assert(ssv[i as int][j as int] == s_i@[j as int]);
                    assert(idx < self.t);
                    assert(mats_view(self.matrices)[idx as int] == mat_view(
                        self.matrices@[idx as int],
                    ));
                    assert(mat_shape_ok(msv[idx as int], self.m as nat, self.n as nat));
                }
                let mjz = matrix_vector_prod(&self.matrices[idx], &z, p);
                term = hadamard(&term, &mjz, p);
                proof {
                    assert(s_i@.take(j + 1).drop_last() =~= s_i@.take(j as int));
                    assert(s_i@.take(j + 1).last() == s_i@[j as int]);
                }
                j = j + 1;
            }
            proof {
                assert(s_i@.take(s_i@.len() as int) =~= s_i@);
                assert(ssv[i as int] == s_i@);
            }
            let scaled = scale(self.constants[i], &term, p);
            acc = hadasum(&acc, &scaled, p);
            proof {
                assert(ssv.take(i + 1).drop_last() =~= ssv.take(i as int));
                assert(ssv.take(i + 1).last() == ssv[i as int]);
            }
            i = i + 1;
        }
        proof {
            assert(ssv.take(self.q as int) =~= ssv);
        }
        let sat = all_zero(&acc);
        Ok(sat)
    }
}

} // verus!
