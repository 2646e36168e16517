//! Plonkish arithmetization: a trace of `m` rows over `n` columns plus
//! `e` selector columns, a gate polynomial `g` in `t` variables applied
//! per row through index vectors into the assignment `z = w ‖ x ‖ s`,
//! and copy constraints asserting equality between addressed cells.
use crate::ccs::{
    mats_entries_wf, mats_shape_ok, mats_view, msets_view, multisets_card_ok,
    multisets_domain_ok, CCS,
};
use crate::field::FiniteField;
use crate::poly::{poly_degree_ok, spec_deg, spec_eval_poly, GatePolynomial};
use crate::utils::{
    all_wf, append_all, clone_usizes, clone_vector, mat_entries_wf, mat_shape_ok, mat_view,
    vector_entries_reduced, zeros,
};
use crate::Matrix;
use core::cmp::Ordering;
use vstd::pervasive::unreached;
use vstd::prelude::*;

verus! {

/// Error kinds raised by Plonkish construction and satisfaction checking.
#[derive(Clone, Copy, Debug, PartialEq, Eq, Structural)]
pub enum PlonkishError {
    /// The modulus does not admit distinct additive and multiplicative
    /// identities.
    InvalidModulus,
    /// A declared dimension does not match a supplied collection, or
    /// `l > n`.
    DimensionMismatch,
    /// A monomial of `g` has total degree above `d`.
    DegreeExceeded,
    /// A gate index or copy-constraint endpoint falls outside its
    /// declared range.
    DomainViolation,
    /// An element is unreduced or carries a foreign modulus.
    ModulusMismatch,
}

/// A trace position: column `x`, row `y`.
#[derive(Clone, Copy, Debug, PartialEq, Eq, Hash, Structural)]
pub struct Point {
    pub x: usize,
    pub y: usize,
}

/// The total order on points used to canonicalize copy constraints:
/// by column first, then by row.
pub open spec fn spec_point_le(a: Point, b: Point) -> bool {
    a.x < b.x || (a.x == b.x && a.y <= b.y)
}

impl PartialOrd for Point {
    fn partial_cmp(&self, other: &Point) -> (r: Option<Ordering>) {
        if self.x < other.x {
            Some(Ordering::Less)
        } else if self.x > other.x {
            Some(Ordering::Greater)
        } else if self.y < other.y {
            Some(Ordering::Less)
        } else if self.y > other.y {
            Some(Ordering::Greater)
        } else {
            Some(Ordering::Equal)
        }
    }
}

impl vstd::std_specs::cmp::PartialOrdSpecImpl for Point {
    open spec fn obeys_partial_cmp_spec() -> bool {
        true
    }

    open spec fn partial_cmp_spec(&self, other: &Point) -> Option<Ordering> {
        if self.x < other.x {
            Some(Ordering::Less)
        } else if self.x > other.x {
            Some(Ordering::Greater)
        } else if self.y < other.y {
            Some(Ordering::Less)
        } else if self.y > other.y {
            Some(Ordering::Greater)
        } else {
            Some(Ordering::Equal)
        }
    }
}

/// A validated gate constraint: a length-`t` vector of indices into the
/// assignment `z = w ‖ x ‖ s`, each below `n + e`.
#[derive(Clone, Debug)]
pub struct PlonkishGateConstraint {
    pub points: Vec<usize>,
}

/// A validated copy constraint: an unordered pair of trace positions,
/// stored canonicalized with the smaller point first.
#[derive(Clone, Copy, Debug, Hash)]
pub struct PlonkishCopyConstraint {
    pub points: (Point, Point),
}

impl PartialEq for PlonkishCopyConstraint {
    fn eq(&self, other: &PlonkishCopyConstraint) -> (r: bool) {
        self.points.0.x == other.points.0.x && self.points.0.y == other.points.0.y
            && self.points.1.x == other.points.1.x && self.points.1.y == other.points.1.y
    }
}

impl vstd::std_specs::cmp::PartialEqSpecImpl for PlonkishCopyConstraint {
    open spec fn obeys_eq_spec() -> bool {
        true
    }

    open spec fn eq_spec(&self, other: &PlonkishCopyConstraint) -> bool {
        self.points == other.points
    }
}

impl Eq for PlonkishCopyConstraint {

}

/// A Plonkish instance: the public input `x` in `F^l`.
#[derive(Clone, Debug)]
pub struct PlonkishInstance {
    pub x: Vec<FiniteField>,
}

/// A Plonkish witness: the private assignment `w` in `F^(n-l)`.
#[derive(Clone, Debug)]
pub struct PlonkishWitness {
    pub w: Vec<FiniteField>,
}

/// The canonical form of an unordered pair: the smaller point first,
/// under the column-then-row order.
pub open spec fn spec_canon_pair(pair: (Point, Point)) -> PlonkishCopyConstraint {
    if spec_point_le(pair.0, pair.1) {
        PlonkishCopyConstraint { points: (pair.0, pair.1) }
    } else {
        PlonkishCopyConstraint { points: (pair.1, pair.0) }
    }
}

/// The point addresses a cell of an `rows x cols` trace.
pub open spec fn point_in_range(pt: Point, rows: nat, cols: nat) -> bool {
    pt.x < cols && pt.y < rows
}

/// Every pair addresses cells of an `rows x cols` trace.
pub open spec fn copy_pairs_ok(pairs: Seq<(Point, Point)>, rows: nat, cols: nat) -> bool {
    forall|k: int|
        0 <= k < pairs.len() ==> point_in_range((#[trigger] pairs[k]).0, rows, cols)
            && point_in_range(pairs[k].1, rows, cols)
}

/// Every stored constraint addresses the trace and is canonicalized.
pub open spec fn copy_canonical(ccs: Seq<PlonkishCopyConstraint>, rows: nat, cols: nat) -> bool {
    forall|k: int|
        0 <= k < ccs.len() ==> point_in_range((#[trigger] ccs[k]).points.0, rows, cols)
            && point_in_range(ccs[k].points.1, rows, cols) && spec_point_le(
            ccs[k].points.0,
            ccs[k].points.1,
        )
}

/// No constraint is stored twice.
pub open spec fn copy_nodup(ccs: Seq<PlonkishCopyConstraint>) -> bool {
    forall|k1: int, k2: int| 0 <= k1 < k2 < ccs.len() ==> ccs[k1] != ccs[k2]
}

/// `cc` is the canonical form of some input pair.
pub open spec fn from_inputs(cc: PlonkishCopyConstraint, inputs: Seq<(Point, Point)>) -> bool {
    exists|i: int| 0 <= i < inputs.len() && cc == spec_canon_pair(#[trigger] inputs[i])
}

/// The canonical form of every input pair is stored.
pub open spec fn stored_has(stored: Seq<PlonkishCopyConstraint>, cc: PlonkishCopyConstraint) -> bool {
    exists|k: int| 0 <= k < stored.len() && #[trigger] stored[k] == cc
}

/// The endpoint pairs of the stored copy constraints.
pub open spec fn pairs_view(v: Vec<PlonkishCopyConstraint>) -> Seq<(Point, Point)> {
    Seq::new(v@.len(), |k: int| v@[k].points)
}

/// The views of the raw gate-constraint rows.
pub open spec fn rows_view(v: Vec<Vec<usize>>) -> Seq<Seq<usize>> {
    Seq::new(v@.len(), |i: int| v@[i]@)
}

/// The index vectors of the validated gate constraints.
pub open spec fn gates_view(v: Vec<PlonkishGateConstraint>) -> Seq<Seq<usize>> {
    Seq::new(v@.len(), |i: int| v@[i].points@)
}

/// Every row has exactly `t` entries.
pub open spec fn rows_arity_ok(rows: Seq<Seq<usize>>, t: nat) -> bool {
    forall|i: int| 0 <= i < rows.len() ==> (#[trigger] rows[i]).len() == t
}

/// Every monomial has exactly `t` exponents.
pub open spec fn poly_arity_ok(g: GatePolynomial, t: nat) -> bool {
    forall|i: int| 0 <= i < g.monomials@.len() ==> (#[trigger] g.monomials@[i]).exponents@.len()
        == t
}

/// Every coefficient is reduced modulo `p`.
pub open spec fn poly_coeffs_wf(g: GatePolynomial, p: u64) -> bool {
    forall|i: int|
        0 <= i < g.monomials@.len() ==> (#[trigger] g.monomials@[i]).coeff.wf()
            && g.monomials@[i].coeff.p == p
}

/// The dimension conditions of a Plonkish structure.
pub open spec fn spec_plonkish_dims_ok(
    m: usize,
    n: usize,
    l: usize,
    e: usize,
    t: usize,
    q: usize,
    g: GatePolynomial,
    selectors: Seq<FiniteField>,
    gates: Seq<Seq<usize>>,
) -> bool {
    &&& l <= n
    &&& g.monomials@.len() == q
    &&& poly_arity_ok(g, t as nat)
    &&& selectors.len() == e
    &&& gates.len() == m
    &&& rows_arity_ok(gates, t as nat)
}

/// All conditions a Plonkish structure must meet at construction.
pub open spec fn spec_plonkish_ok(
    m: usize,
    n: usize,
    l: usize,
    e: usize,
    t: usize,
    q: usize,
    d: usize,
    p: u64,
    g: GatePolynomial,
    selectors: Seq<FiniteField>,
    gates: Seq<Seq<usize>>,
    copies: Seq<(Point, Point)>,
) -> bool {
    &&& p >= 2
    &&& spec_plonkish_dims_ok(m, n, l, e, t, q, g, selectors, gates)
    &&& poly_degree_ok(g, d as nat)
    &&& multisets_domain_ok(gates, (n + e) as nat)
    &&& copy_pairs_ok(copies, m as nat, n as nat)
    &&& all_wf(selectors, p)
    &&& poly_coeffs_wf(g, p)
}

/// The error reported for arguments that fail construction, by the
/// order in which the checks run.
pub open spec fn spec_plonkish_error(
    m: usize,
    n: usize,
    l: usize,
    e: usize,
    t: usize,
    q: usize,
    d: usize,
    p: u64,
    g: GatePolynomial,
    selectors: Seq<FiniteField>,
    gates: Seq<Seq<usize>>,
    copies: Seq<(Point, Point)>,
) -> PlonkishError {
    if p < 2 {
        PlonkishError::InvalidModulus
    } else if !spec_plonkish_dims_ok(m, n, l, e, t, q, g, selectors, gates) {
        PlonkishError::DimensionMismatch
    } else if !poly_degree_ok(g, d as nat) {
        PlonkishError::DegreeExceeded
    } else if !(multisets_domain_ok(gates, (n + e) as nat) && copy_pairs_ok(
        copies,
        m as nat,
        n as nat,
    )) {
        PlonkishError::DomainViolation
    } else {
        PlonkishError::ModulusMismatch
    }
}

/// The error reported by a satisfaction query whose instance or witness
/// does not fit the structure.
pub open spec fn spec_plonkish_query_error(
    n: usize,
    l: usize,
    x: Seq<FiniteField>,
    w: Seq<FiniteField>,
) -> PlonkishError {
    if w.len() != n - l || x.len() != l {
        PlonkishError::DimensionMismatch
    } else {
        PlonkishError::ModulusMismatch
    }
}

/// The `t` cells of `z` addressed by one gate constraint.
pub open spec fn spec_gate_point(z: Seq<FiniteField>, points: Seq<usize>) -> Seq<FiniteField> {
    Seq::new(points.len(), |j: int| z[points[j] as int])
}

/// A Plonkish structure: trace dimensions, a gate polynomial `g` in `t`
/// variables that is a sum of `q` monomials of degree at most `d`,
/// selector constants, per-row gate constraints, and copy constraints.
pub struct PlonkishStructure {
    pub m: usize,
    pub n: usize,
    pub l: usize,
    pub e: usize,
    pub t: usize,
    pub q: usize,
    pub d: usize,
    pub p: u64,
    pub g: GatePolynomial,
    pub selectors: Vec<FiniteField>,
    pub gate_constraints: Vec<PlonkishGateConstraint>,
    pub copy_constraints: Vec<PlonkishCopyConstraint>,
}

impl PlonkishStructure {
    /// Internal consistency, established by `new` and assumed by
    /// queries, as every held value was built by `new`. The machine
    /// bounds keep the derived CCS dimensions within `usize`.
    pub open spec fn wf(self) -> bool {
        &&& spec_plonkish_ok(
            self.m,
            self.n,
            self.l,
            self.e,
            self.t,
            self.q,
            self.d,
            self.p,
            self.g,
            self.selectors@,
            gates_view(self.gate_constraints),
            pairs_view(self.copy_constraints),
        )
        &&& copy_canonical(self.copy_constraints@, self.m as nat, self.n as nat)
        &&& copy_nodup(self.copy_constraints@)
        &&& self.n + self.e < usize::MAX
        &&& self.m + self.copy_constraints@.len() <= usize::MAX
        &&& self.t <= usize::MAX - 2
        &&& self.q <= usize::MAX - 1
        &&& self.d <= usize::MAX - 1
    }

    /// The Plonkish relation over `z = w ‖ x ‖ s`: every row's gate
    /// polynomial evaluates to zero at its addressed cells, and every
    /// copy constraint's two addressed cells hold equal values.
    pub open spec fn spec_satisfied(self, x: Seq<FiniteField>, w: Seq<FiniteField>) -> bool {
        let z = w + x + self.selectors@;
        &&& forall|i: int|
            0 <= i < self.gate_constraints@.len() ==> spec_eval_poly(
                self.g.monomials@,
                spec_gate_point(z, (#[trigger] self.gate_constraints@[i]).points@),
                self.p,
            ).value == 0
        &&& forall|k: int|
            0 <= k < self.copy_constraints@.len() ==> z[(
            #[trigger] self.copy_constraints@[k]).points.0.x as int] == z[self.copy_constraints@[
                k
            ].points.1.x as int]
    }

    /// Validates one raw gate constraint: exactly `t` entries, each at
    /// most `point_max`.
    pub fn new_gate_constraint(t_i: Vec<usize>, t: usize, point_max: usize) -> (r: Result<
        PlonkishGateConstraint,
        PlonkishError,
    >)
        ensures
            r is Ok <==> (t_i@.len() == t && forall|j: int|
                0 <= j < t_i@.len() ==> #[trigger] t_i@[j] <= point_max),
            r matches Ok(gc) ==> gc.points@ == t_i@,
            r matches Err(e) ==> e == (if t_i@.len() != t {
                PlonkishError::DimensionMismatch
            } else {
                PlonkishError::DomainViolation
            }),
    {
        if t_i.len() != t {
            return Err(PlonkishError::DimensionMismatch);
        }
        let mut j: usize = 0;
        while j < t_i.len()
            invariant
                j <= t_i@.len(),
                t_i@.len() == t,
                forall|k: int| 0 <= k < j ==> #[trigger] t_i@[k] <= point_max,
            decreases t_i@.len() - j,
        {
            if t_i[j] > point_max {
                return Err(PlonkishError::DomainViolation);
            }
            j = j + 1;
        }
        Ok(PlonkishGateConstraint { points: t_i })
    }

    /// Validates one raw copy constraint against the trace bounds and
    /// canonicalizes it: the smaller point first, under the
    /// column-then-row order.
    pub fn new_copy_constraint(copy_constraint: (Point, Point), rows: usize, columns: usize) -> (r:
        Result<PlonkishCopyConstraint, PlonkishError>)
        ensures
            r is Ok <==> (point_in_range(copy_constraint.0, rows as nat, columns as nat)
                && point_in_range(copy_constraint.1, rows as nat, columns as nat)),
            r matches Ok(cc) ==> cc == spec_canon_pair(copy_constraint),
            r matches Err(e) ==> e == PlonkishError::DomainViolation,
    {
        let (p0, p1) = copy_constraint;
        if p0.x >= columns || p1.x >= columns || p0.y >= rows || p1.y >= rows {
            return Err(PlonkishError::DomainViolation);
        }
        if p0.x > p1.x || (p0.x == p1.x && p0.y > p1.y) {
            Ok(PlonkishCopyConstraint { points: (p1, p0) })
        } else {
            Ok(PlonkishCopyConstraint { points: (p0, p1) })
        }
    }

    /// Wraps a public input of exactly `l` elements.
    pub fn new_instance(x: Vec<FiniteField>, n: usize, l: usize) -> (r: Result<
        PlonkishInstance,
        PlonkishError,
    >)
        ensures
            r is Ok <==> x@.len() == l,
            r matches Ok(inst) ==> inst.x@ == x@,
            r matches Err(e) ==> e == PlonkishError::DimensionMismatch,
    {
        let _ = n;
        if x.len() != l {
            return Err(PlonkishError::DimensionMismatch);
        }
        Ok(PlonkishInstance { x })
    }

    /// Wraps a private assignment of exactly `n - l` elements.
    pub fn new_witness(w: Vec<FiniteField>, n: usize, l: usize) -> (r: Result<
        PlonkishWitness,
        PlonkishError,
    >)
        ensures
            r is Ok <==> (l <= n && w@.len() == n - l),
            r matches Ok(wit) ==> wit.w@ == w@,
            r matches Err(e) ==> e == PlonkishError::DimensionMismatch,
    {
        if l > n || w.len() != n - l {
            return Err(PlonkishError::DimensionMismatch);
        }
        Ok(PlonkishWitness { w })
    }

    /// Validating constructor: checks the modulus, every declared
    /// dimension, `g`'s arity and degree, every gate index and copy
    /// endpoint, and every element's modulus; then wraps each gate
    /// constraint and canonicalizes and deduplicates the copy
    /// constraints.
    #[verifier::loop_isolation(false)]
    pub fn new(
        m: usize,
        n: usize,
        l: usize,
        e: usize,
        t: usize,
        q: usize,
        d: usize,
        p: u64,
        g: GatePolynomial,
        selectors: Vec<FiniteField>,
        gate_constraints: Vec<Vec<usize>>,
        copy_constraints: Vec<(Point, Point)>,
    ) -> (r: Result<PlonkishStructure, PlonkishError>)
        requires
            n + e < usize::MAX,
            m + copy_constraints@.len() <= usize::MAX,
            t <= usize::MAX - 2,
            q <= usize::MAX - 1,
            d <= usize::MAX - 1,
        ensures
            r is Ok <==> spec_plonkish_ok(
                m,
                n,
                l,
                e,
                t,
                q,
                d,
                p,
                g,
                selectors@,
                rows_view(gate_constraints),
                copy_constraints@,
            ),
            r matches Err(err) ==> err == spec_plonkish_error(
                m,
                n,
                l,
                e,
                t,
                q,
                d,
                p,
                g,
                selectors@,
                rows_view(gate_constraints),
                copy_constraints@,
            ),
            r matches Ok(s) ==> s.wf() && s.m == m && s.n == n && s.l == l && s.e == e && s.t == t
                && s.q == q && s.d == d && s.p == p && s.g == g && s.selectors@ == selectors@
                && gates_view(s.gate_constraints) == rows_view(gate_constraints) && (forall|kk: int|
                0 <= kk < s.copy_constraints@.len() ==> from_inputs(
                    #[trigger] s.copy_constraints@[kk],
                    copy_constraints@,
                )) && (forall|i: int|
                0 <= i < copy_constraints@.len() ==> stored_has(
                    s.copy_constraints@,
                    spec_canon_pair(#[trigger] copy_constraints@[i]),
                )),
    {
        if p < 2 {
            return Err(PlonkishError::InvalidModulus);
        }
        if l > n || g.monomials.len() != q || selectors.len() != e || gate_constraints.len() != m {
            return Err(PlonkishError::DimensionMismatch);
        }
        let mut i: usize = 0;
        while i < g.monomials.len()
            invariant
                i <= g.monomials@.len(),
                forall|k: int|
                    0 <= k < i ==> (#[trigger] g.monomials@[k]).exponents@.len() == t,
            decreases g.monomials@.len() - i,
        {
            if g.monomials[i].exponents.len() != t {
                return Err(PlonkishError::DimensionMismatch);
            }
            i = i + 1;
        }
        let mut i: usize = 0;
        while i < gate_constraints.len()
            invariant
                i <= gate_constraints@.len(),
                forall|k: int|
                    0 <= k < i ==> (#[trigger] rows_view(gate_constraints)[k]).len() == t,
            decreases gate_constraints@.len() - i,
        {
            proof {
                assert(rows_view(gate_constraints)[i as int] == gate_constraints@[i as int]@);
            }
            if gate_constraints[i].len() != t {
                return Err(PlonkishError::DimensionMismatch);
            }
            i = i + 1;
        }
        let mut i: usize = 0;
        while i < g.monomials.len()
            invariant
                i <= g.monomials@.len(),
                forall|k: int|
                    0 <= k < i ==> spec_deg((#[trigger] g.monomials@[k]).exponents@) <= d,
            decreases g.monomials@.len() - i,
        {
            let ok = crate::poly::monomial_degree_at_most(&g.monomials[i].exponents, d);
            if !ok {
                return Err(PlonkishError::DegreeExceeded);
            }
            i = i + 1;
        }
        let bound = n + e;
        let mut i: usize = 0;
        while i < gate_constraints.len()
            invariant
                i <= gate_constraints@.len(),
                forall|k: int, j: int|
                    0 <= k < i && 0 <= j < rows_view(gate_constraints)[k].len() ==> (
                    #[trigger] rows_view(gate_constraints)[k][j]) < bound,
            decreases gate_constraints@.len() - i,
        {
            let row = &gate_constraints[i];
            let mut j: usize = 0;
            while j < row.len()
                invariant
                    i < gate_constraints@.len(),
                    j <= row@.len(),
                    row@ == gate_constraints@[i as int]@,
                    forall|jj: int| 0 <= jj < j ==> (#[trigger] row@[jj]) < bound,
                decreases row@.len() - j,
            {
                if row[j] >= bound {
                    proof {
                        assert(rows_view(gate_constraints)[i as int][j as int] == row@[j as int]);
                    }
                    return Err(PlonkishError::DomainViolation);
                }
                j = j + 1;
            }
            proof {
                assert(rows_view(gate_constraints)[i as int] == row@);
            }
            i = i + 1;
        }
        let mut i: usize = 0;
        while i < copy_constraints.len()
            invariant
                i <= copy_constraints@.len(),
                forall|k: int|
                    0 <= k < i ==> point_in_range(
                        (#[trigger] copy_constraints@[k]).0,
                        m as nat,
                        n as nat,
                    ) && point_in_range(copy_constraints@[k].1, m as nat, n as nat),
            decreases copy_constraints@.len() - i,
        {
            let pair = &copy_constraints[i];
            if pair.0.x >= n || pair.1.x >= n || pair.0.y >= m || pair.1.y >= m {
                return Err(PlonkishError::DomainViolation);
            }
            i = i + 1;
        }
        if !vector_entries_reduced(&selectors, p) {
            return Err(PlonkishError::ModulusMismatch);
        }
        let mut i: usize = 0;
        while i < g.monomials.len()
            invariant
                i <= g.monomials@.len(),
                forall|k: int|
                    0 <= k < i ==> (#[trigger] g.monomials@[k]).coeff.wf() && g.monomials@[
                        k
                    ].coeff.p == p,
            decreases g.monomials@.len() - i,
        {
            let cf = g.monomials[i].coeff;
            if cf.p != p || cf.value >= cf.p {
                return Err(PlonkishError::ModulusMismatch);
            }
            i = i + 1;
        }
        // wrap the validated gate constraints
        let mut gcs: Vec<PlonkishGateConstraint> = Vec::new();
        let mut i: usize = 0;
        while i < gate_constraints.len()
            invariant
                i <= gate_constraints@.len(),
                gcs@.len() == i,
                forall|k: int|
                    0 <= k < i ==> (#[trigger] gcs@[k]).points@ == gate_constraints@[k]@,
            decreases gate_constraints@.len() - i,
        {
            let pts = clone_usizes(&gate_constraints[i]);
            gcs.push(PlonkishGateConstraint { points: pts });
            i = i + 1;
        }
        // canonicalize and deduplicate the copy constraints
        let mut stored: Vec<PlonkishCopyConstraint> = Vec::new();
        let mut i: usize = 0;
        while i < copy_constraints.len()
            invariant
                i <= copy_constraints@.len(),
                stored@.len() <= i,
                copy_canonical(stored@, m as nat, n as nat),
                copy_nodup(stored@),
                forall|kk: int|
                    0 <= kk < stored@.len() ==> from_inputs(
                        #[trigger] stored@[kk],
                        copy_constraints@,
                    ),
                forall|ii: int|
                    0 <= ii < i ==> stored_has(
                        stored@,
                        spec_canon_pair(#[trigger] copy_constraints@[ii]),
                    ),
            decreases copy_constraints@.len() - i,
        {
            let pair = copy_constraints[i];
            let (p0, p1) = pair;
            let cc = if p0.x > p1.x || (p0.x == p1.x && p0.y > p1.y) {
                PlonkishCopyConstraint { points: (p1, p0) }
            } else {
                PlonkishCopyConstraint { points: (p0, p1) }
            };
            proof {
                assert(cc == spec_canon_pair(copy_constraints@[i as int]));
            }
            let mut found = false;
            let mut k: usize = 0;
            while k < stored.len()
                invariant
                    k <= stored@.len(),
                    found ==> stored_has(stored@, cc),
                    !found ==> forall|kk: int| 0 <= kk < k ==> #[trigger] stored@[kk] != cc,
                decreases stored@.len() - k,
            {
                if stored[k] == cc {
                    found = true;
                }
                k = k + 1;
            }
            if !found {
                let ghost old_stored = stored@;
                stored.push(cc);
                proof {
                    assert(stored@[old_stored.len() as int] == cc);
                    assert forall|kk: int|
                        0 <= kk < stored@.len() implies from_inputs(
                        #[trigger] stored@[kk],
                        copy_constraints@,
                    ) by {
                        if kk < old_stored.len() {
                            assert(stored@[kk] == old_stored[kk]);
                        } else {
                            assert(stored@[kk] == spec_canon_pair(copy_constraints@[i as int]));
                        }
                    }
                    assert forall|ii: int|
                        0 <= ii <= i implies stored_has(
                        stored@,
                        spec_canon_pair(#[trigger] copy_constraints@[ii]),
                    ) by {
                        if ii < i {
                            let witness = choose|k0: int|
                                0 <= k0 < old_stored.len() && #[trigger] old_stored[k0]
                                    == spec_canon_pair(copy_constraints@[ii]);
                            assert(stored@[witness] == spec_canon_pair(copy_constraints@[ii]));
                        } else {
                            assert(stored@[old_stored.len() as int] == spec_canon_pair(
                                copy_constraints@[ii],
                            ));
                        }
                    }
                }
            } else {
                proof {
                    assert forall|ii: int|
                        0 <= ii <= i implies stored_has(
                        stored@,
                        spec_canon_pair(#[trigger] copy_constraints@[ii]),
                    ) by {}
                }
            }
            i = i + 1;
        }
        proof {
            assert(gates_view(gcs) =~= rows_view(gate_constraints));
            assert forall|k: int| 0 <= k < pairs_view(stored).len() implies point_in_range(
                (#[trigger] pairs_view(stored)[k]).0,
                m as nat,
                n as nat,
            ) && point_in_range(pairs_view(stored)[k].1, m as nat, n as nat) by {
                assert(pairs_view(stored)[k] == stored@[k].points);
            }
        }
        Ok(
            PlonkishStructure {
                m,
                n,
                l,
                e,
                t,
                q,
                d,
                p,
                g,
                selectors,
                gate_constraints: gcs,
                copy_constraints: stored,
            },
        )
    }

    /// Decides the Plonkish relation for a claimed instance and witness:
    /// assembles `z = w ‖ x ‖ s`, evaluates `g` at every
    /// row's addressed cells, and checks every copy constraint.
    /// Cross-object shapes are validated here; internal consistency is
    /// guaranteed by construction. Pure: the result is a function of the
    /// arguments alone, so repeated calls agree.
    #[verifier::loop_isolation(false)]
    pub fn is_satisfied_by(&self, x: &PlonkishInstance, w: &PlonkishWitness) -> (r: Result<
        bool,
        PlonkishError,
    >)
        requires
            self.wf(),
        ensures
            r is Ok <==> (w.w@.len() == self.n - self.l && x.x@.len() == self.l && all_wf(
                w.w@,
                self.p,
            ) && all_wf(x.x@, self.p)),
            r matches Ok(b) ==> b == self.spec_satisfied(x.x@, w.w@),
            r matches Err(e) ==> e == spec_plonkish_query_error(self.n, self.l, x.x@, w.w@),
    {
        let p = self.p;
        if w.w.len() != self.n - self.l || x.x.len() != self.l {
            return Err(PlonkishError::DimensionMismatch);
        }
        if !vector_entries_reduced(&w.w, p) || !vector_entries_reduced(&x.x, p) {
            return Err(PlonkishError::ModulusMismatch);
        }
        let mut z = clone_vector(&w.w);
        append_all(&mut z, &x.x);
        append_all(&mut z, &self.selectors);
        proof {
            assert(z@ == w.w@ + x.x@ + self.selectors@);
            assert(z@.len() == self.n + self.e);
            assert(all_wf(z@, p));
        }
        let mut i: usize = 0;
        while i < self.gate_constraints.len()
            invariant
                i <= self.gate_constraints@.len(),
                forall|k: int|
                    0 <= k < i ==> spec_eval_poly(
                        self.g.monomials@,
                        spec_gate_point(z@, (#[trigger] self.gate_constraints@[k]).points@),
                        p,
                    ).value == 0,
            decreases self.gate_constraints@.len() - i,
        {
            let gc = &self.gate_constraints[i];
            let mut pts: Vec<FiniteField> = Vec::new();
            let mut j: usize = 0;
            while j < gc.points.len()
                invariant
                    i < self.gate_constraints@.len(),
                    gc == self.gate_constraints@[i as int],
                    j <= gc.points@.len(),
                    pts@.len() == j,
                    forall|jj: int| 0 <= jj < j ==> pts@[jj] == z@[gc.points@[jj] as int],
                decreases gc.points@.len() - j,
            {
                proof {
                    assert(gates_view(self.gate_constraints)[i as int] == gc.points@);
                    assert(gc.points@[j as int] < self.n + self.e);
                }
                let idx = gc.points[j];
                pts.push(z[idx]);
                j = j + 1;
            }
            proof {
                assert(pts@ =~= spec_gate_point(z@, gc.points@));
                assert(gates_view(self.gate_constraints)[i as int] == gc.points@);
                assert(pts@.len() == self.t);
            }
            let val = self.g.evaluate(&pts, p);
            if val.value != 0 {
                return Ok(false);
            }
            i = i + 1;
        }
        let mut k: usize = 0;
        while k < self.copy_constraints.len()
            invariant
                k <= self.copy_constraints@.len(),
                forall|kk: int|
                    0 <= kk < k ==> z@[(#[trigger] self.copy_constraints@[kk]).points.0.x as int]
                        == z@[self.copy_constraints@[kk].points.1.x as int],
            decreases self.copy_constraints@.len() - k,
        {
            let cc = &self.copy_constraints[k];
            let v0 = z[cc.points.0.x];
            let v1 = z[cc.points.1.x];
            if v0.value != v1.value {
                return Ok(false);
            }
            proof {
                assert(v0.p == p && v1.p == p);
            }
            k = k + 1;
        }
        Ok(true)
    }
}

/// Maps an index into `z = w ‖ x ‖ s` to the corresponding column of
/// the CCS assignment `z' = w ‖ [1] ‖ x ‖ s`, which inserts the
/// constant-one column at position `n - l`.
pub open spec fn spec_shift(k: int, n: int, l: int) -> int {
    if k < n - l {
        k
    } else {
        k + 1
    }
}

/// Entry `(row, col)` of the `j`-th CCS matrix derived from a Plonkish
/// structure. Matrices `0..t` select the cells that gate constraints
/// address; matrix `t` carries one `z'[a] - z'[b]` row per copy
/// constraint; matrix `t+1` marks the constant-one column on gate rows,
/// so that every monomial contributes on gate rows only.
pub open spec fn spec_ccs_entry(s: PlonkishStructure, j: int, row: int, col: int) -> FiniteField {
    let p = s.p;
    if j < s.t {
        if row < s.m && col == spec_shift(
            gates_view(s.gate_constraints)[row][j] as int,
            s.n as int,
            s.l as int,
        ) {
            FiniteField::spec_one(p)
        } else {
            FiniteField::spec_zero(p)
        }
    } else if j == s.t {
        if row >= s.m {
            let cc = s.copy_constraints@[row - s.m];
            let a = spec_shift(cc.points.0.x as int, s.n as int, s.l as int);
            let b = spec_shift(cc.points.1.x as int, s.n as int, s.l as int);
            if a == b {
                FiniteField::spec_zero(p)
            } else if col == a {
                FiniteField::spec_one(p)
            } else if col == b {
                FiniteField::spec_neg_one(p)
            } else {
                FiniteField::spec_zero(p)
            }
        } else {
            FiniteField::spec_zero(p)
        }
    } else {
        if row < s.m && col == s.n - s.l {
            FiniteField::spec_one(p)
        } else {
            FiniteField::spec_zero(p)
        }
    }
}

/// The `j`-th CCS matrix derived from a Plonkish structure: `m` gate
/// rows followed by one row per copy constraint, over `n + e + 1`
/// columns.
pub open spec fn spec_ccs_matrix(s: PlonkishStructure, j: int) -> Seq<Seq<FiniteField>> {
    Seq::new(
        (s.m + s.copy_constraints@.len()) as nat,
        |row: int| Seq::new((s.n + s.e + 1) as nat, |col: int| spec_ccs_entry(s, j, row, col)),
    )
}

/// `count` copies of the index `j`.
pub open spec fn spec_repeat(j: usize, count: nat) -> Seq<usize> {
    Seq::new(count, |i: int| j)
}

/// The variable indices of a monomial, each repeated by its exponent:
/// the CCS multiset expressing that monomial's Hadamard product.
pub open spec fn spec_expo_indices(exps: Seq<usize>) -> Seq<usize>
    decreases exps.len(),
{
    if exps.len() == 0 {
        Seq::empty()
    } else {
        spec_expo_indices(exps.drop_last()) + spec_repeat(
            (exps.len() - 1) as usize,
            exps.last() as nat,
        )
    }
}

/// The multiset of a monomial has exactly its total degree many
/// elements.
pub proof fn lemma_expo_indices_len(exps: Seq<usize>)
    ensures
        spec_expo_indices(exps).len() == spec_deg(exps),
    decreases exps.len(),
{
    if exps.len() > 0 {
        lemma_expo_indices_len(exps.drop_last());
    }
}

/// Every element of a monomial's multiset is a variable index below the
/// arity.
pub proof fn lemma_expo_indices_domain(exps: Seq<usize>)
    ensures
        forall|i: int|
            0 <= i < spec_expo_indices(exps).len() ==> (#[trigger] spec_expo_indices(exps)[i])
                < exps.len(),
    decreases exps.len(),
{
    if exps.len() > 0 {
        lemma_expo_indices_domain(exps.drop_last());
        assert forall|i: int|
            0 <= i < spec_expo_indices(exps).len() implies (#[trigger] spec_expo_indices(exps)[i])
            < exps.len() by {
            let prefix = spec_expo_indices(exps.drop_last());
            if i < prefix.len() {
                assert(spec_expo_indices(exps)[i] == prefix[i]);
            }
        }
    }
}

/// The multisets of the derived CCS: one per monomial — its variable
/// indices, each repeated by its exponent, plus the row-indicator
/// index `t+1` — and one final singleton `{t}` selecting the
/// copy-difference matrix.
pub open spec fn spec_plonkish_multisets(s: PlonkishStructure) -> Seq<Seq<usize>> {
    Seq::new(
        (s.q + 1) as nat,
        |i: int|
            if i < s.q {
                spec_expo_indices(s.g.monomials@[i].exponents@) + seq![(s.t + 1) as usize]
            } else {
                seq![s.t as usize]
            },
    )
}

/// The constants of the derived CCS: each monomial's coefficient, then
/// one for the copy-difference rows.
pub open spec fn spec_plonkish_constants(s: PlonkishStructure) -> Seq<FiniteField> {
    Seq::new(
        (s.q + 1) as nat,
        |i: int|
            if i < s.q {
                s.g.monomials@[i].coeff
            } else {
                FiniteField::spec_one(s.p)
            },
    )
}

impl PlonkishStructure {
    /// Converts to an equivalent CCS structure. The assignment becomes
    /// `z' = w ‖ [1] ‖ x ‖ s` over `n + e + 1` columns, `l + e` of them
    /// public: matrices `0..t` select the addressed cells, each
    /// monomial of `g` becomes one multiset with its coefficient as the
    /// constant, and each copy constraint becomes one extra row of
    /// matrix `t` enforcing `z'[a] - z'[b] = 0`, selected by the final
    /// singleton multiset with constant one. A Plonkish structure does
    /// not track the nonzero-entry bound, so it is recorded as zero; the
    /// bound is informational.
    #[verifier::loop_isolation(false)]
    pub fn to_ccs(&self) -> (r: Result<CCS, PlonkishError>)
        requires
            self.wf(),
        ensures
            r is Ok,
            r matches Ok(c) ==> c.wf() && c.n == self.n + self.e + 1 && c.m == self.m
                + self.copy_constraints@.len() && c.l == self.l + self.e && c.t == self.t + 2
                && c.q == self.q + 1 && c.d == self.d + 1 && c.p == self.p && mats_view(c.matrices)
                == Seq::new((self.t + 2) as nat, |j: int| spec_ccs_matrix(*self, j))
                && msets_view(c.multisets) == spec_plonkish_multisets(*self) && c.constants@
                == spec_plonkish_constants(*self),
    {
        let p = self.p;
        let mrows = self.m + self.copy_constraints.len();
        let ncols = self.n + self.e + 1;
        let one_col = self.n - self.l;
        let mut matrices: Vec<Matrix> = Vec::new();
        let mut j: usize = 0;
        while j < self.t
            invariant
                j <= self.t,
                matrices@.len() == j,
                forall|jj: int|
                    0 <= jj < j ==> mat_view(#[trigger] matrices@[jj]) == spec_ccs_matrix(
                        *self,
                        jj,
                    ),
            decreases self.t - j,
        {
            let mut mat: Matrix = Vec::new();
            let mut row: usize = 0;
            while row < mrows
                invariant
                    j < self.t,
                    row <= mrows,
                    mat@.len() == row,
                    forall|rr: int|
                        0 <= rr < row ==> (#[trigger] mat@[rr])@ == spec_ccs_matrix(
                            *self,
                            j as int,
                        )[rr],
                decreases mrows - row,
            {
                let mut rv = zeros(ncols, p);
                if row < self.m {
                    proof {
                        assert(gates_view(self.gate_constraints)[row as int]
                            == self.gate_constraints@[row as int].points@);
                        assert(gates_view(self.gate_constraints)[row as int][j as int] < self.n
                            + self.e);
                    }
                    let gidx = self.gate_constraints[row].points[j];
                    let col = if gidx < one_col {
                        gidx
                    } else {
                        gidx + 1
                    };
                    rv[col] = FiniteField::one(p);
                }
                proof {
                    assert(rv@ =~= spec_ccs_matrix(*self, j as int)[row as int]);
                }
                mat.push(rv);
                row = row + 1;
            }
            proof {
                assert(mat_view(mat) =~= spec_ccs_matrix(*self, j as int));
            }
            matrices.push(mat);
            j = j + 1;
        }
        let mut mat: Matrix = Vec::new();
        let mut row: usize = 0;
        while row < mrows
            invariant
                row <= mrows,
                mat@.len() == row,
                forall|rr: int|
                    0 <= rr < row ==> (#[trigger] mat@[rr])@ == spec_ccs_matrix(
                        *self,
                        self.t as int,
                    )[rr],
            decreases mrows - row,
        {
            let mut rv = zeros(ncols, p);
            if row >= self.m {
                let cc = &self.copy_constraints[row - self.m];
                let ax = cc.points.0.x;
                let bx = cc.points.1.x;
                let a = if ax < one_col {
                    ax
                } else {
                    ax + 1
                };
                let b = if bx < one_col {
                    bx
                } else {
                    bx + 1
                };
                if a != b {
                    rv[a] = FiniteField::one(p);
                    rv[b] = FiniteField::neg_one(p);
                }
            }
            proof {
                assert(rv@ =~= spec_ccs_matrix(*self, self.t as int)[row as int]);
            }
            mat.push(rv);
            row = row + 1;
        }
        proof {
            assert(mat_view(mat) =~= spec_ccs_matrix(*self, self.t as int));
        }
        matrices.push(mat);
        let mut mat: Matrix = Vec::new();
        let mut row: usize = 0;
        while row < mrows
            invariant
                row <= mrows,
                mat@.len() == row,
                forall|rr: int|
                    0 <= rr < row ==> (#[trigger] mat@[rr])@ == spec_ccs_matrix(
                        *self,
                        self.t + 1,
                    )[rr],
            decreases mrows - row,
        {
            let mut rv = zeros(ncols, p);
            if row < self.m {
                rv[one_col] = FiniteField::one(p);
            }
            proof {
                assert(rv@ =~= spec_ccs_matrix(*self, self.t + 1)[row as int]);
            }
            mat.push(rv);
            row = row + 1;
        }
        proof {
            assert(mat_view(mat) =~= spec_ccs_matrix(*self, self.t + 1));
        }
        matrices.push(mat);
        let mut multisets: Vec<Vec<usize>> = Vec::new();
        let mut i: usize = 0;
        while i < self.q
            invariant
                i <= self.q,
                multisets@.len() == i,
                forall|ii: int|
                    0 <= ii < i ==> (#[trigger] multisets@[ii])@ == spec_plonkish_multisets(
                        *self,
                    )[ii],
            decreases self.q - i,
        {
            let mono = &self.g.monomials[i];
            let mut ms: Vec<usize> = Vec::new();
            let mut jv: usize = 0;
            while jv < self.t
                invariant
                    i < self.q,
                    jv <= self.t,
                    mono == &self.g.monomials@[i as int],
                    mono.exponents@.len() == self.t,
                    ms@ == spec_expo_indices(mono.exponents@.take(jv as int)),
                decreases self.t - jv,
            {
                let cnt = mono.exponents[jv];
                let mut cpt: usize = 0;
                while cpt < cnt
                    invariant
                        jv < self.t,
                        cpt <= cnt,
                        cnt == mono.exponents@[jv as int],
                        ms@ == spec_expo_indices(mono.exponents@.take(jv as int)) + spec_repeat(
                            jv,
                            cpt as nat,
                        ),
                    decreases cnt - cpt,
                {
                    ms.push(jv);
                    proof {
                        assert(spec_expo_indices(mono.exponents@.take(jv as int)) + spec_repeat(
                            jv,
                            cpt as nat,
                        ) + seq![jv] =~= spec_expo_indices(mono.exponents@.take(jv as int))
                            + spec_repeat(jv, (cpt + 1) as nat));
                    }
                    cpt = cpt + 1;
                }
                proof {
                    assert(mono.exponents@.take(jv + 1).drop_last() =~= mono.exponents@.take(
                        jv as int,
                    ));
                    assert(mono.exponents@.take(jv + 1).last() == mono.exponents@[jv as int]);
                    assert(ms@ =~= spec_expo_indices(mono.exponents@.take(jv + 1)));
                }
                jv = jv + 1;
            }
            proof {
                assert(mono.exponents@.take(self.t as int) =~= mono.exponents@);
            }
            ms.push(self.t + 1);
            proof {
                assert(ms@ =~= spec_expo_indices(mono.exponents@) + seq![(self.t + 1) as usize]);
            }
            multisets.push(ms);
            i = i + 1;
        }
        let mut lastms: Vec<usize> = Vec::new();
        lastms.push(self.t);
        proof {
            assert(lastms@ =~= seq![self.t]);
        }
        multisets.push(lastms);
        let mut constants: Vec<FiniteField> = Vec::new();
        let mut i: usize = 0;
        while i < self.q
            invariant
                i <= self.q,
                constants@.len() == i,
                forall|ii: int|
                    0 <= ii < i ==> #[trigger] constants@[ii] == spec_plonkish_constants(
                        *self,
                    )[ii],
            decreases self.q - i,
        {
            constants.push(self.g.monomials[i].coeff);
            i = i + 1;
        }
        constants.push(FiniteField::one(p));
        proof {
            assert(constants@ =~= spec_plonkish_constants(*self));
            assert(mats_view(matrices) =~= Seq::new(
                (self.t + 2) as nat,
                |jx: int| spec_ccs_matrix(*self, jx),
            ));
            assert(msets_view(multisets) =~= spec_plonkish_multisets(*self));
            assert(mats_shape_ok(mats_view(matrices), mrows as nat, ncols as nat)) by {
                assert forall|jx: int| 0 <= jx < mats_view(matrices).len() implies mat_shape_ok(
                    #[trigger] mats_view(matrices)[jx],
                    mrows as nat,
                    ncols as nat,
                ) by {
                    assert(mats_view(matrices)[jx] == spec_ccs_matrix(*self, jx));
                }
            }
            assert(mats_entries_wf(mats_view(matrices), p)) by {
                assert forall|jx: int| 0 <= jx < mats_view(matrices).len() implies mat_entries_wf(
                    #[trigger] mats_view(matrices)[jx],
                    p,
                ) by {
                    assert(mats_view(matrices)[jx] == spec_ccs_matrix(*self, jx));
                    assert forall|rr: int|
                        0 <= rr < spec_ccs_matrix(*self, jx).len() implies all_wf(
                        #[trigger] spec_ccs_matrix(*self, jx)[rr],
                        p,
                    ) by {
                        assert forall|col: int|
                            0 <= col < spec_ccs_matrix(*self, jx)[rr].len() implies (
                        #[trigger] spec_ccs_matrix(*self, jx)[rr][col]).wf() && spec_ccs_matrix(
                            *self,
                            jx,
                        )[rr][col].p == p by {
                            assert(spec_ccs_matrix(*self, jx)[rr][col] == spec_ccs_entry(
                                *self,
                                jx,
                                rr,
                                col,
                            ));
                        }
                    }
                }
            }
            assert(multisets_card_ok(msets_view(multisets), (self.d + 1) as nat)) by {
                assert forall|ii: int| 0 <= ii < msets_view(multisets).len() implies (
                #[trigger] msets_view(multisets)[ii]).len() <= self.d + 1 by {
                    assert(msets_view(multisets)[ii] == spec_plonkish_multisets(*self)[ii]);
                    if ii < self.q {
                        lemma_expo_indices_len(self.g.monomials@[ii].exponents@);
                        assert(spec_deg(self.g.monomials@[ii].exponents@) <= self.d);
                    }
                }
            }
            assert(multisets_domain_ok(msets_view(multisets), (self.t + 2) as nat)) by {
                assert forall|ii: int, jj: int|
                    0 <= ii < msets_view(multisets).len() && 0 <= jj < msets_view(
                        multisets,
                    )[ii].len() implies (#[trigger] msets_view(multisets)[ii][jj]) < self.t
                    + 2 by {
                    assert(msets_view(multisets)[ii] == spec_plonkish_multisets(*self)[ii]);
                    if ii < self.q {
                        let exps = self.g.monomials@[ii].exponents@;
                        lemma_expo_indices_domain(exps);
                        assert(exps.len() == self.t);
                        if jj < spec_expo_indices(exps).len() {
                            assert(msets_view(multisets)[ii][jj] == spec_expo_indices(exps)[jj]);
                        }
                    }
                }
            }
            assert(all_wf(constants@, p));
        }
        let c = CCS::new(
            ncols,
            mrows,
            self.l + self.e,
            0,
            self.t + 2,
            self.q + 1,
            self.d + 1,
            p,
            matrices,
            multisets,
            constants,
        );
        match c {
            Ok(ccs) => Ok(ccs),
            Err(_) => unreached(),
        }
    }
}

} // verus!
