//! Shared vector and matrix operations over field elements: dot products,
//! matrix-vector products, Hadamard (elementwise) products and sums, and
//! the validation helpers the constraint systems build on.
use crate::field::FiniteField;
use crate::Matrix;
use vstd::prelude::*;

verus! {

/// Every element of `v` is reduced and carries the modulus `p`.
pub open spec fn all_wf(v: Seq<FiniteField>, p: u64) -> bool {
    forall|i: int| 0 <= i < v.len() ==> (#[trigger] v[i]).wf() && v[i].p == p
}

/// The sequence-of-rows view of a row-major matrix.
pub open spec fn mat_view(m: Matrix) -> Seq<Seq<FiniteField>> {
    Seq::new(m@.len(), |i: int| m@[i]@)
}

/// `m` has exactly `rows` rows, each of exactly `cols` entries.
pub open spec fn mat_shape_ok(m: Seq<Seq<FiniteField>>, rows: nat, cols: nat) -> bool {
    m.len() == rows && (forall|i: int| 0 <= i < m.len() ==> (#[trigger] m[i]).len() == cols)
}

/// Every entry of every row is reduced modulo `p`.
pub open spec fn mat_entries_wf(m: Seq<Seq<FiniteField>>, p: u64) -> bool {
    forall|i: int| 0 <= i < m.len() ==> all_wf(#[trigger] m[i], p)
}

/// A rectangular `rows x cols` matrix of reduced elements modulo `p`.
pub open spec fn mat_wf(m: Seq<Seq<FiniteField>>, rows: nat, cols: nat, p: u64) -> bool {
    mat_shape_ok(m, rows, cols) && mat_entries_wf(m, p)
}

/// Dot product of two equal-length vectors modulo `p`.
pub open spec fn spec_dot(v: Seq<FiniteField>, w: Seq<FiniteField>, p: u64) -> FiniteField
    decreases v.len(),
{
    if v.len() == 0 {
        FiniteField::spec_zero(p)
    } else {
        spec_dot(v.drop_last(), w.drop_last(), p).spec_add(v.last().spec_mul(w.last()))
    }
}

/// Matrix-vector product: row `i` of the result is `m[i] . z`.
pub open spec fn spec_mvp(m: Seq<Seq<FiniteField>>, z: Seq<FiniteField>, p: u64) -> Seq<
    FiniteField,
> {
    Seq::new(m.len(), |i: int| spec_dot(m[i], z, p))
}

/// Elementwise product.
pub open spec fn spec_hadamard(v: Seq<FiniteField>, w: Seq<FiniteField>) -> Seq<FiniteField> {
    Seq::new(v.len(), |i: int| v[i].spec_mul(w[i]))
}

/// Elementwise sum.
pub open spec fn spec_hadasum(v: Seq<FiniteField>, w: Seq<FiniteField>) -> Seq<FiniteField> {
    Seq::new(v.len(), |i: int| v[i].spec_add(w[i]))
}

/// Every entry scaled by the constant `c`.
pub open spec fn spec_scale(c: FiniteField, v: Seq<FiniteField>) -> Seq<FiniteField> {
    Seq::new(v.len(), |i: int| c.spec_mul(v[i]))
}

pub open spec fn spec_ones(n: nat, p: u64) -> Seq<FiniteField> {
    Seq::new(n, |i: int| FiniteField::spec_one(p))
}

pub open spec fn spec_zeros(n: nat, p: u64) -> Seq<FiniteField> {
    Seq::new(n, |i: int| FiniteField::spec_zero(p))
}

/// Every entry is the additive identity.
pub open spec fn spec_all_zero(v: Seq<FiniteField>) -> bool {
    forall|i: int| 0 <= i < v.len() ==> (#[trigger] v[i]).value == 0
}

/// The assignment vector `z = w ‖ [1] ‖ x` shared by R1CS and CCS.
pub open spec fn spec_z(w: Seq<FiniteField>, x: Seq<FiniteField>, p: u64) -> Seq<FiniteField> {
    w + seq![FiniteField::spec_one(p)] + x
}

/// A dot product of well-formed vectors is itself reduced modulo `p`.
pub proof fn lemma_spec_dot_wf(v: Seq<FiniteField>, w: Seq<FiniteField>, p: u64)
    requires
        p >= 1,
        v.len() == w.len(),
        all_wf(v, p),
        all_wf(w, p),
    ensures
        spec_dot(v, w, p).wf(),
        spec_dot(v, w, p).p == p,
    decreases v.len(),
{
    if v.len() > 0 {
        assert(all_wf(v.drop_last(), p));
        assert(all_wf(w.drop_last(), p));
        lemma_spec_dot_wf(v.drop_last(), w.drop_last(), p);
    }
}

/// Computes `v . w` modulo `p`.
pub fn dot(v: &Vec<FiniteField>, w: &Vec<FiniteField>, p: u64) -> (r: FiniteField)
    requires
        p >= 1,
        v@.len() == w@.len(),
        all_wf(v@, p),
        all_wf(w@, p),
    ensures
        r == spec_dot(v@, w@, p),
        r.wf(),
        r.p == p,
{
    let mut acc = FiniteField::zero(p);
    let mut i: usize = 0;
    while i < v.len()
        invariant
            p >= 1,
            v@.len() == w@.len(),
            i <= v@.len(),
            all_wf(v@, p),
            all_wf(w@, p),
            acc == spec_dot(v@.take(i as int), w@.take(i as int), p),
            acc.wf(),
            acc.p == p,
        decreases v@.len() - i,
    {
        let prod = v[i].mul(w[i]);
        acc = acc.add(prod);
        proof {
            assert(v@.take(i + 1).drop_last() =~= v@.take(i as int));
            assert(w@.take(i + 1).drop_last() =~= w@.take(i as int));
        }
        i = i + 1;
    }
    proof {
        assert(v@.take(v@.len() as int) =~= v@);
        assert(w@.take(w@.len() as int) =~= w@);
    }
    acc
}

/// Computes the matrix-vector product `matrix . vector` modulo `p`.
pub fn matrix_vector_prod(matrix: &Matrix, vector: &Vec<FiniteField>, p: u64) -> (r: Vec<
    FiniteField,
>)
    requires
        p >= 1,
        forall|i: int|
            0 <= i < matrix@.len() ==> (#[trigger] mat_view(*matrix)[i]).len() == vector@.len(),
        mat_entries_wf(mat_view(*matrix), p),
        all_wf(vector@, p),
    ensures
        r@ == spec_mvp(mat_view(*matrix), vector@, p),
        r@.len() == matrix@.len(),
        all_wf(r@, p),
{
    let mut r: Vec<FiniteField> = Vec::new();
    let mut i: usize = 0;
    while i < matrix.len()
        invariant
            p >= 1,
            i <= matrix@.len(),
            forall|k: int|
                0 <= k < matrix@.len() ==> (#[trigger] mat_view(*matrix)[k]).len()
                    == vector@.len(),
            mat_entries_wf(mat_view(*matrix), p),
            all_wf(vector@, p),
            r@.len() == i,
            forall|k: int|
                0 <= k < i ==> r@[k] == spec_dot(mat_view(*matrix)[k], vector@, p),
            all_wf(r@, p),
        decreases matrix@.len() - i,
    {
        let row = &matrix[i];
        proof {
            assert(mat_view(*matrix)[i as int] == row@);
        }
        let d = dot(row, vector, p);
        r.push(d);
        i = i + 1;
    }
    proof {
        assert(r@ =~= spec_mvp(mat_view(*matrix), vector@, p));
    }
    r
}

/// Computes the Hadamard (elementwise) product of two vectors.
pub fn hadamard(v1: &Vec<FiniteField>, v2: &Vec<FiniteField>, p: u64) -> (r: Vec<FiniteField>)
    requires
        p >= 1,
        v1@.len() == v2@.len(),
        all_wf(v1@, p),
        all_wf(v2@, p),
    ensures
        r@ == spec_hadamard(v1@, v2@),
        r@.len() == v1@.len(),
        all_wf(r@, p),
{
    let mut r: Vec<FiniteField> = Vec::new();
    let mut i: usize = 0;
    while i < v1.len()
        invariant
            p >= 1,
            i <= v1@.len(),
            v1@.len() == v2@.len(),
            all_wf(v1@, p),
            all_wf(v2@, p),
            r@.len() == i,
            forall|k: int| 0 <= k < i ==> r@[k] == v1@[k].spec_mul(v2@[k]),
            all_wf(r@, p),
        decreases v1@.len() - i,
    {
        r.push(v1[i].mul(v2[i]));
        i = i + 1;
    }
    proof {
        assert(r@ =~= spec_hadamard(v1@, v2@));
    }
    r
}

/// Computes the elementwise sum of two vectors.
pub fn hadasum(v1: &Vec<FiniteField>, v2: &Vec<FiniteField>, p: u64) -> (r: Vec<FiniteField>)
    requires
        p >= 1,
        v1@.len() == v2@.len(),
        all_wf(v1@, p),
        all_wf(v2@, p),
    ensures
        r@ == spec_hadasum(v1@, v2@),
        r@.len() == v1@.len(),
        all_wf(r@, p),
{
    let mut r: Vec<FiniteField> = Vec::new();
    let mut i: usize = 0;
    while i < v1.len()
        invariant
            p >= 1,
            i <= v1@.len(),
            v1@.len() == v2@.len(),
            all_wf(v1@, p),
            all_wf(v2@, p),
            r@.len() == i,
            forall|k: int| 0 <= k < i ==> r@[k] == v1@[k].spec_add(v2@[k]),
            all_wf(r@, p),
        decreases v1@.len() - i,
    {
        r.push(v1[i].add(v2[i]));
        i = i + 1;
    }
    proof {
        assert(r@ =~= spec_hadasum(v1@, v2@));
    }
    r
}

/// Scales every entry of `v` by the constant `c`.
pub fn scale(c: FiniteField, v: &Vec<FiniteField>, p: u64) -> (r: Vec<FiniteField>)
    requires
        p >= 1,
        c.wf(),
        c.p == p,
        all_wf(v@, p),
    ensures
        r@ == spec_scale(c, v@),
        r@.len() == v@.len(),
        all_wf(r@, p),
{
    let mut r: Vec<FiniteField> = Vec::new();
    let mut i: usize = 0;
    while i < v.len()
        invariant
            p >= 1,
            i <= v@.len(),
            c.wf(),
            c.p == p,
            all_wf(v@, p),
            r@.len() == i,
            forall|k: int| 0 <= k < i ==> r@[k] == c.spec_mul(v@[k]),
            all_wf(r@, p),
        decreases v@.len() - i,
    {
        r.push(c.mul(v[i]));
        i = i + 1;
    }
    proof {
        assert(r@ =~= spec_scale(c, v@));
    }
    r
}

/// A vector of `n` multiplicative identities.
pub fn ones(n: usize, p: u64) -> (r: Vec<FiniteField>)
    requires
        p >= 2,
    ensures
        r@ == spec_ones(n as nat, p),
        r@.len() == n,
        all_wf(r@, p),
{
    let mut r: Vec<FiniteField> = Vec::new();
    let mut i: usize = 0;
    while i < n
        invariant
            p >= 2,
            i <= n,
            r@.len() == i,
            forall|k: int| 0 <= k < i ==> r@[k] == FiniteField::spec_one(p),
            all_wf(r@, p),
        decreases n - i,
    {
        r.push(FiniteField::one(p));
        i = i + 1;
    }
    proof {
        assert(r@ =~= spec_ones(n as nat, p));
    }
    r
}

/// A vector of `n` additive identities.
pub fn zeros(n: usize, p: u64) -> (r: Vec<FiniteField>)
    requires
        p >= 1,
    ensures
        r@ == spec_zeros(n as nat, p),
        r@.len() == n,
        all_wf(r@, p),
{
    let mut r: Vec<FiniteField> = Vec::new();
    let mut i: usize = 0;
    while i < n
        invariant
            p >= 1,
            i <= n,
            r@.len() == i,
            forall|k: int| 0 <= k < i ==> r@[k] == FiniteField::spec_zero(p),
            all_wf(r@, p),
        decreases n - i,
    {
        r.push(FiniteField::zero(p));
        i = i + 1;
    }
    proof {
        assert(r@ =~= spec_zeros(n as nat, p));
    }
    r
}

/// Decides whether every entry of `v` is the additive identity.
pub fn all_zero(v: &Vec<FiniteField>) -> (b: bool)
    ensures
        b == spec_all_zero(v@),
{
    let mut i: usize = 0;
    while i < v.len()
        invariant
            i <= v@.len(),
            forall|k: int| 0 <= k < i ==> (#[trigger] v@[k]).value == 0,
        decreases v@.len() - i,
    {
        if v[i].value != 0 {
            return false;
        }
        i = i + 1;
    }
    true
}

/// Decides whether every element of `v` is reduced modulo `p`.
pub fn vector_entries_reduced(v: &Vec<FiniteField>, p: u64) -> (b: bool)
    ensures
        b == all_wf(v@, p),
{
    let mut i: usize = 0;
    while i < v.len()
        invariant
            i <= v@.len(),
            forall|k: int| 0 <= k < i ==> (#[trigger] v@[k]).wf() && v@[k].p == p,
        decreases v@.len() - i,
    {
        let e = v[i];
        if e.p != p || e.value >= e.p {
            return false;
        }
        i = i + 1;
    }
    true
}

/// Decides whether every entry of `m` is reduced modulo `p`.
pub fn matrix_entries_reduced(m: &Matrix, p: u64) -> (b: bool)
    ensures
        b == mat_entries_wf(mat_view(*m), p),
{
    let mut i: usize = 0;
    while i < m.len()
        invariant
            i <= m@.len(),
            forall|k: int| 0 <= k < i ==> all_wf(#[trigger] mat_view(*m)[k], p),
        decreases m@.len() - i,
    {
        let ok = vector_entries_reduced(&m[i], p);
        proof {
            assert(mat_view(*m)[i as int] == m@[i as int]@);
        }
        if !ok {
            return false;
        }
        i = i + 1;
    }
    true
}

/// Decides whether `m` is a rectangular `rows x cols` grid.
pub fn matrix_has_shape(m: &Matrix, rows: usize, cols: usize) -> (b: bool)
    ensures
        b == mat_shape_ok(mat_view(*m), rows as nat, cols as nat),
{
    if m.len() != rows {
        return false;
    }
    let mut i: usize = 0;
    while i < m.len()
        invariant
            i <= m@.len(),
            m@.len() == rows,
            forall|k: int| 0 <= k < i ==> (#[trigger] mat_view(*m)[k]).len() == cols,
        decreases m@.len() - i,
    {
        if m[i].len() != cols {
            proof {
                assert(mat_view(*m)[i as int] == m@[i as int]@);
            }
            return false;
        }
        proof {
            assert(mat_view(*m)[i as int] == m@[i as int]@);
        }
        i = i + 1;
    }
    true
}

/// An independently owned copy of a vector of field elements.
pub fn clone_vector(v: &Vec<FiniteField>) -> (r: Vec<FiniteField>)
    ensures
        r@ == v@,
{
    let mut r: Vec<FiniteField> = Vec::new();
    let mut i: usize = 0;
    while i < v.len()
        invariant
            i <= v@.len(),
            r@.len() == i,
            forall|k: int| 0 <= k < i ==> r@[k] == v@[k],
        decreases v@.len() - i,
    {
        r.push(v[i]);
        i = i + 1;
    }
    proof {
        assert(r@ =~= v@);
    }
    r
}

/// An independently owned copy of a vector of indices.
pub fn clone_usizes(v: &Vec<usize>) -> (r: Vec<usize>)
    ensures
        r@ == v@,
{
    let mut r: Vec<usize> = Vec::new();
    let mut i: usize = 0;
    while i < v.len()
        invariant
            i <= v@.len(),
            r@.len() == i,
            forall|k: int| 0 <= k < i ==> r@[k] == v@[k],
        decreases v@.len() - i,
    {
        r.push(v[i]);
        i = i + 1;
    }
    proof {
        assert(r@ =~= v@);
    }
    r
}

/// Appends every element of `src` to `dst`, in order.
pub fn append_all(dst: &mut Vec<FiniteField>, src: &Vec<FiniteField>)
    ensures
        final(dst)@ == old(dst)@ + src@,
{
    let mut i: usize = 0;
    while i < src.len()
        invariant
            i <= src@.len(),
            dst@ == old(dst)@ + src@.take(i as int),
        decreases src@.len() - i,
    {
        dst.push(src[i]);
        proof {
            assert(old(dst)@ + src@.take(i as int) + seq![src@[i as int]] =~= old(dst)@
                + src@.take(i + 1));
        }
        i = i + 1;
    }
    proof {
        assert(src@.take(src@.len() as int) =~= src@);
    }
}

/// An independently owned copy of a matrix.
pub fn clone_matrix(m: &Matrix) -> (r: Matrix)
    ensures
        mat_view(r) == mat_view(*m),
        r@.len() == m@.len(),
{
    let mut r: Matrix = Vec::new();
    let mut i: usize = 0;
    while i < m.len()
        invariant
            i <= m@.len(),
            r@.len() == i,
            forall|k: int| 0 <= k < i ==> (#[trigger] r@[k])@ == m@[k]@,
        decreases m@.len() - i,
    {
        let row = clone_vector(&m[i]);
        r.push(row);
        i = i + 1;
    }
    proof {
        assert forall|k: int| 0 <= k < m@.len() implies mat_view(r)[k] == mat_view(*m)[k] by {
            assert(r@[k]@ == m@[k]@);
        }
        assert(mat_view(r) =~= mat_view(*m));
    }
    r
}

/// Assembles the assignment vector `z = w ‖ [1] ‖ x`.
pub fn build_z(w: &Vec<FiniteField>, x: &Vec<FiniteField>, p: u64) -> (z: Vec<FiniteField>)
    requires
        p >= 2,
        all_wf(w@, p),
        all_wf(x@, p),
    ensures
        z@ == spec_z(w@, x@, p),
        z@.len() == w@.len() + 1 + x@.len(),
        all_wf(z@, p),
{
    let mut z = clone_vector(w);
    z.push(FiniteField::one(p));
    let mut i: usize = 0;
    while i < x.len()
        invariant
            p >= 2,
            i <= x@.len(),
            all_wf(w@, p),
            all_wf(x@, p),
            z@ == w@ + seq![FiniteField::spec_one(p)] + x@.take(i as int),
        decreases x@.len() - i,
    {
        z.push(x[i]);
        proof {
            assert(w@ + seq![FiniteField::spec_one(p)] + x@.take(i as int) + seq![x@[i as int]]
                =~= w@ + seq![FiniteField::spec_one(p)] + x@.take(i + 1));
        }
        i = i + 1;
    }
    proof {
        assert(x@.take(x@.len() as int) =~= x@);
        assert(all_wf(spec_z(w@, x@, p), p));
    }
    z
}

} // verus!
