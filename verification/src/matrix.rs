//! Dense matrices over a scalar, sized when they are made.
use crate::error::RenderError;
use crate::geometry::{dot_req, dot_spec, lemma_dot_req_prefix, lemma_total_dot, Vec_};
use crate::util::{ops_total, NumLike};
use vstd::prelude::*;

verus! {

/// A matrix of `M` rows and `N` columns, stored row by row.
#[allow(non_snake_case)]
#[derive(Debug, PartialEq)]
pub struct Mat<T: NumLike> {
    pub M: usize,
    pub N: usize,
    pub data: Vec<Vec<T>>,
}

impl<T: NumLike> View for Mat<T> {
    type V = Seq<Seq<T>>;

    /// The rows, each as the sequence of its entries.
    open spec fn view(&self) -> Seq<Seq<T>> {
        Seq::new(self.data@.len(), |i: int| self.data@[i]@)
    }
}

/// Whether `m` has `rows` rows of `cols` entries each.
pub open spec fn is_grid<T>(m: Seq<Seq<T>>, rows: int, cols: int) -> bool {
    &&& m.len() == rows
    &&& forall|i: int| 0 <= i < rows ==> (#[trigger] m[i]).len() == cols
}

/// Column `j` of `m`, top to bottom.
pub open spec fn column_spec<T>(m: Seq<Seq<T>>, j: int) -> Seq<T> {
    Seq::new(m.len(), |i: int| m[i][j])
}

/// `m` with column `j` replaced by the first entries of `col`.
pub open spec fn with_column_spec<T>(m: Seq<Seq<T>>, j: int, col: Seq<T>) -> Seq<Seq<T>> {
    Seq::new(m.len(), |i: int| m[i].update(j, col[i]))
}

/// `m` mirrored at its diagonal, where `m` has `cols` columns.
pub open spec fn transpose_spec<T>(m: Seq<Seq<T>>, cols: int) -> Seq<Seq<T>> {
    Seq::new(cols as nat, |j: int| column_spec(m, j))
}

/// The index in the whole of what stands at index `i` once index `at` is left out.
pub open spec fn skip(i: int, at: int) -> int {
    if i >= at {
        i + 1
    } else {
        i
    }
}

/// `m` without row `row` and column `col`.
pub open spec fn minor_spec<T>(m: Seq<Seq<T>>, row: int, col: int) -> Seq<Seq<T>> {
    Seq::new(
        (m.len() - 1) as nat,
        |i: int| Seq::new((m[0].len() - 1) as nat, |j: int| m[skip(i, row)][skip(j, col)]),
    )
}

/// The matrix of `rows` rows and `cols` columns whose entries are all zero.
pub open spec fn zeros_spec<T: NumLike>(rows: int, cols: int) -> Seq<Seq<T>> {
    Seq::new(rows as nat, |i: int| Seq::new(cols as nat, |j: int| T::zero_spec()))
}

/// The identity matrix of size `n`.
pub open spec fn identity_spec<T: NumLike>(n: int) -> Seq<Seq<T>> {
    Seq::new(
        n as nat,
        |i: int|
            Seq::new(
                n as nat,
                |j: int|
                    if i == j {
                        T::one_spec()
                    } else {
                        T::zero_spec()
                    },
            ),
    )
}

/// The determinant of the square matrix `m`: the entry itself for one row, the
/// difference of the two diagonals' products for two rows, and otherwise the expansion
/// along row 0. The matrix without rows has determinant one, so that the one cofactor
/// of a matrix of one row is one.
pub open spec fn det_spec<T: NumLike>(m: Seq<Seq<T>>) -> T
    decreases m.len(), 2int, 0int,
{
    if m.len() == 0 {
        T::one_spec()
    } else if m.len() == 1 {
        m[0][0]
    } else if m.len() == 2 {
        m[0][0].times_spec(m[1][1]).minus_spec(m[0][1].times_spec(m[1][0]))
    } else {
        expansion_spec(m, m.len() as int)
    }
}

/// The first `k` terms of the expansion of the determinant along row 0, added up from
/// the left: entry `(0, i)` times its cofactor.
pub open spec fn expansion_spec<T: NumLike>(m: Seq<Seq<T>>, k: int) -> T
    decreases m.len(), 1int, k,
{
    if k <= 0 || m.len() == 0 {
        T::zero_spec()
    } else {
        expansion_spec(m, k - 1).plus_spec(m[0][k - 1].times_spec(cofactor_spec(m, 0, k - 1)))
    }
}

/// The cofactor of entry `(row, col)`: the determinant of the matrix without that row
/// and column, times -1 where `row + col` is odd.
pub open spec fn cofactor_spec<T: NumLike>(m: Seq<Seq<T>>, row: int, col: int) -> T
    decreases m.len(), 0int, 0int,
{
    if m.len() == 0 {
        T::zero_spec()
    } else {
        let d = det_spec(minor_spec(m, row, col));
        if (row + col) % 2 == 0 {
            d
        } else {
            d.times_spec(T::from_i32_spec(-1i32))
        }
    }
}

/// Whether every operation in the determinant of `m` can be carried out.
pub open spec fn det_req<T: NumLike>(m: Seq<Seq<T>>) -> bool
    decreases m.len(), 2int, 0int,
{
    if m.len() == 1 {
        true
    } else if m.len() == 2 {
        &&& m[0][0].times_req(m[1][1])
        &&& m[0][1].times_req(m[1][0])
        &&& m[0][0].times_spec(m[1][1]).minus_req(m[0][1].times_spec(m[1][0]))
    } else {
        expansion_req(m, m.len() as int)
    }
}

/// Whether every operation in the first `k` terms of the expansion along row 0 can be
/// carried out.
pub open spec fn expansion_req<T: NumLike>(m: Seq<Seq<T>>, k: int) -> bool
    decreases m.len(), 1int, k,
{
    if k <= 0 || m.len() == 0 {
        true
    } else {
        &&& expansion_req(m, k - 1)
        &&& cofactor_req(m, 0, k - 1)
        &&& m[0][k - 1].times_req(cofactor_spec(m, 0, k - 1))
        &&& expansion_spec(m, k - 1).plus_req(
            m[0][k - 1].times_spec(cofactor_spec(m, 0, k - 1)),
        )
    }
}

/// Whether every operation in the cofactor of entry `(row, col)` can be carried out.
pub open spec fn cofactor_req<T: NumLike>(m: Seq<Seq<T>>, row: int, col: int) -> bool
    decreases m.len(), 0int, 0int,
{
    if m.len() == 0 {
        true
    } else {
        &&& det_req(minor_spec(m, row, col))
        &&& (row + col) % 2 != 0 ==> det_spec(minor_spec(m, row, col)).times_req(
            T::from_i32_spec(-1i32),
        )
    }
}

/// The matrix of the cofactors of the square matrix `m`.
pub open spec fn adjugate_spec<T: NumLike>(m: Seq<Seq<T>>) -> Seq<Seq<T>> {
    Seq::new(m.len(), |i: int| Seq::new(m.len(), |j: int| cofactor_spec(m, i, j)))
}

/// Whether every cofactor of the square matrix `m` can be computed.
pub open spec fn adjugate_req<T: NumLike>(m: Seq<Seq<T>>) -> bool {
    forall|i: int, j: int|
        0 <= i < m.len() && 0 <= j < m.len() ==> #[trigger] cofactor_req(m, i, j)
}

/// Whether the determinant of the square matrix `m` is zero.
pub open spec fn singular_spec<T: NumLike>(m: Seq<Seq<T>>) -> bool {
    det_spec(m).equals_spec(T::zero_spec())
}

/// The transpose of the inverse of the square matrix `m`: each cofactor divided by
/// the determinant.
pub open spec fn invert_transpose_spec<T: NumLike>(m: Seq<Seq<T>>) -> Seq<Seq<T>> {
    Seq::new(
        m.len(),
        |i: int| Seq::new(m.len(), |j: int| cofactor_spec(m, i, j).over_spec(det_spec(m))),
    )
}

/// Whether every operation in inverting the square matrix `m` can be carried out.
pub open spec fn invert_req<T: NumLike>(m: Seq<Seq<T>>) -> bool {
    &&& det_req(m)
    &&& !singular_spec(m) ==> adjugate_req(m) && forall|i: int, j: int|
        0 <= i < m.len() && 0 <= j < m.len() ==> (#[trigger] cofactor_spec(m, i, j)).over_req(
            det_spec(m),
        )
}

/// The product of `a` and `b`, where `b` has `cols` columns: entry `(i, j)` is the dot
/// product of row `i` of `a` and column `j` of `b`.
pub open spec fn mul_spec<T: NumLike>(a: Seq<Seq<T>>, b: Seq<Seq<T>>, cols: int) -> Seq<Seq<T>> {
    Seq::new(
        a.len(),
        |i: int|
            Seq::new(cols as nat, |j: int| dot_spec(a[i], column_spec(b, j), b.len() as int)),
    )
}

/// Whether every operation in the product of `a` and `b` can be carried out.
pub open spec fn mul_req<T: NumLike>(a: Seq<Seq<T>>, b: Seq<Seq<T>>, cols: int) -> bool {
    forall|i: int, j: int|
        0 <= i < a.len() && 0 <= j < cols ==> #[trigger] dot_req(
            a[i],
            column_spec(b, j),
            b.len() as int,
        )
}

/// The product of `a` and the column vector `v`.
pub open spec fn mul_vec_spec<T: NumLike>(a: Seq<Seq<T>>, v: Seq<T>) -> Seq<T> {
    Seq::new(a.len(), |i: int| dot_spec(a[i], v, v.len() as int))
}

/// Whether every operation in the product of `a` and the column vector `v` can be
/// carried out.
pub open spec fn mul_vec_req<T: NumLike>(a: Seq<Seq<T>>, v: Seq<T>) -> bool {
    forall|i: int| 0 <= i < a.len() ==> #[trigger] dot_req(a[i], v, v.len() as int)
}

/// `a` with every entry multiplied by `k`.
pub open spec fn scale_spec<T: NumLike>(a: Seq<Seq<T>>, k: T) -> Seq<Seq<T>> {
    Seq::new(a.len(), |i: int| Seq::new(a[i].len(), |j: int| a[i][j].times_spec(k)))
}

/// Whether every entry of `a` can be multiplied by `k`.
pub open spec fn scale_req<T: NumLike>(a: Seq<Seq<T>>, k: T) -> bool {
    forall|i: int, j: int|
        0 <= i < a.len() && 0 <= j < a[i].len() ==> (#[trigger] a[i][j]).times_req(k)
}

/// The dot product of two rows of the same length.
fn dot_rows<T: NumLike>(a: &Vec<T>, b: &Vec<T>) -> (r: T)
    requires
        a.len() == b.len(),
        T::obeys_num_spec() ==> dot_req(a@, b@, a.len() as int),
    ensures
        T::obeys_num_spec() ==> r == dot_spec(a@, b@, a.len() as int),
{
    let n = a.len();
    let mut sum = T::zero();
    let mut i: usize = 0;
    while i < n
        invariant
            i <= n,
            n == a.len(),
            n == b.len(),
            T::obeys_num_spec() ==> dot_req(a@, b@, n as int),
            T::obeys_num_spec() ==> sum == dot_spec(a@, b@, i as int),
        decreases n - i,
    {
        proof {
            if T::obeys_num_spec() {
                lemma_dot_req_prefix(a@, b@, n as int, i + 1);
            }
        }
        sum = sum.plus(a[i].times(b[i]));
        i += 1;
    }
    sum
}

/// Where the whole expansion can be computed, so can each prefix of it.
pub proof fn lemma_expansion_req_prefix<T: NumLike>(m: Seq<Seq<T>>, n: int, k: int)
    requires
        expansion_req(m, n),
        k <= n,
    ensures
        expansion_req(m, k),
    decreases n - k,
{
    if k < n {
        lemma_expansion_req_prefix(m, n, k + 1);
    }
}

/// Over a scalar whose operations are total, the determinant can be computed.
pub proof fn lemma_total_det_only<T: NumLike>(m: Seq<Seq<T>>)
    requires
        ops_total::<T>(),
    ensures
        det_req(m),
    decreases m.len(), 2int, 0int,
{
    if m.len() != 1 && m.len() != 2 {
        lemma_total_expansion(m, m.len() as int);
    }
}

/// Over a scalar whose operations are total, each prefix of the expansion along row 0
/// can be computed.
pub proof fn lemma_total_expansion<T: NumLike>(m: Seq<Seq<T>>, k: int)
    requires
        ops_total::<T>(),
    ensures
        expansion_req(m, k),
    decreases m.len(), 1int, k,
{
    if k > 0 && m.len() != 0 {
        lemma_total_expansion(m, k - 1);
        lemma_total_cofactor(m, 0, k - 1);
    }
}

/// Over a scalar whose operations are total, each cofactor can be computed.
pub proof fn lemma_total_cofactor<T: NumLike>(m: Seq<Seq<T>>, row: int, col: int)
    requires
        ops_total::<T>(),
    ensures
        cofactor_req(m, row, col),
    decreases m.len(), 0int, 0int,
{
    if m.len() != 0 {
        lemma_total_det_only(minor_spec(m, row, col));
    }
}

/// Over a scalar whose operations are total, matrices can be inverted, multiplied
/// and scaled.
pub proof fn lemma_total_matrices<T: NumLike>(a: Seq<Seq<T>>, b: Seq<Seq<T>>, cols: int, v: Seq<T>, k: T)
    requires
        ops_total::<T>(),
    ensures
        det_req(a),
        adjugate_req(a),
        invert_req(a),
        mul_req(a, b, cols),
        mul_vec_req(a, v),
        scale_req(a, k),
{
    lemma_total_det_only(a);
    assert forall|i: int, j: int| 0 <= i < a.len() && 0 <= j < a.len() implies #[trigger] cofactor_req(a, i, j) by {
        lemma_total_cofactor(a, i, j);
    }
    assert forall|i: int, j: int| 0 <= i < a.len() && 0 <= j < cols implies #[trigger] dot_req(
        a[i],
        column_spec(b, j),
        b.len() as int,
    ) by {
        lemma_total_dot(a[i], column_spec(b, j), b.len() as int);
    }
    assert forall|i: int| 0 <= i < a.len() implies #[trigger] dot_req(a[i], v, v.len() as int) by {
        lemma_total_dot(a[i], v, v.len() as int);
    }
}

/// Stores `t` at row `i`, column `j` of `rows`.
fn put_entry<T: Copy>(rows: &mut Vec<Vec<T>>, i: usize, j: usize, t: T)
    requires
        i < old(rows).len(),
        j < old(rows)[i as int].len(),
    ensures
        final(rows)@.len() == old(rows)@.len(),
        forall|k: int| 0 <= k < old(rows)@.len() && k != i ==> final(rows)@[k] == old(rows)@[k],
        final(rows)@[i as int]@ == old(rows)@[i as int]@.update(j as int, t),
{
    rows[i][j] = t;
}

impl<T: NumLike> Mat<T> {
    /// Whether the fields agree: `data` holds `M` rows of `N` entries.
    pub open spec fn wf(&self) -> bool {
        is_grid(self@, self.M as int, self.N as int)
    }

    /// The matrix of `m` rows and `n` columns whose entries are all zero.
    pub fn new(m: usize, n: usize) -> (r: Self)
        ensures
            r.wf(),
            r.M == m,
            r.N == n,
            T::obeys_num_spec() ==> r@ == zeros_spec::<T>(m as int, n as int),
    {
        let mut data: Vec<Vec<T>> = Vec::new();
        let mut i: usize = 0;
        while i < m
            invariant
                i <= m,
                data@.len() == i,
                forall|k: int| 0 <= k < i ==> (#[trigger] data@[k])@.len() == n,
                T::obeys_num_spec() ==> forall|k: int, j: int|
                    0 <= k < i && 0 <= j < n ==> (#[trigger] data@[k]@[j]) == T::zero_spec(),
            decreases m - i,
        {
            let mut row: Vec<T> = Vec::new();
            let mut j: usize = 0;
            while j < n
                invariant
                    j <= n,
                    row@.len() == j,
                    T::obeys_num_spec() ==> forall|k: int|
                        0 <= k < j ==> (#[trigger] row@[k]) == T::zero_spec(),
                decreases n - j,
            {
                row.push(T::zero());
                j += 1;
            }
            data.push(row);
            i += 1;
        }
        let r = Mat { M: m, N: n, data };
        assert(T::obeys_num_spec() ==> r@ =~~= zeros_spec::<T>(m as int, n as int));
        r
    }

    /// The matrix with the rows `data`. There must be at least one row, and all rows
    /// must be as long as the first.
    pub fn from(data: &Vec<Vec<T>>) -> (r: Result<Self, RenderError>)
        ensures
            r matches Ok(m) ==> m.wf() && m.M == data.len() && m@ == Seq::new(
                data@.len(),
                |i: int| data@[i]@,
            ),
            r matches Err(e) ==> e == RenderError::DimensionMismatch,
            r is Ok <==> data.len() > 0 && forall|i: int|
                0 <= i < data.len() ==> (#[trigger] data@[i])@.len() == data@[0]@.len(),
    {
        if data.len() == 0 {
            return Err(RenderError::DimensionMismatch);
        }
        let n = data[0].len();
        let mut rows: Vec<Vec<T>> = Vec::new();
        let mut i: usize = 0;
        while i < data.len()
            invariant
                i <= data.len(),
                data.len() > 0,
                n == data@[0]@.len(),
                rows@.len() == i,
                forall|k: int| 0 <= k < i ==> (#[trigger] data@[k])@.len() == n,
                forall|k: int| 0 <= k < i ==> (#[trigger] rows@[k])@ == data@[k]@,
            decreases data.len() - i,
        {
            if data[i].len() != n {
                return Err(RenderError::DimensionMismatch);
            }
            let mut row: Vec<T> = Vec::new();
            let mut j: usize = 0;
            while j < n
                invariant
                    j <= n,
                    i < data.len(),
                    data@[i as int]@.len() == n,
                    row@ == data@[i as int]@.take(j as int),
                decreases n - j,
            {
                row.push(data[i][j]);
                assert(row@ =~= data@[i as int]@.take(j + 1));
                j += 1;
            }
            assert(row@ =~= data@[i as int]@);
            rows.push(row);
            i += 1;
        }
        let r = Mat { M: data.len(), N: n, data: rows };
        assert(r@ =~~= Seq::new(data@.len(), |i: int| data@[i]@));
        Ok(r)
    }

    /// The matrix of `m` rows and `n` columns whose entries are those of `v`, row by
    /// row. `v` must hold exactly `m * n` entries.
    pub fn from_vec(m: usize, n: usize, v: Vec<T>) -> (r: Result<Mat<T>, RenderError>)
        ensures
            r matches Ok(mat) ==> mat.wf() && mat.M == m && mat.N == n && forall|i: int, j: int|
                0 <= i < m && 0 <= j < n ==> (#[trigger] mat@[i][j]) == v@[i * n + j],
            r matches Err(e) ==> e == RenderError::DimensionMismatch,
            r is Ok <==> m * n == v.len(),
    {
        let fits = match m.checked_mul(n) {
            Some(size) => size == v.len(),
            None => false,
        };
        if !fits {
            return Err(RenderError::DimensionMismatch);
        }
        let mut rows: Vec<Vec<T>> = Vec::new();
        let mut i: usize = 0;
        while i < m
            invariant
                i <= m,
                m * n == v.len(),
                rows@.len() == i,
                forall|k: int| 0 <= k < i ==> (#[trigger] rows@[k])@.len() == n,
                forall|k: int, j: int|
                    0 <= k < i && 0 <= j < n ==> (#[trigger] rows@[k]@[j]) == v@[k * n + j],
            decreases m - i,
        {
            let mut row: Vec<T> = Vec::new();
            let mut j: usize = 0;
            while j < n
                invariant
                    j <= n,
                    i < m,
                    m * n == v.len(),
                    row@.len() == j,
                    forall|k: int| 0 <= k < j ==> (#[trigger] row@[k]) == v@[i * n + k],
                decreases n - j,
            {
                assert(i * n + j < m * n) by (nonlinear_arith)
                    requires
                        i < m,
                        j < n,
                ;
                row.push(v[i * n + j]);
                j += 1;
            }
            rows.push(row);
            i += 1;
        }
        let r = Mat { M: m, N: n, data: rows };
        assert(r.wf());
        Ok(r)
    }

    /// The identity matrix of size `m`.
    pub fn identity(m: usize) -> (r: Self)
        ensures
            r.wf(),
            r.M == m,
            r.N == m,
            T::obeys_num_spec() ==> r@ == identity_spec::<T>(m as int),
    {
        let mut data: Vec<Vec<T>> = Vec::new();
        let mut i: usize = 0;
        while i < m
            invariant
                i <= m,
                data@.len() == i,
                forall|k: int| 0 <= k < i ==> (#[trigger] data@[k])@.len() == m,
                T::obeys_num_spec() ==> forall|k: int|
                    0 <= k < i ==> (#[trigger] data@[k])@ == identity_spec::<T>(m as int)[k],
            decreases m - i,
        {
            let mut row: Vec<T> = Vec::new();
            let mut j: usize = 0;
            while j < m
                invariant
                    j <= m,
                    i < m,
                    row@.len() == j,
                    T::obeys_num_spec() ==> forall|k: int|
                        0 <= k < j ==> (#[trigger] row@[k]) == identity_spec::<T>(m as int)[i as int][k],
                decreases m - j,
            {
                if i == j {
                    row.push(T::one());
                } else {
                    row.push(T::zero());
                }
                j += 1;
            }
            assert(T::obeys_num_spec() ==> row@ =~= identity_spec::<T>(m as int)[i as int]);
            data.push(row);
            i += 1;
        }
        let r = Mat { M: m, N: m, data };
        assert(T::obeys_num_spec() ==> r@ =~= identity_spec::<T>(m as int));
        assert(r.wf());
        r
    }

    /// The entry at row `i` and column `j`.
    pub fn get(&self, i: usize, j: usize) -> (r: Result<T, RenderError>)
        requires
            self.wf(),
        ensures
            r matches Ok(t) ==> t == self@[i as int][j as int],
            r matches Err(e) ==> e == RenderError::DimensionMismatch,
            r is Ok <==> i < self.M && j < self.N,
    {
        if i >= self.M || j >= self.N {
            return Err(RenderError::DimensionMismatch);
        }
        assert(self@[i as int].len() == self.N);
        Ok(self.data[i][j])
    }

    /// Replaces the entry at row `i` and column `j` by `t`. Where there is no such
    /// entry, the matrix stays as it is.
    pub fn set(&mut self, i: usize, j: usize, t: T) -> (r: Result<(), RenderError>)
        requires
            old(self).wf(),
        ensures
            final(self).wf(),
            final(self).M == old(self).M,
            final(self).N == old(self).N,
            r is Ok ==> final(self)@ == old(self)@.update(
                i as int,
                old(self)@[i as int].update(j as int, t),
            ),
            r matches Err(e) ==> e == RenderError::DimensionMismatch && *final(self) == *old(self),
            r is Ok <==> i < old(self).M && j < old(self).N,
    {
        if i >= self.M || j >= self.N {
            return Err(RenderError::DimensionMismatch);
        }
        assert(self@[i as int].len() == self.N);
        put_entry(&mut self.data, i, j, t);
        assert(self@ =~= old(self)@.update(i as int, old(self)@[i as int].update(j as int, t)));
        assert forall|k: int| 0 <= k < self.M implies (#[trigger] self@[k]).len() == self.N by {
            assert(old(self)@[k].len() == self.N);
        }
        Ok(())
    }

    /// Column `idx`, top to bottom.
    pub fn col(&self, idx: usize) -> (r: Result<Vec<T>, RenderError>)
        requires
            self.wf(),
        ensures
            r matches Ok(c) ==> c@ == column_spec(self@, idx as int),
            r matches Err(e) ==> e == RenderError::DimensionMismatch,
            r is Ok <==> idx < self.N,
    {
        if idx >= self.N {
            return Err(RenderError::DimensionMismatch);
        }
        let mut col: Vec<T> = Vec::new();
        let mut i: usize = 0;
        while i < self.M
            invariant
                i <= self.M,
                idx < self.N,
                self.wf(),
                col@.len() == i,
                forall|k: int| 0 <= k < i ==> (#[trigger] col@[k]) == self@[k][idx as int],
            decreases self.M - i,
        {
            assert(self@[i as int].len() == self.N);
            col.push(self.data[i][idx]);
            i += 1;
        }
        assert(col@ =~= column_spec(self@, idx as int));
        Ok(col)
    }

    /// Replaces column `idx` by the first `M` entries of `col`. Where the column does
    /// not exist or `col` is too short, the matrix stays as it is.
    pub fn set_col(&mut self, idx: usize, col: &Vec<T>) -> (r: Result<(), RenderError>)
        requires
            old(self).wf(),
        ensures
            final(self).wf(),
            final(self).M == old(self).M,
            final(self).N == old(self).N,
            r is Ok ==> final(self)@ == with_column_spec(old(self)@, idx as int, col@),
            r matches Err(e) ==> e == RenderError::DimensionMismatch && *final(self) == *old(self),
            r is Ok <==> idx < old(self).N && col.len() >= old(self).M,
    {
        if idx >= self.N || col.len() < self.M {
            return Err(RenderError::DimensionMismatch);
        }
        let mut i: usize = 0;
        while i < self.M
            invariant
                i <= self.M,
                idx < self.N,
                col.len() >= self.M,
                self.wf(),
                self.M == old(self).M,
                self.N == old(self).N,
                is_grid(old(self)@, self.M as int, self.N as int),
                forall|k: int| 0 <= k < i ==> (#[trigger] self@[k]) == old(self)@[k].update(idx as int, col@[k]),
                forall|k: int| i <= k < self.M ==> (#[trigger] self@[k]) == old(self)@[k],
            decreases self.M - i,
        {
            assert(self@[i as int].len() == self.N);
            let ghost prev = self@;
            put_entry(&mut self.data, i, idx, col[i]);
            assert forall|k: int| 0 <= k < self.M implies #[trigger] self@[k] == (if k == i {
                prev[k].update(idx as int, col@[k])
            } else {
                prev[k]
            }) by {
                assert(prev[k] == old(self)@[k] || k < i);
            }
            assert forall|k: int| 0 <= k < self.M implies (#[trigger] self@[k]).len() == self.N by {
                assert(prev[k].len() == self.N);
            }
            i += 1;
        }
        assert(self@ =~= with_column_spec(old(self)@, idx as int, col@));
        Ok(())
    }

    /// The matrix without row `row` and column `col`.
    pub fn submatrix(&self, row: usize, col: usize) -> (r: Result<Mat<T>, RenderError>)
        requires
            self.wf(),
        ensures
            r matches Ok(sub) ==> sub.wf() && sub.M == self.M - 1 && sub.N == self.N - 1 && sub@
                == minor_spec(self@, row as int, col as int),
            r matches Err(e) ==> e == RenderError::DimensionMismatch,
            r is Ok <==> row < self.M && col < self.N,
    {
        if row >= self.M || col >= self.N {
            return Err(RenderError::DimensionMismatch);
        }
        let mut rows: Vec<Vec<T>> = Vec::new();
        let mut i: usize = 0;
        while i < self.M - 1
            invariant
                i <= self.M - 1,
                row < self.M,
                col < self.N,
                self.wf(),
                rows@.len() == i,
                forall|k: int| 0 <= k < i ==> (#[trigger] rows@[k])@ == minor_spec(self@, row as int, col as int)[k],
            decreases self.M - 1 - i,
        {
            let src_i: usize = if i >= row { i + 1 } else { i };
            assert(self@[src_i as int].len() == self.N);
            assert(self@[0].len() == self.N);
            let mut line: Vec<T> = Vec::new();
            let mut j: usize = 0;
            while j < self.N - 1
                invariant
                    j <= self.N - 1,
                    col < self.N,
                    src_i < self.M,
                    src_i == skip(i as int, row as int),
                    self.wf(),
                    self@[src_i as int].len() == self.N,
                    line@.len() == j,
                    forall|k: int| 0 <= k < j ==> (#[trigger] line@[k]) == self@[src_i as int][skip(k, col as int)],
                decreases self.N - 1 - j,
            {
                let src_j: usize = if j >= col { j + 1 } else { j };
                line.push(self.data[src_i][src_j]);
                j += 1;
            }
            assert(line@ =~= minor_spec(self@, row as int, col as int)[i as int]);
            rows.push(line);
            i += 1;
        }
        let sub = Mat { M: self.M - 1, N: self.N - 1, data: rows };
        assert(self@[0].len() == self.N);
        assert(sub@ =~= minor_spec(self@, row as int, col as int));
        assert(sub.wf());
        Ok(sub)
    }

    /// The matrix mirrored at its diagonal.
    pub fn transpose(&self) -> (r: Mat<T>)
        requires
            self.wf(),
        ensures
            r.wf(),
            r.M == self.N,
            r.N == self.M,
            r@ == transpose_spec(self@, self.N as int),
    {
        let mut rows: Vec<Vec<T>> = Vec::new();
        let mut j: usize = 0;
        while j < self.N
            invariant
                j <= self.N,
                self.wf(),
                rows@.len() == j,
                forall|k: int| 0 <= k < j ==> (#[trigger] rows@[k])@ == column_spec(self@, k),
            decreases self.N - j,
        {
            let mut line: Vec<T> = Vec::new();
            let mut i: usize = 0;
            while i < self.M
                invariant
                    i <= self.M,
                    j < self.N,
                    self.wf(),
                    line@.len() == i,
                    forall|k: int| 0 <= k < i ==> (#[trigger] line@[k]) == self@[k][j as int],
                decreases self.M - i,
            {
                assert(self@[i as int].len() == self.N);
                line.push(self.data[i][j]);
                i += 1;
            }
            assert(line@ =~= column_spec(self@, j as int));
            rows.push(line);
            j += 1;
        }
        let r = Mat { M: self.N, N: self.M, data: rows };
        assert(r@ =~= transpose_spec(self@, self.N as int));
        assert(r.wf());
        r
    }

    /// The cofactor of the entry at row `row` and column `col` of a square matrix.
    pub fn cofactor(&self, row: usize, col: usize) -> (r: Result<T, RenderError>)
        requires
            self.wf(),
            T::obeys_num_spec() && self.M == self.N && row < self.M && col < self.N
                ==> cofactor_req(self@, row as int, col as int),
        ensures
            r matches Err(e) ==> e == RenderError::DimensionMismatch,
            r is Ok <==> self.M == self.N && row < self.M && col < self.N,
            T::obeys_num_spec() ==> (r matches Ok(c) ==> c == cofactor_spec(
                self@,
                row as int,
                col as int,
            )),
        decreases self.M, 0int,
    {
        if self.M != self.N {
            return Err(RenderError::DimensionMismatch);
        }
        let sub = match self.submatrix(row, col) {
            Ok(sub) => sub,
            Err(e) => {
                return Err(e);
            },
        };
        let minor = match sub.det() {
            Ok(d) => d,
            Err(e) => {
                return Err(e);
            },
        };
        if row % 2 == col % 2 {
            Ok(minor)
        } else {
            Ok(minor.times(T::from_i32(-1)))
        }
    }

    /// The determinant of a square matrix.
    pub fn det(&self) -> (r: Result<T, RenderError>)
        requires
            self.wf(),
            T::obeys_num_spec() && self.M == self.N ==> det_req(self@),
        ensures
            r matches Err(e) ==> e == RenderError::DimensionMismatch,
            r is Ok <==> self.M == self.N,
            T::obeys_num_spec() ==> (r matches Ok(d) ==> d == det_spec(self@)),
        decreases self.M, 1int,
    {
        if self.M != self.N {
            return Err(RenderError::DimensionMismatch);
        }
        if self.M == 0 {
            return Ok(T::one());
        }
        if self.M == 1 {
            assert(self@[0].len() == 1);
            return Ok(self.data[0][0]);
        }
        if self.M == 2 {
            assert(self@[0].len() == 2);
            assert(self@[1].len() == 2);
            let main = self.data[0][0].times(self.data[1][1]);
            let anti = self.data[0][1].times(self.data[1][0]);
            return Ok(main.minus(anti));
        }
        let mut sum = T::zero();
        let mut i: usize = 0;
        while i < self.N
            invariant
                i <= self.N,
                self.M == self.N,
                self.wf(),
                T::obeys_num_spec() ==> expansion_req(self@, self.N as int),
                T::obeys_num_spec() ==> sum == expansion_spec(self@, i as int),
            decreases self.N - i,
        {
            proof {
                if T::obeys_num_spec() {
                    lemma_expansion_req_prefix(self@, self.N as int, i + 1);
                }
            }
            assert(self@[0].len() == self.N);
            let c = match self.cofactor(0, i) {
                Ok(c) => c,
                Err(e) => {
                    return Err(e);
                },
            };
            sum = sum.plus(self.data[0][i].times(c));
            i += 1;
        }
        Ok(sum)
    }

    /// The matrix of the cofactors of a square matrix.
    pub fn adjugate(&self) -> (r: Result<Mat<T>, RenderError>)
        requires
            self.wf(),
            T::obeys_num_spec() && self.M == self.N ==> adjugate_req(self@),
        ensures
            r matches Ok(adj) ==> adj.wf() && adj.M == self.M && adj.N == self.N,
            r matches Err(e) ==> e == RenderError::DimensionMismatch,
            r is Ok <==> self.M == self.N,
            T::obeys_num_spec() ==> (r matches Ok(adj) ==> adj@ == adjugate_spec(self@)),
    {
        if self.M != self.N {
            return Err(RenderError::DimensionMismatch);
        }
        let mut rows: Vec<Vec<T>> = Vec::new();
        let mut i: usize = 0;
        while i < self.M
            invariant
                i <= self.M,
                self.M == self.N,
                self.wf(),
                T::obeys_num_spec() ==> adjugate_req(self@),
                rows@.len() == i,
                forall|k: int| 0 <= k < i ==> (#[trigger] rows@[k])@.len() == self.N,
                T::obeys_num_spec() ==> forall|k: int|
                    0 <= k < i ==> (#[trigger] rows@[k])@ == adjugate_spec(self@)[k],
            decreases self.M - i,
        {
            let mut line: Vec<T> = Vec::new();
            let mut j: usize = 0;
            while j < self.N
                invariant
                    j <= self.N,
                    i < self.M,
                    self.M == self.N,
                    self.wf(),
                    T::obeys_num_spec() ==> adjugate_req(self@),
                    line@.len() == j,
                    T::obeys_num_spec() ==> forall|k: int|
                        0 <= k < j ==> (#[trigger] line@[k]) == cofactor_spec(self@, i as int, k),
                decreases self.N - j,
            {
                assert(T::obeys_num_spec() ==> cofactor_req(self@, i as int, j as int));
                let c = match self.cofactor(i, j) {
                    Ok(c) => c,
                    Err(e) => {
                        return Err(e);
                    },
                };
                line.push(c);
                j += 1;
            }
            assert(T::obeys_num_spec() ==> line@ =~= adjugate_spec(self@)[i as int]);
            rows.push(line);
            i += 1;
        }
        let adj = Mat { M: self.M, N: self.N, data: rows };
        assert(T::obeys_num_spec() ==> adj@ =~= adjugate_spec(self@));
        assert(adj.wf());
        Ok(adj)
    }

    /// The transpose of the inverse of a square matrix: its cofactors, each divided
    /// by the determinant.
    pub fn invert_transpose(&self) -> (r: Result<Mat<T>, RenderError>)
        requires
            self.wf(),
            T::obeys_num_spec() && self.M == self.N ==> invert_req(self@),
        ensures
            r matches Ok(inv) ==> inv.wf() && inv.M == self.M && inv.N == self.N,
            self.M != self.N ==> r == Err::<Mat<T>, RenderError>(RenderError::DimensionMismatch),
            T::obeys_num_spec() && self.M == self.N ==> (if singular_spec(self@) {
                r == Err::<Mat<T>, RenderError>(RenderError::SingularMatrix)
            } else {
                r matches Ok(inv) && inv@ == invert_transpose_spec(self@)
            }),
            r matches Err(e) ==> e == RenderError::DimensionMismatch || e
                == RenderError::SingularMatrix,
    {
        let det = match self.det() {
            Ok(d) => d,
            Err(e) => {
                return Err(e);
            },
        };
        if det.equals(T::zero()) {
            return Err(RenderError::SingularMatrix);
        }
        let adj = match self.adjugate() {
            Ok(adj) => adj,
            Err(e) => {
                return Err(e);
            },
        };
        let mut rows: Vec<Vec<T>> = Vec::new();
        let mut i: usize = 0;
        while i < self.M
            invariant
                i <= self.M,
                self.M == self.N,
                self.wf(),
                adj.wf(),
                adj.M == self.M,
                adj.N == self.N,
                T::obeys_num_spec() ==> adj@ == adjugate_spec(self@),
                T::obeys_num_spec() ==> det == det_spec(self@),
                T::obeys_num_spec() ==> forall|a: int, b: int|
                    0 <= a < self.M && 0 <= b < self.M ==> (#[trigger] cofactor_spec(
                        self@,
                        a,
                        b,
                    )).over_req(det),
                rows@.len() == i,
                forall|k: int| 0 <= k < i ==> (#[trigger] rows@[k])@.len() == self.N,
                T::obeys_num_spec() ==> forall|k: int|
                    0 <= k < i ==> (#[trigger] rows@[k])@ == invert_transpose_spec(self@)[k],
            decreases self.M - i,
        {
            let mut line: Vec<T> = Vec::new();
            let mut j: usize = 0;
            while j < self.N
                invariant
                    j <= self.N,
                    i < self.M,
                    self.M == self.N,
                    self.wf(),
                    adj.wf(),
                    adj.M == self.M,
                    adj.N == self.N,
                    T::obeys_num_spec() ==> adj@ == adjugate_spec(self@),
                    T::obeys_num_spec() ==> det == det_spec(self@),
                    T::obeys_num_spec() ==> forall|a: int, b: int|
                        0 <= a < self.M && 0 <= b < self.M ==> (#[trigger] cofactor_spec(
                            self@,
                            a,
                            b,
                        )).over_req(det),
                    line@.len() == j,
                    T::obeys_num_spec() ==> forall|k: int|
                        0 <= k < j ==> (#[trigger] line@[k]) == cofactor_spec(
                            self@,
                            i as int,
                            k,
                        ).over_spec(det),
                decreases self.N - j,
            {
                assert(adj@[i as int].len() == adj.N);
                let c = adj.data[i][j];
                assert(T::obeys_num_spec() ==> c == cofactor_spec(self@, i as int, j as int)) by {
                    if T::obeys_num_spec() {
                        assert(adj@[i as int][j as int] == adjugate_spec(self@)[i as int][j as int]);
                    }
                }
                line.push(c.over(det));
                j += 1;
            }
            assert(T::obeys_num_spec() ==> line@ =~= invert_transpose_spec(self@)[i as int]);
            rows.push(line);
            i += 1;
        }
        let inv = Mat { M: self.M, N: self.N, data: rows };
        assert(T::obeys_num_spec() ==> inv@ =~= invert_transpose_spec(self@));
        assert(inv.wf());
        Ok(inv)
    }

    /// The inverse of a square matrix.
    pub fn invert(&self) -> (r: Result<Mat<T>, RenderError>)
        requires
            self.wf(),
            T::obeys_num_spec() && self.M == self.N ==> invert_req(self@),
        ensures
            r matches Ok(inv) ==> inv.wf() && inv.M == self.M && inv.N == self.N,
            self.M != self.N ==> r == Err::<Mat<T>, RenderError>(RenderError::DimensionMismatch),
            T::obeys_num_spec() && self.M == self.N ==> (if singular_spec(self@) {
                r == Err::<Mat<T>, RenderError>(RenderError::SingularMatrix)
            } else {
                r matches Ok(inv) && inv@ == transpose_spec(
                    invert_transpose_spec(self@),
                    self.N as int,
                )
            }),
            r matches Err(e) ==> e == RenderError::DimensionMismatch || e
                == RenderError::SingularMatrix,
    {
        match self.invert_transpose() {
            Ok(it) => Ok(it.transpose()),
            Err(e) => Err(e),
        }
    }

    /// The matrix with every entry multiplied by `k`.
    pub fn scale(&self, k: T) -> (r: Mat<T>)
        requires
            self.wf(),
            T::obeys_num_spec() ==> scale_req(self@, k),
        ensures
            r.wf(),
            r.M == self.M,
            r.N == self.N,
            T::obeys_num_spec() ==> r@ == scale_spec(self@, k),
    {
        let mut rows: Vec<Vec<T>> = Vec::new();
        let mut i: usize = 0;
        while i < self.M
            invariant
                i <= self.M,
                self.wf(),
                T::obeys_num_spec() ==> scale_req(self@, k),
                rows@.len() == i,
                forall|a: int| 0 <= a < i ==> (#[trigger] rows@[a])@.len() == self.N,
                T::obeys_num_spec() ==> forall|a: int|
                    0 <= a < i ==> (#[trigger] rows@[a])@ == scale_spec(self@, k)[a],
            decreases self.M - i,
        {
            assert(self@[i as int].len() == self.N);
            let mut line: Vec<T> = Vec::new();
            let mut j: usize = 0;
            while j < self.N
                invariant
                    j <= self.N,
                    i < self.M,
                    self.wf(),
                    self@[i as int].len() == self.N,
                    T::obeys_num_spec() ==> scale_req(self@, k),
                    line@.len() == j,
                    T::obeys_num_spec() ==> forall|b: int|
                        0 <= b < j ==> (#[trigger] line@[b]) == self@[i as int][b].times_spec(k),
                decreases self.N - j,
            {
                assert(T::obeys_num_spec() ==> self@[i as int][j as int].times_req(k));
                line.push(self.data[i][j].times(k));
                j += 1;
            }
            assert(T::obeys_num_spec() ==> line@ =~= scale_spec(self@, k)[i as int]);
            rows.push(line);
            i += 1;
        }
        let r = Mat { M: self.M, N: self.N, data: rows };
        assert(T::obeys_num_spec() ==> r@ =~= scale_spec(self@, k));
        assert(r.wf());
        r
    }

    /// The product of this matrix and `rhs`, which must have as many rows as this
    /// matrix has columns.
    pub fn mul_mat(&self, rhs: &Mat<T>) -> (r: Result<Mat<T>, RenderError>)
        requires
            self.wf(),
            rhs.wf(),
            T::obeys_num_spec() && self.N == rhs.M ==> mul_req(self@, rhs@, rhs.N as int),
        ensures
            r matches Ok(p) ==> p.wf() && p.M == self.M && p.N == rhs.N,
            r matches Err(e) ==> e == RenderError::DimensionMismatch,
            r is Ok <==> self.N == rhs.M,
            T::obeys_num_spec() ==> (r matches Ok(p) ==> p@ == mul_spec(
                self@,
                rhs@,
                rhs.N as int,
            )),
    {
        if self.N != rhs.M {
            return Err(RenderError::DimensionMismatch);
        }
        let columns = rhs.transpose();
        let mut rows: Vec<Vec<T>> = Vec::new();
        let mut i: usize = 0;
        while i < self.M
            invariant
                i <= self.M,
                self.N == rhs.M,
                self.wf(),
                rhs.wf(),
                columns.wf(),
                columns.M == rhs.N,
                columns.N == rhs.M,
                columns@ == transpose_spec(rhs@, rhs.N as int),
                T::obeys_num_spec() ==> mul_req(self@, rhs@, rhs.N as int),
                rows@.len() == i,
                forall|a: int| 0 <= a < i ==> (#[trigger] rows@[a])@.len() == rhs.N,
                T::obeys_num_spec() ==> forall|a: int|
                    0 <= a < i ==> (#[trigger] rows@[a])@ == mul_spec(self@, rhs@, rhs.N as int)[a],
            decreases self.M - i,
        {
            assert(self@[i as int].len() == self.N);
            let mut line: Vec<T> = Vec::new();
            let mut j: usize = 0;
            while j < rhs.N
                invariant
                    j <= rhs.N,
                    i < self.M,
                    self.N == rhs.M,
                    self.wf(),
                    rhs.wf(),
                    columns.wf(),
                    columns.M == rhs.N,
                    columns.N == rhs.M,
                    columns@ == transpose_spec(rhs@, rhs.N as int),
                    self@[i as int].len() == self.N,
                    T::obeys_num_spec() ==> mul_req(self@, rhs@, rhs.N as int),
                    line@.len() == j,
                    T::obeys_num_spec() ==> forall|b: int|
                        0 <= b < j ==> (#[trigger] line@[b]) == dot_spec(
                            self@[i as int],
                            column_spec(rhs@, b),
                            rhs.M as int,
                        ),
                decreases rhs.N - j,
            {
                assert(columns@[j as int] == column_spec(rhs@, j as int));
                assert(columns@[j as int].len() == columns.N);
                assert(T::obeys_num_spec() ==> dot_req(
                    self@[i as int],
                    column_spec(rhs@, j as int),
                    rhs@.len() as int,
                ));
                line.push(dot_rows(&self.data[i], &columns.data[j]));
                j += 1;
            }
            assert(T::obeys_num_spec() ==> line@ =~= mul_spec(self@, rhs@, rhs.N as int)[i as int]);
            rows.push(line);
            i += 1;
        }
        let p = Mat { M: self.M, N: rhs.N, data: rows };
        assert(T::obeys_num_spec() ==> p@ =~= mul_spec(self@, rhs@, rhs.N as int));
        assert(p.wf());
        Ok(p)
    }

    /// The product of this matrix and the column vector `rhs`, which must have as many
    /// entries as this matrix has columns.
    pub fn mul_vec(&self, rhs: &Vec<T>) -> (r: Result<Vec<T>, RenderError>)
        requires
            self.wf(),
            T::obeys_num_spec() && self.N == rhs.len() ==> mul_vec_req(self@, rhs@),
        ensures
            r matches Ok(p) ==> p.len() == self.M,
            r matches Err(e) ==> e == RenderError::DimensionMismatch,
            r is Ok <==> self.N == rhs.len(),
            T::obeys_num_spec() ==> (r matches Ok(p) ==> p@ == mul_vec_spec(self@, rhs@)),
    {
        if self.N != rhs.len() {
            return Err(RenderError::DimensionMismatch);
        }
        let mut ret: Vec<T> = Vec::new();
        let mut i: usize = 0;
        while i < self.M
            invariant
                i <= self.M,
                self.N == rhs.len(),
                self.wf(),
                T::obeys_num_spec() ==> mul_vec_req(self@, rhs@),
                ret@.len() == i,
                T::obeys_num_spec() ==> forall|a: int|
                    0 <= a < i ==> (#[trigger] ret@[a]) == dot_spec(
                        self@[a],
                        rhs@,
                        rhs.len() as int,
                    ),
            decreases self.M - i,
        {
            assert(self@[i as int].len() == self.N);
            assert(T::obeys_num_spec() ==> dot_req(self@[i as int], rhs@, rhs@.len() as int));
            ret.push(dot_rows(&self.data[i], rhs));
            i += 1;
        }
        assert(T::obeys_num_spec() ==> ret@ =~= mul_vec_spec(self@, rhs@));
        Ok(ret)
    }

    /// The product of this matrix and the vector `rhs` of a fixed size, which must be
    /// the number of this matrix's columns.
    pub fn transform<const K: usize>(&self, rhs: &Vec_<T, K>) -> (r: Result<Vec<T>, RenderError>)
        requires
            self.wf(),
            T::obeys_num_spec() && self.N == K ==> mul_vec_req(self@, rhs@),
        ensures
            r matches Ok(p) ==> p.len() == self.M,
            r matches Err(e) ==> e == RenderError::DimensionMismatch,
            r is Ok <==> self.N == K,
            T::obeys_num_spec() ==> (r matches Ok(p) ==> p@ == mul_vec_spec(self@, rhs@)),
    {
        let column = rhs.to_vec();
        self.mul_vec(&column)
    }
}

impl<'a, T: NumLike> vstd::std_specs::ops::MulSpecImpl<T> for &'a Mat<T> {
    /// The executable function states its result itself: a matrix is not known by
    /// its entries alone.
    open spec fn obeys_mul_spec() -> bool {
        false
    }

    open spec fn mul_req(self, rhs: T) -> bool {
        self.wf() && (T::obeys_num_spec() ==> scale_req(self@, rhs))
    }

    open spec fn mul_spec(self, rhs: T) -> Mat<T> {
        choose|r: Mat<T>| r.wf() && r.M == self.M && r.N == self.N && r@ == scale_spec(self@, rhs)
    }
}

impl<'a, T: NumLike> std::ops::Mul<T> for &'a Mat<T> {
    type Output = Mat<T>;

    /// The matrix with every entry multiplied by `rhs`.
    fn mul(self, rhs: T) -> (r: Mat<T>)
        ensures
            r.wf(),
            r.M == self.M,
            r.N == self.N,
            T::obeys_num_spec() ==> r@ == scale_spec(self@, rhs),
    {
        self.scale(rhs)
    }
}

impl<'a, 'b, T: NumLike> vstd::std_specs::ops::MulSpecImpl<&'b Mat<T>> for &'a Mat<T> {
    /// The executable function states its result itself: a matrix is not known by
    /// its entries alone.
    open spec fn obeys_mul_spec() -> bool {
        false
    }

    open spec fn mul_req(self, rhs: &'b Mat<T>) -> bool {
        &&& self.wf()
        &&& rhs.wf()
        &&& self.N == rhs.M
        &&& T::obeys_num_spec() ==> mul_req(self@, rhs@, rhs.N as int)
    }

    open spec fn mul_spec(self, rhs: &'b Mat<T>) -> Mat<T> {
        choose|r: Mat<T>|
            r.wf() && r.M == self.M && r.N == rhs.N && r@ == mul_spec(self@, rhs@, rhs.N as int)
    }
}

impl<'a, 'b, T: NumLike> std::ops::Mul<&'b Mat<T>> for &'a Mat<T> {
    type Output = Mat<T>;

    /// The product of the two matrices, of which the second has as many rows as
    /// the first has columns.
    fn mul(self, rhs: &'b Mat<T>) -> (r: Mat<T>)
        ensures
            r.wf(),
            r.M == self.M,
            r.N == rhs.N,
            T::obeys_num_spec() ==> r@ == mul_spec(self@, rhs@, rhs.N as int),
    {
        match self.mul_mat(rhs) {
            Ok(r) => r,
            Err(_) => vstd::pervasive::unreached(),
        }
    }
}

impl<'a, 'b, T: NumLike> vstd::std_specs::ops::MulSpecImpl<&'b Vec<T>> for &'a Mat<T> {
    /// The executable function states its result itself: a matrix is not known by
    /// its entries alone.
    open spec fn obeys_mul_spec() -> bool {
        false
    }

    open spec fn mul_req(self, rhs: &'b Vec<T>) -> bool {
        &&& self.wf()
        &&& self.N == rhs@.len()
        &&& T::obeys_num_spec() ==> mul_vec_req(self@, rhs@)
    }

    open spec fn mul_spec(self, rhs: &'b Vec<T>) -> Vec<T> {
        choose|r: Vec<T>| r@ == mul_vec_spec(self@, rhs@)
    }
}

impl<'a, 'b, T: NumLike> std::ops::Mul<&'b Vec<T>> for &'a Mat<T> {
    type Output = Vec<T>;

    /// The product of the matrix and the column vector, which has as many entries
    /// as the matrix has columns.
    fn mul(self, rhs: &'b Vec<T>) -> (r: Vec<T>)
        ensures
            r@.len() == self.M,
            T::obeys_num_spec() ==> r@ == mul_vec_spec(self@, rhs@),
    {
        match self.mul_vec(rhs) {
            Ok(r) => r,
            Err(_) => vstd::pervasive::unreached(),
        }
    }
}

impl<'a, 'b, T: NumLike, const K: usize> vstd::std_specs::ops::MulSpecImpl<&'b Vec_<T, K>> for &'a Mat<T> {
    /// The executable function states its result itself: a matrix is not known by
    /// its entries alone.
    open spec fn obeys_mul_spec() -> bool {
        false
    }

    open spec fn mul_req(self, rhs: &'b Vec_<T, K>) -> bool {
        &&& self.wf()
        &&& self.N == K
        &&& T::obeys_num_spec() ==> mul_vec_req(self@, rhs@)
    }

    open spec fn mul_spec(self, rhs: &'b Vec_<T, K>) -> Vec<T> {
        choose|r: Vec<T>| r@ == mul_vec_spec(self@, rhs@)
    }
}

impl<'a, 'b, T: NumLike, const K: usize> std::ops::Mul<&'b Vec_<T, K>> for &'a Mat<T> {
    type Output = Vec<T>;

    /// The product of the matrix and the vector of a fixed size, which is the
    /// number of the matrix's columns.
    fn mul(self, rhs: &'b Vec_<T, K>) -> (r: Vec<T>)
        ensures
            r@.len() == self.M,
            T::obeys_num_spec() ==> r@ == mul_vec_spec(self@, rhs@),
    {
        match self.transform(rhs) {
            Ok(r) => r,
            Err(_) => vstd::pervasive::unreached(),
        }
    }
}

/// Row `i` of a matrix of three rows, times row `j` of the matrix of its cofactors, is
/// the determinant where `i` is `j` and zero where it is not; the mathematical
/// integers `x00` to `x22` are the entries, and the sums are written out in the order
/// in which they are formed.
pub proof fn lemma_cofactor_rows_of_three(x00: int, x01: int, x02: int, x10: int, x11: int, x12: int, x20: int, x21: int, x22: int)
    ensures
        0 + x00 * ((x01 * x22 - x02 * x21) * -1) + x01 * (x00 * x22 - x02 * x20) + x02 * ((x00 * x21 - x01 * x20) * -1) == 0,
        0 + x00 * (x01 * x12 - x02 * x11) + x01 * ((x00 * x12 - x02 * x10) * -1) + x02 * (x00 * x11 - x01 * x10) == 0,
        0 + x10 * (x11 * x22 - x12 * x21) + x11 * ((x10 * x22 - x12 * x20) * -1) + x12 * (x10 * x21 - x11 * x20) == 0,
        0 + x10 * ((x01 * x22 - x02 * x21) * -1) + x11 * (x00 * x22 - x02 * x20) + x12 * ((x00 * x21 - x01 * x20) * -1) == 0 + x00 * (x11 * x22 - x12 * x21) + x01 * ((x10 * x22 - x12 * x20) * -1) + x02 * (x10 * x21 - x11 * x20),
        0 + x10 * (x01 * x12 - x02 * x11) + x11 * ((x00 * x12 - x02 * x10) * -1) + x12 * (x00 * x11 - x01 * x10) == 0,
        0 + x20 * (x11 * x22 - x12 * x21) + x21 * ((x10 * x22 - x12 * x20) * -1) + x22 * (x10 * x21 - x11 * x20) == 0,
        0 + x20 * ((x01 * x22 - x02 * x21) * -1) + x21 * (x00 * x22 - x02 * x20) + x22 * ((x00 * x21 - x01 * x20) * -1) == 0,
        0 + x20 * (x01 * x12 - x02 * x11) + x21 * ((x00 * x12 - x02 * x10) * -1) + x22 * (x00 * x11 - x01 * x10) == 0 + x00 * (x11 * x22 - x12 * x21) + x01 * ((x10 * x22 - x12 * x20) * -1) + x02 * (x10 * x21 - x11 * x20),
{
    assert(x00 * (x11 * x22 - x12 * x21) == x00 * x11 * x22 - x00 * x12 * x21) by (nonlinear_arith);
    assert(x01 * ((x10 * x22 - x12 * x20) * -1) == x01 * x12 * x20 - x01 * x10 * x22) by (nonlinear_arith);
    assert(x02 * (x10 * x21 - x11 * x20) == x02 * x10 * x21 - x02 * x11 * x20) by (nonlinear_arith);
    assert(x00 * ((x01 * x22 - x02 * x21) * -1) == x00 * x02 * x21 - x00 * x01 * x22) by (nonlinear_arith);
    assert(x01 * (x00 * x22 - x02 * x20) == x00 * x01 * x22 - x01 * x02 * x20) by (nonlinear_arith);
    assert(x02 * ((x00 * x21 - x01 * x20) * -1) == x01 * x02 * x20 - x00 * x02 * x21) by (nonlinear_arith);
    assert(x00 * (x01 * x12 - x02 * x11) == x00 * x01 * x12 - x00 * x02 * x11) by (nonlinear_arith);
    assert(x01 * ((x00 * x12 - x02 * x10) * -1) == x01 * x02 * x10 - x00 * x01 * x12) by (nonlinear_arith);
    assert(x02 * (x00 * x11 - x01 * x10) == x00 * x02 * x11 - x01 * x02 * x10) by (nonlinear_arith);
    assert(x10 * (x11 * x22 - x12 * x21) == x10 * x11 * x22 - x10 * x12 * x21) by (nonlinear_arith);
    assert(x11 * ((x10 * x22 - x12 * x20) * -1) == x11 * x12 * x20 - x10 * x11 * x22) by (nonlinear_arith);
    assert(x12 * (x10 * x21 - x11 * x20) == x10 * x12 * x21 - x11 * x12 * x20) by (nonlinear_arith);
    assert(x10 * ((x01 * x22 - x02 * x21) * -1) == x02 * x10 * x21 - x01 * x10 * x22) by (nonlinear_arith);
    assert(x11 * (x00 * x22 - x02 * x20) == x00 * x11 * x22 - x02 * x11 * x20) by (nonlinear_arith);
    assert(x12 * ((x00 * x21 - x01 * x20) * -1) == x01 * x12 * x20 - x00 * x12 * x21) by (nonlinear_arith);
    assert(x10 * (x01 * x12 - x02 * x11) == x01 * x10 * x12 - x02 * x10 * x11) by (nonlinear_arith);
    assert(x11 * ((x00 * x12 - x02 * x10) * -1) == x02 * x10 * x11 - x00 * x11 * x12) by (nonlinear_arith);
    assert(x12 * (x00 * x11 - x01 * x10) == x00 * x11 * x12 - x01 * x10 * x12) by (nonlinear_arith);
    assert(x20 * (x11 * x22 - x12 * x21) == x11 * x20 * x22 - x12 * x20 * x21) by (nonlinear_arith);
    assert(x21 * ((x10 * x22 - x12 * x20) * -1) == x12 * x20 * x21 - x10 * x21 * x22) by (nonlinear_arith);
    assert(x22 * (x10 * x21 - x11 * x20) == x10 * x21 * x22 - x11 * x20 * x22) by (nonlinear_arith);
    assert(x20 * ((x01 * x22 - x02 * x21) * -1) == x02 * x20 * x21 - x01 * x20 * x22) by (nonlinear_arith);
    assert(x21 * (x00 * x22 - x02 * x20) == x00 * x21 * x22 - x02 * x20 * x21) by (nonlinear_arith);
    assert(x22 * ((x00 * x21 - x01 * x20) * -1) == x01 * x20 * x22 - x00 * x21 * x22) by (nonlinear_arith);
    assert(x20 * (x01 * x12 - x02 * x11) == x01 * x12 * x20 - x02 * x11 * x20) by (nonlinear_arith);
    assert(x21 * ((x00 * x12 - x02 * x10) * -1) == x02 * x10 * x21 - x00 * x12 * x21) by (nonlinear_arith);
    assert(x22 * (x00 * x11 - x01 * x10) == x00 * x11 * x22 - x01 * x10 * x22) by (nonlinear_arith);
}

/// The determinant of the matrix of two rows that is left of `m`, a matrix of three
/// rows, without row `row` and column `col`, over the mathematical integers.
pub open spec fn minor_of_three(m: Seq<Seq<i64>>, row: int, col: int) -> int {
    m[skip(0, row)][skip(0, col)] * m[skip(1, row)][skip(1, col)] - m[skip(0, row)][skip(1, col)]
        * m[skip(1, row)][skip(0, col)]
}

/// The cofactor of the entry `(row, col)` of `m`, a matrix of three rows, over the
/// mathematical integers.
pub open spec fn cofactor_of_three(m: Seq<Seq<i64>>, row: int, col: int) -> int {
    if (row + col) % 2 == 0 {
        minor_of_three(m, row, col)
    } else {
        minor_of_three(m, row, col) * -1
    }
}

/// Row `i` of `m`, a matrix of three rows, times row `j` of the matrix of its
/// cofactors, over the mathematical integers.
pub open spec fn row_times_cofactors(m: Seq<Seq<i64>>, i: int, j: int) -> int {
    0 + m[i][0] * cofactor_of_three(m, j, 0) + m[i][1] * cofactor_of_three(m, j, 1) + m[i][2]
        * cofactor_of_three(m, j, 2)
}

/// Where it can be computed, the cofactor of a matrix of three rows of 64-bit
/// integers is the cofactor over the mathematical integers.
pub proof fn lemma_cofactor_of_three(m: Seq<Seq<i64>>, row: int, col: int)
    requires
        is_grid(m, 3, 3),
        0 <= row < 3,
        0 <= col < 3,
        cofactor_req(m, row, col),
    ensures
        cofactor_spec(m, row, col) == cofactor_of_three(m, row, col),
{
    let minor = minor_spec(m, row, col);
    assert(m[0].len() == 3);
    assert(minor.len() == 2);
    assert(minor[0][0] == m[skip(0, row)][skip(0, col)]);
    assert(minor[1][1] == m[skip(1, row)][skip(1, col)]);
    assert(minor[0][1] == m[skip(0, row)][skip(1, col)]);
    assert(minor[1][0] == m[skip(1, row)][skip(0, col)]);
    assert(det_req(minor));
    assert(det_spec(minor) == minor_of_three(m, row, col));
}

/// The matrix of the cofactors and the inverse: over the 64-bit integers, row `i` of
/// a matrix of three rows times row `j` of the matrix of its cofactors is the
/// determinant where `i` is `j`, and zero where it is not, wherever these can be
/// computed. So the matrix times the transposed matrix of its cofactors is the
/// determinant times the identity, which is what makes the cofactors over the
/// determinant, transposed, the inverse.
pub proof fn lemma_matrix_times_cofactors(m: Seq<Seq<i64>>, i: int, j: int)
    requires
        is_grid(m, 3, 3),
        0 <= i < 3,
        0 <= j < 3,
        det_req(m),
        adjugate_req(m),
        dot_req(m[i], adjugate_spec(m)[j], 3),
    ensures
        dot_spec(m[i], adjugate_spec(m)[j], 3) == (if i == j {
            det_spec(m)
        } else {
            0i64
        }),
{
    assert(m[0].len() == 3 && m[1].len() == 3 && m[2].len() == 3);
    assert forall|a: int, b: int| 0 <= a < 3 && 0 <= b < 3 implies #[trigger] cofactor_spec(m, a, b)
        == cofactor_of_three(m, a, b) by {
        assert(cofactor_req(m, a, b));
        lemma_cofactor_of_three(m, a, b);
    }
    let c = adjugate_spec(m)[j];
    assert(c[0] == cofactor_spec(m, j, 0) && c[1] == cofactor_spec(m, j, 1) && c[2]
        == cofactor_spec(m, j, 2));
    reveal_with_fuel(dot_spec, 4);
    reveal_with_fuel(dot_req, 4);
    reveal_with_fuel(expansion_spec, 4);
    reveal_with_fuel(expansion_req, 4);
    assert(dot_spec(m[i], c, 3) == row_times_cofactors(m, i, j));
    assert(det_spec(m) == expansion_spec(m, 3));
    assert(expansion_req(m, 3));
    assert(expansion_req(m, 2) && expansion_req(m, 1));
    assert(expansion_spec(m, 0) == 0i64);
    assert(expansion_spec(m, 1) == 0 + m[0][0] * cofactor_of_three(m, 0, 0));
    assert(expansion_spec(m, 2) == expansion_spec(m, 1) + m[0][1] * cofactor_of_three(m, 0, 1));
    assert(expansion_spec(m, 3) == expansion_spec(m, 2) + m[0][2] * cofactor_of_three(m, 0, 2));
    assert(det_spec(m) == row_times_cofactors(m, 0, 0));
    lemma_cofactor_rows_of_three(
        m[0][0] as int,
        m[0][1] as int,
        m[0][2] as int,
        m[1][0] as int,
        m[1][1] as int,
        m[1][2] as int,
        m[2][0] as int,
        m[2][1] as int,
        m[2][2] as int,
    );
    if i == 0 && j == 0 {
        assert(row_times_cofactors(m, i, j) == (if i == j {
            row_times_cofactors(m, 0, 0)
        } else {
            0
        }));
    }
    if i == 0 && j == 1 {
        assert(row_times_cofactors(m, i, j) == (if i == j {
            row_times_cofactors(m, 0, 0)
        } else {
            0
        }));
    }
    if i == 0 && j == 2 {
        assert(row_times_cofactors(m, i, j) == (if i == j {
            row_times_cofactors(m, 0, 0)
        } else {
            0
        }));
    }
    if i == 1 && j == 0 {
        assert(row_times_cofactors(m, i, j) == (if i == j {
            row_times_cofactors(m, 0, 0)
        } else {
            0
        }));
    }
    if i == 1 && j == 1 {
        assert(row_times_cofactors(m, i, j) == (if i == j {
            row_times_cofactors(m, 0, 0)
        } else {
            0
        }));
    }
    if i == 1 && j == 2 {
        assert(row_times_cofactors(m, i, j) == (if i == j {
            row_times_cofactors(m, 0, 0)
        } else {
            0
        }));
    }
    if i == 2 && j == 0 {
        assert(row_times_cofactors(m, i, j) == (if i == j {
            row_times_cofactors(m, 0, 0)
        } else {
            0
        }));
    }
    if i == 2 && j == 1 {
        assert(row_times_cofactors(m, i, j) == (if i == j {
            row_times_cofactors(m, 0, 0)
        } else {
            0
        }));
    }
    if i == 2 && j == 2 {
        assert(row_times_cofactors(m, i, j) == (if i == j {
            row_times_cofactors(m, 0, 0)
        } else {
            0
        }));
    }
}

/// The same for a matrix of one row: over the 64-bit integers its one cofactor is
/// one, and the entry times the cofactor is the determinant. So the inverse of such
/// a matrix holds one over its entry.
pub proof fn lemma_matrix_of_one_times_cofactors(m: Seq<Seq<i64>>)
    requires
        is_grid(m, 1, 1),
    ensures
        cofactor_spec(m, 0, 0) == 1i64,
        det_spec(m) == m[0][0],
        m[0][0].times_req(cofactor_spec(m, 0, 0)),
        m[0][0].times_spec(cofactor_spec(m, 0, 0)) == det_spec(m),
{
    assert(m[0].len() == 1);
    assert(minor_spec(m, 0, 0).len() == 0);
    assert(det_spec(minor_spec(m, 0, 0)) == 1i64);
}

/// The same for a matrix of two rows: over the 64-bit integers, row `i` times row `j`
/// of the matrix of its cofactors is the determinant where `i` is `j`, and zero where
/// it is not, wherever these can be computed.
pub proof fn lemma_matrix_of_two_times_cofactors(m: Seq<Seq<i64>>, i: int, j: int)
    requires
        is_grid(m, 2, 2),
        0 <= i < 2,
        0 <= j < 2,
        det_req(m),
        adjugate_req(m),
        dot_req(m[i], adjugate_spec(m)[j], 2),
    ensures
        dot_spec(m[i], adjugate_spec(m)[j], 2) == (if i == j {
            det_spec(m)
        } else {
            0i64
        }),
{
    assert(m[0].len() == 2 && m[1].len() == 2);
    let (a, b, c, d) = (m[0][0] as int, m[0][1] as int, m[1][0] as int, m[1][1] as int);
    assert forall|r: int, k: int| 0 <= r < 2 && 0 <= k < 2 implies #[trigger] cofactor_spec(m, r, k)
        == (if (r + k) % 2 == 0 {
        m[1 - r][1 - k] as int
    } else {
        m[1 - r][1 - k] * -1
    }) by {
        assert(cofactor_req(m, r, k));
        let minor = minor_spec(m, r, k);
        assert(minor.len() == 1);
        assert(minor[0][0] == m[skip(0, r)][skip(0, k)]);
    }
    let row = adjugate_spec(m)[j];
    assert(row[0] == cofactor_spec(m, j, 0) && row[1] == cofactor_spec(m, j, 1));
    reveal_with_fuel(dot_spec, 3);
    reveal_with_fuel(dot_req, 3);
    assert(b * (c * -1) == 0 - b * c) by (nonlinear_arith);
    assert(a * (b * -1) + b * a == 0) by (nonlinear_arith);
    assert(c * d + d * (c * -1) == 0) by (nonlinear_arith);
    assert(c * (b * -1) + d * a == a * d - b * c) by (nonlinear_arith);
}

} // verus!
