//! Dense matrices of fixed-point scalars, stored row-major, with the
//! three operations the network needs: matrix-vector product,
//! transposed matrix-vector product, and an in-place rank-one update.

use vstd::prelude::*;
use vstd::arithmetic::div_mod::lemma_fundamental_div_mod_converse;
use crate::fixed::{fx_add, fx_mul, sat_i128, fx_add_spec, fx_mul_spec, sat64};

verus! {

/// A saturating fixed-point dot product: the exact sum of the
/// fixed-point products, clamped once at the end.
pub open spec fn dot_spec(w: Seq<i64>, x: Seq<i64>) -> int
    recommends
        w.len() == x.len(),
    decreases w.len(),
{
    if w.len() == 0 {
        0
    } else {
        dot_spec(w.drop_last(), x.drop_last()) + fx_mul_spec(w.last() as int, x.last() as int)
    }
}

/// A row-major matrix of fixed-point scalars.
#[derive(Debug)]
pub struct Matrix {
    rows: usize,
    cols: usize,
    data: Vec<i64>,
}

impl View for Matrix {
    type V = Seq<i64>;

    closed spec fn view(&self) -> Seq<i64> {
        self.data@
    }
}

/// A flat row-major index stays inside the matrix.
pub proof fn lemma_index_bound(r: int, c: int, rows: int, cols: int)
    by (nonlinear_arith)
    requires
        0 <= r < rows,
        0 <= c < cols,
    ensures
        0 <= r * cols + c,
        r * cols + c < rows * cols,
{
}

/// Splitting a flat index below `rows * cols` by the column count
/// lands on a valid row and column.
proof fn lemma_flat_decompose(k: int, rows: int, cols: int)
    by (nonlinear_arith)
    requires
        0 <= k,
        cols > 0,
        k < rows * cols,
    ensures
        0 <= k / cols < rows,
        0 <= k % cols < cols,
        k == (k / cols) * cols + k % cols,
{
}

/// A well-formed matrix's entry count fits in a `usize`, since the
/// entries are held in one vector.
proof fn lemma_total_fits(m: Matrix)
    requires
        m.wf(),
    ensures
        m.spec_rows() * m.spec_cols() <= usize::MAX,
{
    assert(m.data.len() == m@.len());
}

/// A row is `spec_cols()` long and reads the flat entries.
proof fn lemma_row_props(m: Matrix, r: int)
    requires
        m.wf(),
        0 <= r < m.spec_rows(),
    ensures
        m.row(r).len() == m.spec_cols(),
        forall|c: int| 0 <= c < m.spec_cols() ==> #[trigger] m.row(r)[c] == m.entry(r, c),
{
    let cols = m.spec_cols();
    assert((r + 1) * cols == r * cols + cols) by (nonlinear_arith);
    assert((r + 1) * cols <= m.spec_rows() * cols) by (nonlinear_arith)
        requires
            r + 1 <= m.spec_rows(),
            cols >= 0,
    ;
    assert(0 <= r * cols) by (nonlinear_arith)
        requires
            r >= 0,
            cols >= 0,
    ;
}

/// Every partial dot product stays within `len` times the scalar range.
proof fn lemma_dot_bound(w: Seq<i64>, x: Seq<i64>)
    requires
        w.len() == x.len(),
    ensures
        -(w.len() as int) * 0x8000_0000_0000_0000 <= dot_spec(w, x),
        dot_spec(w, x) <= w.len() as int * 0x8000_0000_0000_0000,
    decreases w.len(),
{
    if w.len() > 0 {
        lemma_dot_bound(w.drop_last(), x.drop_last());
    }
}

/// Extending both prefixes by one position adds one product term.
proof fn lemma_dot_step(w: Seq<i64>, x: Seq<i64>, c: int)
    requires
        w.len() == x.len(),
        0 <= c < w.len(),
    ensures
        dot_spec(w.take(c + 1), x.take(c + 1)) == dot_spec(w.take(c), x.take(c))
            + fx_mul_spec(w[c] as int, x[c] as int),
{
    assert(w.take(c + 1).drop_last() =~= w.take(c));
    assert(x.take(c + 1).drop_last() =~= x.take(c));
}

impl Matrix {
    pub closed spec fn spec_rows(self) -> int {
        self.rows as int
    }

    pub closed spec fn spec_cols(self) -> int {
        self.cols as int
    }

    /// The stored entries fill the stated shape exactly.
    pub open spec fn wf(self) -> bool {
        self@.len() == self.spec_rows() * self.spec_cols()
    }

    /// One row, as a sequence of `spec_cols()` scalars.
    pub open spec fn row(self, r: int) -> Seq<i64>
        recommends
            self.wf(),
            0 <= r < self.spec_rows(),
    {
        self@.subrange(r * self.spec_cols(), (r + 1) * self.spec_cols())
    }

    /// One column, as a sequence of `spec_rows()` scalars.
    pub open spec fn col(self, c: int) -> Seq<i64>
        recommends
            self.wf(),
            0 <= c < self.spec_cols(),
    {
        Seq::new(self.spec_rows() as nat, |r: int| self.entry(r, c))
    }

    pub open spec fn entry(self, r: int, c: int) -> i64
        recommends
            self.wf(),
            0 <= r < self.spec_rows(),
            0 <= c < self.spec_cols(),
    {
        self@[r * self.spec_cols() + c]
    }

    pub fn from_vec(rows: usize, cols: usize, data: Vec<i64>) -> (m: Matrix)
        requires
            data@.len() == rows * cols,
        ensures
            m.wf(),
            m.spec_rows() == rows,
            m.spec_cols() == cols,
            m@ == data@,
    {
        Matrix { rows, cols, data }
    }

    pub fn rows(&self) -> (r: usize)
        ensures
            r == self.spec_rows(),
    {
        self.rows
    }

    pub fn cols(&self) -> (r: usize)
        ensures
            r == self.spec_cols(),
    {
        self.cols
    }

    /// The entries in row-major order.
    pub fn entries(&self) -> (r: &Vec<i64>)
        ensures
            r@ == self@,
    {
        &self.data
    }

    pub fn get(&self, r: usize, c: usize) -> (v: i64)
        requires
            self.wf(),
            r < self.spec_rows(),
            c < self.spec_cols(),
        ensures
            v == self.entry(r as int, c as int),
    {
        proof {
            lemma_total_fits(*self);
            lemma_index_bound(r as int, c as int, self.spec_rows(), self.spec_cols());
        }
        self.data[r * self.cols + c]
    }

    /// The matrix-vector product, each entry a saturating dot product
    /// of one row with `x`.
    pub fn mat_vec(&self, x: &Vec<i64>) -> (out: Vec<i64>)
        requires
            self.wf(),
            x@.len() == self.spec_cols(),
        ensures
            out@.len() == self.spec_rows(),
            forall|i: int|
                0 <= i < self.spec_rows() ==> (#[trigger] out@[i]) as int == sat64(
                    dot_spec(self.row(i), x@),
                ),
    {
        let rows: usize = self.rows;
        let cols: usize = self.cols;
        let mut out: Vec<i64> = Vec::new();
        let mut r: usize = 0;
        while r < rows
            invariant
                self.wf(),
                x@.len() == self.spec_cols(),
                rows == self.spec_rows(),
                cols == self.spec_cols(),
                r <= rows,
                out@.len() == r,
                forall|i: int|
                    0 <= i < r ==> (#[trigger] out@[i]) as int == sat64(
                        dot_spec(self.row(i), x@),
                    ),
            decreases rows - r,
        {
            let mut acc: i128 = 0;
            let mut c: usize = 0;
            while c < cols
                invariant
                    self.wf(),
                    x@.len() == self.spec_cols(),
                    rows == self.spec_rows(),
                    cols == self.spec_cols(),
                    r < rows,
                    c <= cols,
                    acc as int == dot_spec(self.row(r as int).take(c as int), x@.take(c as int)),
                decreases cols - c,
            {
                proof {
                    lemma_total_fits(*self);
                    lemma_row_props(*self, r as int);
                    lemma_index_bound(r as int, c as int, rows as int, cols as int);
                    lemma_dot_bound(self.row(r as int).take(c as int), x@.take(c as int));
                    lemma_dot_step(self.row(r as int), x@, c as int);
                    assert((c as int + 1) * 0x8000_0000_0000_0000
                        <= 0x1_0000_0000_0000_0000 * 0x8000_0000_0000_0000);
                }
                let idx: usize = r * cols + c;
                let term: i64 = fx_mul(self.data[idx], x[c]);
                acc = acc + term as i128;
                c += 1;
            }
            proof {
                lemma_row_props(*self, r as int);
                assert(self.row(r as int).take(cols as int) =~= self.row(r as int));
                assert(x@.take(cols as int) =~= x@);
            }
            out.push(sat_i128(acc));
            r += 1;
        }
        out
    }

    /// The transposed matrix-vector product, each entry a saturating
    /// dot product of one column with `y`.
    pub fn t_vec(&self, y: &Vec<i64>) -> (out: Vec<i64>)
        requires
            self.wf(),
            y@.len() == self.spec_rows(),
        ensures
            out@.len() == self.spec_cols(),
            forall|j: int|
                0 <= j < self.spec_cols() ==> (#[trigger] out@[j]) as int == sat64(
                    dot_spec(self.col(j), y@),
                ),
    {
        let rows: usize = self.rows;
        let cols: usize = self.cols;
        let mut out: Vec<i64> = Vec::new();
        let mut c: usize = 0;
        while c < cols
            invariant
                self.wf(),
                y@.len() == self.spec_rows(),
                rows == self.spec_rows(),
                cols == self.spec_cols(),
                c <= cols,
                out@.len() == c,
                forall|j: int|
                    0 <= j < c ==> (#[trigger] out@[j]) as int == sat64(
                        dot_spec(self.col(j), y@),
                    ),
            decreases cols - c,
        {
            let mut acc: i128 = 0;
            let mut r: usize = 0;
            while r < rows
                invariant
                    self.wf(),
                    y@.len() == self.spec_rows(),
                    rows == self.spec_rows(),
                    cols == self.spec_cols(),
                    c < cols,
                    r <= rows,
                    acc as int == dot_spec(self.col(c as int).take(r as int), y@.take(r as int)),
                decreases rows - r,
            {
                proof {
                    lemma_total_fits(*self);
                    lemma_index_bound(r as int, c as int, rows as int, cols as int);
                    lemma_dot_bound(self.col(c as int).take(r as int), y@.take(r as int));
                    lemma_dot_step(self.col(c as int), y@, r as int);
                    assert((r as int + 1) * 0x8000_0000_0000_0000
                        <= 0x1_0000_0000_0000_0000 * 0x8000_0000_0000_0000);
                }
                let idx: usize = r * cols + c;
                let term: i64 = fx_mul(self.data[idx], y[r]);
                acc = acc + term as i128;
                r += 1;
            }
            proof {
                assert(self.col(c as int).take(rows as int) =~= self.col(c as int));
                assert(y@.take(rows as int) =~= y@);
            }
            out.push(sat_i128(acc));
            c += 1;
        }
        out
    }

    /// Add the outer product of `g` and `b` to the matrix, entry by
    /// entry: each weight gains the fixed-point product of its row's
    /// coefficient and its column's coefficient.
    pub fn add_outer(&mut self, g: &Vec<i64>, b: &Vec<i64>)
        requires
            old(self).wf(),
            g@.len() == old(self).spec_rows(),
            b@.len() == old(self).spec_cols(),
        ensures
            final(self).wf(),
            final(self).spec_rows() == old(self).spec_rows(),
            final(self).spec_cols() == old(self).spec_cols(),
            forall|rr: int, cc: int|
                0 <= rr < old(self).spec_rows() && 0 <= cc < old(self).spec_cols()
                    ==> (#[trigger] final(self).entry(rr, cc)) as int == fx_add_spec(
                    old(self).entry(rr, cc) as int,
                    fx_mul_spec(g@[rr] as int, b@[cc] as int),
                ),
    {
        let rows: usize = self.rows;
        let cols: usize = self.cols;
        let total: usize = self.data.len();
        let mut new_data: Vec<i64> = Vec::new();
        let mut k: usize = 0;
        while k < total
            invariant
                self == old(self),
                self.wf(),
                g@.len() == self.spec_rows(),
                b@.len() == self.spec_cols(),
                rows == self.spec_rows(),
                cols == self.spec_cols(),
                total == self@.len(),
                k <= total,
                new_data@.len() == k,
                forall|rr: int, cc: int|
                    0 <= rr && 0 <= cc < cols && rr * cols as int + cc < k
                        ==> (#[trigger] new_data@[rr * cols as int + cc]) as int == fx_add_spec(
                        self@[rr * cols as int + cc] as int,
                        fx_mul_spec(g@[rr] as int, b@[cc] as int),
                    ),
            decreases total - k,
        {
            proof {
                lemma_flat_decompose(k as int, rows as int, cols as int);
            }
            let row_i: usize = k / cols;
            let col_i: usize = k % cols;
            let val: i64 = fx_add(self.data[k], fx_mul(g[row_i], b[col_i]));
            new_data.push(val);
            proof {
                assert forall|rr: int, cc: int|
                    0 <= rr && 0 <= cc < cols && rr * cols as int + cc < k + 1 implies (
                #[trigger] new_data@[rr * cols as int + cc]) as int == fx_add_spec(
                    self@[rr * cols as int + cc] as int,
                    fx_mul_spec(g@[rr] as int, b@[cc] as int),
                ) by {
                    if rr * cols as int + cc == k {
                        lemma_fundamental_div_mod_converse(k as int, cols as int, rr, cc);
                    }
                }
            }
            k += 1;
        }
        self.data = new_data;
        proof {
            assert forall|rr: int, cc: int|
                0 <= rr < self.spec_rows() && 0 <= cc < self.spec_cols() implies (
            #[trigger] self.entry(rr, cc)) as int == fx_add_spec(
                old(self).entry(rr, cc) as int,
                fx_mul_spec(g@[rr] as int, b@[cc] as int),
            ) by {
                lemma_index_bound(rr, cc, self.spec_rows(), self.spec_cols());
            }
        }
    }
}

} // verus!
