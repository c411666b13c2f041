//! Dense row-major matrices of fixed-point values.
use vstd::prelude::*;

use crate::fixed::{
    ONE,
    fixed_add, fixed_mul, fixed_sub, fx_add, fx_mul, fx_sub, leaky_relu, leaky_relu_prime,
    leaky_relu_prime_spec, leaky_relu_spec,
};

verus! {

/// The ways a matrix operation can refuse its operands.
#[derive(Debug, Clone, Copy, PartialEq, Eq, Structural)]
pub enum MatrixError {
    /// A grid handed to `set_matrix` does not have the matrix's dimensions.
    Shape,
    /// The operands of an arithmetic operation have incompatible dimensions.
    ShapeMismatch,
    /// An index lies outside the matrix.
    OutOfBounds,
}

/// True when `m` has `rows` rows of `cols` entries each.
pub open spec fn shaped(m: Seq<Seq<i64>>, rows: nat, cols: nat) -> bool {
    &&& m.len() == rows
    &&& forall|i: int| 0 <= i < m.len() ==> (#[trigger] m[i]).len() == cols
}

/// The `rows` by `cols` grid of zeros.
pub open spec fn zeros(rows: nat, cols: nat) -> Seq<Seq<i64>> {
    Seq::new(rows, |i: int| Seq::new(cols, |j: int| 0i64))
}

/// The values held by a sequence of rows.
pub open spec fn rows_view(v: Seq<Vec<i64>>) -> Seq<Seq<i64>> {
    v.map_values(|r: Vec<i64>| r@)
}

/// A dense matrix of fixed-point values (see `crate::fixed`), stored row by
/// row.
pub struct Matrix {
    rows: usize,
    columns: usize,
    matrix: Vec<Vec<i64>>,
}

impl View for Matrix {
    type V = Seq<Seq<i64>>;

    closed spec fn view(&self) -> Seq<Seq<i64>> {
        rows_view(self.matrix@)
    }
}

impl Matrix {
    /// The number of rows.
    pub closed spec fn nrows(&self) -> nat {
        self.rows as nat
    }

    /// The number of columns.
    pub closed spec fn ncols(&self) -> nat {
        self.columns as nat
    }

    /// Every row holds exactly `ncols()` entries.
    pub open spec fn wf(&self) -> bool {
        shaped(self@, self.nrows(), self.ncols())
    }

    /// A `rows` by `columns` matrix of zeros.
    pub fn new(rows: usize, columns: usize) -> (m: Matrix)
        ensures
            m.wf(),
            m.nrows() == rows,
            m.ncols() == columns,
            m@ == zeros(rows as nat, columns as nat),
    {
        let mut matrix: Vec<Vec<i64>> = Vec::new();
        for i in 0..rows
            invariant
                matrix@.len() == i,
                forall|k: int| 0 <= k < i ==> (#[trigger] matrix@[k])@ == Seq::new(columns as nat, |j: int| 0i64),
        {
            let mut row: Vec<i64> = Vec::new();
            for j in 0..columns
                invariant
                    row@ == Seq::new(j as nat, |t: int| 0i64),
            {
                row.push(0);
                assert(row@ =~= Seq::new((j + 1) as nat, |t: int| 0i64));
            }
            matrix.push(row);
        }
        let m = Matrix { rows, columns, matrix };
        assert(m@ =~= zeros(rows as nat, columns as nat));
        m
    }

    /// The number of rows.
    pub fn rows(&self) -> (r: usize)
        ensures
            r == self.nrows(),
    {
        self.rows
    }

    /// The number of columns.
    pub fn columns(&self) -> (r: usize)
        ensures
            r == self.ncols(),
    {
        self.columns
    }
}

impl Matrix {
    /// Replaces every entry by the corresponding one of `matrix`, which must
    /// have exactly this matrix's dimensions; otherwise nothing changes.
    pub fn set_matrix(&mut self, matrix: Vec<Vec<i64>>) -> (r: Result<(), MatrixError>)
        requires
            old(self).wf(),
        ensures
            final(self).wf(),
            final(self).nrows() == old(self).nrows(),
            final(self).ncols() == old(self).ncols(),
            r is Ok <==> shaped(rows_view(matrix@), old(self).nrows(), old(self).ncols()),
            r is Ok ==> final(self)@ == rows_view(matrix@),
            r is Err ==> r == Err::<(), MatrixError>(MatrixError::Shape) && *final(self) == *old(self),
    {
        if matrix.len() != self.rows {
            return Err(MatrixError::Shape);
        }
        for i in 0..matrix.len()
            invariant
                self.wf(),
                matrix@.len() == self.rows,
                forall|k: int| 0 <= k < i ==> (#[trigger] matrix@[k])@.len() == self.columns,
        {
            if matrix[i].len() != self.columns {
                assert(rows_view(matrix@)[i as int].len() != self.columns);
                return Err(MatrixError::Shape);
            }
        }
        self.matrix = matrix;
        Ok(())
    }

    /// Sets the entry at (`row`, `column`) to `value`, or reports that the
    /// position lies outside the matrix.
    pub fn set_value(&mut self, row: usize, column: usize, value: i64) -> (r: Result<(), MatrixError>)
        requires
            old(self).wf(),
        ensures
            final(self).wf(),
            final(self).nrows() == old(self).nrows(),
            final(self).ncols() == old(self).ncols(),
            r is Ok <==> row < old(self).nrows() && column < old(self).ncols(),
            r is Ok ==> final(self)@ == old(self)@.update(row as int, old(self)@[row as int].update(column as int, value)),
            r is Err ==> r == Err::<(), MatrixError>(MatrixError::OutOfBounds) && *final(self) == *old(self),
    {
        if row >= self.rows || column >= self.columns {
            return Err(MatrixError::OutOfBounds);
        }
        assert(self.matrix@[row as int]@ == self@[row as int]);
        self.matrix[row][column] = value;
        assert(self@ =~= old(self)@.update(row as int, old(self)@[row as int].update(column as int, value)));
        Ok(())
    }

    /// A copy of the entries, row by row.
    pub fn get_matrix(&self) -> (r: Vec<Vec<i64>>)
        requires
            self.wf(),
        ensures
            rows_view(r@) == self@,
    {
        let mut out: Vec<Vec<i64>> = Vec::new();
        for i in 0..self.rows
            invariant
                self.wf(),
                out@.len() == i,
                forall|k: int| 0 <= k < i ==> (#[trigger] out@[k])@ == self@[k],
        {
            let mut row: Vec<i64> = Vec::new();
            for j in 0..self.columns
                invariant
                    self.wf(),
                    0 <= i < self.rows,
                    row@ == self@[i as int].subrange(0, j as int),
            {
                row.push(self.matrix[i][j]);
                assert(row@ =~= self@[i as int].subrange(0, j + 1));
            }
            assert(row@ =~= self@[i as int]);
            out.push(row);
        }
        assert(rows_view(out@) =~= self@);
        out
    }

    /// The entry at (`row`, `column`), or `None` outside the matrix.
    pub fn get_value(&self, row: usize, column: usize) -> (r: Option<i64>)
        requires
            self.wf(),
        ensures
            r is Some <==> row < self.nrows() && column < self.ncols(),
            r is Some ==> r == Some(self@[row as int][column as int]),
    {
        if row >= self.rows || column >= self.columns {
            return None;
        }
        assert(self.matrix@[row as int]@ == self@[row as int]);
        Some(self.matrix[row][column])
    }

    /// A deep copy of this matrix.
    pub fn duplicate(&self) -> (r: Matrix)
        requires
            self.wf(),
        ensures
            r.wf(),
            r.nrows() == self.nrows(),
            r.ncols() == self.ncols(),
            r@ == self@,
    {
        Matrix { rows: self.rows, columns: self.columns, matrix: self.get_matrix() }
    }
}

/// Relies on rand::Rng::gen_range, on the generator of rand::thread_rng: a
/// value drawn from `low..high`, which is in that range; the range must not be
/// empty, or the call panics.
#[verifier::external_body]
fn random_in(low: i64, high: i64) -> (r: i64)
    requires
        low < high,
    ensures
        low <= r < high,
{
    rand::Rng::gen_range(&mut rand::thread_rng(), low..high)
}

/// The entrywise saturating sum of `a` and `b`.
pub open spec fn sum_spec(a: Seq<Seq<i64>>, b: Seq<Seq<i64>>) -> Seq<Seq<i64>> {
    Seq::new(a.len(), |i: int| Seq::new(a[i].len(), |j: int| fx_add(a[i][j], b[i][j])))
}

/// The entrywise saturating difference of `a` and `b`.
pub open spec fn difference_spec(a: Seq<Seq<i64>>, b: Seq<Seq<i64>>) -> Seq<Seq<i64>> {
    Seq::new(a.len(), |i: int| Seq::new(a[i].len(), |j: int| fx_sub(a[i][j], b[i][j])))
}

/// The entrywise (Hadamard) product of `a` and `b`.
pub open spec fn hadamard_spec(a: Seq<Seq<i64>>, b: Seq<Seq<i64>>) -> Seq<Seq<i64>> {
    Seq::new(a.len(), |i: int| Seq::new(a[i].len(), |j: int| fx_mul(a[i][j], b[i][j])))
}

/// Every entry of `a` multiplied by `x`.
pub open spec fn scale_spec(a: Seq<Seq<i64>>, x: i64) -> Seq<Seq<i64>> {
    Seq::new(a.len(), |i: int| Seq::new(a[i].len(), |j: int| fx_mul(a[i][j], x)))
}

/// The leaky rectifier applied to every entry of `a`.
pub open spec fn activate_spec(a: Seq<Seq<i64>>) -> Seq<Seq<i64>> {
    Seq::new(a.len(), |i: int| Seq::new(a[i].len(), |j: int| leaky_relu_spec(a[i][j])))
}

/// The derivative of the leaky rectifier applied to every entry of `a`.
pub open spec fn activate_prime_spec(a: Seq<Seq<i64>>) -> Seq<Seq<i64>> {
    Seq::new(a.len(), |i: int| Seq::new(a[i].len(), |j: int| leaky_relu_prime_spec(a[i][j])))
}

/// The transpose of `a`, a matrix with `cols` columns.
pub open spec fn transpose_spec(a: Seq<Seq<i64>>, cols: nat) -> Seq<Seq<i64>> {
    Seq::new(cols, |j: int| Seq::new(a.len(), |i: int| a[i][j]))
}

/// The first `n` terms of the product of row `x` with column `l` of `b`,
/// accumulated in order with saturating arithmetic.
pub open spec fn dot(x: Seq<i64>, b: Seq<Seq<i64>>, l: int, n: nat) -> i64
    decreases n,
{
    if n == 0 {
        0
    } else {
        fx_add(dot(x, b, l, (n - 1) as nat), fx_mul(x[n - 1], b[n - 1][l]))
    }
}

/// The product of `a` with `b`, a matrix with `cols` columns.
pub open spec fn product_spec(a: Seq<Seq<i64>>, b: Seq<Seq<i64>>, cols: nat) -> Seq<Seq<i64>> {
    Seq::new(a.len(), |i: int| Seq::new(cols, |l: int| dot(a[i], b, l, b.len())))
}

/// `w` with the scaled outer product of the first rows of `u` and `v` added:
/// entry (`k`, `j`) gains `rate * u[0][k] * v[0][j]`, multiplied left to right.
pub open spec fn outer_update_spec(w: Seq<Seq<i64>>, u: Seq<Seq<i64>>, v: Seq<Seq<i64>>, rate: i64) -> Seq<Seq<i64>> {
    Seq::new(w.len(), |k: int| Seq::new(w[k].len(), |j: int| fx_add(w[k][j], fx_mul(fx_mul(rate, u[0][k]), v[0][j]))))
}

enum Pointwise {
    Sum,
    Difference,
    Product,
}

spec fn pointwise_spec(op: Pointwise, x: i64, y: i64) -> i64 {
    match op {
        Pointwise::Sum => fx_add(x, y),
        Pointwise::Difference => fx_sub(x, y),
        Pointwise::Product => fx_mul(x, y),
    }
}

enum Elementwise {
    Scale(i64),
    Activate,
    ActivatePrime,
}

spec fn elementwise_spec(op: Elementwise, x: i64) -> i64 {
    match op {
        Elementwise::Scale(c) => fx_mul(x, c),
        Elementwise::Activate => leaky_relu_spec(x),
        Elementwise::ActivatePrime => leaky_relu_prime_spec(x),
    }
}

impl Matrix {
    fn pointwise(a: &Matrix, b: &Matrix, op: Pointwise) -> (r: Matrix)
        requires
            a.wf(),
            b.wf(),
            a.nrows() == b.nrows(),
            a.ncols() == b.ncols(),
        ensures
            r.wf(),
            r.nrows() == a.nrows(),
            r.ncols() == a.ncols(),
            forall|i: int, j: int|
                0 <= i < a.nrows() && 0 <= j < a.ncols() ==> #[trigger] r@[i][j] == pointwise_spec(
                    op,
                    a@[i][j],
                    b@[i][j],
                ),
    {
        let mut out: Vec<Vec<i64>> = Vec::new();
        for i in 0..a.rows
            invariant
                a.wf(),
                b.wf(),
                a.nrows() == b.nrows(),
                a.ncols() == b.ncols(),
                out@.len() == i,
                forall|k: int| 0 <= k < i ==> (#[trigger] out@[k])@.len() == a.ncols(),
                forall|k: int, j: int|
                    0 <= k < i && 0 <= j < a.ncols() ==> #[trigger] out@[k]@[j] == pointwise_spec(
                        op,
                        a@[k][j],
                        b@[k][j],
                    ),
        {
            assert(a.matrix@[i as int]@ == a@[i as int]);
            assert(b.matrix@[i as int]@ == b@[i as int]);
            let mut row: Vec<i64> = Vec::new();
            for j in 0..a.columns
                invariant
                    a.wf(),
                    b.wf(),
                    a.nrows() == b.nrows(),
                    a.ncols() == b.ncols(),
                    0 <= i < a.nrows(),
                    a.matrix@[i as int]@ == a@[i as int],
                    b.matrix@[i as int]@ == b@[i as int],
                    row@.len() == j,
                    forall|t: int| 0 <= t < j ==> #[trigger] row@[t] == pointwise_spec(
                        op,
                        a@[i as int][t],
                        b@[i as int][t],
                    ),
            {
                let x = a.matrix[i][j];
                let y = b.matrix[i][j];
                let v = match op {
                    Pointwise::Sum => fixed_add(x, y),
                    Pointwise::Difference => fixed_sub(x, y),
                    Pointwise::Product => fixed_mul(x, y),
                };
                row.push(v);
            }
            out.push(row);
        }
        Matrix { rows: a.rows, columns: a.columns, matrix: out }
    }

    fn elementwise(a: &Matrix, op: Elementwise) -> (r: Matrix)
        requires
            a.wf(),
        ensures
            r.wf(),
            r.nrows() == a.nrows(),
            r.ncols() == a.ncols(),
            forall|i: int, j: int|
                0 <= i < a.nrows() && 0 <= j < a.ncols() ==> #[trigger] r@[i][j] == elementwise_spec(
                    op,
                    a@[i][j],
                ),
    {
        let mut out: Vec<Vec<i64>> = Vec::new();
        for i in 0..a.rows
            invariant
                a.wf(),
                out@.len() == i,
                forall|k: int| 0 <= k < i ==> (#[trigger] out@[k])@.len() == a.ncols(),
                forall|k: int, j: int|
                    0 <= k < i && 0 <= j < a.ncols() ==> #[trigger] out@[k]@[j] == elementwise_spec(
                        op,
                        a@[k][j],
                    ),
        {
            assert(a.matrix@[i as int]@ == a@[i as int]);
            let mut row: Vec<i64> = Vec::new();
            for j in 0..a.columns
                invariant
                    a.wf(),
                    0 <= i < a.nrows(),
                    a.matrix@[i as int]@ == a@[i as int],
                    row@.len() == j,
                    forall|t: int| 0 <= t < j ==> #[trigger] row@[t] == elementwise_spec(op, a@[i as int][t]),
            {
                let x = a.matrix[i][j];
                let v = match op {
                    Elementwise::Scale(c) => fixed_mul(x, c),
                    Elementwise::Activate => leaky_relu(x),
                    Elementwise::ActivatePrime => leaky_relu_prime(x),
                };
                row.push(v);
            }
            out.push(row);
        }
        Matrix { rows: a.rows, columns: a.columns, matrix: out }
    }

    /// The entrywise sum of two matrices of the same dimensions.
    pub fn add(a: &Matrix, b: &Matrix) -> (r: Result<Matrix, MatrixError>)
        requires
            a.wf(),
            b.wf(),
        ensures
            match r {
                Ok(m) => {
                    &&& a.nrows() == b.nrows() && a.ncols() == b.ncols()
                    &&& m.wf() && m.nrows() == a.nrows() && m.ncols() == a.ncols()
                    &&& m@ == sum_spec(a@, b@)
                },
                Err(e) => e == MatrixError::ShapeMismatch && !(a.nrows() == b.nrows()
                    && a.ncols() == b.ncols()),
            },
    {
        if a.rows != b.rows || a.columns != b.columns {
            return Err(MatrixError::ShapeMismatch);
        }
        let m = Matrix::pointwise(a, b, Pointwise::Sum);
        assert(m@ =~~= sum_spec(a@, b@));
        Ok(m)
    }

    /// The entrywise difference of two matrices of the same dimensions.
    pub fn subtract(a: &Matrix, b: &Matrix) -> (r: Result<Matrix, MatrixError>)
        requires
            a.wf(),
            b.wf(),
        ensures
            match r {
                Ok(m) => {
                    &&& a.nrows() == b.nrows() && a.ncols() == b.ncols()
                    &&& m.wf() && m.nrows() == a.nrows() && m.ncols() == a.ncols()
                    &&& m@ == difference_spec(a@, b@)
                },
                Err(e) => e == MatrixError::ShapeMismatch && !(a.nrows() == b.nrows()
                    && a.ncols() == b.ncols()),
            },
    {
        if a.rows != b.rows || a.columns != b.columns {
            return Err(MatrixError::ShapeMismatch);
        }
        let m = Matrix::pointwise(a, b, Pointwise::Difference);
        assert(m@ =~~= difference_spec(a@, b@));
        Ok(m)
    }

    /// The entrywise (Hadamard) product of two matrices of the same
    /// dimensions.
    pub fn hadamard_product(a: &Matrix, b: &Matrix) -> (r: Result<Matrix, MatrixError>)
        requires
            a.wf(),
            b.wf(),
        ensures
            match r {
                Ok(m) => {
                    &&& a.nrows() == b.nrows() && a.ncols() == b.ncols()
                    &&& m.wf() && m.nrows() == a.nrows() && m.ncols() == a.ncols()
                    &&& m@ == hadamard_spec(a@, b@)
                },
                Err(e) => e == MatrixError::ShapeMismatch && !(a.nrows() == b.nrows()
                    && a.ncols() == b.ncols()),
            },
    {
        if a.rows != b.rows || a.columns != b.columns {
            return Err(MatrixError::ShapeMismatch);
        }
        let m = Matrix::pointwise(a, b, Pointwise::Product);
        assert(m@ =~~= hadamard_spec(a@, b@));
        Ok(m)
    }

    /// Every entry of `a` multiplied by the scalar `x`.
    pub fn scalar(a: &Matrix, x: i64) -> (m: Matrix)
        requires
            a.wf(),
        ensures
            m.wf(),
            m.nrows() == a.nrows(),
            m.ncols() == a.ncols(),
            m@ == scale_spec(a@, x),
    {
        let m = Matrix::elementwise(a, Elementwise::Scale(x));
        assert(m@ =~~= scale_spec(a@, x));
        m
    }

    /// The leaky rectifier applied to every entry of `a`.
    pub fn activate(a: &Matrix) -> (m: Matrix)
        requires
            a.wf(),
        ensures
            m.wf(),
            m.nrows() == a.nrows(),
            m.ncols() == a.ncols(),
            m@ == activate_spec(a@),
    {
        let m = Matrix::elementwise(a, Elementwise::Activate);
        assert(m@ =~~= activate_spec(a@));
        m
    }

    /// The derivative of the leaky rectifier applied to every entry of `a`.
    pub fn activate_prime(a: &Matrix) -> (m: Matrix)
        requires
            a.wf(),
        ensures
            m.wf(),
            m.nrows() == a.nrows(),
            m.ncols() == a.ncols(),
            m@ == activate_prime_spec(a@),
    {
        let m = Matrix::elementwise(a, Elementwise::ActivatePrime);
        assert(m@ =~~= activate_prime_spec(a@));
        m
    }

    /// The transpose of `a`: entry (`j`, `i`) of the result is entry
    /// (`i`, `j`) of `a`.
    pub fn transpose(a: &Matrix) -> (m: Matrix)
        requires
            a.wf(),
        ensures
            m.wf(),
            m.nrows() == a.ncols(),
            m.ncols() == a.nrows(),
            m@ == transpose_spec(a@, a.ncols()),
    {
        let mut out: Vec<Vec<i64>> = Vec::new();
        for j in 0..a.columns
            invariant
                a.wf(),
                out@.len() == j,
                forall|k: int| 0 <= k < j ==> (#[trigger] out@[k])@ == transpose_spec(a@, a.ncols())[k],
        {
            let mut row: Vec<i64> = Vec::new();
            for i in 0..a.rows
                invariant
                    a.wf(),
                    0 <= j < a.ncols(),
                    row@.len() == i,
                    forall|t: int| 0 <= t < i ==> #[trigger] row@[t] == a@[t][j as int],
            {
                assert(a.matrix@[i as int]@ == a@[i as int]);
                row.push(a.matrix[i][j]);
            }
            assert(row@ =~= transpose_spec(a@, a.ncols())[j as int]);
            out.push(row);
        }
        let m = Matrix { rows: a.columns, columns: a.rows, matrix: out };
        assert(m@ =~= transpose_spec(a@, a.ncols()));
        m
    }

    /// The matrix product of `a` and `b`, defined when `a` has as many
    /// columns as `b` has rows. Each entry accumulates its terms in order of
    /// the inner index.
    pub fn multiply(a: &Matrix, b: &Matrix) -> (r: Result<Matrix, MatrixError>)
        requires
            a.wf(),
            b.wf(),
        ensures
            match r {
                Ok(m) => {
                    &&& a.ncols() == b.nrows()
                    &&& m.wf() && m.nrows() == a.nrows() && m.ncols() == b.ncols()
                    &&& m@ == product_spec(a@, b@, b.ncols())
                },
                Err(e) => e == MatrixError::ShapeMismatch && a.ncols() != b.nrows(),
            },
    {
        if a.columns != b.rows {
            return Err(MatrixError::ShapeMismatch);
        }
        let mut out: Vec<Vec<i64>> = Vec::new();
        for i in 0..a.rows
            invariant
                a.wf(),
                b.wf(),
                a.ncols() == b.nrows(),
                out@.len() == i,
                forall|k: int| 0 <= k < i ==> (#[trigger] out@[k])@ == product_spec(a@, b@, b.ncols())[k],
        {
            assert(a.matrix@[i as int]@ == a@[i as int]);
            let mut row: Vec<i64> = Vec::new();
            for l in 0..b.columns
                invariant
                    row@.len() == l,
                    forall|t: int| 0 <= t < l ==> #[trigger] row@[t] == 0,
            {
                row.push(0);
            }
            for j in 0..a.columns
                invariant
                    a.wf(),
                    b.wf(),
                    a.ncols() == b.nrows(),
                    0 <= i < a.nrows(),
                    a.matrix@[i as int]@ == a@[i as int],
                    row@.len() == b.ncols(),
                    forall|t: int| 0 <= t < b.ncols() ==> #[trigger] row@[t] == dot(a@[i as int], b@, t, j as nat),
            {
                assert(b.matrix@[j as int]@ == b@[j as int]);
                let x = a.matrix[i][j];
                for l in 0..b.columns
                    invariant
                        a.wf(),
                        b.wf(),
                        a.ncols() == b.nrows(),
                        0 <= i < a.nrows(),
                        0 <= j < a.ncols(),
                        x == a@[i as int][j as int],
                        b.matrix@[j as int]@ == b@[j as int],
                        row@.len() == b.ncols(),
                        forall|t: int| 0 <= t < l ==> #[trigger] row@[t] == dot(a@[i as int], b@, t, (j + 1) as nat),
                        forall|t: int| l <= t < b.ncols() ==> #[trigger] row@[t] == dot(a@[i as int], b@, t, j as nat),
                {
                    let v = fixed_add(row[l], fixed_mul(x, b.matrix[j][l]));
                    row.set(l, v);
                }
            }
            assert(row@ =~= product_spec(a@, b@, b.ncols())[i as int]);
            out.push(row);
        }
        let m = Matrix { rows: a.rows, columns: b.columns, matrix: out };
        assert(m@ =~= product_spec(a@, b@, b.ncols()));
        Ok(m)
    }

    /// Fills every entry with a value drawn uniformly from [-1, 1), that is
    /// from `-ONE` up to but excluding `ONE`.
    pub fn randomize(&mut self)
        requires
            old(self).wf(),
        ensures
            final(self).wf(),
            final(self).nrows() == old(self).nrows(),
            final(self).ncols() == old(self).ncols(),
            forall|i: int, j: int|
                0 <= i < final(self).nrows() && 0 <= j < final(self).ncols() ==> -ONE <= #[trigger] final(self)@[i][j] < ONE,
    {
        let rows = self.rows;
        let columns = self.columns;
        for i in 0..rows
            invariant
                self.wf(),
                self.nrows() == old(self).nrows() == rows,
                self.ncols() == old(self).ncols() == columns,
                forall|k: int, j: int|
                    0 <= k < i && 0 <= j < self.ncols() ==> -ONE <= #[trigger] self@[k][j] < ONE,
        {
            for j in 0..columns
                invariant
                    self.wf(),
                    self.nrows() == old(self).nrows() == rows,
                    self.ncols() == old(self).ncols() == columns,
                    0 <= i < self.nrows(),
                    forall|k: int, t: int|
                        0 <= k < i && 0 <= t < self.ncols() ==> -ONE <= #[trigger] self@[k][t] < ONE,
                    forall|t: int| 0 <= t < j ==> -ONE <= #[trigger] self@[i as int][t] < ONE,
            {
                let v = random_in(-ONE, ONE);
                let ghost before = self@;
                assert(self.matrix@[i as int]@ == self@[i as int]);
                self.matrix[i][j] = v;
                assert(self@ =~= before.update(i as int, before[i as int].update(j as int, v)));
            }
        }
    }

    /// `w` plus `rate` times the outer product of the row vectors `u` and `v`,
    /// where `u` has an entry for each row of `w` and `v` one for each column.
    pub(crate) fn outer_updated(w: &Matrix, u: &Matrix, v: &Matrix, rate: i64) -> (m: Matrix)
        requires
            w.wf(),
            u.wf(),
            v.wf(),
            u.nrows() == 1,
            v.nrows() == 1,
            u.ncols() == w.nrows(),
            v.ncols() == w.ncols(),
        ensures
            m.wf(),
            m.nrows() == w.nrows(),
            m.ncols() == w.ncols(),
            m@ == outer_update_spec(w@, u@, v@, rate),
    {
        assert(u.matrix@[0]@ == u@[0]);
        assert(v.matrix@[0]@ == v@[0]);
        let mut out: Vec<Vec<i64>> = Vec::new();
        for k in 0..w.rows
            invariant
                w.wf(),
                u.wf(),
                v.wf(),
                u.nrows() == 1,
                v.nrows() == 1,
                u.ncols() == w.nrows(),
                v.ncols() == w.ncols(),
                u.matrix@[0]@ == u@[0],
                v.matrix@[0]@ == v@[0],
                out@.len() == k,
                forall|t: int| 0 <= t < k ==> (#[trigger] out@[t])@ == outer_update_spec(w@, u@, v@, rate)[t],
        {
            assert(w.matrix@[k as int]@ == w@[k as int]);
            let scaled = fixed_mul(rate, u.matrix[0][k]);
            let mut row: Vec<i64> = Vec::new();
            for j in 0..w.columns
                invariant
                    w.wf(),
                    v.wf(),
                    v.nrows() == 1,
                    v.ncols() == w.ncols(),
                    v.matrix@[0]@ == v@[0],
                    0 <= k < w.nrows(),
                    w.matrix@[k as int]@ == w@[k as int],
                    scaled == fx_mul(rate, u@[0][k as int]),
                    row@.len() == j,
                    forall|t: int| 0 <= t < j ==> #[trigger] row@[t] == fx_add(w@[k as int][t], fx_mul(scaled, v@[0][t])),
            {
                row.push(fixed_add(w.matrix[k][j], fixed_mul(scaled, v.matrix[0][j])));
            }
            assert(row@ =~= outer_update_spec(w@, u@, v@, rate)[k as int]);
            out.push(row);
        }
        let m = Matrix { rows: w.rows, columns: w.columns, matrix: out };
        assert(m@ =~= outer_update_spec(w@, u@, v@, rate));
        m
    }
}

/// `m` is the `n` by `n` identity: `ONE` on the diagonal, zero elsewhere.
pub open spec fn is_identity(m: Seq<Seq<i64>>, n: nat) -> bool {
    &&& shaped(m, n, n)
    &&& forall|i: int, j: int| 0 <= i < n && 0 <= j < n ==> #[trigger] m[i][j] == if i == j { ONE } else { 0 }
}

/// Adding `b` and then subtracting it gives `a` back, wherever no sum
/// leaves the range of `i64`.
pub proof fn lemma_add_then_subtract(a: Matrix, b: Matrix)
    requires
        a.wf(),
        b.wf(),
        a.nrows() == b.nrows(),
        a.ncols() == b.ncols(),
        forall|i: int, j: int|
            0 <= i < a.nrows() && 0 <= j < a.ncols() ==> i64::MIN <= #[trigger] a@[i][j] + b@[i][j] <= i64::MAX,
    ensures
        difference_spec(sum_spec(a@, b@), b@) == a@,
{
    assert(difference_spec(sum_spec(a@, b@), b@) =~~= a@);
}

/// Transposing twice gives the matrix back.
pub proof fn lemma_transpose_twice(a: Matrix)
    requires
        a.wf(),
    ensures
        transpose_spec(transpose_spec(a@, a.ncols()), a.nrows()) == a@,
{
    assert(transpose_spec(transpose_spec(a@, a.ncols()), a.nrows()) =~~= a@);
}

proof fn lemma_times_one(x: i64)
    ensures
        fx_mul(x, ONE) == x,
        fx_mul(x, 0) == 0,
{
    let p: int = x * ONE;
    assert(p == x * 1_000_000_000);
    if x >= 0 {
        assert(p / 1_000_000_000int == x) by (nonlinear_arith)
            requires p == x * 1_000_000_000;
    } else {
        assert(-p == (-x) * 1_000_000_000) by (nonlinear_arith)
            requires p == x * 1_000_000_000;
        assert((-p) / 1_000_000_000int == -x) by (nonlinear_arith)
            requires -p == (-x) * 1_000_000_000;
    }
    assert(x * 0 == 0);
}

proof fn lemma_dot_identity(x: Seq<i64>, id: Seq<Seq<i64>>, n: nat, l: int, m: nat)
    requires
        is_identity(id, n),
        x.len() == n,
        0 <= l < n,
        m <= n,
    ensures
        dot(x, id, l, m) == if l < m { x[l] } else { 0 },
    decreases m,
{
    if m > 0 {
        lemma_dot_identity(x, id, n, l, (m - 1) as nat);
        let k = m - 1;
        lemma_times_one(x[k]);
        assert(id[k][l] == if k == l { ONE } else { 0 });
    }
}

/// Multiplying by the identity of matching size gives the matrix back.
pub proof fn lemma_multiply_identity(a: Matrix, id: Seq<Seq<i64>>)
    requires
        a.wf(),
        is_identity(id, a.ncols()),
    ensures
        product_spec(a@, id, a.ncols()) == a@,
{
    assert forall|i: int, l: int| 0 <= i < a.nrows() && 0 <= l < a.ncols() implies #[trigger] product_spec(
        a@,
        id,
        a.ncols(),
    )[i][l] == a@[i][l] by {
        lemma_dot_identity(a@[i], id, a.ncols(), l, a.ncols());
    }
    assert(product_spec(a@, id, a.ncols()) =~~= a@);
}

} // verus!
