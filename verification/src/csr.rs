//! The mathematical model of a matrix in compressed-sparse-row form, and of
//! its product with a dense vector over the integers modulo `m`.
//!
//! Everything here is ghost: sequences of integers and proofs about them. The
//! executable matrix of [`crate::sparse`] states its contracts over this model.

use vstd::arithmetic::div_mod::{lemma_add_mod_noop, lemma_mul_mod_noop_right, lemma_small_mod};
use vstd::prelude::*;

verus! {

/// A matrix in compressed-sparse-row form.
///
/// Row `i` owns the entries at positions `indptr[i] .. indptr[i + 1]`: entry
/// `k` is the value `values[k]` in column `indices[k]`.
pub struct Csr {
    pub values: Seq<int>,
    pub indices: Seq<int>,
    pub indptr: Seq<int>,
    pub cols: int,
}

/// The vector `a * x + b * y`, reduced modulo `m`.
pub open spec fn combine(a: int, x: Seq<int>, b: int, y: Seq<int>, m: int) -> Seq<int> {
    Seq::new(x.len(), |j: int| (a * x[j] + b * y[j]) % m)
}

impl Csr {
    /// The number of rows: one less than the number of row boundaries.
    pub open spec fn rows(self) -> nat {
        if self.indptr.len() == 0 {
            0
        } else {
            (self.indptr.len() - 1) as nat
        }
    }

    /// The storage invariant: the row boundaries start at zero, never
    /// decrease and end at the number of entries, values and columns are
    /// paired, and every column lies inside the matrix.
    pub open spec fn well_formed(self) -> bool {
        &&& self.indptr.len() >= 1
        &&& self.indptr[0] == 0
        &&& forall|i: int, j: int|
            0 <= i <= j < self.indptr.len() ==> #[trigger] self.indptr[i] <= #[trigger] self.indptr[j]
        &&& self.indptr[self.indptr.len() - 1] == self.values.len()
        &&& self.indices.len() == self.values.len()
        &&& forall|k: int| 0 <= k < self.indices.len() ==> 0 <= #[trigger] self.indices[k] < self.cols
    }

    /// The positions `lo .. hi` hold entries, and each of their columns is
    /// below `n`.
    pub open spec fn span_within(self, lo: int, hi: int, n: int) -> bool {
        &&& 0 <= lo <= hi
        &&& hi <= self.values.len()
        &&& hi <= self.indices.len()
        &&& forall|k: int| lo <= k < hi ==> 0 <= #[trigger] self.indices[k] < n
    }

    /// Every row can be read against a vector of length `n`: this is what the
    /// product needs of the matrix, and less than [`Csr::well_formed`].
    pub open spec fn rows_within(self, n: int) -> bool {
        forall|i: int|
            0 <= i < self.rows() ==> self.span_within(#[trigger] self.indptr[i], self.indptr[i + 1], n)
    }

    /// The sum of `values[k] * v[indices[k]]` over the positions `lo <= k < hi`.
    pub open spec fn dot(self, lo: int, hi: int, v: Seq<int>) -> int
        decreases hi - lo,
    {
        if hi <= lo {
            0
        } else {
            self.dot(lo, hi - 1, v) + self.values[hi - 1] * v[self.indices[hi - 1]]
        }
    }

    /// The product of the matrix with `v` modulo `m`: one entry per row, the
    /// row's dot product with `v`, reduced.
    pub open spec fn product(self, v: Seq<int>, m: int) -> Seq<int> {
        Seq::new(self.rows(), |i: int| self.dot(self.indptr[i], self.indptr[i + 1], v) % m)
    }

    /// The matrix is the `n`-by-`n` identity: row `i` holds the single entry
    /// one, in column `i`.
    pub open spec fn is_identity(self, n: nat) -> bool {
        &&& self.rows() == n
        &&& self.cols == n
        &&& forall|i: int|
            0 <= i < n ==> {
                &&& self.indptr[i + 1] == #[trigger] self.indptr[i] + 1
                &&& self.indices[self.indptr[i]] == i
                &&& self.values[self.indptr[i]] == 1
            }
    }

    /// A well-formed matrix can be read against any vector that has an entry
    /// for each of its columns.
    pub proof fn lemma_well_formed_rows_within(self)
        requires
            self.well_formed(),
        ensures
            self.rows_within(self.cols),
    {
        let last = self.indptr.len() - 1;
        assert forall|i: int| 0 <= i < self.rows() implies self.span_within(
            #[trigger] self.indptr[i],
            self.indptr[i + 1],
            self.cols,
        ) by {
            assert(self.indptr[0] <= self.indptr[i]);
            assert(self.indptr[i] <= self.indptr[i + 1]);
            assert(self.indptr[i + 1] <= self.indptr[last]);
        }
    }

    /// An empty row contributes zero, whatever the vector holds.
    pub proof fn lemma_empty_row_is_zero(self, v: Seq<int>, m: int, i: int)
        requires
            0 <= i < self.rows(),
            self.indptr[i] == self.indptr[i + 1],
            m > 0,
        ensures
            self.product(v, m)[i] == 0,
    {
        assert(self.dot(self.indptr[i], self.indptr[i + 1], v) == 0);
    }

    /// The dot product over a span is linear in the vector, modulo `m`.
    pub proof fn lemma_dot_linear(
        self,
        lo: int,
        hi: int,
        a: int,
        x: Seq<int>,
        b: int,
        y: Seq<int>,
        m: int,
    )
        requires
            m > 0,
            x.len() == y.len(),
            self.span_within(lo, hi, x.len() as int),
        ensures
            self.dot(lo, hi, combine(a, x, b, y, m)) % m == (a * self.dot(lo, hi, x) + b * self.dot(
                lo,
                hi,
                y,
            )) % m,
        decreases hi - lo,
    {
        let w = combine(a, x, b, y, m);
        if hi <= lo {
            assert(a * 0 + b * 0 == 0) by (nonlinear_arith);
        } else {
            self.lemma_dot_linear(lo, hi - 1, a, x, b, y, m);
            let c = self.values[hi - 1];
            let j = self.indices[hi - 1];
            let px = self.dot(lo, hi - 1, x);
            let py = self.dot(lo, hi - 1, y);
            let pw = self.dot(lo, hi - 1, w);
            let t = a * x[j] + b * y[j];
            assert(w[j] == t % m);
            assert((c * w[j]) % m == (c * t) % m) by {
                lemma_mul_mod_noop_right(c, t, m);
            }
            assert((pw + c * w[j]) % m == ((a * px + b * py) + c * t) % m) by {
                lemma_add_mod_noop(pw, c * w[j], m);
                lemma_add_mod_noop(a * px + b * py, c * t, m);
            }
            assert((a * px + b * py) + c * t == a * (px + c * x[j]) + b * (py + c * y[j]))
                by (nonlinear_arith)
                requires
                    t == a * x[j] + b * y[j],
            ;
        }
    }

    /// The product is linear: the product with `a * x + b * y` is `a` times
    /// the product with `x` plus `b` times the product with `y`, all in the
    /// arithmetic modulo `m`.
    pub proof fn lemma_product_linear(self, a: int, x: Seq<int>, b: int, y: Seq<int>, m: int)
        requires
            m > 0,
            x.len() == y.len(),
            self.rows_within(x.len() as int),
        ensures
            self.product(combine(a, x, b, y, m), m) == combine(
                a,
                self.product(x, m),
                b,
                self.product(y, m),
                m,
            ),
    {
        let w = combine(a, x, b, y, m);
        let left = self.product(w, m);
        let right = combine(a, self.product(x, m), b, self.product(y, m), m);
        assert forall|i: int| 0 <= i < self.rows() implies left[i] == right[i] by {
            let lo = self.indptr[i];
            let hi = self.indptr[i + 1];
            assert(self.span_within(lo, hi, x.len() as int));
            self.lemma_dot_linear(lo, hi, a, x, b, y, m);
            let dx = self.dot(lo, hi, x);
            let dy = self.dot(lo, hi, y);
            assert((a * (dx % m) + b * (dy % m)) % m == (a * dx + b * dy) % m) by {
                lemma_mul_mod_noop_right(a, dx, m);
                lemma_mul_mod_noop_right(b, dy, m);
                lemma_add_mod_noop(a * (dx % m), b * (dy % m), m);
                lemma_add_mod_noop(a * dx, b * dy, m);
            }
        }
        assert(left =~= right);
    }

    /// The identity matrix gives back every reduced vector of its size.
    pub proof fn lemma_identity_product(self, n: nat, v: Seq<int>, m: int)
        requires
            self.is_identity(n),
            v.len() == n,
            forall|j: int| 0 <= j < n ==> 0 <= #[trigger] v[j] < m,
        ensures
            self.product(v, m) == v,
    {
        let out = self.product(v, m);
        assert forall|i: int| 0 <= i < n implies out[i] == v[i] by {
            let lo = self.indptr[i];
            assert(self.indptr[i + 1] == lo + 1);
            assert(self.dot(lo, lo + 1, v) == self.dot(lo, lo, v) + self.values[lo] * v[self.indices[lo]]);
            assert(self.dot(lo, lo, v) == 0);
            assert(1 * v[i] == v[i]) by (nonlinear_arith);
            lemma_small_mod(v[i] as nat, m as nat);
        }
        assert(out =~= v);
    }
}

} // verus!
