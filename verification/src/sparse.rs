//! Sparse matrices in compressed-sparse-row form, and their product with a
//! dense vector.
//!
//! The field names follow scipy's `csr_matrix`. The rows of a product are
//! independent of one another, so they are handed to `rayon` one by one; what
//! each row computes, and where its result goes, is proved here.

use crate::csr::{combine, Csr};
use crate::field::{all_reduced, is_reduced, lemma_values_injective, values_of, FieldElement};
use itertools::Itertools;
use rayon::iter::{IndexedParallelIterator, IntoParallelRefIterator, ParallelIterator};
use rayon::slice::ParallelSlice;
use vstd::arithmetic::div_mod::{lemma_add_mod_noop, lemma_small_mod};
use vstd::prelude::*;
use vstd::slice::slice_subrange;

verus! {

/// The offsets or column numbers of `s` as integers.
pub open spec fn ints_of(s: Seq<usize>) -> Seq<int> {
    Seq::new(s.len(), |k: int| s[k] as int)
}

/// A sparse matrix in compressed-sparse-row form.
///
/// Nothing is checked when a matrix is put together: the products below ask
/// for what they need in their `requires`, and [`SparseMatrix::is_well_formed`]
/// tests the whole storage invariant for callers who cannot vouch for their
/// input.
#[derive(Debug, PartialEq, Eq)]
pub struct SparseMatrix<F: FieldElement> {
    /// All non-zero values in the matrix, row by row.
    pub data: Vec<F>,
    /// The column of each value.
    pub indices: Vec<usize>,
    /// Row `i` owns the positions `indptr[i] .. indptr[i + 1]` of `data`.
    pub indptr: Vec<usize>,
    /// The number of columns.
    pub cols: usize,
}

impl<F: FieldElement> View for SparseMatrix<F> {
    type V = Csr;

    open spec fn view(&self) -> Csr {
        Csr {
            values: values_of(self.data@),
            indices: ints_of(self.indices@),
            indptr: ints_of(self.indptr@),
            cols: self.cols as int,
        }
    }
}

/// Copies a vector with `rayon`: `par_iter().copied().collect()`.
///
/// Collecting an indexed parallel iterator into a `Vec` keeps the order of
/// the items, so the copy holds the same items at the same positions.
#[verifier::external_body]
fn par_copy<T: Copy + Send + Sync>(items: &Vec<T>) -> (copy: Vec<T>)
    ensures
        copy@ == items@,
{
    items.par_iter().copied().collect()
}

/// Maps the adjacent pairs of `offsets` with `rayon`:
/// `par_windows(2).map(..).collect_into_vec(sink)`.
///
/// `par_windows(2)` yields the windows `[offsets[i], offsets[i + 1]]` (none
/// if `offsets` has fewer than two items), and `collect_into_vec` clears
/// `sink` and then stores the result for window `i` at position `i`, whatever
/// the order in which the windows were worked on. `row` is called once on
/// each window, so it must accept each of them.
#[verifier::external_body]
fn par_map_windows<T: Send, W: Fn(usize, usize) -> T + Send + Sync>(
    offsets: &[usize],
    row: W,
    sink: &mut Vec<T>,
)
    requires
        forall|i: int|
            0 <= i < offsets@.len() - 1 ==> call_requires(row, (#[trigger] offsets@[i], offsets@[i + 1])),
    ensures
        final(sink)@.len() == if offsets@.len() == 0 {
            0
        } else {
            offsets@.len() - 1
        },
        forall|i: int|
            0 <= i < offsets@.len() - 1 ==> call_ensures(
                row,
                (offsets@[i], offsets@[i + 1]),
                #[trigger] final(sink)@[i],
            ),
{
    offsets.par_windows(2).map(|w| row(w[0], w[1])).collect_into_vec(sink);
}

/// Pairs two slices item by item with `itertools`' `zip_eq`, which panics
/// when one side ends before the other: hence the `requires`.
#[verifier::external_body]
fn zip_eq_refs<'a, T>(values: &'a [T], columns: &'a [usize]) -> (pairs: Vec<(&'a T, &'a usize)>)
    requires
        values@.len() == columns@.len(),
    ensures
        pairs@.len() == values@.len(),
        forall|k: int|
            0 <= k < pairs@.len() ==> *(#[trigger] pairs@[k]).0 == values@[k] && *pairs@[k].1
                == columns@[k],
{
    values.iter().zip_eq(columns).collect()
}

/// `w` is the vector `a * x + b * y`, computed entry by entry in the field.
pub open spec fn is_combination<F: FieldElement>(w: Seq<F>, a: F, x: Seq<F>, b: F, y: Seq<F>) -> bool {
    values_of(w) == combine(
        a.value() as int,
        values_of(x),
        b.value() as int,
        values_of(y),
        F::modulus() as int,
    )
}

impl<F: FieldElement> SparseMatrix<F> {
    /// The storage invariant of the matrix: see [`Csr::well_formed`].
    pub open spec fn well_formed(&self) -> bool {
        self@.well_formed()
    }

    /// Tests the storage invariant, entry by entry.
    pub fn is_well_formed(&self) -> (ok: bool)
        ensures
            ok == self.well_formed(),
    {
        let n = self.indptr.len();
        if n == 0 || self.indptr[0] != 0 || self.indptr[n - 1] != self.data.len()
            || self.indices.len() != self.data.len() {
            return false;
        }
        let mut i: usize = 1;
        while i < n
            invariant
                1 <= i <= n,
                n == self.indptr@.len(),
                forall|a: int, b: int|
                    0 <= a <= b < i ==> #[trigger] self.indptr@[a] <= #[trigger] self.indptr@[b],
            decreases n - i,
        {
            if self.indptr[i - 1] > self.indptr[i] {
                proof {
                    assert(self@.indptr[i - 1] > self@.indptr[i as int]);
                }
                return false;
            }
            i += 1;
        }
        let mut k: usize = 0;
        while k < self.indices.len()
            invariant
                k <= self.indices@.len(),
                forall|j: int| 0 <= j < k ==> #[trigger] self.indices@[j] < self.cols,
            decreases self.indices@.len() - k,
        {
            if self.indices[k] >= self.cols {
                proof {
                    assert(self@.indices[k as int] >= self@.cols);
                }
                return false;
            }
            k += 1;
        }
        proof {
            assert forall|a: int, b: int| 0 <= a <= b < self@.indptr.len() implies #[trigger] self@.indptr[a]
                <= #[trigger] self@.indptr[b] by {
                assert(self.indptr@[a] <= self.indptr@[b]);
            }
            assert forall|j: int| 0 <= j < self@.indices.len() implies 0 <= #[trigger] self@.indices[j]
                < self@.cols by {
                assert(self.indices@[j] < self.cols);
            }
        }
        true
    }

    /// Retrieves the entries at the positions `ptrs[0] .. ptrs[1]`, each as
    /// its value and its column.
    ///
    /// `ptrs` is meant to be a pair of adjacent items of `indptr`, which makes
    /// the result a row; this is not checked.
    pub fn get_row_unchecked(&self, ptrs: &[usize; 2]) -> (row: Vec<(&F, &usize)>)
        requires
            ptrs[0] <= ptrs[1],
            ptrs[1] <= self.data@.len(),
            ptrs[1] <= self.indices@.len(),
        ensures
            row@.len() == ptrs[1] - ptrs[0],
            forall|k: int|
                0 <= k < row@.len() ==> *(#[trigger] row@[k]).0 == self.data@[ptrs[0] + k]
                    && *row@[k].1 == self.indices@[ptrs[0] + k],
    {
        let values = slice_subrange(self.data.as_slice(), ptrs[0], ptrs[1]);
        let columns = slice_subrange(self.indices.as_slice(), ptrs[0], ptrs[1]);
        zip_eq_refs(values, columns)
    }

    /// The dot product of the entries at `ptrs[0] .. ptrs[1]` with `vector`:
    /// the work of one row of a product.
    pub fn multiply_row_unchecked(&self, ptrs: &[usize; 2], vector: &[F]) -> (sum: F)
        requires
            self@.span_within(ptrs[0] as int, ptrs[1] as int, vector@.len() as int),
        ensures
            sum.value() == self@.dot(ptrs[0] as int, ptrs[1] as int, values_of(vector@)) % (
            F::modulus() as int),
            is_reduced(sum),
    {
        let row = self.get_row_unchecked(ptrs);
        let mut sum = F::zero();
        let mut k: usize = 0;
        proof {
            F::lemma_modulus_above_one();
            assert(self@.dot(ptrs[0] as int, ptrs[0] as int, values_of(vector@)) == 0);
            lemma_small_mod(0, F::modulus());
        }
        while k < row.len()
            invariant
                k <= row@.len(),
                row@.len() == ptrs[1] - ptrs[0],
                F::modulus() > 1,
                self@.span_within(ptrs[0] as int, ptrs[1] as int, vector@.len() as int),
                forall|j: int|
                    0 <= j < row@.len() ==> *(#[trigger] row@[j]).0 == self.data@[ptrs[0] + j]
                        && *row@[j].1 == self.indices@[ptrs[0] + j],
                sum.value() == self@.dot(ptrs[0] as int, ptrs[0] + k, values_of(vector@)) % (
                F::modulus() as int),
            decreases row@.len() - k,
        {
            let (val, col_idx) = row[k];
            proof {
                assert(self@.indices[ptrs[0] + k] == *col_idx);
            }
            let term = val.mul(&vector[*col_idx]);
            let next = sum.add(&term);
            proof {
                let m = F::modulus() as int;
                let v = values_of(vector@);
                let lo = ptrs[0] as int;
                let before = self@.dot(lo, lo + k, v);
                let c = self@.values[lo + k];
                let x = v[self@.indices[lo + k]];
                assert(c == val.value());
                assert(x == vector@[*col_idx as int].value());
                assert(self@.dot(lo, lo + k + 1, v) == before + c * x);
                lemma_add_mod_noop(before, c * x, m);
            }
            sum = next;
            k += 1;
        }
        sum
    }

    /// Multiplies by a dense vector, one row per `rayon` task, and leaves the
    /// product in `sink`, whose earlier contents are dropped.
    ///
    /// The shapes of matrix and vector are not compared: it is enough that
    /// every row can be read against `vector`.
    pub fn multiply_vec_into_unchecked(&self, vector: &[F], sink: &mut Vec<F>)
        requires
            self@.rows_within(vector@.len() as int),
        ensures
            values_of(final(sink)@) == self@.product(values_of(vector@), F::modulus() as int),
            all_reduced(final(sink)@),
    {
        let row = |lo: usize, hi: usize| -> (sum: F)
            requires
                self@.span_within(lo as int, hi as int, vector@.len() as int),
            ensures
                sum.value() == self@.dot(lo as int, hi as int, values_of(vector@)) % (
                F::modulus() as int),
                is_reduced(sum),
            { self.multiply_row_unchecked(&[lo, hi], vector) };
        proof {
            assert forall|i: int| 0 <= i < self.indptr@.len() - 1 implies call_requires(
                row,
                (#[trigger] self.indptr@[i], self.indptr@[i + 1]),
            ) by {
                assert(self@.span_within(self@.indptr[i], self@.indptr[i + 1], vector@.len() as int));
            }
        }
        par_map_windows(self.indptr.as_slice(), row, sink);
        proof {
            let product = self@.product(values_of(vector@), F::modulus() as int);
            assert forall|i: int| 0 <= i < sink@.len() implies values_of(sink@)[i] == product[i] by {
                assert(call_ensures(row, (self.indptr@[i], self.indptr@[i + 1]), sink@[i]));
            }
            assert(values_of(sink@) =~= product);
        }
    }

    /// Multiplies by a dense vector; uses `rayon` to parallelize.
    ///
    /// This does not check that the shapes of matrix and vector are
    /// compatible: `vector` may be longer than the matrix is wide.
    pub fn multiply_vec_unchecked(&self, vector: &[F]) -> (product: Vec<F>)
        requires
            self.indptr@.len() >= 1,
            self@.rows_within(vector@.len() as int),
        ensures
            values_of(product@) == self@.product(values_of(vector@), F::modulus() as int),
            all_reduced(product@),
    {
        let mut sink: Vec<F> = Vec::with_capacity(self.indptr.len() - 1);
        self.multiply_vec_into_unchecked(vector, &mut sink);
        sink
    }

    /// Multiplies by a dense vector; uses `rayon` to parallelize.
    ///
    /// The vector must have one entry for each column of the matrix. Entry
    /// `i` of the product is the dot product of row `i` with the vector, in
    /// the field; a row without entries gives zero.
    pub fn multiply_vec(&self, vector: &[F]) -> (product: Vec<F>)
        requires
            self.well_formed(),
            vector@.len() == self.cols,
        ensures
            product@.len() == self@.rows(),
            values_of(product@) == self@.product(values_of(vector@), F::modulus() as int),
            all_reduced(product@),
            forall|i: int|
                0 <= i < self@.rows() && self.indptr@[i] == self.indptr@[i + 1] ==> (
                #[trigger] product@[i]).value() == 0,
    {
        proof {
            self@.lemma_well_formed_rows_within();
        }
        let product = self.multiply_vec_unchecked(vector);
        proof {
            F::lemma_modulus_above_one();
            assert(values_of(product@).len() == product@.len());
            assert forall|i: int|
                0 <= i < self@.rows() && self.indptr@[i] == self.indptr@[i + 1] implies (
            #[trigger] product@[i]).value() == 0 by {
                assert(self@.indptr[i] == self@.indptr[i + 1]);
                self@.lemma_empty_row_is_zero(values_of(vector@), F::modulus() as int, i);
                assert(values_of(product@)[i] == 0);
            }
        }
        product
    }

}

impl<F: FieldElement> SparseMatrix<F> {
    /// Determinism: the product is a function of matrix and vector. Two
    /// results that both meet the contract of a multiplication are the same
    /// vector, element for element, however the rows were scheduled.
    pub proof fn lemma_multiply_deterministic(&self, vector: Seq<F>, first: Seq<F>, second: Seq<F>)
        requires
            values_of(first) == self@.product(values_of(vector), F::modulus() as int),
            values_of(second) == self@.product(values_of(vector), F::modulus() as int),
        ensures
            first == second,
    {
        lemma_values_injective(first, second);
    }

    /// Linearity: if `w` is `a * x + b * y` in the field, then the product
    /// with `w` is `a` times the product with `x` plus `b` times the product
    /// with `y`.
    pub proof fn lemma_multiply_linear(
        &self,
        a: F,
        x: Seq<F>,
        b: F,
        y: Seq<F>,
        w: Seq<F>,
        mx: Seq<F>,
        my: Seq<F>,
        mw: Seq<F>,
    )
        requires
            self.well_formed(),
            x.len() == self.cols,
            y.len() == self.cols,
            is_combination(w, a, x, b, y),
            values_of(mx) == self@.product(values_of(x), F::modulus() as int),
            values_of(my) == self@.product(values_of(y), F::modulus() as int),
            values_of(mw) == self@.product(values_of(w), F::modulus() as int),
        ensures
            is_combination(mw, a, mx, b, my),
    {
        F::lemma_modulus_above_one();
        self@.lemma_well_formed_rows_within();
        assert(values_of(x).len() == self.cols);
        self@.lemma_product_linear(
            a.value() as int,
            values_of(x),
            b.value() as int,
            values_of(y),
            F::modulus() as int,
        );
    }

    /// Identity: the matrix that holds a single one in each row, on the
    /// diagonal, gives back every vector of its size.
    pub proof fn lemma_multiply_identity(&self, vector: Seq<F>, product: Seq<F>)
        requires
            self@.is_identity(vector.len()),
            all_reduced(vector),
            values_of(product) == self@.product(values_of(vector), F::modulus() as int),
        ensures
            product == vector,
    {
        let v = values_of(vector);
        assert forall|j: int| 0 <= j < vector.len() implies 0 <= #[trigger] v[j] < F::modulus() as int by {
            assert(vector[j].value() < F::modulus());
        }
        self@.lemma_identity_product(vector.len(), v, F::modulus() as int);
        lemma_values_injective(product, vector);
    }

}

/// Matrices are often large, so the three sequences are copied with `rayon`.
impl<F: FieldElement> Clone for SparseMatrix<F> {
    /// A copy that owns its storage and holds, position by position, what
    /// `self` holds.
    fn clone(&self) -> (copy: Self)
        ensures
            copy.data@ == self.data@,
            copy.indices@ == self.indices@,
            copy.indptr@ == self.indptr@,
            copy.cols == self.cols,
            copy@ == self@,
    {
        Self {
            data: par_copy(&self.data),
            indices: par_copy(&self.indices),
            indptr: par_copy(&self.indptr),
            cols: self.cols,
        }
    }
}

/// The boundary pair of one row: the positions `start .. end` of its entries.
#[derive(Debug, Clone)]
pub struct RowData([usize; 2]);

impl RowData {
    /// The pair as it is stored.
    pub closed spec fn bounds(&self) -> [usize; 2] {
        self.0
    }

    /// Wraps a boundary pair.
    pub fn new(ptrs: [usize; 2]) -> (row: Self)
        ensures
            row.bounds() == ptrs,
    {
        RowData(ptrs)
    }

    /// The pair, in the form that [`SparseMatrix::get_row_unchecked`] takes.
    pub fn as_ptrs(&self) -> (ptrs: &[usize; 2])
        ensures
            *ptrs == self.bounds(),
    {
        &self.0
    }
}

} // verus!
