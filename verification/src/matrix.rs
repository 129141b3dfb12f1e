//! Index logic shared by the square-matrix types.
//!
//! The matrix inverse works by cofactor expansion, which repeatedly extracts
//! the submatrix that drops one row and one column.  Which entry of the
//! original lands where in the submatrix is pure index arithmetic, the same
//! for every entry type, and it is pinned here: entry `(i, j)` of the
//! submatrix is entry `(skip_index(i, row), skip_index(j, col))` of the
//! original.

use vstd::arithmetic::mul::lemma_mul_inequality;
use vstd::arithmetic::mul::lemma_mul_is_commutative;
use vstd::arithmetic::mul::lemma_mul_is_distributive_add_other_way;
use vstd::prelude::*;

verus! {

/// Where row or column `k` of a submatrix came from, when row or column
/// `removed` of the original was dropped: positions before `removed` keep
/// their index, positions after it shift down by one.
pub open spec fn skip_index(k: int, removed: int) -> int {
    if k < removed {
        k
    } else {
        k + 1
    }
}

/// A borrowed view of one square matrix's entries, stored row-major.
pub struct MatrixMethods<'a, T> {
    data: &'a [T],
    size: usize,
}

impl<'a, T: Copy> MatrixMethods<'a, T> {
    /// The entries, row by row.
    pub closed spec fn data_view(self) -> Seq<T> {
        self.data@
    }

    /// The number of rows (and of columns).
    pub closed spec fn spec_size(self) -> int {
        self.size as int
    }

    /// The slice holds exactly the `size * size` entries of a square matrix.
    pub open spec fn wf(self) -> bool {
        self.data_view().len() == self.spec_size() * self.spec_size()
    }

    /// View the row-major slice `data` as a `size` x `size` matrix.
    pub fn new(data: &'a [T], size: usize) -> (r: MatrixMethods<'a, T>)
        requires
            data@.len() == size * size,
        ensures
            r.wf(),
            r.data_view() == data@,
            r.spec_size() == size,
    {
        MatrixMethods { data, size }
    }

    /// The entry at `row` and `col`.
    pub fn at(&self, row: usize, col: usize) -> (r: T)
        requires
            self.wf(),
            row < self.spec_size(),
            col < self.spec_size(),
        ensures
            r == self.data_view()[row * self.spec_size() + col],
    {
        let n = self.data.len();
        proof {
            lemma_mul_inequality(row as int + 1, self.spec_size(), self.spec_size());
            lemma_mul_is_distributive_add_other_way(self.spec_size(), row as int, 1);
            lemma_mul_is_commutative(row as int, self.spec_size());
            assert(row * self.spec_size() + col < n);
        }
        self.data[row * self.size + col]
    }

    /// The row-major entries of the transposed matrix: entry `(i, j)` of the
    /// result is entry `(j, i)` of this matrix.
    pub fn transpose_data(&self) -> (r: Vec<T>)
        requires
            self.wf(),
        ensures
            r@.len() == self.spec_size() * self.spec_size(),
            forall|i: int, j: int|
                0 <= i < self.spec_size() && 0 <= j < self.spec_size() ==> #[trigger] r@[i
                    * self.spec_size() + j] == self.data_view()[j * self.spec_size() + i],
    {
        let size = self.size;
        let mut data: Vec<T> = Vec::new();
        let mut i: usize = 0;
        while i < size
            invariant
                self.wf(),
                size == self.spec_size(),
                i <= size,
                data@.len() == i * size,
                forall|a: int, b: int|
                    0 <= a < i && 0 <= b < size ==> #[trigger] data@[a * size + b]
                        == self.data_view()[b * size + a],
            decreases size - i,
        {
            proof {
                lemma_mul_inequality(i as int + 1, size as int, size as int);
                lemma_mul_is_distributive_add_other_way(size as int, i as int, 1);
                lemma_mul_is_commutative(i as int, size as int);
            }
            let mut j: usize = 0;
            while j < size
                invariant
                    self.wf(),
                    size == self.spec_size(),
                    i < size,
                    j <= size,
                    data@.len() == i * size + j,
                    i * size + size <= size * size,
                    forall|a: int, b: int|
                        0 <= a < i && 0 <= b < size ==> #[trigger] data@[a * size + b]
                            == self.data_view()[b * size + a],
                    forall|b: int|
                        0 <= b < j ==> #[trigger] data@[i * size + b] == self.data_view()[b * size
                            + i],
                decreases size - j,
            {
                let entry = self.at(j, i);
                data.push(entry);
                proof {
                    assert forall|a: int, b: int| 0 <= a < i && 0 <= b < size implies #[trigger] (a
                        * size + b) < i * size + j by {
                        lemma_mul_inequality(a + 1, i as int, size as int);
                        lemma_mul_is_distributive_add_other_way(size as int, a, 1);
                        lemma_mul_is_commutative(a, size as int);
                        lemma_mul_is_commutative(a + 1, size as int);
                        lemma_mul_is_commutative(i as int, size as int);
                    }
                }
                j = j + 1;
            }
            proof {
                lemma_mul_is_distributive_add_other_way(size as int, i as int, 1);
                lemma_mul_is_commutative(i as int + 1, size as int);
            }
            i = i + 1;
        }
        data
    }

    /// The row-major entries of the submatrix that drops `row` and `col`:
    /// entry `(i, j)` of the result is entry
    /// `(skip_index(i, row), skip_index(j, col))` of this matrix.
    pub fn submatrix_data(&self, row: usize, col: usize) -> (r: Vec<T>)
        requires
            self.wf(),
            row < self.spec_size(),
            col < self.spec_size(),
        ensures
            r@.len() == (self.spec_size() - 1) * (self.spec_size() - 1),
            forall|i: int, j: int|
                0 <= i < self.spec_size() - 1 && 0 <= j < self.spec_size() - 1
                    ==> r@[i * (self.spec_size() - 1) + j] == self.data_view()[skip_index(i, row as int)
                    * self.spec_size() + skip_index(j, col as int)],
    {
        let sub = self.size - 1;
        let mut data: Vec<T> = Vec::new();
        let mut i: usize = 0;
        while i < sub
            invariant
                self.wf(),
                row < self.spec_size(),
                col < self.spec_size(),
                sub == self.spec_size() - 1,
                i <= sub,
                data@.len() == i * sub,
                forall|a: int, b: int|
                    0 <= a < i && 0 <= b < sub ==> data@[a * sub + b] == self.data_view()[
                        skip_index(a, row as int) * self.spec_size() + skip_index(b, col as int)],
            decreases sub - i,
        {
            proof {
                lemma_mul_inequality(i as int + 1, sub as int, sub as int);
                lemma_mul_is_distributive_add_other_way(sub as int, i as int, 1);
                lemma_mul_is_commutative(i as int, sub as int);
                lemma_mul_inequality(sub as int, self.spec_size(), self.spec_size());
            }
            let src_row = if i < row {
                i
            } else {
                i + 1
            };
            let mut j: usize = 0;
            while j < sub
                invariant
                    self.wf(),
                    row < self.spec_size(),
                    col < self.spec_size(),
                    sub == self.spec_size() - 1,
                    i < sub,
                    j <= sub,
                    src_row == skip_index(i as int, row as int),
                    data@.len() == i * sub + j,
                    i * sub + sub <= sub * sub,
                    forall|a: int, b: int|
                        0 <= a < i && 0 <= b < sub ==> data@[a * sub + b] == self.data_view()[
                            skip_index(a, row as int) * self.spec_size() + skip_index(
                            b,
                            col as int,
                        )],
                    forall|b: int|
                        0 <= b < j ==> data@[i * sub + b] == self.data_view()[skip_index(
                            i as int,
                            row as int,
                        ) * self.spec_size() + skip_index(b, col as int)],
                decreases sub - j,
            {
                let src_col = if j < col {
                    j
                } else {
                    j + 1
                };
                let entry = self.at(src_row, src_col);
                data.push(entry);
                proof {
                    assert forall|a: int, b: int| 0 <= a < i && 0 <= b < sub implies #[trigger] (a
                        * sub + b) < i * sub + j by {
                        lemma_mul_inequality(a + 1, i as int, sub as int);
                        lemma_mul_is_distributive_add_other_way(sub as int, a, 1);
                        lemma_mul_is_commutative(a, sub as int);
                        lemma_mul_is_commutative(a + 1, sub as int);
                        lemma_mul_is_commutative(i as int, sub as int);
                    }
                }
                j = j + 1;
            }
            proof {
                lemma_mul_is_distributive_add_other_way(sub as int, i as int, 1);
                lemma_mul_is_commutative(i as int + 1, sub as int);
            }
            i = i + 1;
        }
        data
    }
}

} // verus!
