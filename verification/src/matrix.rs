//! The matrix itself: its storage model, its constructors and its sum.

use crate::element::{One, Zero};
use std::ops::Add;
use vstd::prelude::*;
use vstd::std_specs::ops::{AddSpec, AddSpecImpl};

verus! {

/// A dense matrix in row-major storage.
///
/// `rows` and `cols` are the dimensions the matrix was made with; `data` is
/// the storage. The two agree on a filled matrix (see [`Matrix::is_filled`])
/// and disagree on a bare one, whose storage is empty.
pub struct Matrix<T> {
    pub rows: usize,
    pub cols: usize,
    pub data: Vec<Vec<T>>,
}

/// The grid of `rows` by `cols` cells that all hold the zero of `T`.
pub open spec fn zero_grid<T: Zero>(rows: nat, cols: nat) -> Seq<Seq<T>> {
    Seq::new(rows, |i: int| Seq::new(cols, |j: int| T::zero_spec()))
}

/// The grid of `n` by `n` cells with the one of `T` on the diagonal and its
/// zero everywhere else.
pub open spec fn identity_grid<T: Zero + One>(n: nat) -> Seq<Seq<T>> {
    Seq::new(
        n,
        |i: int|
            Seq::new(
                n,
                |j: int|
                    if i == j {
                        T::one_spec()
                    } else {
                        T::zero_spec()
                    },
            ),
    )
}

impl<T> Matrix<T> {
    /// The storage as a grid of values: `cells()[i][j]` is the element in
    /// row `i`, column `j`.
    pub open spec fn cells(&self) -> Seq<Seq<T>> {
        Seq::new(self.data@.len(), |i: int| self.data@[i]@)
    }

    /// The storage holds exactly `rows` rows of exactly `cols` elements.
    pub open spec fn is_filled(&self) -> bool {
        &&& self.cells().len() == self.rows
        &&& forall|i: int| 0 <= i < self.rows ==> (#[trigger] self.cells()[i]).len() == self.cols
    }

    /// The storage holds an element at row `i`, column `j`.
    pub open spec fn holds(&self, i: int, j: int) -> bool {
        0 <= i < self.cells().len() && 0 <= j < self.cells()[i].len()
    }

    /// The storage holds an element at every coordinate of a grid of `rows`
    /// by `cols`.
    pub open spec fn covers(&self, rows: nat, cols: nat) -> bool {
        forall|i: int, j: int| 0 <= i < rows && 0 <= j < cols ==> #[trigger] self.holds(i, j)
    }

    /// The element at row `i`, column `j`, where the storage holds one.
    ///
    /// A bare matrix holds none, whatever its dimensions say, so every
    /// lookup in it gives `None`.
    pub fn get(&self, i: usize, j: usize) -> (found: Option<&T>)
        ensures
            found.is_some() == self.holds(i as int, j as int),
            found.is_some() ==> *found.unwrap() == self.cells()[i as int][j as int],
    {
        if i < self.data.len() {
            if j < self.data[i].len() {
                return Some(&self.data[i][j]);
            }
        }
        None
    }
}

/// A filled matrix holds an element at every coordinate within its
/// dimensions.
pub proof fn lemma_filled_covers<T>(m: Matrix<T>)
    requires
        m.is_filled(),
    ensures
        m.covers(m.rows as nat, m.cols as nat),
{
    assert forall|i: int, j: int| 0 <= i < m.rows && 0 <= j < m.cols implies #[trigger] m.holds(
        i,
        j,
    ) by {
        assert(m.cells()[i].len() == m.cols);
    }
}

/// A matrix with empty storage holds no element at any coordinate.
pub proof fn lemma_bare_holds_nothing<T>(m: Matrix<T>, i: int, j: int)
    requires
        m.cells() == Seq::<Seq<T>>::empty(),
    ensures
        !m.holds(i, j),
{
}

impl<T: Clone> Matrix<T> {
    /// A bare matrix: the dimensions are recorded and the storage is empty,
    /// so it holds no element at any coordinate.
    pub fn new(rows: usize, cols: usize) -> (r: Matrix<T>)
        ensures
            r.rows == rows,
            r.cols == cols,
            r.cells() == Seq::<Seq<T>>::empty(),
    {
        let r = Matrix { rows, cols, data: Vec::new() };
        assert(r.cells() =~= Seq::<Seq<T>>::empty());
        r
    }

    /// A filled matrix of `rows` by `cols` cells, each the zero of `T`.
    pub fn new_zeros(rows: usize, cols: usize) -> (r: Matrix<T>) where T: Zero
        ensures
            r.rows == rows,
            r.cols == cols,
            r.is_filled(),
            r.cells() == zero_grid::<T>(rows as nat, cols as nat),
    {
        let mut data: Vec<Vec<T>> = Vec::new();
        let mut i: usize = 0;
        while i < rows
            invariant
                i <= rows,
                data@.len() == i,
                forall|k: int| 0 <= k < i ==> (#[trigger] data@[k])@ == Seq::new(cols as nat, |j: int| T::zero_spec()),
            decreases rows - i,
        {
            let mut row: Vec<T> = Vec::new();
            let mut j: usize = 0;
            while j < cols
                invariant
                    j <= cols,
                    row@.len() == j,
                    forall|k: int| 0 <= k < j ==> #[trigger] row@[k] == T::zero_spec(),
                decreases cols - j,
            {
                row.push(T::zero());
                j += 1;
            }
            assert(row@ =~= Seq::new(cols as nat, |j: int| T::zero_spec()));
            data.push(row);
            i += 1;
        }
        let r = Matrix { rows, cols, data };
        assert(r.cells() =~= zero_grid::<T>(rows as nat, cols as nat));
        r
    }

    /// The identity matrix of size `n`: filled, with the one of `T` on the
    /// diagonal and its zero everywhere else.
    pub fn new_ident(n: usize) -> (r: Matrix<T>) where T: Zero + One
        ensures
            r.rows == n,
            r.cols == n,
            r.is_filled(),
            r.cells() == identity_grid::<T>(n as nat),
    {
        let mut mat: Matrix<T> = Matrix::new_zeros(n, n);
        assert forall|k: int| 0 <= k < n implies (#[trigger] mat.data@[k])@ == Seq::new(
            n as nat,
            |l: int| T::zero_spec(),
        ) by {
            assert(mat.cells()[k] == zero_grid::<T>(n as nat, n as nat)[k]);
        }
        let mut i: usize = 0;
        while i < n
            invariant
                i <= n,
                mat.rows == n,
                mat.cols == n,
                mat.data@.len() == n,
                forall|k: int| 0 <= k < n ==> (#[trigger] mat.data@[k])@.len() == n,
                forall|k: int, l: int|
                    0 <= k < n && 0 <= l < n ==> #[trigger] mat.data@[k]@[l] == (if k == l && k < i {
                        T::one_spec()
                    } else {
                        T::zero_spec()
                    }),
            decreases n - i,
        {
            mat.data[i][i] = T::one();
            i += 1;
        }
        assert(mat.cells().len() == n);
        assert forall|k: int| 0 <= k < n implies (#[trigger] mat.cells()[k]).len() == n by {
            assert(mat.cells()[k] == mat.data@[k]@);
        }
        assert(mat.cells() =~~= identity_grid::<T>(n as nat));
        mat
    }

    /// A bare square matrix: `new(n, n)`.
    pub fn new_square(n: usize) -> (r: Matrix<T>)
        ensures
            r.rows == n,
            r.cols == n,
            r.cells() == Seq::<Seq<T>>::empty(),
    {
        Matrix::new(n, n)
    }
}

impl<T: Clone + Zero + Copy + Add<Output = T>> Matrix<T> {
    /// What the sum of `self` and `rhs` holds: a grid of the dimensions of
    /// `self` whose every cell is the zero of `T` plus the cell of `rhs` at
    /// the same place. The cells of `self` do not enter into it.
    pub open spec fn sum_grid(self, rhs: Matrix<T>) -> Seq<Seq<T>> {
        Seq::new(
            self.rows as nat,
            |i: int|
                Seq::new(self.cols as nat, |j: int| T::zero_spec().add_spec(rhs.cells()[i][j])),
        )
    }

    /// `rhs` holds an element at every coordinate within the dimensions of
    /// `self`, and the zero of `T` can be added to each of them.
    pub open spec fn can_add(self, rhs: Matrix<T>) -> bool {
        &&& rhs.covers(self.rows as nat, self.cols as nat)
        &&& forall|i: int, j: int|
            0 <= i < self.rows && 0 <= j < self.cols ==> T::zero_spec().add_req(
                #[trigger] rhs.cells()[i][j],
            )
    }
}

/// What `+` asks of its operands. The sum itself is described by the
/// `ensures` of `add` over [`Matrix::sum_grid`], not by `add_spec`: a matrix
/// is not determined by its cells alone, so no spec function names it.
impl<T: Clone + Zero + Copy + Add<Output = T>> AddSpecImpl for Matrix<T> {
    open spec fn obeys_add_spec() -> bool {
        false
    }

    open spec fn add_req(self, rhs: Matrix<T>) -> bool {
        self.can_add(rhs)
    }

    open spec fn add_spec(self, rhs: Matrix<T>) -> Matrix<T> {
        arbitrary()
    }
}

impl<T: Clone + Zero + Copy + Add<Output = T>> Add for Matrix<T> {
    type Output = Matrix<T>;

    /// The sum as this library defines it: a filled matrix of the dimensions
    /// of `self` that starts from zeros and takes up the cells of `rhs`
    /// only. The cells of `self` are not read, so `self` may even be bare.
    ///
    /// `rhs` must hold an element wherever the result has one; what it
    /// holds beyond the dimensions of `self` is left aside.
    fn add(self, rhs: Matrix<T>) -> (sum: Matrix<T>)
        ensures
            sum.rows == self.rows,
            sum.cols == self.cols,
            sum.is_filled(),
            T::obeys_add_spec() ==> sum.cells() == self.sum_grid(rhs),
    {
        let mut mat: Matrix<T> = Matrix::new_zeros(self.rows, self.cols);
        assert forall|k: int| 0 <= k < self.rows implies (#[trigger] mat.data@[k])@
            == Seq::new(self.cols as nat, |l: int| T::zero_spec()) by {
            assert(mat.cells()[k] == zero_grid::<T>(self.rows as nat, self.cols as nat)[k]);
        }
        let mut i: usize = 0;
        while i < self.rows
            invariant
                i <= self.rows,
                self.can_add(rhs),
                mat.rows == self.rows,
                mat.cols == self.cols,
                mat.data@.len() == self.rows,
                forall|k: int| 0 <= k < self.rows ==> (#[trigger] mat.data@[k])@.len() == self.cols,
                forall|k: int, l: int|
                    0 <= k < i && 0 <= l < self.cols && T::obeys_add_spec() ==> #[trigger] mat.data@[k]@[l]
                        == T::zero_spec().add_spec(rhs.cells()[k][l]),
                forall|k: int, l: int|
                    i <= k < self.rows && 0 <= l < self.cols ==> #[trigger] mat.data@[k]@[l]
                        == T::zero_spec(),
            decreases self.rows - i,
        {
            let mut j: usize = 0;
            while j < self.cols
                invariant
                    i < self.rows,
                    j <= self.cols,
                    self.can_add(rhs),
                    mat.rows == self.rows,
                    mat.cols == self.cols,
                    mat.data@.len() == self.rows,
                    forall|k: int| 0 <= k < self.rows ==> (#[trigger] mat.data@[k])@.len() == self.cols,
                    forall|k: int, l: int|
                        0 <= k < self.rows && 0 <= l < self.cols && (k < i || (k == i && l < j))
                            && T::obeys_add_spec() ==> #[trigger] mat.data@[k]@[l]
                            == T::zero_spec().add_spec(rhs.cells()[k][l]),
                    forall|k: int, l: int|
                        0 <= k < self.rows && 0 <= l < self.cols && !(k < i || (k == i && l < j))
                            ==> #[trigger] mat.data@[k]@[l] == T::zero_spec(),
                decreases self.cols - j,
            {
                assert(rhs.holds(i as int, j as int));
                assert(T::zero_spec().add_req(rhs.cells()[i as int][j as int]));
                mat.data[i][j] = mat.data[i][j] + rhs.data[i][j];
                j += 1;
            }
            i += 1;
        }
        assert(mat.cells().len() == mat.rows);
        assert forall|k: int| 0 <= k < mat.rows implies (#[trigger] mat.cells()[k]).len()
            == mat.cols by {
            assert(mat.cells()[k] == mat.data@[k]@);
        }
        assert(T::obeys_add_spec() ==> mat.cells() =~~= self.sum_grid(rhs));
        mat
    }
}

/// The zero of `T` can be added to every value of `T`, and leaves it as it
/// is.
pub open spec fn zero_is_left_identity<T: Zero + Add<Output = T>>() -> bool {
    &&& T::obeys_add_spec()
    &&& forall|x: T| #[trigger] T::zero_spec().add_req(x)
    &&& forall|x: T| #[trigger] T::zero_spec().add_spec(x) == x
}

/// Zero is a left identity of the addition of `usize`.
pub proof fn lemma_usize_zero_is_left_identity()
    ensures
        zero_is_left_identity::<usize>(),
{
}

/// Where zero is a left identity, the sum with a filled matrix of the same
/// dimensions is defined and holds that matrix's cells, whatever the left
/// operand held.
pub proof fn lemma_sum_is_rhs<T: Clone + Zero + Copy + Add<Output = T>>(
    lhs: Matrix<T>,
    rhs: Matrix<T>,
)
    requires
        zero_is_left_identity::<T>(),
        rhs.is_filled(),
        rhs.rows == lhs.rows,
        rhs.cols == lhs.cols,
    ensures
        lhs.can_add(rhs),
        lhs.sum_grid(rhs) == rhs.cells(),
{
    lemma_filled_covers(rhs);
    assert forall|i: int| 0 <= i < rhs.rows implies (#[trigger] lhs.sum_grid(rhs)[i]) =~= rhs.cells()[i] by {
        assert(rhs.cells()[i].len() == rhs.cols);
    }
    assert(lhs.sum_grid(rhs) =~= rhs.cells());
}

} // verus!
