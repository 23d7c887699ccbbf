//! The dense linear system that the committed constraints compile to.
//!
//! Rows are equations and columns are unknowns. Row 0 and column 0 belong to
//! the unit unknown: row 0 is the equation "the unit unknown is one", and
//! column 0 of every other row holds that equation's constant. Row `k + 1` is
//! the `k`-th committed constraint. The right-hand side is one in row 0 and
//! zero elsewhere.

use vstd::prelude::*;
use crate::alternating_current::arena::ArenaModel;
use crate::alternating_current::constraint::{ConstraintCollection, ConstraintElement};
use crate::alternating_current::vertex::{VertexCollection, VertexOrUnit};

verus! {

/// The vector of length `len` that is `one` in place 0 and `zero` elsewhere.
pub open spec fn unit_row<S>(len: nat, zero: S, one: S) -> Seq<S> {
    Seq::new(
        len,
        |c: int|
            if c == 0 {
                one
            } else {
                zero
            },
    )
}

/// The coefficient that the terms put into `column`: that of the last term
/// whose variable occupies the column, or `zero` if there is no such term.
/// A term whose variable has no column contributes nothing.
pub open spec fn coefficient<T, S>(
    arena: ArenaModel<T>,
    terms: Seq<ConstraintElement<S>>,
    column: nat,
    zero: S,
) -> S
    decreases terms.len(),
{
    if terms.len() == 0 {
        zero
    } else if arena.column_of(terms.last().variable) == Some(column) {
        terms.last().multiplier
    } else {
        coefficient(arena, terms.drop_last(), column, zero)
    }
}

/// The row of one equation: for each column in use, the coefficient that the
/// equation's terms put there.
pub open spec fn equation_row<T, S>(
    arena: ArenaModel<T>,
    terms: Seq<ConstraintElement<S>>,
    zero: S,
) -> Seq<S> {
    Seq::new(arena.row_count(), |c: int| coefficient(arena, terms, c as nat, zero))
}

/// The matrix of the system: the unit row, then one row for each committed
/// constraint, in order.
pub open spec fn assembled<T, S>(
    arena: ArenaModel<T>,
    constraints: Seq<Seq<ConstraintElement<S>>>,
    zero: S,
    one: S,
) -> Seq<Seq<S>> {
    Seq::new(
        constraints.len() + 1,
        |r: int|
            if r == 0 {
                unit_row(arena.row_count(), zero, one)
            } else {
                equation_row(arena, constraints[r - 1], zero)
            },
    )
}

/// The coefficients depend on the arena only through the columns of the variables.
pub proof fn lemma_coefficient_by_columns<T, S>(
    arena: ArenaModel<T>,
    other: ArenaModel<T>,
    terms: Seq<ConstraintElement<S>>,
    column: nat,
    zero: S,
)
    requires
        forall|variable: VertexOrUnit| #[trigger]
            arena.column_of(variable) == other.column_of(variable),
    ensures
        coefficient(arena, terms, column, zero) == coefficient(other, terms, column, zero),
    decreases terms.len(),
{
    if terms.len() > 0 {
        assert(arena.column_of(terms.last().variable) == other.column_of(terms.last().variable));
        lemma_coefficient_by_columns(arena, other, terms.drop_last(), column, zero);
    }
}

/// Two arenas with the same number of columns, which give every variable the
/// same column, compile every list of constraints to the same matrix.
pub proof fn lemma_assembled_by_columns<T, S>(
    arena: ArenaModel<T>,
    other: ArenaModel<T>,
    constraints: Seq<Seq<ConstraintElement<S>>>,
    zero: S,
    one: S,
)
    requires
        arena.row_count() == other.row_count(),
        forall|variable: VertexOrUnit| #[trigger]
            arena.column_of(variable) == other.column_of(variable),
    ensures
        assembled(arena, constraints, zero, one) == assembled(other, constraints, zero, one),
{
    let a = assembled(arena, constraints, zero, one);
    let b = assembled(other, constraints, zero, one);
    assert forall|r: int| 0 <= r < a.len() implies a[r] == b[r] by {
        if r > 0 {
            let terms = constraints[r - 1];
            assert forall|c: int| 0 <= c < arena.row_count() implies equation_row(arena, terms, zero)[c]
                == equation_row(other, terms, zero)[c] by {
                lemma_coefficient_by_columns(arena, other, terms, c as nat, zero);
            }
            assert(equation_row(arena, terms, zero) =~= equation_row(other, terms, zero));
        }
    }
    assert(a =~= b);
}

/// A rectangular matrix of coefficients, stored by rows.
#[derive(Debug)]
pub struct DenseMatrix<S> {
    rows: Vec<Vec<S>>,
    ncols: usize,
}

impl<S> DenseMatrix<S> {
    /// Every row has as many entries as the matrix has columns.
    #[verifier::type_invariant]
    spec fn rectangular(self) -> bool {
        forall|r: int| 0 <= r < self.rows@.len() ==> (#[trigger] self.rows@[r])@.len() == self.ncols
    }
}

impl<S: Copy> DenseMatrix<S> {
    /// The rows of the matrix, each a sequence of entries.
    pub closed spec fn view(&self) -> Seq<Seq<S>> {
        Seq::new(self.rows@.len(), |r: int| self.rows@[r]@)
    }

    /// The number of columns.
    pub closed spec fn width(&self) -> nat {
        self.ncols as nat
    }

    /// The matrix with no rows and no columns.
    pub fn empty() -> (matrix: Self)
        ensures
            matrix@ == Seq::<Seq<S>>::empty(),
            matrix.width() == 0,
    {
        let matrix = DenseMatrix { rows: Vec::new(), ncols: 0 };
        assert(matrix@ =~= Seq::empty());
        matrix
    }

    /// The matrix with the given rows, each `ncols` long.
    pub fn from_rows(rows: Vec<Vec<S>>, ncols: usize) -> (matrix: Self)
        requires
            forall|r: int| 0 <= r < rows@.len() ==> (#[trigger] rows@[r])@.len() == ncols,
        ensures
            matrix@ == Seq::new(rows@.len(), |r: int| rows@[r]@),
            matrix.width() == ncols,
    {
        DenseMatrix { rows, ncols }
    }

    /// The number of rows.
    pub fn nrows(&self) -> (count: usize)
        ensures
            count == self@.len(),
    {
        self.rows.len()
    }

    /// The number of columns. Every row has this many entries.
    pub fn ncols(&self) -> (count: usize)
        ensures
            count == self.width(),
            forall|r: int| 0 <= r < self@.len() ==> (#[trigger] self@[r]).len() == count,
    {
        proof {
            use_type_invariant(self);
        }
        self.ncols
    }

    /// The entry in row `row` and column `column`.
    pub fn get(&self, row: usize, column: usize) -> (entry: S)
        requires
            row < self@.len(),
            column < self.width(),
        ensures
            entry == self@[row as int][column as int],
    {
        proof {
            use_type_invariant(self);
        }
        self.rows[row][column]
    }
}

/// A vector of `len` entries, all `value`.
pub fn filled_row<S: Copy>(len: usize, value: S) -> (row: Vec<S>)
    ensures
        row@ == Seq::new(len as nat, |c: int| value),
{
    let mut row: Vec<S> = Vec::new();
    let mut c: usize = 0;
    while c < len
        invariant
            c <= len,
            row@ == Seq::new(c as nat, |k: int| value),
        decreases len - c,
    {
        row.push(value);
        c += 1;
        assert(row@ =~= Seq::new(c as nat, |k: int| value));
    }
    row
}

/// The vector of `len` entries that is `one` in place 0 and `zero` elsewhere.
pub fn unit_vector<S: Copy>(len: usize, zero: S, one: S) -> (row: Vec<S>)
    ensures
        row@ == unit_row(len as nat, zero, one),
{
    let mut row = filled_row(len, zero);
    if len > 0 {
        row[0] = one;
    }
    assert(row@ =~= unit_row(len as nat, zero, one));
    row
}

/// Compiles the committed constraints into the matrix of the system, over
/// the columns of `vertices`.
pub fn compile<T: Clone, S: Copy>(
    vertices: &VertexCollection<T>,
    constraints: &ConstraintCollection<S>,
    zero: S,
    one: S,
) -> (matrix: DenseMatrix<S>)
    requires
        vertices.wf(),
    ensures
        matrix@ == assembled(vertices@, constraints@, zero, one),
        matrix.width() == vertices@.row_count(),
{
    let width = vertices.get_row_count();
    let mut rows: Vec<Vec<S>> = Vec::new();
    rows.push(unit_vector(width, zero, one));
    let mut k: usize = 0;
    while k < constraints.len()
        invariant
            vertices.wf(),
            k <= constraints@.len(),
            width == vertices@.row_count(),
            rows@.len() == k + 1,
            forall|r: int|
                0 <= r <= k ==> (#[trigger] rows@[r])@ == assembled(
                    vertices@,
                    constraints@,
                    zero,
                    one,
                )[r],
        decreases constraints@.len() - k,
    {
        let mut row = Vec::new();
        constraints.get(k).compile_to(vertices, zero, &mut row);
        rows.push(row);
        k += 1;
    }
    let matrix = DenseMatrix::from_rows(rows, width);
    assert(matrix@ =~= assembled(vertices@, constraints@, zero, one));
    matrix
}

} // verus!
