//! Committing constraints in another order.
//!
//! The order of commits decides which row an equation gets and which column
//! a vertex gets, and nothing else: two constraints committed either way
//! round give the same system up to an exchange of two rows and a renaming of
//! the columns, and so the same values for the vertices.

use vstd::prelude::*;
use crate::alternating_current::arena::ArenaModel;
use crate::alternating_current::constraint::{has_term, ConstraintElement};
use crate::alternating_current::laws::lemma_columns_are_dense;
use crate::alternating_current::matrix::coefficient;
use crate::alternating_current::model::{
    lemma_with_result_indices, with_result_indices, CalculatorModel,
};
use crate::alternating_current::vertex::{AcVertexIdentifier, VertexOrUnit};

verus! {

/// Whether `values` satisfy every equation of a system, where `holds` says
/// what it is for values to satisfy one row with its right-hand side.
pub open spec fn satisfies_all<S>(
    system: Seq<Seq<S>>,
    rhs: Seq<S>,
    values: Seq<S>,
    holds: spec_fn(Seq<S>, S, Seq<S>) -> bool,
) -> bool {
    forall|r: int| 0 <= r < system.len() ==> holds(#[trigger] system[r], rhs[r], values)
}

/// A vertex has a column after its constraint's vertices were given columns
/// exactly if it had one before, or is valid and is among the terms.
pub proof fn lemma_columns_after_commit<T, S>(
    arena: ArenaModel<T>,
    terms: Seq<ConstraintElement<S>>,
    id: AcVertexIdentifier,
)
    requires
        arena.wf(),
    ensures
        with_result_indices(arena, terms).result_index(id) is Some <==> arena.result_index(id) is Some
            || (arena.is_valid(id) && has_term(terms, VertexOrUnit::Vertex(id))),
{
    let after = with_result_indices(arena, terms);
    lemma_with_result_indices(arena, terms);
    if after.result_index(id) is Some {
        after.lemma_result_index_in_range(id);
        let column = after.result_index(id)->Some_0 as int;
        if column < arena.columns.len() {
            assert(arena.columns[column] == VertexOrUnit::Vertex(id));
        } else {
            assert(has_term(terms, after.columns[column]));
        }
    }
    if arena.is_valid(id) && has_term(terms, VertexOrUnit::Vertex(id)) {
        let t = choose|t: int|
            0 <= t < terms.len() && (#[trigger] terms[t]).variable == VertexOrUnit::Vertex(id);
        assert(terms[t].variable matches VertexOrUnit::Vertex(named) && named == id);
    }
}

/// Two well-formed arenas in which the same variables have columns have the
/// same number of columns.
pub proof fn lemma_same_variables_same_count<T>(arena: ArenaModel<T>, other: ArenaModel<T>)
    requires
        arena.wf(),
        other.wf(),
        forall|variable: VertexOrUnit|
            (#[trigger] arena.column_of(variable) is Some) == (other.column_of(variable) is Some),
    ensures
        arena.row_count() == other.row_count(),
{
    lemma_columns_are_dense(arena);
    lemma_columns_are_dense(other);
    assert(arena.columns.no_duplicates()) by {
        assert forall|i: int, j: int|
            0 <= i < arena.columns.len() && 0 <= j < arena.columns.len() && i != j implies arena.columns[i]
            != arena.columns[j] by {
            assert(arena.column_of(arena.columns[i]) == Some(i as nat));
            assert(arena.column_of(arena.columns[j]) == Some(j as nat));
        }
    }
    assert(other.columns.no_duplicates()) by {
        assert forall|i: int, j: int|
            0 <= i < other.columns.len() && 0 <= j < other.columns.len() && i != j implies other.columns[i]
            != other.columns[j] by {
            assert(other.column_of(other.columns[i]) == Some(i as nat));
            assert(other.column_of(other.columns[j]) == Some(j as nat));
        }
    }
    assert(arena.columns.to_set() =~= other.columns.to_set()) by {
        assert forall|variable: VertexOrUnit|
            arena.columns.to_set().contains(variable) == other.columns.to_set().contains(
                variable,
            ) by {
            if arena.columns.contains(variable) {
                let i = choose|i: int| 0 <= i < arena.columns.len() && arena.columns[i] == variable;
                assert(arena.column_of(arena.columns[i]) == Some(i as nat));
                assert(arena.column_of(variable) is Some);
                assert(other.column_of(variable) is Some);
                assert(other.columns[other.column_of(variable)->Some_0 as int] == variable);
            }
            if other.columns.contains(variable) {
                let i = choose|i: int| 0 <= i < other.columns.len() && other.columns[i] == variable;
                assert(other.column_of(other.columns[i]) == Some(i as nat));
                assert(other.column_of(variable) is Some);
                assert(arena.column_of(variable) is Some);
                assert(arena.columns[arena.column_of(variable)->Some_0 as int] == variable);
            }
        }
    }
    arena.columns.unique_seq_to_set();
    other.columns.unique_seq_to_set();
}

/// The row that a row of the system is exchanged with when the last two
/// constraints change places; `last` is the last row.
pub open spec fn exchanged_row(last: int, row: int) -> int {
    if row == last {
        last - 1
    } else if row == last - 1 {
        last
    } else {
        row
    }
}

/// The column that `other` gives to the variable that has `column` in `arena`.
pub open spec fn renamed_column<T>(arena: ArenaModel<T>, other: ArenaModel<T>, column: int) -> int {
    other.column_of(arena.columns[column])->Some_0 as int
}

/// Between two well-formed arenas in which the same variables have columns,
/// renaming the columns is a one-to-one map onto the columns that keeps
/// column 0, and every equation's coefficient is found in the renamed column.
pub proof fn lemma_rows_under_renaming<T, S>(
    arena: ArenaModel<T>,
    other: ArenaModel<T>,
    terms: Seq<ConstraintElement<S>>,
    column: int,
    zero: S,
)
    requires
        arena.wf(),
        other.wf(),
        forall|variable: VertexOrUnit|
            (#[trigger] arena.column_of(variable) is Some) == (other.column_of(variable) is Some),
        0 <= column < arena.row_count(),
    ensures
        0 <= renamed_column(arena, other, column) < other.row_count(),
        renamed_column(arena, other, column) == 0 <==> column == 0,
        renamed_column(other, arena, renamed_column(arena, other, column)) == column,
        coefficient(other, terms, renamed_column(arena, other, column) as nat, zero) == coefficient(
            arena,
            terms,
            column as nat,
            zero,
        ),
    decreases terms.len(),
{
    lemma_columns_are_dense(arena);
    lemma_columns_are_dense(other);
    let held = arena.columns[column];
    assert(arena.column_of(held) == Some(column as nat));
    assert(other.column_of(held) is Some);
    let renamed = renamed_column(arena, other, column);
    assert(other.columns[renamed] == held);
    if terms.len() > 0 {
        let variable = terms.last().variable;
        if other.column_of(variable) == Some(renamed as nat) {
            other.lemma_columns_distinct(variable, held);
        }
        if arena.column_of(variable) == Some(column as nat) {
            arena.lemma_columns_distinct(variable, held);
        }
        lemma_rows_under_renaming(arena, other, terms.drop_last(), column, zero);
    }
}

/// Two constraints can be committed in either order: the same vertices get
/// columns, and the two compiled systems are the same up to the order of the
/// last two equations and a renaming of the columns. The entry that one
/// system has in a row and a column, the other has in the exchanged row and
/// the renamed column.
pub proof fn lemma_commit_order_renames<T, S>(
    calculator: CalculatorModel<T, S>,
    first: Seq<ConstraintElement<S>>,
    second: Seq<ConstraintElement<S>>,
    row: int,
    column: int,
)
    requires
        calculator.wf(),
        0 <= row < calculator.constraints.len() + 3,
        0 <= column < calculator.commit(first).commit(second).vertices.row_count(),
    ensures
        ({
            let one_way = calculator.commit(first).commit(second);
            let other_way = calculator.commit(second).commit(first);
            let last = calculator.constraints.len() as int + 2;
            let exchanged = exchanged_row(last, row);
            let renamed = renamed_column(one_way.vertices, other_way.vertices, column);
            &&& one_way.vertices.row_count() == other_way.vertices.row_count()
            &&& forall|id: AcVertexIdentifier|
                (#[trigger] one_way.vertices.result_index(id) is Some) == (
                other_way.vertices.result_index(id) is Some)
            &&& 0 <= renamed < other_way.vertices.row_count()
            &&& renamed_column(other_way.vertices, one_way.vertices, renamed) == column
            &&& other_way.system()[exchanged][renamed] == one_way.system()[row][column]
        }),
{
    let one_way = calculator.commit(first).commit(second);
    let other_way = calculator.commit(second).commit(first);
    let after_first = calculator.commit(first);
    let after_second = calculator.commit(second);
    lemma_with_result_indices(calculator.vertices, first);
    lemma_with_result_indices(calculator.vertices, second);
    lemma_with_result_indices(after_first.vertices, second);
    lemma_with_result_indices(after_second.vertices, first);
    assert forall|id: AcVertexIdentifier|
        (#[trigger] one_way.vertices.result_index(id) is Some) == (
        other_way.vertices.result_index(id) is Some) by {
        lemma_columns_after_commit(calculator.vertices, first, id);
        lemma_columns_after_commit(calculator.vertices, second, id);
        lemma_columns_after_commit(after_first.vertices, second, id);
        lemma_columns_after_commit(after_second.vertices, first, id);
    }
    assert forall|variable: VertexOrUnit|
        (#[trigger] one_way.vertices.column_of(variable) is Some) == (other_way.vertices.column_of(
            variable,
        ) is Some) by {
        if variable is Vertex {
            let id = variable->Vertex_0;
            assert((one_way.vertices.result_index(id) is Some) == (other_way.vertices.result_index(
                id,
            ) is Some));
        }
    }
    lemma_same_variables_same_count(one_way.vertices, other_way.vertices);
    let last = calculator.constraints.len() as int + 2;
    let exchanged = exchanged_row(last, row);
    let terms = if row == 0 {
        first
    } else {
        one_way.constraints[row - 1]
    };
    if row > 0 {
        assert(other_way.constraints[exchanged - 1] == terms);
    }
    lemma_rows_under_renaming(
        one_way.vertices,
        other_way.vertices,
        terms,
        column,
        calculator.zero,
    );
}

/// A vector over the columns of `arena`, carried over to the columns of
/// `other`: each variable keeps its entry.
pub open spec fn carried_over<T, S>(arena: ArenaModel<T>, other: ArenaModel<T>, entries: Seq<S>) -> Seq<
    S,
> {
    Seq::new(other.row_count(), |column: int| entries[renamed_column(other, arena, column)])
}

/// Whether `holds`, which says what it is for values to satisfy one row with
/// its right-hand side, does not depend on the order of the columns: carrying
/// the row and the values over from `arena` to `other` changes nothing.
pub open spec fn order_blind<T, S>(
    holds: spec_fn(Seq<S>, S, Seq<S>) -> bool,
    arena: ArenaModel<T>,
    other: ArenaModel<T>,
) -> bool {
    forall|row: Seq<S>, rhs: S, values: Seq<S>|
        row.len() == arena.row_count() && values.len() == arena.row_count() ==> #[trigger] holds(
            carried_over(arena, other, row),
            rhs,
            carried_over(arena, other, values),
        ) == holds(row, rhs, values)
}

/// The values of the vertices do not depend on the order in which two
/// constraints are committed: for every notion of satisfying an equation
/// that does not depend on the order of the columns, values satisfy every
/// equation of the one system exactly if, carried over to the columns of the
/// other, they satisfy every equation of the other; and carried over, every
/// vertex has the value it had.
pub proof fn lemma_commit_order_keeps_values<T, S>(
    calculator: CalculatorModel<T, S>,
    first: Seq<ConstraintElement<S>>,
    second: Seq<ConstraintElement<S>>,
    values: Seq<S>,
    holds: spec_fn(Seq<S>, S, Seq<S>) -> bool,
)
    requires
        calculator.wf(),
        values.len() == calculator.commit(first).commit(second).vertices.row_count(),
        order_blind(
            holds,
            calculator.commit(first).commit(second).vertices,
            calculator.commit(second).commit(first).vertices,
        ),
    ensures
        ({
            let one_way = calculator.commit(first).commit(second);
            let other_way = calculator.commit(second).commit(first);
            let carried = carried_over(one_way.vertices, other_way.vertices, values);
            &&& satisfies_all(one_way.system(), one_way.right_hand_side(), values, holds)
                == satisfies_all(other_way.system(), other_way.right_hand_side(), carried, holds)
            &&& forall|id: AcVertexIdentifier|
                (#[trigger] one_way.vertices.result_index(id)) is Some ==> other_way.vertices.result_index(
                    id,
                ) is Some && carried[other_way.vertices.result_index(id)->Some_0 as int]
                    == values[one_way.vertices.result_index(id)->Some_0 as int]
        }),
{
    let one_way = calculator.commit(first).commit(second);
    let other_way = calculator.commit(second).commit(first);
    let a = one_way.system();
    let b = other_way.system();
    let rhs = one_way.right_hand_side();
    let carried = carried_over(one_way.vertices, other_way.vertices, values);
    let last = calculator.constraints.len() as int + 2;
    let count = one_way.vertices.row_count() as int;
    lemma_with_result_indices(calculator.vertices, first);
    lemma_with_result_indices(calculator.commit(first).vertices, second);
    lemma_with_result_indices(calculator.vertices, second);
    lemma_with_result_indices(calculator.commit(second).vertices, first);
    lemma_commit_order_renames(calculator, first, second, 0, 0);
    assert(other_way.right_hand_side() =~= rhs);
    assert forall|variable: VertexOrUnit|
        (#[trigger] other_way.vertices.column_of(variable) is Some) == (one_way.vertices.column_of(
            variable,
        ) is Some) by {
        if variable is Vertex {
            let id = variable->Vertex_0;
            assert((one_way.vertices.result_index(id) is Some) == (other_way.vertices.result_index(
                id,
            ) is Some));
        }
    }
    assert forall|row: int| 0 <= row < a.len() implies b[exchanged_row(last, row)] == carried_over(
        one_way.vertices,
        other_way.vertices,
        #[trigger] a[row],
    ) by {
        let target = b[exchanged_row(last, row)];
        let expected = carried_over(one_way.vertices, other_way.vertices, a[row]);
        assert forall|column: int| 0 <= column < count implies target[column] == expected[column] by {
            let terms = Seq::<ConstraintElement<S>>::empty();
            lemma_rows_under_renaming(
                other_way.vertices,
                one_way.vertices,
                terms,
                column,
                calculator.zero,
            );
            let source = renamed_column(other_way.vertices, one_way.vertices, column);
            lemma_commit_order_renames(calculator, first, second, row, source);
        }
        assert(target =~= expected);
    }
    if satisfies_all(a, rhs, values, holds) {
        assert forall|row: int| 0 <= row < b.len() implies holds(#[trigger] b[row], rhs[row], carried) by {
            let source = exchanged_row(last, row);
            assert(b[exchanged_row(last, source)] == carried_over(
                one_way.vertices,
                other_way.vertices,
                a[source],
            ));
            assert(holds(a[source], rhs[source], values));
            assert(rhs[source] == rhs[row]);
        }
    }
    if satisfies_all(b, rhs, carried, holds) {
        assert forall|row: int| 0 <= row < a.len() implies holds(#[trigger] a[row], rhs[row], values) by {
            let target = exchanged_row(last, row);
            assert(holds(b[target], rhs[target], carried));
            assert(rhs[target] == rhs[row]);
        }
    }
    assert forall|id: AcVertexIdentifier|
        (#[trigger] one_way.vertices.result_index(id)) is Some implies other_way.vertices.result_index(
        id,
    ) is Some && carried[other_way.vertices.result_index(id)->Some_0 as int]
        == values[one_way.vertices.result_index(id)->Some_0 as int] by {
        assert((one_way.vertices.result_index(id) is Some) == (other_way.vertices.result_index(id) is Some));
        other_way.vertices.lemma_result_index_in_range(id);
        one_way.vertices.lemma_result_index_in_range(id);
    }
}

} // verus!
