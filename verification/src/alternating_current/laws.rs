//! What holds of the calculator in every state, stated over its model.
//!
//! The executable operations are specified by the model's functions, and the
//! model's invariant is kept by each of them, so what is proved here of the
//! model holds of every calculator that the operations can produce.

use vstd::prelude::*;
use crate::alternating_current::arena::ArenaModel;
use crate::alternating_current::constraint::{has_term, terms_wf, ConstraintElement};
use crate::alternating_current::matrix::coefficient;
use crate::alternating_current::model::{lemma_with_result_indices, CalculatorModel};
use crate::alternating_current::vertex::{AcVertexIdentifier, VertexOrUnit};

verus! {

/// One operation on a calculator.
pub enum Operation<T, S> {
    /// Registering a vertex with a payload.
    Register(T),
    /// Removing the vertex that an identifier names.
    Remove(AcVertexIdentifier),
    /// Committing an equation with the given terms.
    Commit(Seq<ConstraintElement<S>>),
    /// Reading the value of a vertex, with what the solver returns if it is called.
    Read(AcVertexIdentifier, Option<Seq<S>>),
}

impl<T, S> Operation<T, S> {
    /// Whether the operation is one that the calculator offers: an equation
    /// that is committed has a well-formed term list.
    pub open spec fn admissible(self) -> bool {
        match self {
            Operation::Commit(terms) => terms_wf(terms),
            _ => true,
        }
    }
}

impl<T, S> CalculatorModel<T, S> {
    /// The calculator after one operation.
    pub open spec fn step(self, operation: Operation<T, S>) -> Self {
        match operation {
            Operation::Register(payload) => self.register(payload),
            Operation::Remove(id) => self.remove(id),
            Operation::Commit(terms) => self.commit(terms),
            Operation::Read(id, outcome) => self.after_read(id, outcome),
        }
    }

    /// The calculator after a series of operations.
    pub open spec fn run(self, operations: Seq<Operation<T, S>>) -> Self
        decreases operations.len(),
    {
        if operations.len() == 0 {
            self
        } else {
            self.run(operations.drop_last()).step(operations.last())
        }
    }
}

/// Every operation keeps the calculator's invariant.
pub proof fn lemma_step_wf<T, S>(calculator: CalculatorModel<T, S>, operation: Operation<T, S>)
    requires
        calculator.wf(),
        operation.admissible(),
    ensures
        calculator.step(operation).wf(),
{
    match operation {
        Operation::Register(payload) => calculator.lemma_register_wf(payload),
        Operation::Remove(id) => calculator.lemma_remove_wf(id),
        Operation::Commit(terms) => calculator.lemma_commit_wf(terms),
        Operation::Read(_, outcome) => calculator.lemma_refreshed_wf(outcome),
    }
}

/// The invariant holds after every series of operations on a new calculator.
pub proof fn lemma_run_wf<T, S>(zero: S, one: S, operations: Seq<Operation<T, S>>)
    requires
        forall|i: int| 0 <= i < operations.len() ==> (#[trigger] operations[i]).admissible(),
    ensures
        CalculatorModel::<T, S>::initial(zero, one).run(operations).wf(),
    decreases operations.len(),
{
    if operations.len() > 0 {
        let earlier = operations.drop_last();
        assert forall|i: int| 0 <= i < earlier.len() implies (#[trigger] earlier[i]).admissible() by {
            assert(operations[i].admissible());
        }
        lemma_run_wf::<T, S>(zero, one, earlier);
        lemma_step_wf(
            CalculatorModel::<T, S>::initial(zero, one).run(earlier),
            operations.last(),
        );
    }
}

/// A valid vertex that no committed constraint mentions reads as zero, and
/// reading it changes nothing and calls no solver.
pub proof fn lemma_unconstrained_vertex_reads_zero<T, S>(
    calculator: CalculatorModel<T, S>,
    id: AcVertexIdentifier,
    outcome: Option<Seq<S>>,
)
    requires
        calculator.wf(),
        calculator.vertices.is_valid(id),
        !calculator.mentions(VertexOrUnit::Vertex(id)),
    ensures
        !calculator.solves_on_read(id),
        calculator.after_read(id, outcome) == calculator,
        calculator.value(id) == Some(calculator.zero),
{
    if calculator.vertices.result_index(id) is Some {
        calculator.vertices.lemma_result_index_in_range(id);
        let column = calculator.vertices.result_index(id)->Some_0 as int;
        assert(calculator.mentions(calculator.vertices.columns[column]));
    }
}

/// A vertex keeps reading as zero through every series of operations that
/// neither removes it nor commits a constraint with a term for it.
pub proof fn lemma_unconstrained_vertex_stays_zero<T, S>(
    calculator: CalculatorModel<T, S>,
    id: AcVertexIdentifier,
    operations: Seq<Operation<T, S>>,
)
    requires
        calculator.wf(),
        calculator.vertices.is_valid(id),
        !calculator.mentions(VertexOrUnit::Vertex(id)),
        forall|i: int| 0 <= i < operations.len() ==> (#[trigger] operations[i]).admissible(),
        forall|i: int|
            0 <= i < operations.len() ==> (match #[trigger] operations[i] {
                Operation::Remove(removed) => removed != id,
                Operation::Commit(terms) => !has_term(terms, VertexOrUnit::Vertex(id)),
                _ => true,
            }),
    ensures
        calculator.run(operations).wf(),
        calculator.run(operations).vertices.is_valid(id),
        !calculator.run(operations).mentions(VertexOrUnit::Vertex(id)),
        calculator.run(operations).value(id) == Some(calculator.zero),
        calculator.run(operations).zero == calculator.zero,
    decreases operations.len(),
{
    let variable = VertexOrUnit::Vertex(id);
    if operations.len() == 0 {
        lemma_unconstrained_vertex_reads_zero(calculator, id, None);
    } else {
        let earlier = operations.drop_last();
        assert forall|i: int| 0 <= i < earlier.len() implies (#[trigger] earlier[i]).admissible() by {
            assert(operations[i].admissible());
        }
        assert forall|i: int| 0 <= i < earlier.len() implies (match #[trigger] earlier[i] {
            Operation::Remove(removed) => removed != id,
            Operation::Commit(terms) => !has_term(terms, VertexOrUnit::Vertex(id)),
            _ => true,
        }) by {
            assert(earlier[i] == operations[i]);
        }
        lemma_unconstrained_vertex_stays_zero(calculator, id, earlier);
        let before = calculator.run(earlier);
        let last = operations[operations.len() - 1];
        let after = before.step(last);
        lemma_step_wf(before, last);
        match last {
            Operation::Register(_) => {
                before.vertices.lemma_next_slot();
                assert(before.vertices.next_slot() != id.slot());
                assert(after.vertices.is_valid(id));
            },
            Operation::Remove(removed) => {
                before.vertices.lemma_remove_effects(removed);
            },
            Operation::Commit(terms) => {
                lemma_with_result_indices(before.vertices, terms);
            },
            Operation::Read(..) => {},
        }
        if after.mentions(variable) {
            let k = choose|k: int|
                0 <= k < after.constraints.len() && has_term(#[trigger] after.constraints[k], variable);
            if k < before.constraints.len() {
                assert(has_term(before.constraints[k], variable));
            }
        }
        lemma_unconstrained_vertex_reads_zero(after, id, None);
    }
}

/// After a read, reading the same vertex again changes nothing, calls no
/// solver, and gives the same value, whatever a solver would return.
pub proof fn lemma_repeated_read_is_free<T, S>(
    calculator: CalculatorModel<T, S>,
    id: AcVertexIdentifier,
    first: Option<Seq<S>>,
    second: Option<Seq<S>>,
)
    ensures
        !calculator.after_read(id, first).solves_on_read(id),
        calculator.after_read(id, first).after_read(id, second) == calculator.after_read(id, first),
{
}

/// While the matrix is fresh, no read changes anything or calls a solver:
/// only a commit or a removal makes the calculator compile and solve again.
pub proof fn lemma_read_of_fresh_is_free<T, S>(
    calculator: CalculatorModel<T, S>,
    id: AcVertexIdentifier,
    outcome: Option<Seq<S>>,
)
    requires
        calculator.matrix is UpToDate,
    ensures
        !calculator.solves_on_read(id),
        calculator.after_read(id, outcome) == calculator,
{
}

/// An identifier stops naming a vertex when the vertex is removed, and it
/// stays so when the next registration follows, also where that registration
/// reuses the very slot: the new identifier then has the same slot, is a
/// different identifier, and is the one that is valid.
pub proof fn lemma_reused_slot_rejects_old_identifier<T>(
    arena: ArenaModel<T>,
    id: AcVertexIdentifier,
    payload: T,
)
    requires
        arena.wf(),
        arena.is_valid(id),
    ensures
        !arena.remove(id).is_valid(id),
        !arena.remove(id).register(payload).is_valid(id),
        arena.remove(id).next_slot() <= id.slot(),
        arena.remove(id).next_slot() == id.slot() ==> {
            &&& arena.remove(id).next_identifier().slot() == id.slot()
            &&& arena.remove(id).next_identifier() != id
            &&& arena.remove(id).register(payload).is_valid(arena.remove(id).next_identifier())
        },
{
    let removed = arena.remove(id);
    arena.lemma_remove_wf(id);
    arena.lemma_remove_effects(id);
    removed.lemma_next_slot();
    id.lemma_parts();
    assert(removed.next_slot() <= id.slot()) by {
        if removed.next_slot() > id.slot() {
            assert(removed.slots[id.slot() as int].payload is Some);
        }
    }
    removed.lemma_register_effects(payload);
    if removed.next_slot() == id.slot() {
        assert(removed.next_generation() != id.generation());
        assert(removed.next_identifier().generation() == removed.next_generation()) by {
            assert(removed.slots[id.slot() as int].generation <= usize::MAX);
            AcVertexIdentifier::lemma_at(removed.next_slot(), removed.next_generation());
        }
    }
}

/// A slot has at most one valid identifier at a time: an identifier issued
/// for an earlier occupant of a slot is never valid together with the
/// identifier of the current one.
pub proof fn lemma_one_identifier_for_a_slot<T>(
    arena: ArenaModel<T>,
    a: AcVertexIdentifier,
    b: AcVertexIdentifier,
)
    requires
        arena.is_valid(a),
        arena.is_valid(b),
        a.slot() == b.slot(),
    ensures
        a == b,
{
    AcVertexIdentifier::lemma_extensional(a, b);
}

/// An identifier that is not valid is inert: it has no payload, no column and
/// no value, and neither removing it, nor asking for its column, nor reading
/// it changes anything or calls a solver.
pub proof fn lemma_invalid_identifier_is_inert<T, S>(
    calculator: CalculatorModel<T, S>,
    id: AcVertexIdentifier,
    outcome: Option<Seq<S>>,
)
    requires
        !calculator.vertices.is_valid(id),
    ensures
        calculator.vertices.payload(id) is None,
        calculator.vertices.result_index(id) is None,
        calculator.vertices.with_result_index(id) == calculator.vertices,
        calculator.vertices.without_result_index(id) == calculator.vertices,
        calculator.value(id) is None,
        !calculator.solves_on_read(id),
        calculator.after_read(id, outcome) == calculator,
        calculator.remove(id) == calculator,
{
}

/// Asking for a column is idempotent: a vertex that has a column keeps it,
/// and asking again changes nothing.
pub proof fn lemma_result_index_is_kept<T>(arena: ArenaModel<T>, id: AcVertexIdentifier)
    requires
        arena.wf(),
    ensures
        arena.with_result_index(id).with_result_index(id) == arena.with_result_index(id),
        arena.with_result_index(id).result_index(id) == (if arena.is_valid(id) {
            match arena.result_index(id) {
                Some(column) => Some(column),
                None => Some(arena.row_count()),
            }
        } else {
            None
        }),
{
    arena.lemma_with_result_index_effects(id);
}

/// The columns are dense: column 0 is the unit unknown, every column from 1
/// up to the number of unknowns belongs to one valid vertex, which records
/// it, and no two variables share a column.
pub proof fn lemma_columns_are_dense<T>(arena: ArenaModel<T>)
    requires
        arena.wf(),
    ensures
        arena.column_of(VertexOrUnit::Unit) == Some(0nat),
        forall|column: int|
            0 <= column < arena.row_count() ==> arena.column_of(#[trigger] arena.columns[column])
                == Some(column as nat),
        forall|variable: VertexOrUnit|
            (#[trigger] arena.column_of(variable)) is Some ==> arena.column_of(variable)->Some_0
                < arena.row_count() && arena.columns[arena.column_of(variable)->Some_0 as int]
                == variable,
{
    assert forall|variable: VertexOrUnit| (#[trigger] arena.column_of(variable)) is Some implies arena.column_of(
        variable,
    )->Some_0 < arena.row_count() && arena.columns[arena.column_of(variable)->Some_0 as int]
        == variable by {
        if variable is Vertex {
            arena.lemma_result_index_in_range(variable->Vertex_0);
        }
    }
}

/// No operation changes or removes a committed constraint: after any
/// operation the constraints committed before are still there, in their
/// places, with their terms.
pub proof fn lemma_step_keeps_constraints<T, S>(
    calculator: CalculatorModel<T, S>,
    operation: Operation<T, S>,
)
    ensures
        calculator.constraints.len() <= calculator.step(operation).constraints.len(),
        forall|k: int|
            0 <= k < calculator.constraints.len() ==> #[trigger] calculator.step(
                operation,
            ).constraints[k] == calculator.constraints[k],
{
}

/// No series of operations changes or removes a committed constraint.
pub proof fn lemma_run_keeps_constraints<T, S>(
    calculator: CalculatorModel<T, S>,
    operations: Seq<Operation<T, S>>,
)
    ensures
        calculator.constraints.len() <= calculator.run(operations).constraints.len(),
        forall|k: int|
            0 <= k < calculator.constraints.len() ==> #[trigger] calculator.run(
                operations,
            ).constraints[k] == calculator.constraints[k],
    decreases operations.len(),
{
    if operations.len() > 0 {
        lemma_run_keeps_constraints(calculator, operations.drop_last());
        lemma_step_keeps_constraints(calculator.run(operations.drop_last()), operations.last());
    }
}

/// On a well-formed term list, the coefficient of a column is that of the
/// one term whose variable occupies it.
pub proof fn lemma_coefficient_of_term<T, S>(
    arena: ArenaModel<T>,
    terms: Seq<ConstraintElement<S>>,
    position: int,
    zero: S,
)
    requires
        arena.wf(),
        terms_wf(terms),
        0 <= position < terms.len(),
        arena.column_of(terms[position].variable) is Some,
    ensures
        coefficient(arena, terms, arena.column_of(terms[position].variable)->Some_0, zero)
            == terms[position].multiplier,
    decreases terms.len(),
{
    let column = arena.column_of(terms[position].variable)->Some_0;
    if position == terms.len() - 1 {
    } else {
        let last = terms.last().variable;
        assert(terms[position].variable != terms[terms.len() - 1].variable);
        if arena.column_of(last) == Some(column) {
            arena.lemma_columns_distinct(terms[position].variable, last);
        }
        let rest = terms.drop_last();
        assert(rest[position] == terms[position]);
        assert(terms_wf(rest)) by {
            assert forall|i: int, j: int| 0 <= i < j < rest.len() implies (#[trigger] rest[i]).variable
                != (#[trigger] rest[j]).variable by {
                assert(terms[i].variable != terms[j].variable);
            }
            assert forall|i: int| 0 <= i < rest.len() && (#[trigger] rest[i]).variable is Unit implies i
                == 0 by {
                assert(terms[i].variable is Unit);
            }
        }
        lemma_coefficient_of_term(arena, rest, position, zero);
    }
}

/// A column that the variable of no term occupies holds zero.
pub proof fn lemma_coefficient_without_term<T, S>(
    arena: ArenaModel<T>,
    terms: Seq<ConstraintElement<S>>,
    column: nat,
    zero: S,
)
    requires
        forall|t: int|
            0 <= t < terms.len() ==> arena.column_of((#[trigger] terms[t]).variable) != Some(column),
    ensures
        coefficient(arena, terms, column, zero) == zero,
    decreases terms.len(),
{
    if terms.len() > 0 {
        let rest = terms.drop_last();
        assert(arena.column_of(terms[terms.len() - 1].variable) != Some(column));
        assert forall|t: int| 0 <= t < rest.len() implies arena.column_of(
            (#[trigger] rest[t]).variable,
        ) != Some(column) by {
            assert(rest[t] == terms[t]);
        }
        lemma_coefficient_without_term(arena, rest, column, zero);
    }
}

} // verus!
