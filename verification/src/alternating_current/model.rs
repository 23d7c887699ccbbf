//! The calculator as a mathematical value: what each operation does to it,
//! and the invariant that every operation keeps.

use vstd::prelude::*;
use crate::alternating_current::arena::ArenaModel;
use crate::alternating_current::constraint::{has_term, terms_wf, ConstraintElement};
use crate::alternating_current::freshness::OldOrUpToDate;
use crate::alternating_current::matrix::{assembled, lemma_assembled_by_columns, unit_row};
use crate::alternating_current::vertex::{AcVertexIdentifier, VertexOrUnit};

verus! {

/// The arena after every vertex among `terms` was given a column, in the
/// order of the terms.
pub open spec fn with_result_indices<T, S>(
    arena: ArenaModel<T>,
    terms: Seq<ConstraintElement<S>>,
) -> ArenaModel<T>
    decreases terms.len(),
{
    if terms.len() == 0 {
        arena
    } else {
        let earlier = with_result_indices(arena, terms.drop_last());
        match terms.last().variable {
            VertexOrUnit::Vertex(id) => earlier.with_result_index(id),
            VertexOrUnit::Unit => earlier,
        }
    }
}

/// The calculator as a mathematical value.
pub struct CalculatorModel<T, S> {
    /// The vertex arena.
    pub vertices: ArenaModel<T>,
    /// The term lists of the committed constraints, in order.
    pub constraints: Seq<Seq<ConstraintElement<S>>>,
    /// The matrix compiled last, with its freshness.
    pub matrix: OldOrUpToDate<Seq<Seq<S>>>,
    /// The solution kept, one value for each column.
    pub results: Option<Seq<S>>,
    /// The coefficient zero.
    pub zero: S,
    /// The coefficient one.
    pub one: S,
}

impl<T, S> CalculatorModel<T, S> {
    /// The calculator before anything was registered or committed.
    pub open spec fn initial(zero: S, one: S) -> Self {
        CalculatorModel {
            vertices: ArenaModel::empty(),
            constraints: Seq::empty(),
            matrix: OldOrUpToDate::UpToDate(Seq::empty()),
            results: None,
            zero,
            one,
        }
    }

    /// The calculator with its caches invalidated: the matrix is kept but
    /// marked stale, and the solution is discarded.
    pub open spec fn invalidated(self) -> Self {
        CalculatorModel {
            matrix: OldOrUpToDate::Old(self.matrix.inner()),
            results: None,
            ..self
        }
    }

    /// The calculator after registering a vertex. The caches stay as they are.
    pub open spec fn register(self, payload: T) -> Self {
        CalculatorModel { vertices: self.vertices.register(payload), ..self }
    }

    /// The calculator after removing the vertex named by `id`. The caches are
    /// invalidated if the vertex had a column.
    pub open spec fn remove(self, id: AcVertexIdentifier) -> Self {
        let removed = CalculatorModel { vertices: self.vertices.remove(id), ..self };
        if self.vertices.result_index(id) is Some {
            removed.invalidated()
        } else {
            removed
        }
    }

    /// The calculator after committing the equation with the given terms:
    /// every valid vertex among the terms has a column, the equation is the
    /// last of the committed ones, and the caches are invalidated.
    pub open spec fn commit(self, terms: Seq<ConstraintElement<S>>) -> Self {
        CalculatorModel {
            vertices: with_result_indices(self.vertices, terms),
            constraints: self.constraints.push(terms),
            matrix: OldOrUpToDate::Old(self.matrix.inner()),
            results: None,
            ..self
        }
    }

    /// The matrix of the system as the calculator stands.
    pub open spec fn system(self) -> Seq<Seq<S>> {
        assembled(self.vertices, self.constraints, self.zero, self.one)
    }

    /// The right-hand side of the system: one for the unit equation, zero
    /// for every constraint.
    pub open spec fn right_hand_side(self) -> Seq<S> {
        unit_row(self.constraints.len() + 1, self.zero, self.one)
    }

    /// What is kept of a solver's outcome: a solution with one value for each
    /// column. Anything else counts as a failure to solve.
    pub open spec fn accepted(self, outcome: Option<Seq<S>>) -> Option<Seq<S>> {
        match outcome {
            Some(solution) => if solution.len() == self.vertices.row_count() {
                Some(solution)
            } else {
                None
            },
            None => None,
        }
    }

    /// The calculator after bringing its caches up to date, where `outcome`
    /// is what the solver returned for the system. With a fresh matrix
    /// nothing is done.
    pub open spec fn refreshed(self, outcome: Option<Seq<S>>) -> Self {
        if self.matrix is Old {
            CalculatorModel {
                matrix: OldOrUpToDate::UpToDate(self.system()),
                results: self.accepted(outcome),
                ..self
            }
        } else {
            self
        }
    }

    /// The value of the vertex named by `id` as the caches stand: nothing for
    /// an identifier that is not valid, zero for a vertex without a column,
    /// and otherwise the kept solution's value in the vertex's column, if a
    /// solution is kept.
    pub open spec fn value(self, id: AcVertexIdentifier) -> Option<S> {
        if !self.vertices.is_valid(id) {
            None
        } else {
            match self.vertices.result_index(id) {
                None => Some(self.zero),
                Some(column) => match self.results {
                    Some(solution) => Some(solution[column as int]),
                    None => None,
                },
            }
        }
    }

    /// Whether reading the value of `id` has to compile and solve the system.
    pub open spec fn solves_on_read(self, id: AcVertexIdentifier) -> bool {
        self.vertices.result_index(id) is Some && self.matrix is Old
    }

    /// The calculator after reading the value of `id`, where `outcome` is
    /// what the solver returned if it was called.
    pub open spec fn after_read(self, id: AcVertexIdentifier, outcome: Option<Seq<S>>) -> Self {
        if self.vertices.result_index(id) is Some {
            self.refreshed(outcome)
        } else {
            self
        }
    }

    /// Whether some committed constraint has a term for `variable`.
    pub open spec fn mentions(self, variable: VertexOrUnit) -> bool {
        exists|k: int|
            0 <= k < self.constraints.len() && has_term(#[trigger] self.constraints[k], variable)
    }

    /// The invariant of the calculator.
    ///
    /// The arena is well formed, and so is every committed term list. A kept
    /// solution belongs to a fresh matrix and has one value for each column.
    /// A fresh matrix is the compiled system as the calculator stands, or the
    /// empty matrix of a calculator without constraints. Every vertex with a
    /// column is mentioned by a committed constraint.
    pub open spec fn wf(self) -> bool {
        &&& self.vertices.wf()
        &&& forall|k: int| 0 <= k < self.constraints.len() ==> terms_wf(#[trigger] self.constraints[k])
        &&& self.results matches Some(solution) ==> self.matrix is UpToDate && solution.len()
            == self.vertices.row_count()
        &&& self.matrix is UpToDate ==> self.matrix.inner() == self.system() || (
        self.constraints.len() == 0 && self.matrix.inner() == Seq::<Seq<S>>::empty())
        &&& forall|c: int|
            1 <= c < self.vertices.columns.len() ==> self.mentions(#[trigger] self.vertices.columns[c])
    }
}

/// What giving columns to the vertices of a term list does: the arena stays
/// well formed; no identifier gains or loses validity or its payload; every
/// column there was stays where it was; every new column belongs to a vertex
/// among the terms; and every valid vertex among the terms has a column.
pub proof fn lemma_with_result_indices<T, S>(arena: ArenaModel<T>, terms: Seq<ConstraintElement<S>>)
    requires
        arena.wf(),
    ensures
        with_result_indices(arena, terms).wf(),
        with_result_indices(arena, terms).slots.len() == arena.slots.len(),
        forall|id: AcVertexIdentifier| #[trigger]
            with_result_indices(arena, terms).is_valid(id) == arena.is_valid(id),
        forall|id: AcVertexIdentifier| #[trigger]
            with_result_indices(arena, terms).payload(id) == arena.payload(id),
        forall|id: AcVertexIdentifier|
            arena.result_index(id) is Some ==> #[trigger] with_result_indices(
                arena,
                terms,
            ).result_index(id) == arena.result_index(id),
        arena.columns.len() <= with_result_indices(arena, terms).columns.len(),
        forall|k: int|
            0 <= k < arena.columns.len() ==> #[trigger] with_result_indices(arena, terms).columns[k]
                == arena.columns[k],
        forall|k: int|
            arena.columns.len() <= k < with_result_indices(arena, terms).columns.len() ==> has_term(
                terms,
                #[trigger] with_result_indices(arena, terms).columns[k],
            ),
        forall|t: int|
            0 <= t < terms.len() ==> ((#[trigger] terms[t]).variable matches VertexOrUnit::Vertex(id)
                ==> arena.is_valid(id) ==> with_result_indices(arena, terms).result_index(id) is Some),
    decreases terms.len(),
{
    if terms.len() > 0 {
        let shorter = terms.drop_last();
        let earlier = with_result_indices(arena, shorter);
        let after = with_result_indices(arena, terms);
        lemma_with_result_indices(arena, shorter);
        match terms.last().variable {
            VertexOrUnit::Vertex(last) => {
                earlier.lemma_with_result_index_wf(last);
                earlier.lemma_with_result_index_effects(last);
                assert forall|id: AcVertexIdentifier|
                    arena.result_index(id) is Some implies #[trigger] after.result_index(id)
                    == arena.result_index(id) by {
                    assert(earlier.result_index(id) == arena.result_index(id));
                }
            },
            VertexOrUnit::Unit => {},
        }
        assert forall|k: int| arena.columns.len() <= k < after.columns.len() implies has_term(
            terms,
            #[trigger] after.columns[k],
        ) by {
            if k < earlier.columns.len() {
                assert(has_term(shorter, earlier.columns[k]));
                let t = choose|t: int|
                    0 <= t < shorter.len() && (#[trigger] shorter[t]).variable == earlier.columns[k];
                assert(terms[t] == shorter[t]);
            } else {
                assert(terms[terms.len() - 1].variable == after.columns[k]);
            }
        }
        assert forall|t: int| 0 <= t < terms.len() implies ((
        #[trigger] terms[t]).variable matches VertexOrUnit::Vertex(id) ==> arena.is_valid(id)
            ==> after.result_index(id) is Some) by {
            if t < shorter.len() {
                assert(terms[t] == shorter[t]);
                if terms[t].variable is Vertex {
                    let id = terms[t].variable->Vertex_0;
                    if arena.is_valid(id) {
                        assert(earlier.result_index(id) is Some);
                    }
                }
            }
        }
    }
}

impl<T, S> CalculatorModel<T, S> {
    /// Registration keeps the calculator well formed.
    pub proof fn lemma_register_wf(self, payload: T)
        requires
            self.wf(),
        ensures
            self.register(payload).wf(),
    {
        let after = self.register(payload);
        self.vertices.lemma_register_wf(payload);
        self.vertices.lemma_register_columns(payload);
        assert forall|variable: VertexOrUnit| #[trigger]
            self.vertices.column_of(variable) == after.vertices.column_of(variable) by {
            if variable is Vertex {
                assert(after.vertices.result_index(variable->Vertex_0) == self.vertices.result_index(
                    variable->Vertex_0,
                ));
            }
        }
        lemma_assembled_by_columns(
            self.vertices,
            after.vertices,
            self.constraints,
            self.zero,
            self.one,
        );
        assert forall|c: int| 1 <= c < after.vertices.columns.len() implies after.mentions(
            #[trigger] after.vertices.columns[c],
        ) by {
            assert(self.mentions(self.vertices.columns[c]));
            let k = choose|k: int|
                0 <= k < self.constraints.len() && has_term(
                    #[trigger] self.constraints[k],
                    self.vertices.columns[c],
                );
            assert(has_term(after.constraints[k], after.vertices.columns[c]));
        }
    }

    /// Removal keeps the calculator well formed.
    pub proof fn lemma_remove_wf(self, id: AcVertexIdentifier)
        requires
            self.wf(),
        ensures
            self.remove(id).wf(),
    {
        let after = self.remove(id);
        self.vertices.lemma_remove_wf(id);
        self.vertices.lemma_remove_effects(id);
        if self.vertices.result_index(id) is None {
            self.vertices.lemma_remove_columns(id);
            assert forall|variable: VertexOrUnit| #[trigger]
                self.vertices.column_of(variable) == after.vertices.column_of(variable) by {
                if variable is Vertex {
                    assert(after.vertices.result_index(variable->Vertex_0)
                        == self.vertices.result_index(variable->Vertex_0));
                }
            }
            lemma_assembled_by_columns(
                self.vertices,
                after.vertices,
                self.constraints,
                self.zero,
                self.one,
            );
        }
        assert forall|c: int| 1 <= c < after.vertices.columns.len() implies after.mentions(
            #[trigger] after.vertices.columns[c],
        ) by {
            let variable = after.vertices.columns[c];
            assert(self.vertices.columns.contains(variable));
            let at = choose|at: int|
                0 <= at < self.vertices.columns.len() && self.vertices.columns[at] == variable;
            assert(after.vertices.columns[c] is Vertex);
            assert(at != 0);
            assert(self.mentions(self.vertices.columns[at]));
            let k = choose|k: int|
                0 <= k < self.constraints.len() && has_term(
                    #[trigger] self.constraints[k],
                    self.vertices.columns[at],
                );
            assert(has_term(after.constraints[k], variable));
        }
    }

    /// Committing a well-formed term list keeps the calculator well formed.
    pub proof fn lemma_commit_wf(self, terms: Seq<ConstraintElement<S>>)
        requires
            self.wf(),
            terms_wf(terms),
        ensures
            self.commit(terms).wf(),
    {
        let after = self.commit(terms);
        lemma_with_result_indices(self.vertices, terms);
        assert forall|k: int| 0 <= k < after.constraints.len() implies terms_wf(
            #[trigger] after.constraints[k],
        ) by {
            if k < self.constraints.len() {
                assert(after.constraints[k] == self.constraints[k]);
            }
        }
        assert forall|c: int| 1 <= c < after.vertices.columns.len() implies after.mentions(
            #[trigger] after.vertices.columns[c],
        ) by {
            if c < self.vertices.columns.len() {
                assert(self.mentions(self.vertices.columns[c]));
                let k = choose|k: int|
                    0 <= k < self.constraints.len() && has_term(
                        #[trigger] self.constraints[k],
                        self.vertices.columns[c],
                    );
                assert(has_term(after.constraints[k], after.vertices.columns[c]));
            } else {
                assert(has_term(terms, after.vertices.columns[c]));
                assert(has_term(
                    after.constraints[self.constraints.len() as int],
                    after.vertices.columns[c],
                ));
            }
        }
    }

    /// Bringing the caches up to date keeps the calculator well formed.
    pub proof fn lemma_refreshed_wf(self, outcome: Option<Seq<S>>)
        requires
            self.wf(),
        ensures
            self.refreshed(outcome).wf(),
    {
        let after = self.refreshed(outcome);
        assert forall|c: int| 1 <= c < after.vertices.columns.len() implies after.mentions(
            #[trigger] after.vertices.columns[c],
        ) by {
            assert(self.mentions(self.vertices.columns[c]));
            let k = choose|k: int|
                0 <= k < self.constraints.len() && has_term(
                    #[trigger] self.constraints[k],
                    self.vertices.columns[c],
                );
            assert(has_term(after.constraints[k], after.vertices.columns[c]));
        }
    }
}

} // verus!
