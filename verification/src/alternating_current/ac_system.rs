//! The calculator: vertices, committed constraints, and the caches of the
//! compiled system and of its solution.
//!
//! Vertices are registered and constraints are built and committed; either
//! may happen in any order and as often as needed. Committing a constraint,
//! or removing a vertex that has a column, marks the compiled matrix stale
//! and discards the solution. Reading the value of a vertex that has a column
//! brings the caches up to date first: a stale matrix is compiled again and
//! handed, with its right-hand side, to a solver that the caller supplies.
//! What the solver returns is kept until the next invalidation, so further
//! reads do no work.

use vstd::prelude::*;
use crate::alternating_current::constraint::{
    first_term, has_term, lemma_with_constant_term, lemma_with_vertex_term, terms_wf,
    with_constant_term, with_vertex_term, Constraint, ConstraintCollection, ConstraintElement,
    ConstraintIdentifier,
};
use crate::alternating_current::freshness::OldOrUpToDate;
use crate::alternating_current::matrix::{compile, unit_vector, DenseMatrix};
use crate::alternating_current::model::{with_result_indices, CalculatorModel};
use crate::alternating_current::vertex::{AcVertexIdentifier, VertexCollection, VertexOrUnit};

verus! {

/// The rows of a cached matrix, with its freshness.
pub open spec fn matrix_view<S: Copy>(matrix: OldOrUpToDate<DenseMatrix<S>>) -> OldOrUpToDate<
    Seq<Seq<S>>,
> {
    match matrix {
        OldOrUpToDate::Old(stale) => OldOrUpToDate::Old(stale@),
        OldOrUpToDate::UpToDate(fresh) => OldOrUpToDate::UpToDate(fresh@),
    }
}

/// The values of a solution, if there is one.
pub open spec fn solution_view<S>(solution: Option<Vec<S>>) -> Option<Seq<S>> {
    match solution {
        Some(values) => Some(values@),
        None => None,
    }
}

/// Whether `solver` may be called on every matrix with the rows `system`
/// together with every vector with the entries `rhs`.
pub open spec fn solver_accepts<S: Copy, F: FnOnce(&DenseMatrix<S>, &Vec<S>) -> Option<Vec<S>>>(
    solver: F,
    system: Seq<Seq<S>>,
    rhs: Seq<S>,
) -> bool {
    forall|matrix: &DenseMatrix<S>, vector: &Vec<S>|
        matrix@ == system && vector@ == rhs ==> #[trigger] call_requires(solver, (matrix, vector))
}

/// Whether `outcome` is something that `solver` may return for a matrix
/// with the rows `system` and a vector with the entries `rhs`.
pub open spec fn solver_returned<S: Copy, F: FnOnce(&DenseMatrix<S>, &Vec<S>) -> Option<Vec<S>>>(
    solver: F,
    system: Seq<Seq<S>>,
    rhs: Seq<S>,
    outcome: Option<Seq<S>>,
) -> bool {
    exists|matrix: &DenseMatrix<S>, vector: &Vec<S>, returned: Option<Vec<S>>|
        matrix@ == system && vector@ == rhs && #[trigger] call_ensures(
            solver,
            (matrix, vector),
            returned,
        ) && solution_view(returned) == outcome
}

/// Keeps a solver's outcome if it is a solution with `unknowns` values, and
/// drops it otherwise.
pub fn accept_solution<S>(outcome: Option<Vec<S>>, unknowns: usize) -> (kept: Option<Vec<S>>)
    ensures
        kept == (match outcome {
            Some(values) => if values@.len() == unknowns {
                Some(values)
            } else {
                None
            },
            None => None,
        }),
{
    match outcome {
        Some(values) => {
            if values.len() == unknowns {
                Some(values)
            } else {
                None
            }
        },
        None => None,
    }
}

/// The calculator.
///
/// `T` is the payload kept for each vertex and `S` the type of the
/// coefficients and of the solved values. The calculator does no arithmetic
/// on coefficients: it is told which of them are zero and one, places them in
/// the matrix, and leaves the solving to the solver that a read is given.
#[derive(Debug)]
pub struct AcCalculator<T: Clone, S: Copy> {
    vertices: VertexCollection<T>,
    constraints: ConstraintCollection<S>,
    matrix: OldOrUpToDate<DenseMatrix<S>>,
    vertex_results: Option<Vec<S>>,
    zero: S,
    one: S,
}

impl<T: Clone, S: Copy> AcCalculator<T, S> {
    /// The calculator as a mathematical value.
    pub closed spec fn view(&self) -> CalculatorModel<T, S> {
        CalculatorModel {
            vertices: self.vertices@,
            constraints: self.constraints@,
            matrix: matrix_view(self.matrix),
            results: solution_view(self.vertex_results),
            zero: self.zero,
            one: self.one,
        }
    }

    /// The bookkeeping of the parts is in order.
    pub closed spec fn parts_wf(&self) -> bool {
        self.vertices.wf()
    }

    /// The invariant of the calculator and of its parts.
    pub open spec fn wf(&self) -> bool {
        &&& self@.wf()
        &&& self.parts_wf()
    }

    /// A calculator without vertices or constraints, for coefficients whose
    /// zero is `zero` and whose one is `one`.
    pub fn new(zero: S, one: S) -> (calculator: Self)
        ensures
            calculator.wf(),
            calculator@ == CalculatorModel::<T, S>::initial(zero, one),
    {
        AcCalculator {
            vertices: VertexCollection::new(),
            constraints: ConstraintCollection::new(),
            matrix: OldOrUpToDate::UpToDate(DenseMatrix::empty()),
            vertex_results: None,
            zero,
            one,
        }
    }

    /// The vertex arena, to look vertices up in.
    pub fn vertices(&self) -> (vertices: &VertexCollection<T>)
        ensures
            vertices@ == self@.vertices,
            self.wf() ==> vertices.wf(),
    {
        &self.vertices
    }

    /// The matrix compiled last, with its freshness. A stale matrix is kept
    /// as it was compiled, for inspection.
    pub fn matrix(&self) -> (matrix: &OldOrUpToDate<DenseMatrix<S>>)
        ensures
            matrix_view(*matrix) == self@.matrix,
    {
        &self.matrix
    }

    /// The committed constraints, to look equations up in.
    pub fn constraints(&self) -> (constraints: &ConstraintCollection<S>)
        ensures
            constraints@ == self@.constraints,
    {
        &self.constraints
    }

    /// Registers a vertex and returns its identifier. The new vertex has no
    /// column, so the caches stay as they are.
    pub fn register_vertex(&mut self, payload: T) -> (id: AcVertexIdentifier)
        requires
            old(self).wf(),
        ensures
            final(self).wf(),
            final(self)@ == old(self)@.register(payload),
            id == old(self)@.vertices.next_identifier(),
    {
        proof {
            self@.lemma_register_wf(payload);
        }
        self.vertices.add_vertex(payload)
    }

    /// Removes the vertex named by `id`; an identifier that is not valid
    /// removes nothing. If the vertex had a column, the columns change and
    /// the caches are invalidated.
    pub fn remove_vertex(&mut self, id: AcVertexIdentifier)
        requires
            old(self).wf(),
        ensures
            final(self).wf(),
            final(self)@ == old(self)@.remove(id),
    {
        proof {
            self@.lemma_remove_wf(id);
        }
        let had_column = self.vertices.vertex_has_result_index(id);
        self.vertices.remove_vertex(id);
        if had_column {
            self.invalidate_constraint_cache();
        }
    }

    /// Commits `constraint`: every valid vertex among its terms gets a
    /// column, the caches are invalidated, and the constraint becomes the
    /// last of the committed ones.
    fn register_constraint(&mut self, constraint: Constraint<S>) -> (id: ConstraintIdentifier)
        requires
            old(self).wf(),
            terms_wf(constraint@),
        ensures
            final(self).wf(),
            final(self)@ == old(self)@.commit(constraint@),
    {
        proof {
            self@.lemma_commit_wf(constraint@);
        }
        self.invalidate_constraint_cache();
        let mut position: usize = 0;
        assert(constraint@.take(0) =~= Seq::empty());
        while position < constraint.len()
            invariant
                position <= constraint@.len(),
                self.vertices.wf(),
                self.vertices@ == with_result_indices(
                    old(self).vertices@,
                    constraint@.take(position as int),
                ),
                self.constraints == old(self).constraints,
                matrix_view(self.matrix) == old(self)@.invalidated().matrix,
                self.vertex_results is None,
                self.zero == old(self).zero,
                self.one == old(self).one,
            decreases constraint@.len() - position,
        {
            let term = constraint.term(position);
            proof {
                assert(constraint@.take(position + 1).drop_last() =~= constraint@.take(
                    position as int,
                ));
                assert(constraint@.take(position + 1).last() == term);
            }
            if let VertexOrUnit::Vertex(vertex_id) = term.variable {
                let _ = self.vertices.get_or_create_vertex_result_index(vertex_id);
            }
            position += 1;
        }
        assert(constraint@.take(position as int) =~= constraint@);
        self.constraints.add(constraint)
    }

    /// Starts a constraint. Nothing is committed until the builder is finalized.
    pub fn get_constraint_builder(&mut self) -> (builder: ConstraintBuilder<'_, T, S>)
        requires
            old(self).wf(),
        ensures
            builder.wf(),
            builder.terms() == Seq::<ConstraintElement<S>>::empty(),
            *builder.calculator() == *old(self),
            *final(builder.calculator()) == *final(self),
    {
        ConstraintBuilder::new(self)
    }

    /// Marks the matrix stale, keeping its entries, and discards the solution.
    fn invalidate_constraint_cache(&mut self)
        ensures
            final(self)@ == old(self)@.invalidated(),
            final(self).vertices == old(self).vertices,
            final(self).constraints == old(self).constraints,
            final(self).zero == old(self).zero,
            final(self).one == old(self).one,
            final(self).vertex_results is None,
    {
        self.vertex_results = None;
        let mut taken = OldOrUpToDate::Old(DenseMatrix::empty());
        core::mem::swap(&mut self.matrix, &mut taken);
        self.matrix = taken.into_old();
    }

    /// Compiles the committed constraints, over the columns as they stand,
    /// into `output_matrix`.
    pub fn compile_constraints_into(&self, output_matrix: &mut DenseMatrix<S>)
        requires
            self.wf(),
        ensures
            final(output_matrix)@ == self@.system(),
            final(output_matrix).width() == self@.vertices.row_count(),
    {
        *output_matrix = compile(&self.vertices, &self.constraints, self.zero, self.one);
    }

    /// The matrix of the system as the calculator stands. A stale matrix is
    /// compiled again first and becomes fresh; a fresh one is returned as it is.
    fn get_constraints_matrix(&mut self) -> (matrix: &DenseMatrix<S>)
        requires
            old(self).wf(),
        ensures
            final(self).wf(),
            final(self).vertices == old(self).vertices,
            final(self).constraints == old(self).constraints,
            final(self).vertex_results == old(self).vertex_results,
            final(self).zero == old(self).zero,
            final(self).one == old(self).one,
            old(self)@.matrix is Old ==> final(self)@.matrix == OldOrUpToDate::UpToDate(
                old(self)@.system(),
            ) && matrix.width() == old(self)@.vertices.row_count(),
            old(self)@.matrix is UpToDate ==> final(self)@.matrix == old(self)@.matrix,
            matrix@ == final(self)@.matrix.inner(),
    {
        if self.matrix.is_old() {
            let mut matrix = DenseMatrix::empty();
            self.compile_constraints_into(&mut matrix);
            self.matrix = OldOrUpToDate::UpToDate(matrix);
            proof {
                assert forall|c: int| 1 <= c < self@.vertices.columns.len() implies self@.mentions(
                    #[trigger] self@.vertices.columns[c],
                ) by {
                    assert(old(self)@.mentions(old(self)@.vertices.columns[c]));
                    let k = choose|k: int|
                        0 <= k < old(self)@.constraints.len() && has_term(
                            #[trigger] old(self)@.constraints[k],
                            old(self)@.vertices.columns[c],
                        );
                    assert(has_term(self@.constraints[k], self@.vertices.columns[c]));
                }
            }
        }
        match &self.matrix {
            OldOrUpToDate::Old(matrix) => matrix,
            OldOrUpToDate::UpToDate(matrix) => matrix,
        }
    }

    /// Brings the caches up to date. With a stale matrix, the system is
    /// compiled and handed to `solver` with its right-hand side, and what the
    /// solver returns is kept if it is a solution with one value for each
    /// column. With a fresh matrix nothing is done and `solver` is not called.
    pub fn refresh_results_cache<F>(&mut self, solver: F) where
        F: FnOnce(&DenseMatrix<S>, &Vec<S>) -> Option<Vec<S>>,

        requires
            old(self).wf(),
            old(self)@.matrix is Old ==> solver_accepts(
                solver,
                old(self)@.system(),
                old(self)@.right_hand_side(),
            ),
        ensures
            final(self).wf(),
            old(self)@.matrix is UpToDate ==> final(self)@ == old(self)@,
            exists|outcome: Option<Seq<S>>|
                final(self)@ == #[trigger] old(self)@.refreshed(outcome) && (old(self)@.matrix is Old
                    ==> solver_returned(
                    solver,
                    old(self)@.system(),
                    old(self)@.right_hand_side(),
                    outcome,
                )),
    {
        if self.matrix.is_old() {
            let zero = self.zero;
            let one = self.one;
            let unknowns = self.vertices.get_row_count();
            let matrix = self.get_constraints_matrix();
            let constant = unit_vector(matrix.nrows(), zero, one);
            let returned = solver(matrix, &constant);
            self.vertex_results = accept_solution(returned, unknowns);
            proof {
                let outcome = solution_view(returned);
                old(self)@.lemma_refreshed_wf(outcome);
                assert(self@ == old(self)@.refreshed(outcome));
            }
        } else {
            assert(self@ == old(self)@.refreshed(None));
        }
    }

    /// The value of the vertex named by `vertex`.
    ///
    /// An identifier that is not valid has no value. A vertex without a
    /// column, which no constraint has referred to, has the value zero, and
    /// reading it does no work. For a vertex with a column the caches are
    /// brought up to date first, which calls `solver` if the matrix is stale;
    /// the value is then the kept solution's value in the vertex's column,
    /// or nothing if no solution is kept.
    pub fn get_vertex_result<F>(&mut self, vertex: AcVertexIdentifier, solver: F) -> (value: Option<
        S,
    >) where F: FnOnce(&DenseMatrix<S>, &Vec<S>) -> Option<Vec<S>>
        requires
            old(self).wf(),
            old(self)@.solves_on_read(vertex) ==> solver_accepts(
                solver,
                old(self)@.system(),
                old(self)@.right_hand_side(),
            ),
        ensures
            final(self).wf(),
            value == final(self)@.value(vertex),
            !old(self)@.solves_on_read(vertex) ==> final(self)@ == old(self)@,
            exists|outcome: Option<Seq<S>>|
                final(self)@ == #[trigger] old(self)@.after_read(vertex, outcome) && (old(
                    self,
                )@.solves_on_read(vertex) ==> solver_returned(
                    solver,
                    old(self)@.system(),
                    old(self)@.right_hand_side(),
                    outcome,
                )),
    {
        if !self.vertices.is_identifier_valid(vertex) {
            assert(self@ == old(self)@.after_read(vertex, None));
            return None;
        }
        match self.vertices.get_vertex_result_index(vertex) {
            Some(index) => {
                self.refresh_results_cache(solver);
                proof {
                    let outcome = choose|outcome: Option<Seq<S>>|
                        self@ == #[trigger] old(self)@.refreshed(outcome) && (old(self)@.matrix is Old
                            ==> solver_returned(
                            solver,
                            old(self)@.system(),
                            old(self)@.right_hand_side(),
                            outcome,
                        ));
                    assert(self@ == old(self)@.after_read(vertex, outcome));
                }
                match &self.vertex_results {
                    Some(results) => Some(results[index]),
                    None => None,
                }
            },
            None => {
                assert(self@ == old(self)@.after_read(vertex, None));
                Some(self.zero)
            },
        }
    }
}

/// A constraint under construction, for one calculator.
///
/// Coefficients are set term by term; `finalize` commits the equation to the
/// calculator and ends the builder.
pub struct ConstraintBuilder<'a, T: Clone, S: Copy> {
    constraint_list: Vec<ConstraintElement<S>>,
    ac_calculator: &'a mut AcCalculator<T, S>,
}

impl<'a, T: Clone, S: Copy> ConstraintBuilder<'a, T, S> {
    /// The terms set so far, in order.
    pub closed spec fn terms(self) -> Seq<ConstraintElement<S>> {
        self.constraint_list@
    }

    /// The calculator that the constraint will be committed to.
    pub closed spec fn calculator(self) -> &'a mut AcCalculator<T, S> {
        self.ac_calculator
    }

    /// The invariant of the builder: no variable has two terms, a unit term
    /// stands first, and the calculator is well formed.
    pub open spec fn wf(self) -> bool {
        &&& terms_wf(self.terms())
        &&& self.calculator().wf()
    }

    /// A builder without terms, for `ac_calculator`.
    fn new(ac_calculator: &'a mut AcCalculator<T, S>) -> (builder: Self)
        requires
            old(ac_calculator).wf(),
        ensures
            builder.wf(),
            builder.terms() == Seq::<ConstraintElement<S>>::empty(),
            *builder.calculator() == *old(ac_calculator),
            *final(builder.calculator()) == *final(ac_calculator),
    {
        ConstraintBuilder { constraint_list: Vec::new(), ac_calculator }
    }

    /// Sets the coefficient of the vertex named by `vertex`. A coefficient
    /// set before for the same vertex is overwritten.
    pub fn set_vertex_constraint(self, vertex: AcVertexIdentifier, multiplier: S) -> (builder: Self)
        requires
            self.wf(),
        ensures
            builder.wf(),
            builder.terms() == with_vertex_term(self.terms(), vertex, multiplier),
            builder.calculator() == self.calculator(),
    {
        let mut builder = self;
        let ghost terms = builder.constraint_list@;
        let variable = VertexOrUnit::Vertex(vertex);
        proof {
            lemma_with_vertex_term(terms, vertex, multiplier);
        }
        let mut position: usize = 0;
        while position < builder.constraint_list.len()
            invariant
                position <= terms.len(),
                terms == self.constraint_list@,
                builder.constraint_list@ == terms,
                builder.ac_calculator == self.ac_calculator,
                builder.ac_calculator.wf(),
                terms_wf(with_vertex_term(terms, vertex, multiplier)),
                variable == VertexOrUnit::Vertex(vertex),
                first_term(terms, variable, 0) == first_term(terms, variable, position as nat),
            decreases terms.len() - position,
        {
            if builder.constraint_list[position].variable == variable {
                builder.constraint_list[position].multiplier = multiplier;
                assert(builder.constraint_list@ =~= with_vertex_term(terms, vertex, multiplier));
                return builder;
            }
            position += 1;
        }
        builder.constraint_list.push(ConstraintElement { variable, multiplier });
        builder
    }

    /// Sets the constant of the equation. The unit term is kept first: it
    /// replaces a unit term that is there, and otherwise takes the first
    /// place, whose former term moves to the end.
    pub fn set_constant_constraint(self, constant: S) -> (builder: Self)
        requires
            self.wf(),
        ensures
            builder.wf(),
            builder.terms() == with_constant_term(self.terms(), constant),
            builder.calculator() == self.calculator(),
    {
        let mut builder = self;
        let ghost terms = builder.constraint_list@;
        proof {
            lemma_with_constant_term(terms, constant);
        }
        let element = ConstraintElement { variable: VertexOrUnit::Unit, multiplier: constant };
        if builder.constraint_list.len() == 0 {
            builder.constraint_list.push(element);
            assert(builder.constraint_list@ =~= with_constant_term(terms, constant));
        } else if builder.constraint_list[0].variable != VertexOrUnit::Unit {
            let move_to_end = builder.constraint_list[0];
            builder.constraint_list[0] = element;
            builder.constraint_list.push(move_to_end);
        } else {
            builder.constraint_list[0] = element;
        }
        builder
    }

    /// Commits the equation to the calculator: every valid vertex among the
    /// terms gets a column, the caches are invalidated, and the equation
    /// becomes the last of the committed ones.
    pub fn finalize(self) -> (id: ConstraintIdentifier)
        requires
            self.wf(),
        ensures
            final(self.calculator()).wf(),
            final(self.calculator())@ == self.calculator()@.commit(self.terms()),
    {
        self.ac_calculator.register_constraint(Constraint::from_terms(self.constraint_list))
    }
}

} // verus!
