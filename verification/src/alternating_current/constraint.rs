//! Linear equality constraints over the unknowns of a circuit.
//!
//! A constraint is one equation: a list of terms, each a variable with a
//! coefficient, whose sum is zero. The coefficient of the unit unknown is the
//! equation's constant. Committed constraints are kept in the order in which
//! they were committed and are never changed or removed.

use vstd::prelude::*;
use crate::alternating_current::matrix::{equation_row, filled_row};
use crate::alternating_current::vertex::{AcVertexIdentifier, VertexCollection, VertexOrUnit};

verus! {

/// One term of an equation: a variable and the coefficient it is multiplied by.
#[derive(Debug, PartialEq)]
pub struct ConstraintElement<S> {
    pub variable: VertexOrUnit,
    pub multiplier: S,
}

impl<S: Copy> Clone for ConstraintElement<S> {
    fn clone(&self) -> (copy: Self)
        ensures
            copy == *self,
    {
        *self
    }
}

impl<S: Copy> Copy for ConstraintElement<S> {

}

/// The position of the first term for `variable` at or after `from`, or the
/// number of terms if there is none.
pub open spec fn first_term<S>(
    terms: Seq<ConstraintElement<S>>,
    variable: VertexOrUnit,
    from: nat,
) -> nat
    decreases terms.len() - from,
{
    if from >= terms.len() {
        terms.len()
    } else if terms[from as int].variable == variable {
        from
    } else {
        first_term(terms, variable, from + 1)
    }
}

/// Whether some term of `terms` is for `variable`.
pub open spec fn has_term<S>(terms: Seq<ConstraintElement<S>>, variable: VertexOrUnit) -> bool {
    exists|t: int| 0 <= t < terms.len() && (#[trigger] terms[t]).variable == variable
}

/// The terms after setting the coefficient of the vertex named by `id`: the
/// vertex's term is overwritten if there is one, and appended otherwise.
pub open spec fn with_vertex_term<S>(
    terms: Seq<ConstraintElement<S>>,
    id: AcVertexIdentifier,
    multiplier: S,
) -> Seq<ConstraintElement<S>> {
    let term = ConstraintElement { variable: VertexOrUnit::Vertex(id), multiplier };
    let position = first_term(terms, VertexOrUnit::Vertex(id), 0);
    if position < terms.len() {
        terms.update(position as int, term)
    } else {
        terms.push(term)
    }
}

/// The terms after setting the constant of the equation. The unit term is
/// always the first term: it replaces a unit term that is there, and
/// otherwise takes the first place, whose former term moves to the end.
pub open spec fn with_constant_term<S>(terms: Seq<ConstraintElement<S>>, constant: S) -> Seq<
    ConstraintElement<S>,
> {
    let term = ConstraintElement { variable: VertexOrUnit::Unit, multiplier: constant };
    if terms.len() == 0 {
        seq![term]
    } else if terms[0].variable != VertexOrUnit::Unit {
        terms.update(0, term).push(terms[0])
    } else {
        terms.update(0, term)
    }
}

/// The invariant of a term list under construction: no variable has two
/// terms, and a unit term stands first.
pub open spec fn terms_wf<S>(terms: Seq<ConstraintElement<S>>) -> bool {
    &&& forall|i: int, j: int|
        0 <= i < j < terms.len() ==> (#[trigger] terms[i]).variable != (#[trigger] terms[j]).variable
    &&& forall|i: int| 0 <= i < terms.len() && (#[trigger] terms[i]).variable is Unit ==> i == 0
}

/// `first_term` returns the position of a term for `variable` with none
/// before it, or the number of terms when no term at or after `from` is for it.
pub proof fn lemma_first_term<S>(terms: Seq<ConstraintElement<S>>, variable: VertexOrUnit, from: nat)
    requires
        from <= terms.len(),
    ensures
        from <= first_term(terms, variable, from) <= terms.len(),
        first_term(terms, variable, from) < terms.len() ==> terms[first_term(
            terms,
            variable,
            from,
        ) as int].variable == variable,
        forall|i: int|
            from <= i < first_term(terms, variable, from) ==> (#[trigger] terms[i]).variable
                != variable,
    decreases terms.len() - from,
{
    if from < terms.len() && terms[from as int].variable != variable {
        lemma_first_term(terms, variable, from + 1);
    }
}

/// Setting a vertex coefficient keeps the term list well formed, leaves
/// exactly one term for the vertex, with the coefficient given, and leaves
/// every other term as it was.
pub proof fn lemma_with_vertex_term<S>(
    terms: Seq<ConstraintElement<S>>,
    id: AcVertexIdentifier,
    multiplier: S,
)
    requires
        terms_wf(terms),
    ensures
        terms_wf(with_vertex_term(terms, id, multiplier)),
        ({
            let after = with_vertex_term(terms, id, multiplier);
            let position = first_term(after, VertexOrUnit::Vertex(id), 0);
            &&& position < after.len()
            &&& after[position as int] == (ConstraintElement {
                variable: VertexOrUnit::Vertex(id),
                multiplier,
            })
            &&& forall|i: int|
                0 <= i < terms.len() && (#[trigger] terms[i]).variable != VertexOrUnit::Vertex(id)
                    ==> after[i] == terms[i]
            &&& after.len() == terms.len() + (if first_term(terms, VertexOrUnit::Vertex(id), 0)
                < terms.len() {
                0nat
            } else {
                1nat
            })
        }),
{
    let variable = VertexOrUnit::Vertex(id);
    let after = with_vertex_term(terms, id, multiplier);
    lemma_first_term(terms, variable, 0);
    lemma_first_term(after, variable, 0);
    let before_position = first_term(terms, variable, 0);
    let position = first_term(after, variable, 0);
    if before_position < terms.len() {
        assert(after[before_position as int].variable == variable);
        assert(position <= before_position);
    } else {
        assert(after[terms.len() as int].variable == variable);
        assert(position <= terms.len());
    }
    assert forall|i: int, j: int| 0 <= i < j < after.len() implies (#[trigger] after[i]).variable != (
    #[trigger] after[j]).variable by {
        if j < terms.len() {
            assert(terms[i].variable != terms[j].variable);
        } else {
            assert(terms[i].variable != variable);
        }
    }
}

/// Setting the constant keeps the term list well formed, puts the unit term
/// first, with the constant given, and keeps every vertex term.
pub proof fn lemma_with_constant_term<S>(terms: Seq<ConstraintElement<S>>, constant: S)
    requires
        terms_wf(terms),
    ensures
        terms_wf(with_constant_term(terms, constant)),
        with_constant_term(terms, constant)[0] == (ConstraintElement {
            variable: VertexOrUnit::Unit,
            multiplier: constant,
        }),
        forall|i: int|
            0 <= i < terms.len() && (#[trigger] terms[i]).variable is Vertex ==> with_constant_term(
                terms,
                constant,
            ).contains(terms[i]),
{
    let after = with_constant_term(terms, constant);
    assert forall|i: int| 0 <= i < terms.len() && (#[trigger] terms[i]).variable is Vertex implies after.contains(
        terms[i],
    ) by {
        if i == 0 {
            assert(after[terms.len() as int] == terms[0]);
        } else {
            assert(after[i] == terms[i]);
        }
    }
    assert forall|i: int, j: int| 0 <= i < j < after.len() implies (#[trigger] after[i]).variable != (
    #[trigger] after[j]).variable by {
        if terms.len() > 0 {
            if j < terms.len() {
                if i == 0 {
                    assert(terms[j].variable !is Unit);
                } else {
                    assert(terms[i].variable != terms[j].variable);
                }
            } else {
                if i > 0 {
                    assert(terms[0].variable != terms[i].variable);
                }
            }
        }
    }
}

/// A committed equation.
#[derive(Debug)]
pub struct Constraint<S> {
    elements: Vec<ConstraintElement<S>>,
}

impl<S: Copy> Constraint<S> {
    /// The terms of the equation, in order.
    pub closed spec fn view(&self) -> Seq<ConstraintElement<S>> {
        self.elements@
    }

    /// The equation with the given terms.
    pub(crate) fn from_terms(elements: Vec<ConstraintElement<S>>) -> (constraint: Self)
        ensures
            constraint@ == elements@,
    {
        Constraint { elements }
    }

    /// The number of terms.
    pub fn len(&self) -> (count: usize)
        ensures
            count == self@.len(),
    {
        self.elements.len()
    }

    /// The term at `position`.
    pub fn term(&self, position: usize) -> (term: ConstraintElement<S>)
        requires
            position < self@.len(),
        ensures
            term == self@[position as int],
    {
        self.elements[position]
    }

    /// Compiles the equation into its row of the system, over the columns of
    /// `vertices`: `out_row` gets one entry for each column, `zero` where no
    /// term of the equation has its variable, and the term's coefficient
    /// where one has. What `out_row` held before is discarded.
    pub fn compile_to<T: Clone>(&self, vertices: &VertexCollection<T>, zero: S, out_row: &mut Vec<S>)
        requires
            vertices.wf(),
        ensures
            final(out_row)@ == equation_row(vertices@, self@, zero),
    {
        let width = vertices.get_row_count();
        let mut row = filled_row(width, zero);
        let mut position: usize = 0;
        assert(row@ =~= equation_row(vertices@, self@.take(0), zero));
        while position < self.len()
            invariant
                vertices.wf(),
                position <= self@.len(),
                width == vertices@.row_count(),
                row@ == equation_row(vertices@, self@.take(position as int), zero),
            decreases self@.len() - position,
        {
            let term = self.term(position);
            let column = match term.variable {
                VertexOrUnit::Vertex(id) => vertices.get_vertex_result_index(id),
                VertexOrUnit::Unit => Some(0),
            };
            proof {
                assert(self@.take(position + 1).drop_last() =~= self@.take(position as int));
                assert(self@.take(position + 1).last() == term);
            }
            match column {
                Some(c) => {
                    row[c] = term.multiplier;
                },
                None => {},
            }
            position += 1;
            assert(row@ =~= equation_row(vertices@, self@.take(position as int), zero));
        }
        assert(self@.take(position as int) =~= self@);
        *out_row = row;
    }
}

/// The handle returned for a committed constraint. It names no operation:
/// a committed constraint can be neither changed nor removed.
#[derive(Clone, Copy, Debug, PartialEq, Eq)]
pub struct ConstraintIdentifier {}

/// The committed equations, in the order of their commitment.
#[derive(Debug)]
pub struct ConstraintCollection<S> {
    constraint_list: Vec<Constraint<S>>,
}

impl<S: Copy> ConstraintCollection<S> {
    /// The term lists of the committed equations, in order.
    pub closed spec fn view(&self) -> Seq<Seq<ConstraintElement<S>>> {
        Seq::new(self.constraint_list@.len(), |i: int| self.constraint_list@[i]@)
    }

    /// A collection with no equations.
    pub fn new() -> (collection: Self)
        ensures
            collection@ == Seq::<Seq<ConstraintElement<S>>>::empty(),
    {
        let collection = ConstraintCollection { constraint_list: Vec::new() };
        assert(collection@ =~= Seq::empty());
        collection
    }

    /// Appends `constraint`. Nothing committed before is touched.
    pub fn add(&mut self, constraint: Constraint<S>) -> (id: ConstraintIdentifier)
        ensures
            final(self)@ == old(self)@.push(constraint@),
    {
        self.constraint_list.push(constraint);
        assert(self@ =~= old(self)@.push(constraint@));
        ConstraintIdentifier {  }
    }

    /// The number of committed equations.
    pub fn len(&self) -> (count: usize)
        ensures
            count == self@.len(),
    {
        self.constraint_list.len()
    }

    /// The equation committed at `position`.
    pub fn get(&self, position: usize) -> (constraint: &Constraint<S>)
        requires
            position < self@.len(),
        ensures
            constraint@ == self@[position as int],
    {
        &self.constraint_list[position]
    }
}

} // verus!
