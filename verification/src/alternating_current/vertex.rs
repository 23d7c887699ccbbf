//! The vertex arena: a generational slot store for the unknowns of a circuit.
//!
//! A vertex is registered with a payload and named by an identifier made of a
//! slot number and the generation of that slot at registration. Removing a
//! vertex frees its slot; the lowest free slot is the next to be reused, with
//! its generation advanced, so that identifiers of earlier occupants no longer
//! match. A vertex that takes part in a constraint is given a result index:
//! the column of the linear system that stands for it. Column 0 belongs to the
//! unit unknown, and the columns in use are always `0..row_count`.

use vstd::prelude::*;
use crate::alternating_current::arena::{
    lemma_first_vacant, successor_generation, ArenaModel, SlotModel,
};

verus! {

/// The version of a slot. It advances each time the slot is handed out again.
#[derive(PartialEq, Eq, Debug, Clone, Copy, Structural)]
pub struct AcVertexIdGeneration(usize);

impl AcVertexIdGeneration {
    /// The generation as a number.
    pub closed spec fn number(self) -> nat {
        self.0 as nat
    }

    /// The generation a slot gets when it is reused.
    pub fn next_generation(&self) -> (next: Self)
        ensures
            next.number() == successor_generation(self.number()),
            next != *self,
    {
        AcVertexIdGeneration(self.0.wrapping_add(1))
    }
}

/// The name of a registered vertex: a slot and the generation it was registered under.
///
/// An identifier owns nothing. Whether it still names a vertex is decided by
/// the arena that issued it.
#[derive(Debug, Clone, Copy, PartialEq, Eq, Structural)]
pub struct AcVertexIdentifier {
    index: usize,
    generation: AcVertexIdGeneration,
}

impl AcVertexIdentifier {
    /// The slot that the identifier points at.
    pub closed spec fn slot(self) -> nat {
        self.index as nat
    }

    /// The generation that the identifier was issued under.
    pub closed spec fn generation(self) -> nat {
        self.generation.number()
    }

    /// The identifier of `slot` at `generation`.
    pub closed spec fn at(slot: nat, generation: nat) -> Self {
        AcVertexIdentifier {
            index: slot as usize,
            generation: AcVertexIdGeneration(generation as usize),
        }
    }

    /// The slot that the identifier points at.
    pub fn slot_index(&self) -> (index: usize)
        ensures
            index == self.slot(),
    {
        self.index
    }

    /// The generation that the identifier was issued under.
    pub fn generation_count(&self) -> (count: usize)
        ensures
            count == self.generation(),
    {
        self.generation.0
    }

    /// Identifiers are determined by their slot and generation.
    pub proof fn lemma_extensional(a: Self, b: Self)
        requires
            a.slot() == b.slot(),
            a.generation() == b.generation(),
        ensures
            a == b,
    {
    }

    /// The parts of an identifier fit the machine word, and `at` rebuilds it from them.
    pub proof fn lemma_parts(self)
        ensures
            self.slot() <= usize::MAX,
            self.generation() <= usize::MAX,
            Self::at(self.slot(), self.generation()) == self,
    {
    }

    /// `at` builds the identifier with the given parts, as long as they fit the machine word.
    pub proof fn lemma_at(slot: nat, generation: nat)
        requires
            slot <= usize::MAX,
            generation <= usize::MAX,
        ensures
            Self::at(slot, generation).slot() == slot,
            Self::at(slot, generation).generation() == generation,
    {
    }
}

/// A variable of the linear system: the unknown of a vertex, or the unit
/// unknown, which is fixed to one and carries the constant terms.
#[derive(Clone, Copy, Debug, PartialEq, Eq, Structural)]
pub enum VertexOrUnit {
    Vertex(AcVertexIdentifier),
    Unit,
}

/// Whether `slot` is an entry of the free list `free`.
spec fn listed(free: Seq<usize>, slot: int) -> bool {
    exists|j: int| 0 <= j < free.len() && #[trigger] free[j] == slot
}

/// Whether each entry of `list` is greater than all that follow it.
spec fn strictly_falling(list: Seq<usize>) -> bool {
    forall|j: int, k: int| 0 <= j < k < list.len() ==> #[trigger] list[j] > #[trigger] list[k]
}

/// One slot of the arena.
#[derive(Debug)]
pub struct VertexRegistration<T> {
    generation: AcVertexIdGeneration,
    payload: Option<T>,
    result_index: Option<usize>,
}

impl<T> VertexRegistration<T> {
    /// The slot as the model sees it.
    pub closed spec fn view(&self) -> SlotModel<T> {
        SlotModel {
            generation: self.generation.number(),
            payload: self.payload,
            result_index: match self.result_index {
                Some(column) => Some(column as nat),
                None => None,
            },
        }
    }
}

/// The vertex arena.
#[derive(Debug)]
pub struct VertexCollection<T: Clone> {
    /// The free slots, highest first, so that the lowest is at the end.
    available_reuse_identifiers: Vec<usize>,
    registered_vertices: Vec<VertexRegistration<T>>,
    /// The variable of each column in use; entry 0 is the unit unknown.
    result_index_to_identifier: Vec<VertexOrUnit>,
}

impl<T: Clone> VertexCollection<T> {
    /// The arena as a mathematical value.
    pub closed spec fn view(&self) -> ArenaModel<T> {
        ArenaModel {
            slots: Seq::new(
                self.registered_vertices@.len(),
                |i: int| self.registered_vertices@[i]@,
            ),
            columns: self.result_index_to_identifier@,
        }
    }

    /// The free list holds exactly the free slots, in strictly falling order.
    pub closed spec fn free_list_wf(&self) -> bool {
        let free = self.available_reuse_identifiers@;
        let slots = self.registered_vertices@;
        &&& forall|j: int|
            0 <= j < free.len() ==> (#[trigger] free[j]) < slots.len()
                && slots[free[j] as int].payload is None
        &&& forall|i: int|
            0 <= i < slots.len() && (#[trigger] slots[i]).payload is None ==> listed(free, i)
        &&& strictly_falling(free)
    }

    /// The invariant of the arena and of its bookkeeping.
    pub open spec fn wf(&self) -> bool {
        &&& self@.wf()
        &&& self.free_list_wf()
    }

    /// An arena with no vertices.
    pub fn new() -> (arena: Self)
        ensures
            arena.wf(),
            arena@ == ArenaModel::<T>::empty(),
    {
        let mut columns = Vec::new();
        columns.push(VertexOrUnit::Unit);
        let arena = VertexCollection {
            available_reuse_identifiers: Vec::new(),
            registered_vertices: Vec::new(),
            result_index_to_identifier: columns,
        };
        assert(arena@.slots =~= Seq::empty());
        assert(arena@.columns =~= seq![VertexOrUnit::Unit]);
        arena
    }

    /// Registers a vertex and returns its identifier.
    ///
    /// The lowest free slot is reused, under the generation after the one it
    /// had; with no free slot a new one is opened at generation 0. The new
    /// vertex has no column yet.
    pub fn add_vertex(&mut self, vertex: T) -> (id: AcVertexIdentifier)
        requires
            old(self).wf(),
        ensures
            final(self).wf(),
            final(self)@ == old(self)@.register(vertex),
            id == old(self)@.next_identifier(),
    {
        let ghost before = self@;
        let ghost free = self.available_reuse_identifiers@;
        proof {
            before.lemma_register_wf(vertex);
        }
        match self.available_reuse_identifiers.pop() {
            Some(index) => {
                proof {
                    assert(free[free.len() - 1] == index);
                    assert forall|j: int| 0 <= j < index implies (
                    #[trigger] before.slots[j]).payload is Some by {
                        if before.slots[j].payload is None {
                            assert(old(self).registered_vertices@[j].payload is None);
                            let at = choose|at: int| 0 <= at < free.len() && free[at] == j;
                            assert(free[at] > free[free.len() - 1] || at == free.len() - 1);
                        }
                    }
                    lemma_first_vacant(before.slots, 0, index as nat);
                }
                let generation = self.registered_vertices[index].generation.next_generation();
                let identifier = AcVertexIdentifier { index, generation };
                self.registered_vertices[index] = VertexRegistration {
                    generation,
                    payload: Some(vertex),
                    result_index: None,
                };
                proof {
                    assert(self@.slots =~= before.register(vertex).slots);
                    let rest = self.available_reuse_identifiers@;
                    assert forall|i: int|
                        0 <= i < self.registered_vertices@.len() && (
                        #[trigger] self.registered_vertices@[i]).payload is None implies listed(
                        rest,
                        i,
                    ) by {
                        assert(i != index);
                        assert(old(self).registered_vertices@[i].payload is None);
                        let j = choose|j: int| 0 <= j < free.len() && free[j] == i;
                        assert(rest[j] == i);
                    }
                }
                identifier
            },
            None => {
                proof {
                    assert forall|j: int| 0 <= j < before.slots.len() implies (
                    #[trigger] before.slots[j]).payload is Some by {
                        if before.slots[j].payload is None {
                            assert(old(self).registered_vertices@[j].payload is None);
                            assert(listed(free, j));
                        }
                    }
                    lemma_first_vacant(before.slots, 0, before.slots.len());
                }
                let identifier = AcVertexIdentifier {
                    index: self.registered_vertices.len(),
                    generation: AcVertexIdGeneration(0),
                };
                self.registered_vertices.push(
                    VertexRegistration {
                        generation: identifier.generation,
                        payload: Some(vertex),
                        result_index: None,
                    },
                );
                proof {
                    assert(self@.slots =~= before.register(vertex).slots);
                }
                identifier
            },
        }
    }

    /// Removes the vertex named by `id`: its column is given up and its slot
    /// becomes free for reuse. An identifier that is not valid removes nothing.
    pub fn remove_vertex(&mut self, id: AcVertexIdentifier)
        requires
            old(self).wf(),
        ensures
            final(self).wf(),
            final(self)@ == old(self)@.remove(id),
    {
        if self.is_identifier_valid(id) {
            proof {
                old(self)@.lemma_remove_wf(id);
                old(self)@.lemma_without_result_index_effects(id);
            }
            self.remove_vertex_result_index(id);
            let ghost released = self@;
            let ghost free = self.available_reuse_identifiers@;
            proof {
                assert(released.is_valid(id));
                if listed(free, id.index as int) {
                    let j = choose|j: int| 0 <= j < free.len() && free[j] == id.index;
                    assert(self.registered_vertices@[free[j] as int].payload is None);
                }
            }
            self.registered_vertices[id.index].payload = None;
            insert_falling(&mut self.available_reuse_identifiers, id.index);
            proof {
                assert(self@.slots =~= old(self)@.remove(id).slots);
                let listing = self.available_reuse_identifiers@;
                assert forall|j: int| 0 <= j < listing.len() implies (#[trigger] listing[j])
                    < self.registered_vertices@.len()
                    && self.registered_vertices@[listing[j] as int].payload is None by {
                    assert(listed(listing, listing[j] as int));
                    if listing[j] != id.index {
                        let at = choose|at: int| 0 <= at < free.len() && free[at] == listing[j];
                        assert(free[at] < released.slots.len());
                    }
                }
                assert forall|i: int|
                    0 <= i < self.registered_vertices@.len() && (
                    #[trigger] self.registered_vertices@[i]).payload is None implies listed(
                    listing,
                    i,
                ) by {
                    if i != id.index {
                        assert(released.slots[i].payload is None);
                        assert(listed(free, i));
                    }
                }
            }
        }
    }

    /// The column of the vertex named by `id`, which is created if the vertex
    /// has none yet. Fails only if `id` is not valid, and then changes nothing.
    pub fn get_or_create_vertex_result_index(&mut self, id: AcVertexIdentifier) -> (column: Result<
        usize,
        (),
    >)
        requires
            old(self).wf(),
        ensures
            final(self).wf(),
            final(self)@ == old(self)@.with_result_index(id),
            column is Ok == old(self)@.is_valid(id),
            column matches Ok(c) ==> final(self)@.result_index(id) == Some(c as nat) && 1 <= c
                < final(self)@.row_count(),
    {
        proof {
            old(self)@.lemma_with_result_index_wf(id);
        }
        if self.is_identifier_valid(id) {
            match self.registered_vertices[id.index].result_index {
                None => {
                    let ghost before = self@;
                    let index = self.result_index_to_identifier.len();
                    self.result_index_to_identifier.push(VertexOrUnit::Vertex(id));
                    self.registered_vertices[id.index].result_index = Some(index);
                    proof {
                        assert(self@.slots =~= before.with_result_index(id).slots);
                        self.lemma_free_list_kept(old(self));
                    }
                    Ok(index)
                },
                Some(index) => {
                    proof {
                        self@.lemma_result_index_in_range(id);
                    }
                    Ok(index)
                },
            }
        } else {
            Err(())
        }
    }

    /// Gives up the column of the vertex named by `id`, if it is valid and has
    /// one. The variable of the last column moves into the column that falls
    /// free, so the columns in use stay contiguous.
    pub fn remove_vertex_result_index(&mut self, id: AcVertexIdentifier)
        requires
            old(self).wf(),
        ensures
            final(self).wf(),
            final(self)@ == old(self)@.without_result_index(id),
    {
        proof {
            old(self)@.lemma_without_result_index_wf(id);
        }
        if self.is_identifier_valid(id) {
            if let Some(index) = self.registered_vertices[id.index].result_index {
                let ghost before = self@;
                proof {
                    before.lemma_result_index_in_range(id);
                    assert(before.columns[before.columns.len() - 1] is Vertex);
                }
                let last = self.result_index_to_identifier[self.result_index_to_identifier.len() - 1];
                self.result_index_to_identifier.swap_remove(index);
                if let VertexOrUnit::Vertex(swapping_id) = last {
                    if swapping_id != id {
                        self.registered_vertices[swapping_id.index].result_index = Some(index);
                    }
                }
                self.registered_vertices[id.index].result_index = None;
                proof {
                    assert(self@.slots =~= before.without_result_index(id).slots);
                    self.lemma_free_list_kept(old(self));
                }
            }
        }
    }

    /// The free list stays right when no slot is added, freed or occupied.
    proof fn lemma_free_list_kept(&self, before: &Self)
        requires
            before.free_list_wf(),
            self.available_reuse_identifiers@ == before.available_reuse_identifiers@,
            self.registered_vertices@.len() == before.registered_vertices@.len(),
            forall|i: int|
                0 <= i < self.registered_vertices@.len() ==> (
                #[trigger] self.registered_vertices@[i]).payload
                    == before.registered_vertices@[i].payload,
        ensures
            self.free_list_wf(),
    {
        let free = self.available_reuse_identifiers@;
        assert forall|j: int| 0 <= j < free.len() implies (#[trigger] free[j])
            < self.registered_vertices@.len()
            && self.registered_vertices@[free[j] as int].payload is None by {
            assert(before.registered_vertices@[free[j] as int].payload is None);
        }
        assert forall|i: int|
            0 <= i < self.registered_vertices@.len() && (
            #[trigger] self.registered_vertices@[i]).payload is None implies listed(free, i) by {
            assert(before.registered_vertices@[i].payload is None);
        }
    }

    /// A copy of the payload registered under `id`, or `None` if `id` names
    /// no vertex: its slot does not exist, has moved on to a later generation,
    /// or is free.
    pub fn get_vertex(&self, id: AcVertexIdentifier) -> (found: Option<T>)
        ensures
            self@.payload(id) is None ==> found is None,
            self@.payload(id) matches Some(payload) ==> found matches Some(copy) && cloned(
                payload,
                copy,
            ),
    {
        if self.registered_vertices.len() > id.index
            && self.registered_vertices[id.index].generation == id.generation {
            self.registered_vertices[id.index].payload.clone()
        } else {
            None
        }
    }

    /// Whether `id` names a vertex of this arena.
    pub fn is_identifier_valid(&self, id: AcVertexIdentifier) -> (valid: bool)
        ensures
            valid == self@.is_valid(id),
    {
        self.registered_vertices.len() > id.index
            && self.registered_vertices[id.index].generation == id.generation
            && self.registered_vertices[id.index].payload.is_some()
    }

    /// Whether `id` names a vertex that has a column.
    pub fn vertex_has_result_index(&self, id: AcVertexIdentifier) -> (has: bool)
        ensures
            has == (self@.result_index(id) is Some),
    {
        self.is_identifier_valid(id) && self.registered_vertices[id.index].result_index.is_some()
    }

    /// The column of the vertex that `id` names, if it is valid and has one.
    pub fn get_vertex_result_index(&self, id: AcVertexIdentifier) -> (column: Option<usize>)
        ensures
            self@.result_index(id) is None ==> column is None,
            self@.result_index(id) matches Some(c) ==> column == Some(c as usize) && c
                <= usize::MAX,
            self.wf() ==> (column matches Some(c) ==> 1 <= c < self@.row_count()),
    {
        if self.is_identifier_valid(id) {
            self.registered_vertices[id.index].result_index
        } else {
            None
        }
    }

    /// The number of unknowns, which is the number of rows of a solution:
    /// one for the unit unknown and one for each vertex with a column.
    pub fn get_row_count(&self) -> (count: usize)
        ensures
            count == self@.row_count(),
    {
        self.result_index_to_identifier.len()
    }
}

/// Puts `value` into the strictly falling `list`, keeping it strictly falling.
fn insert_falling(list: &mut Vec<usize>, value: usize)
    requires
        strictly_falling(old(list)@),
        !listed(old(list)@, value as int),
    ensures
        strictly_falling(final(list)@),
        forall|slot: int| listed(final(list)@, slot) <==> listed(old(list)@, slot) || slot == value,
{
    let mut position: usize = 0;
    while position < list.len() && list[position] > value
        invariant
            position <= list.len(),
            forall|j: int| 0 <= j < position ==> #[trigger] list[j] > value,
        decreases list.len() - position,
    {
        position += 1;
    }
    let ghost before = list@;
    proof {
        if position < list.len() {
            assert(before[position as int] != value) by {
                if before[position as int] == value {
                    assert(listed(before, value as int));
                }
            }
        }
    }
    list.insert(position, value);
    proof {
        let after = list@;
        assert forall|slot: int| listed(after, slot) <==> listed(before, slot) || slot == value by {
            if listed(after, slot) {
                let j = choose|j: int| 0 <= j < after.len() && after[j] == slot;
                if j < position {
                    assert(before[j] == slot);
                } else if j > position {
                    assert(before[j - 1] == slot);
                }
            }
            if listed(before, slot) {
                let j = choose|j: int| 0 <= j < before.len() && before[j] == slot;
                if j < position {
                    assert(after[j] == slot);
                } else {
                    assert(after[j + 1] == slot);
                }
            }
            if slot == value {
                assert(after[position as int] == slot);
            }
        }
    }
}

} // verus!
