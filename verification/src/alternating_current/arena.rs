//! The vertex arena as a mathematical value, and what its operations keep.
//!
//! The slots are a sequence, each with the generation of its current or last
//! occupant, the occupant's payload while there is one, and the occupant's
//! column once a constraint has referred to it. The columns in use are a
//! second sequence: column 0 is the unit unknown, and every other column
//! names the vertex that it belongs to.

use vstd::prelude::*;
use crate::alternating_current::vertex::{AcVertexIdentifier, VertexOrUnit};

verus! {

/// The generation that follows `generation`; the count wraps at the machine limit.
pub open spec fn successor_generation(generation: nat) -> nat {
    if generation >= usize::MAX as nat {
        0
    } else {
        generation + 1
    }
}

/// What the arena knows of one slot.
pub struct SlotModel<T> {
    /// The generation of the slot's current or last occupant.
    pub generation: nat,
    /// The payload of the occupant; `None` while the slot is free.
    pub payload: Option<T>,
    /// The column of the occupant, once a constraint has referred to it.
    pub result_index: Option<nat>,
}

/// The arena as a mathematical value.
pub struct ArenaModel<T> {
    /// All slots ever handed out, by slot number.
    pub slots: Seq<SlotModel<T>>,
    /// The variable of each column in use. Column 0 is the unit unknown.
    pub columns: Seq<VertexOrUnit>,
}

/// The lowest free slot at or after `from`, or the number of slots if there is none.
pub open spec fn first_vacant<T>(slots: Seq<SlotModel<T>>, from: nat) -> nat
    decreases slots.len() - from,
{
    if from >= slots.len() {
        slots.len()
    } else if slots[from as int].payload is None {
        from
    } else {
        first_vacant(slots, from + 1)
    }
}

/// `first_vacant` returns a free slot, or the end of the slots, and every
/// slot between `from` and it is occupied.
pub proof fn lemma_first_vacant_found<T>(slots: Seq<SlotModel<T>>, from: nat)
    requires
        from <= slots.len(),
    ensures
        from <= first_vacant(slots, from) <= slots.len(),
        first_vacant(slots, from) < slots.len() ==> slots[first_vacant(slots, from) as int].payload is None,
        forall|j: int| from <= j < first_vacant(slots, from) ==> (#[trigger] slots[j]).payload is Some,
    decreases slots.len() - from,
{
    if from < slots.len() && slots[from as int].payload is Some {
        lemma_first_vacant_found(slots, from + 1);
    }
}

/// `first_vacant` finds `target` when every slot from `from` up to it is
/// occupied and `target` itself is free or is the end of the slots.
pub proof fn lemma_first_vacant<T>(slots: Seq<SlotModel<T>>, from: nat, target: nat)
    requires
        from <= target <= slots.len(),
        forall|j: int| from <= j < target ==> (#[trigger] slots[j]).payload is Some,
        target < slots.len() ==> slots[target as int].payload is None,
    ensures
        first_vacant(slots, from) == target,
    decreases target - from,
{
    if from < target {
        assert(slots[from as int].payload is Some);
        lemma_first_vacant(slots, from + 1, target);
    }
}

impl<T> ArenaModel<T> {
    /// The arena before anything was registered.
    pub open spec fn empty() -> Self {
        ArenaModel { slots: Seq::empty(), columns: seq![VertexOrUnit::Unit] }
    }

    /// An identifier is valid when its slot exists, is occupied, and is still
    /// at the generation that the identifier was issued under.
    pub open spec fn is_valid(self, id: AcVertexIdentifier) -> bool {
        &&& id.slot() < self.slots.len()
        &&& self.slots[id.slot() as int].generation == id.generation()
        &&& self.slots[id.slot() as int].payload is Some
    }

    /// The payload that `id` names, if it names one.
    pub open spec fn payload(self, id: AcVertexIdentifier) -> Option<T> {
        if id.slot() < self.slots.len() && self.slots[id.slot() as int].generation
            == id.generation() {
            self.slots[id.slot() as int].payload
        } else {
            None
        }
    }

    /// The column of the vertex that `id` names, if it is valid and has one.
    pub open spec fn result_index(self, id: AcVertexIdentifier) -> Option<nat> {
        if self.is_valid(id) {
            self.slots[id.slot() as int].result_index
        } else {
            None
        }
    }

    /// The number of unknowns: the unit unknown and one for each vertex with a column.
    pub open spec fn row_count(self) -> nat {
        self.columns.len()
    }

    /// The column that a variable occupies, if any. The unit unknown is always column 0.
    pub open spec fn column_of(self, variable: VertexOrUnit) -> Option<nat> {
        match variable {
            VertexOrUnit::Unit => Some(0),
            VertexOrUnit::Vertex(id) => self.result_index(id),
        }
    }

    /// The slot that the next registration will use: the lowest free one, or a new one.
    pub open spec fn next_slot(self) -> nat {
        first_vacant(self.slots, 0)
    }

    /// The generation under which the next registration will be issued.
    pub open spec fn next_generation(self) -> nat {
        if self.next_slot() < self.slots.len() {
            successor_generation(self.slots[self.next_slot() as int].generation)
        } else {
            0
        }
    }

    /// The identifier that the next registration will return.
    pub open spec fn next_identifier(self) -> AcVertexIdentifier {
        AcVertexIdentifier::at(self.next_slot(), self.next_generation())
    }

    /// The arena after registering `payload`.
    pub open spec fn register(self, payload: T) -> Self {
        let slot = SlotModel {
            generation: self.next_generation(),
            payload: Some(payload),
            result_index: None,
        };
        if self.next_slot() < self.slots.len() {
            ArenaModel { slots: self.slots.update(self.next_slot() as int, slot), columns: self.columns }
        } else {
            ArenaModel { slots: self.slots.push(slot), columns: self.columns }
        }
    }

    /// The arena after making sure that the vertex named by `id` has a column.
    /// A vertex without one gets the next column; nothing changes otherwise.
    pub open spec fn with_result_index(self, id: AcVertexIdentifier) -> Self {
        if self.is_valid(id) && self.slots[id.slot() as int].result_index is None {
            ArenaModel {
                slots: self.slots.update(
                    id.slot() as int,
                    SlotModel {
                        generation: self.slots[id.slot() as int].generation,
                        payload: self.slots[id.slot() as int].payload,
                        result_index: Some(self.columns.len()),
                    },
                ),
                columns: self.columns.push(VertexOrUnit::Vertex(id)),
            }
        } else {
            self
        }
    }

    /// The slots after the occupant of `slot` was given `result_index`.
    pub open spec fn slots_with_index(self, slot: nat, result_index: Option<nat>) -> Seq<
        SlotModel<T>,
    > {
        self.slots.update(
            slot as int,
            SlotModel {
                generation: self.slots[slot as int].generation,
                payload: self.slots[slot as int].payload,
                result_index,
            },
        )
    }

    /// The arena after giving up the column of the vertex named by `id`.
    /// The variable of the last column moves into the column that falls free,
    /// so the columns in use stay contiguous.
    pub open spec fn without_result_index(self, id: AcVertexIdentifier) -> Self {
        match self.result_index(id) {
            None => self,
            Some(column) => {
                let moved = match self.columns.last() {
                    VertexOrUnit::Vertex(last) => ArenaModel {
                        slots: self.slots_with_index(last.slot(), Some(column)),
                        columns: self.columns,
                    },
                    VertexOrUnit::Unit => self,
                };
                ArenaModel {
                    slots: moved.slots_with_index(id.slot(), None),
                    columns: self.columns.update(column as int, self.columns.last()).drop_last(),
                }
            },
        }
    }

    /// The arena after removing the vertex named by `id`: its column is given
    /// up and its slot is freed. An identifier that is not valid removes nothing.
    pub open spec fn remove(self, id: AcVertexIdentifier) -> Self {
        if self.is_valid(id) {
            let released = self.without_result_index(id);
            ArenaModel {
                slots: released.slots.update(
                    id.slot() as int,
                    SlotModel {
                        generation: released.slots[id.slot() as int].generation,
                        payload: None,
                        result_index: released.slots[id.slot() as int].result_index,
                    },
                ),
                columns: released.columns,
            }
        } else {
            self
        }
    }

    /// The invariant of the arena: column 0 is the unit unknown, every other
    /// column in use belongs to a valid vertex that records that column, and
    /// every recorded column is in use by the vertex that records it.
    pub open spec fn wf(self) -> bool {
        &&& self.columns.len() >= 1
        &&& self.columns[0] is Unit
        &&& forall|i: int|
            0 <= i < self.slots.len() ==> (#[trigger] self.slots[i]).generation <= usize::MAX
        &&& forall|k: int|
            1 <= k < self.columns.len() ==> (#[trigger] self.columns[k] matches VertexOrUnit::Vertex(id)
                && self.is_valid(id) && self.slots[id.slot() as int].result_index == Some(
                k as nat,
            ))
        &&& forall|i: int|
            0 <= i < self.slots.len() ==> ((#[trigger] self.slots[i]).result_index matches Some(column)
                ==> self.slots[i].payload is Some && 1 <= column < self.columns.len()
                && self.holds(column as int, i))
    }

    /// Whether column `column` belongs to the current occupant of slot `slot`.
    pub open spec fn holds(self, column: int, slot: int) -> bool {
        &&& self.columns[column] matches VertexOrUnit::Vertex(id)
        &&& id.slot() == slot
        &&& id.generation() == self.slots[slot].generation
    }

    /// Two variables that occupy the same column are the same variable.
    pub proof fn lemma_columns_distinct(self, a: VertexOrUnit, b: VertexOrUnit)
        requires
            self.wf(),
            self.column_of(a) is Some,
            self.column_of(a) == self.column_of(b),
        ensures
            a == b,
    {
        let column = self.column_of(a)->Some_0 as int;
        match (a, b) {
            (VertexOrUnit::Vertex(x), VertexOrUnit::Vertex(y)) => {
                assert(self.slots[x.slot() as int].result_index == Some(column as nat));
                assert(self.slots[y.slot() as int].result_index == Some(column as nat));
                assert(self.holds(column, x.slot() as int));
                assert(self.holds(column, y.slot() as int));
                AcVertexIdentifier::lemma_extensional(x, y);
            },
            (VertexOrUnit::Vertex(x), VertexOrUnit::Unit) => {
                assert(self.slots[x.slot() as int].result_index == Some(0nat));
            },
            (VertexOrUnit::Unit, VertexOrUnit::Vertex(y)) => {
                assert(self.slots[y.slot() as int].result_index == Some(0nat));
            },
            (VertexOrUnit::Unit, VertexOrUnit::Unit) => {},
        }
    }

    /// A column recorded for a valid vertex is in use and is not the unit column.
    pub proof fn lemma_result_index_in_range(self, id: AcVertexIdentifier)
        requires
            self.wf(),
            self.result_index(id) is Some,
        ensures
            1 <= self.result_index(id)->Some_0 < self.row_count(),
            self.columns[self.result_index(id)->Some_0 as int] == VertexOrUnit::Vertex(id),
    {
        let column = self.result_index(id)->Some_0 as int;
        assert(self.holds(column, id.slot() as int));
        AcVertexIdentifier::lemma_extensional(self.columns[column]->Vertex_0, id);
    }

    /// The next slot is free, or is the end of the slots, and every slot below it is occupied.
    pub proof fn lemma_next_slot(self)
        ensures
            self.next_slot() <= self.slots.len(),
            self.next_slot() < self.slots.len() ==> self.slots[self.next_slot() as int].payload is None,
            forall|j: int| 0 <= j < self.next_slot() ==> (#[trigger] self.slots[j]).payload is Some,
    {
        lemma_first_vacant_found(self.slots, 0);
    }

    /// Registration keeps the arena well formed.
    pub proof fn lemma_register_wf(self, payload: T)
        requires
            self.wf(),
        ensures
            self.register(payload).wf(),
    {
        self.lemma_next_slot();
        let after = self.register(payload);
        let target = self.next_slot() as int;
        assert forall|k: int| 1 <= k < after.columns.len() implies (
        #[trigger] after.columns[k] matches VertexOrUnit::Vertex(id) && after.is_valid(id)
            && after.slots[id.slot() as int].result_index == Some(k as nat)) by {
            assert(self.columns[k] is Vertex);
        }
        assert forall|i: int| 0 <= i < after.slots.len() implies ((
        #[trigger] after.slots[i]).result_index matches Some(column) ==> after.slots[i].payload is Some
            && 1 <= column < after.columns.len() && after.holds(column as int, i)) by {
            if i != target {
                assert(self.slots[i] == after.slots[i]);
            }
        }
    }

    /// What registration does to validity and payloads: the next identifier,
    /// which named nothing before, now names the new payload, and every other
    /// identifier names what it named before.
    pub proof fn lemma_register_effects(self, payload: T)
        requires
            self.wf(),
            self.next_slot() <= usize::MAX,
        ensures
            self.next_identifier().slot() == self.next_slot(),
            !self.is_valid(self.next_identifier()),
            self.register(payload).is_valid(self.next_identifier()),
            self.register(payload).payload(self.next_identifier()) == Some(payload),
            forall|other: AcVertexIdentifier|
                other != self.next_identifier() ==> #[trigger] self.register(payload).is_valid(other)
                    == self.is_valid(other),
    {
        self.lemma_next_slot();
        let after = self.register(payload);
        let target = self.next_slot();
        if target < self.slots.len() {
            assert(self.slots[target as int].generation <= usize::MAX);
        }
        AcVertexIdentifier::lemma_at(target, self.next_generation());
        assert forall|other: AcVertexIdentifier| other != self.next_identifier() implies #[trigger] after.is_valid(
            other,
        ) == self.is_valid(other) by {
            if other.slot() == target {
                if other.generation() == self.next_generation() {
                    AcVertexIdentifier::lemma_extensional(other, self.next_identifier());
                }
            }
        }
    }

    /// Registration changes no column: the columns in use stay, and every
    /// identifier has the column it had.
    pub proof fn lemma_register_columns(self, payload: T)
        requires
            self.wf(),
        ensures
            self.register(payload).columns == self.columns,
            forall|other: AcVertexIdentifier| #[trigger]
                self.register(payload).result_index(other) == self.result_index(other),
    {
        self.lemma_next_slot();
        let after = self.register(payload);
        let target = self.next_slot();
        assert forall|other: AcVertexIdentifier| #[trigger]
            after.result_index(other) == self.result_index(other) by {
            if other.slot() == target {
                if self.is_valid(other) {
                    assert(self.slots[target as int].payload is Some);
                }
            }
        }
    }

    /// Removing a vertex that has no column changes no column.
    pub proof fn lemma_remove_columns(self, id: AcVertexIdentifier)
        requires
            self.wf(),
            self.result_index(id) is None,
        ensures
            self.remove(id).columns == self.columns,
            forall|other: AcVertexIdentifier| #[trigger]
                self.remove(id).result_index(other) == self.result_index(other),
    {
        let after = self.remove(id);
        assert forall|other: AcVertexIdentifier| #[trigger]
            after.result_index(other) == self.result_index(other) by {
            if self.is_valid(id) && other.slot() == id.slot() && self.is_valid(other) {
                AcVertexIdentifier::lemma_extensional(other, id);
            }
        }
    }

    /// Making sure of a column keeps the arena well formed.
    pub proof fn lemma_with_result_index_wf(self, id: AcVertexIdentifier)
        requires
            self.wf(),
        ensures
            self.with_result_index(id).wf(),
    {
        let after = self.with_result_index(id);
        if self.is_valid(id) && self.slots[id.slot() as int].result_index is None {
            assert forall|k: int| 1 <= k < after.columns.len() implies (
            #[trigger] after.columns[k] matches VertexOrUnit::Vertex(other) && after.is_valid(other)
                && after.slots[other.slot() as int].result_index == Some(k as nat)) by {
                if k < self.columns.len() {
                    assert(self.columns[k] is Vertex);
                }
            }
            assert forall|i: int| 0 <= i < after.slots.len() implies ((
            #[trigger] after.slots[i]).result_index matches Some(column)
                ==> after.slots[i].payload is Some && 1 <= column < after.columns.len() && after.holds(
                column as int,
                i,
            )) by {
                if i != id.slot() {
                    assert(self.slots[i] == after.slots[i]);
                    if self.slots[i].result_index is Some {
                        assert(self.holds(self.slots[i].result_index->Some_0 as int, i));
                    }
                }
            }
        }
    }

    /// What making sure of a column does: validity and payloads stay, a valid
    /// `id` has a column afterwards, and every column there was stays where it was.
    pub proof fn lemma_with_result_index_effects(self, id: AcVertexIdentifier)
        requires
            self.wf(),
        ensures
            self.with_result_index(id).slots.len() == self.slots.len(),
            forall|other: AcVertexIdentifier| #[trigger]
                self.with_result_index(id).is_valid(other) == self.is_valid(other),
            forall|other: AcVertexIdentifier| #[trigger]
                self.with_result_index(id).payload(other) == self.payload(other),
            self.is_valid(id) ==> self.with_result_index(id).result_index(id) is Some,
            self.result_index(id) is Some ==> self.with_result_index(id) == self,
            forall|other: AcVertexIdentifier|
                self.result_index(other) is Some ==> #[trigger] self.with_result_index(id).result_index(
                    other,
                ) == self.result_index(other),
            forall|other: AcVertexIdentifier|
                self.result_index(other) is None && other != id ==> #[trigger] self.with_result_index(
                    id,
                ).result_index(other) is None,
            self.columns.len() <= self.with_result_index(id).columns.len(),
            forall|k: int|
                0 <= k < self.columns.len() ==> #[trigger] self.with_result_index(id).columns[k]
                    == self.columns[k],
            forall|k: int|
                self.columns.len() <= k < self.with_result_index(id).columns.len()
                    ==> #[trigger] self.with_result_index(id).columns[k] == VertexOrUnit::Vertex(id),
    {
        let after = self.with_result_index(id);
        assert forall|other: AcVertexIdentifier|
            self.result_index(other) is None && other != id implies #[trigger] after.result_index(
            other,
        ) is None by {
            if after.result_index(other) is Some && other.slot() == id.slot() {
                AcVertexIdentifier::lemma_extensional(other, id);
            }
        }
    }

    /// Giving up a column keeps the arena well formed.
    pub proof fn lemma_without_result_index_wf(self, id: AcVertexIdentifier)
        requires
            self.wf(),
        ensures
            self.without_result_index(id).wf(),
    {
        let after = self.without_result_index(id);
        if self.result_index(id) is Some {
            let column = self.result_index(id)->Some_0 as int;
            let tail = self.columns.len() - 1;
            assert(self.slots[id.slot() as int].result_index == Some(column as nat));
            assert(self.holds(column, id.slot() as int));
            assert(self.columns[tail] is Vertex);
            let mover = self.columns[tail]->Vertex_0;
            assert(self.slots[mover.slot() as int].result_index == Some(tail as nat));
            assert(self.columns[column] == VertexOrUnit::Vertex(id)) by {
                AcVertexIdentifier::lemma_extensional(self.columns[column]->Vertex_0, id);
            }
            assert forall|k: int| 1 <= k < after.columns.len() implies (
            #[trigger] after.columns[k] matches VertexOrUnit::Vertex(other) && after.is_valid(other)
                && after.slots[other.slot() as int].result_index == Some(k as nat)) by {
                if k == column {
                    assert(self.columns[tail] is Vertex);
                } else {
                    assert(self.columns[k] is Vertex);
                    let other = self.columns[k]->Vertex_0;
                    assert(self.slots[other.slot() as int].result_index == Some(k as nat));
                }
            }
            assert forall|i: int| 0 <= i < after.slots.len() implies ((
            #[trigger] after.slots[i]).result_index matches Some(c) ==> after.slots[i].payload is Some
                && 1 <= c < after.columns.len() && after.holds(c as int, i)) by {
                assert(self.slots[i].generation == after.slots[i].generation);
                if i == mover.slot() && i != id.slot() {
                    assert(tail != column);
                    assert(after.columns[column] == self.columns[tail]);
                    assert(self.holds(tail, i));
                } else if i != id.slot() {
                    if self.slots[i].result_index is Some {
                        let c = self.slots[i].result_index->Some_0;
                        assert(self.holds(c as int, i));
                        assert(c != column);
                        assert(c != tail);
                        assert(after.columns[c as int] == self.columns[c as int]);
                    }
                }
            }
        }
    }

    /// What giving up a column does: validity and payloads stay, `id` has no
    /// column afterwards, and every other vertex that had a column still has one.
    pub proof fn lemma_without_result_index_effects(self, id: AcVertexIdentifier)
        requires
            self.wf(),
        ensures
            self.without_result_index(id).slots.len() == self.slots.len(),
            forall|other: AcVertexIdentifier| #[trigger]
                self.without_result_index(id).is_valid(other) == self.is_valid(other),
            forall|other: AcVertexIdentifier| #[trigger]
                self.without_result_index(id).payload(other) == self.payload(other),
            self.without_result_index(id).result_index(id) is None,
            self.result_index(id) is None ==> self.without_result_index(id) == self,
            forall|other: AcVertexIdentifier|
                other != id ==> (#[trigger] self.without_result_index(id).result_index(other) is Some)
                    == (self.result_index(other) is Some),
            self.result_index(id) is Some ==> self.without_result_index(id).columns.len() + 1
                == self.columns.len(),
            forall|k: int|
                0 <= k < self.without_result_index(id).columns.len() ==> self.columns.contains(
                    #[trigger] self.without_result_index(id).columns[k],
                ),
    {
        let after = self.without_result_index(id);
        if self.result_index(id) is Some {
            let column = self.result_index(id)->Some_0 as int;
            let tail = self.columns.len() - 1;
            assert(self.slots[id.slot() as int].result_index == Some(column as nat));
            assert(self.columns[tail] is Vertex);
            let mover = self.columns[tail]->Vertex_0;
            assert forall|other: AcVertexIdentifier| other != id implies (
            #[trigger] after.result_index(other) is Some) == (self.result_index(other) is Some) by {
                if other.slot() == id.slot() && self.is_valid(other) {
                    AcVertexIdentifier::lemma_extensional(other, id);
                }
            }
            assert forall|k: int| 0 <= k < after.columns.len() implies self.columns.contains(
                #[trigger] after.columns[k],
            ) by {
                if k == column {
                    assert(self.columns[tail] == after.columns[k]);
                } else {
                    assert(self.columns[k] == after.columns[k]);
                }
            }
        } else {
            assert forall|k: int| 0 <= k < after.columns.len() implies self.columns.contains(
                #[trigger] after.columns[k],
            ) by {
                assert(self.columns[k] == after.columns[k]);
            }
        }
    }

    /// Removal keeps the arena well formed.
    pub proof fn lemma_remove_wf(self, id: AcVertexIdentifier)
        requires
            self.wf(),
        ensures
            self.remove(id).wf(),
    {
        if self.is_valid(id) {
            let released = self.without_result_index(id);
            self.lemma_without_result_index_wf(id);
            self.lemma_without_result_index_effects(id);
            let after = self.remove(id);
            assert(released.is_valid(id));
            assert(released.result_index(id) is None);
            assert forall|k: int| 1 <= k < after.columns.len() implies (
            #[trigger] after.columns[k] matches VertexOrUnit::Vertex(other) && after.is_valid(other)
                && after.slots[other.slot() as int].result_index == Some(k as nat)) by {
                assert(released.columns[k] is Vertex);
                let other = released.columns[k]->Vertex_0;
                if other.slot() == id.slot() {
                    AcVertexIdentifier::lemma_extensional(other, id);
                }
            }
            assert forall|i: int| 0 <= i < after.slots.len() implies ((
            #[trigger] after.slots[i]).result_index matches Some(c) ==> after.slots[i].payload is Some
                && 1 <= c < after.columns.len() && after.holds(c as int, i)) by {
                if i != id.slot() {
                    assert(released.slots[i] == after.slots[i]);
                    if released.slots[i].result_index is Some {
                        assert(released.holds(released.slots[i].result_index->Some_0 as int, i));
                    }
                }
            }
        }
    }

    /// What removal does: `id` names nothing afterwards, every other
    /// identifier names what it named before, and every other vertex that had
    /// a column still has one.
    pub proof fn lemma_remove_effects(self, id: AcVertexIdentifier)
        requires
            self.wf(),
        ensures
            !self.remove(id).is_valid(id),
            self.remove(id).slots.len() == self.slots.len(),
            !self.is_valid(id) ==> self.remove(id) == self,
            forall|other: AcVertexIdentifier|
                other != id ==> #[trigger] self.remove(id).is_valid(other) == self.is_valid(other),
            forall|other: AcVertexIdentifier|
                other != id ==> (#[trigger] self.remove(id).result_index(other) is Some) == (
                self.result_index(other) is Some),
            self.remove(id).result_index(id) is None,
            self.result_index(id) is None ==> self.remove(id).columns == self.columns,
            forall|k: int|
                0 <= k < self.remove(id).columns.len() ==> self.columns.contains(
                    #[trigger] self.remove(id).columns[k],
                ),
            self.is_valid(id) ==> self.remove(id).slots[id.slot() as int].payload is None
                && self.remove(id).slots[id.slot() as int].generation == id.generation(),
            forall|i: int|
                0 <= i < self.slots.len() && i != id.slot() ==> (#[trigger] self.remove(id).slots[i]).payload
                    == self.slots[i].payload && self.remove(id).slots[i].generation
                    == self.slots[i].generation,
    {
        let after = self.remove(id);
        self.lemma_without_result_index_effects(id);
        let released = self.without_result_index(id);
        if self.is_valid(id) {
            assert forall|other: AcVertexIdentifier| other != id implies #[trigger] after.is_valid(
                other,
            ) == self.is_valid(other) by {
                assert(released.is_valid(other) == self.is_valid(other));
                if other.slot() == id.slot() && self.is_valid(other) {
                    AcVertexIdentifier::lemma_extensional(other, id);
                }
            }
            assert forall|other: AcVertexIdentifier| other != id implies (
            #[trigger] after.result_index(other) is Some) == (self.result_index(other) is Some) by {
                assert((released.result_index(other) is Some) == (self.result_index(other) is Some));
                assert(after.is_valid(other) == self.is_valid(other));
                if other.slot() == id.slot() && self.is_valid(other) {
                    AcVertexIdentifier::lemma_extensional(other, id);
                }
            }
            assert forall|k: int| 0 <= k < after.columns.len() implies self.columns.contains(
                #[trigger] after.columns[k],
            ) by {
                assert(self.columns.contains(released.columns[k]));
            }
            assert forall|i: int| 0 <= i < self.slots.len() && i != id.slot() implies (
            #[trigger] after.slots[i]).payload == self.slots[i].payload && after.slots[i].generation
                == self.slots[i].generation by {
                assert(after.slots[i] == released.slots[i]);
            }
        } else {
            assert forall|k: int| 0 <= k < after.columns.len() implies self.columns.contains(
                #[trigger] after.columns[k],
            ) by {
                assert(self.columns[k] == after.columns[k]);
            }
        }
    }
}

} // verus!
