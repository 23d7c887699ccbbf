use ac_circuit::alternating_current::vertex::{AcVertexIdentifier, VertexCollection};

fn arena_with(payloads: &[&'static str]) -> (VertexCollection<&'static str>, Vec<AcVertexIdentifier>) {
    let mut arena = VertexCollection::new();
    let mut ids = Vec::new();
    for payload in payloads {
        ids.push(arena.add_vertex(*payload));
    }
    (arena, ids)
}

#[test]
fn new_arena_has_only_the_unit_unknown() {
    let arena: VertexCollection<u8> = VertexCollection::new();
    assert_eq!(arena.get_row_count(), 1);
}

#[test]
fn registration_opens_slots_in_order_at_generation_zero() {
    let (arena, ids) = arena_with(&["a", "b", "c"]);
    for (position, id) in ids.iter().enumerate() {
        assert_eq!(id.slot_index(), position);
        assert_eq!(id.generation_count(), 0);
        assert!(arena.is_identifier_valid(*id));
    }
    assert_eq!(arena.get_vertex(ids[0]), Some("a"));
    assert_eq!(arena.get_vertex(ids[1]), Some("b"));
    assert_eq!(arena.get_vertex(ids[2]), Some("c"));
}

#[test]
fn a_new_vertex_has_no_result_index() {
    let (arena, ids) = arena_with(&["a"]);
    assert!(!arena.vertex_has_result_index(ids[0]));
    assert_eq!(arena.get_vertex_result_index(ids[0]), None);
    assert_eq!(arena.get_row_count(), 1);
}

#[test]
fn removed_vertex_is_invalid_and_has_no_payload() {
    let (mut arena, ids) = arena_with(&["a", "b"]);
    arena.remove_vertex(ids[0]);
    assert!(!arena.is_identifier_valid(ids[0]));
    assert_eq!(arena.get_vertex(ids[0]), None);
    assert!(arena.is_identifier_valid(ids[1]));
    assert_eq!(arena.get_vertex(ids[1]), Some("b"));
}

#[test]
fn stale_identifier_is_rejected_after_its_slot_is_reused() {
    let (mut arena, ids) = arena_with(&["a", "b"]);
    let old = ids[0];
    arena.remove_vertex(old);
    let new = arena.add_vertex("c");
    assert_eq!(new.slot_index(), old.slot_index());
    assert_eq!(new.generation_count(), 1);
    assert_ne!(new, old);
    assert!(!arena.is_identifier_valid(old));
    assert_eq!(arena.get_vertex(old), None);
    assert!(arena.is_identifier_valid(new));
    assert_eq!(arena.get_vertex(new), Some("c"));
    assert_eq!(arena.get_or_create_vertex_result_index(old), Err(()));
}

#[test]
fn lowest_free_slot_is_reused_first() {
    let (mut arena, ids) = arena_with(&["a", "b", "c", "d", "e"]);
    arena.remove_vertex(ids[3]);
    arena.remove_vertex(ids[1]);
    arena.remove_vertex(ids[4]);
    let first = arena.add_vertex("f");
    let second = arena.add_vertex("g");
    let third = arena.add_vertex("h");
    let fourth = arena.add_vertex("i");
    assert_eq!(first.slot_index(), 1);
    assert_eq!(second.slot_index(), 3);
    assert_eq!(third.slot_index(), 4);
    assert_eq!(fourth.slot_index(), 5);
    assert_eq!(first.generation_count(), 1);
    assert_eq!(second.generation_count(), 1);
    assert_eq!(third.generation_count(), 1);
    assert_eq!(fourth.generation_count(), 0);
}

#[test]
fn generation_advances_with_each_reuse() {
    let mut arena = VertexCollection::new();
    let mut id = arena.add_vertex(0u32);
    for round in 1..5usize {
        arena.remove_vertex(id);
        let next = arena.add_vertex(round as u32);
        assert_eq!(next.slot_index(), 0);
        assert_eq!(next.generation_count(), round);
        assert!(!arena.is_identifier_valid(id));
        id = next;
    }
}

#[test]
fn removing_twice_or_removing_a_stale_identifier_changes_nothing() {
    let (mut arena, ids) = arena_with(&["a", "b"]);
    arena.remove_vertex(ids[0]);
    arena.remove_vertex(ids[0]);
    let reused = arena.add_vertex("c");
    arena.remove_vertex(ids[0]);
    assert!(arena.is_identifier_valid(reused));
    assert_eq!(arena.get_vertex(reused), Some("c"));
    let next = arena.add_vertex("d");
    assert_eq!(next.slot_index(), 2);
}

#[test]
fn result_indices_are_handed_out_from_one_and_are_idempotent() {
    let (mut arena, ids) = arena_with(&["a", "b", "c"]);
    assert_eq!(arena.get_or_create_vertex_result_index(ids[2]), Ok(1));
    assert_eq!(arena.get_or_create_vertex_result_index(ids[0]), Ok(2));
    assert_eq!(arena.get_or_create_vertex_result_index(ids[2]), Ok(1));
    assert_eq!(arena.get_or_create_vertex_result_index(ids[0]), Ok(2));
    assert_eq!(arena.get_vertex_result_index(ids[2]), Some(1));
    assert_eq!(arena.get_vertex_result_index(ids[0]), Some(2));
    assert_eq!(arena.get_vertex_result_index(ids[1]), None);
    assert!(arena.vertex_has_result_index(ids[0]));
    assert!(!arena.vertex_has_result_index(ids[1]));
    assert_eq!(arena.get_row_count(), 3);
}

#[test]
fn result_index_of_an_invalid_identifier_is_an_error() {
    let (mut arena, ids) = arena_with(&["a"]);
    arena.remove_vertex(ids[0]);
    assert_eq!(arena.get_or_create_vertex_result_index(ids[0]), Err(()));
    assert_eq!(arena.get_vertex_result_index(ids[0]), None);
    assert!(!arena.vertex_has_result_index(ids[0]));
    assert_eq!(arena.get_row_count(), 1);
}

#[test]
fn removal_moves_the_last_result_index_into_the_gap() {
    let (mut arena, ids) = arena_with(&["a", "b", "c", "d"]);
    for id in &ids {
        arena.get_or_create_vertex_result_index(*id).unwrap();
    }
    assert_eq!(arena.get_row_count(), 5);
    arena.remove_vertex(ids[1]);
    assert_eq!(arena.get_row_count(), 4);
    assert_eq!(arena.get_vertex_result_index(ids[0]), Some(1));
    assert_eq!(arena.get_vertex_result_index(ids[1]), None);
    assert_eq!(arena.get_vertex_result_index(ids[2]), Some(3));
    assert_eq!(arena.get_vertex_result_index(ids[3]), Some(2));
}

#[test]
fn removing_the_vertex_with_the_last_result_index_moves_nothing() {
    let (mut arena, ids) = arena_with(&["a", "b", "c"]);
    for id in &ids {
        arena.get_or_create_vertex_result_index(*id).unwrap();
    }
    arena.remove_vertex(ids[2]);
    assert_eq!(arena.get_row_count(), 3);
    assert_eq!(arena.get_vertex_result_index(ids[0]), Some(1));
    assert_eq!(arena.get_vertex_result_index(ids[1]), Some(2));
}

#[test]
fn giving_up_a_result_index_keeps_the_vertex() {
    let (mut arena, ids) = arena_with(&["a", "b", "c"]);
    for id in &ids {
        arena.get_or_create_vertex_result_index(*id).unwrap();
    }
    arena.remove_vertex_result_index(ids[0]);
    assert!(arena.is_identifier_valid(ids[0]));
    assert_eq!(arena.get_vertex(ids[0]), Some("a"));
    assert_eq!(arena.get_vertex_result_index(ids[0]), None);
    assert_eq!(arena.get_vertex_result_index(ids[2]), Some(1));
    assert_eq!(arena.get_vertex_result_index(ids[1]), Some(2));
    assert_eq!(arena.get_row_count(), 3);
    assert_eq!(arena.get_or_create_vertex_result_index(ids[0]), Ok(3));
}

#[test]
fn a_reused_slot_starts_without_a_result_index() {
    let (mut arena, ids) = arena_with(&["a", "b"]);
    arena.get_or_create_vertex_result_index(ids[0]).unwrap();
    arena.get_or_create_vertex_result_index(ids[1]).unwrap();
    arena.remove_vertex(ids[0]);
    let reused = arena.add_vertex("c");
    assert_eq!(reused.slot_index(), 0);
    assert_eq!(arena.get_vertex_result_index(reused), None);
    assert_eq!(arena.get_vertex_result_index(ids[1]), Some(1));
    assert_eq!(arena.get_row_count(), 2);
}

#[test]
fn payloads_are_handed_out_as_copies() {
    let mut arena: VertexCollection<String> = VertexCollection::new();
    let id = arena.add_vertex(String::from("payload"));
    let mut copy = arena.get_vertex(id).unwrap();
    copy.push_str(" changed");
    assert_eq!(arena.get_vertex(id), Some(String::from("payload")));
}
