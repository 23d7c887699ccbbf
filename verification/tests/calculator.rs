use std::cell::Cell;

use ac_circuit::alternating_current::ac_system::{accept_solution, AcCalculator};
use ac_circuit::alternating_current::freshness::OldOrUpToDate;
use ac_circuit::alternating_current::matrix::{filled_row, unit_vector, DenseMatrix};
use ac_circuit::alternating_current::vertex::VertexOrUnit;
use ac_circuit::matrixsolver::{is_elided, restore_elided};

fn rows(matrix: &DenseMatrix<i32>) -> Vec<Vec<i32>> {
    (0..matrix.nrows())
        .map(|r| (0..matrix.ncols()).map(|c| matrix.get(r, c)).collect())
        .collect()
}

fn cached_rows(calculator: &AcCalculator<&'static str, i32>) -> (bool, Vec<Vec<i32>>) {
    match calculator.matrix() {
        OldOrUpToDate::Old(matrix) => (false, rows(matrix)),
        OldOrUpToDate::UpToDate(matrix) => (true, rows(matrix)),
    }
}

fn never(_: &DenseMatrix<i32>, _: &Vec<i32>) -> Option<Vec<i32>> {
    unreachable!("the solver must not be called")
}

#[test]
fn new_calculator_has_a_fresh_empty_matrix() {
    let calculator: AcCalculator<&'static str, i32> = AcCalculator::new(0, 1);
    assert_eq!(cached_rows(&calculator), (true, vec![]));
    assert_eq!(calculator.constraints().len(), 0);
    assert_eq!(calculator.vertices().get_row_count(), 1);
}

#[test]
fn unconstrained_vertex_reads_zero_without_solving() {
    let mut calculator: AcCalculator<&'static str, i32> = AcCalculator::new(0, 1);
    let a = calculator.register_vertex("a");
    let b = calculator.register_vertex("b");
    assert_eq!(calculator.get_vertex_result(a, never), Some(0));
    calculator
        .get_constraint_builder()
        .set_vertex_constraint(a, 2)
        .finalize();
    assert_eq!(calculator.get_vertex_result(b, never), Some(0));
    assert_eq!(calculator.get_vertex_result(b, never), Some(0));
    assert!(!cached_rows(&calculator).0);
}

#[test]
fn invalid_identifier_has_no_value() {
    let mut calculator: AcCalculator<&'static str, i32> = AcCalculator::new(0, 1);
    let a = calculator.register_vertex("a");
    calculator.remove_vertex(a);
    assert_eq!(calculator.get_vertex_result(a, never), None);
    let reused = calculator.register_vertex("b");
    assert_eq!(reused.slot_index(), a.slot_index());
    assert_eq!(calculator.get_vertex_result(a, never), None);
    assert_eq!(calculator.get_vertex_result(reused, never), Some(0));
}

#[test]
fn compiled_system_has_the_unit_row_and_one_row_for_each_constraint() {
    let mut calculator: AcCalculator<&'static str, i32> = AcCalculator::new(0, 1);
    let node_a = calculator.register_vertex("Node A");
    let node_b = calculator.register_vertex("Node B");
    let resistor_current = calculator.register_vertex("Resistor current");
    let source_current = calculator.register_vertex("Voltage source current");
    calculator
        .get_constraint_builder()
        .set_vertex_constraint(node_a, 1)
        .finalize();
    calculator
        .get_constraint_builder()
        .set_vertex_constraint(resistor_current, 1)
        .set_vertex_constraint(source_current, -1)
        .finalize();
    calculator
        .get_constraint_builder()
        .set_vertex_constraint(node_a, -1)
        .set_vertex_constraint(node_b, 1)
        .set_constant_constraint(-9)
        .finalize();
    calculator
        .get_constraint_builder()
        .set_vertex_constraint(resistor_current, 2)
        .set_vertex_constraint(node_a, 1)
        .set_vertex_constraint(node_b, -1)
        .finalize();

    assert_eq!(calculator.vertices().get_vertex_result_index(node_a), Some(1));
    assert_eq!(calculator.vertices().get_vertex_result_index(resistor_current), Some(2));
    assert_eq!(calculator.vertices().get_vertex_result_index(source_current), Some(3));
    assert_eq!(calculator.vertices().get_vertex_result_index(node_b), Some(4));

    let seen = Cell::new(None);
    let value = calculator.get_vertex_result(node_b, |matrix: &DenseMatrix<i32>, constant: &Vec<i32>| {
        seen.set(Some((rows(matrix), constant.clone())));
        Some(vec![1, 0, 45, 45, 9])
    });
    assert_eq!(value, Some(9));
    let (matrix, constant) = seen.take().unwrap();
    assert_eq!(
        matrix,
        vec![
            vec![1, 0, 0, 0, 0],
            vec![0, 1, 0, 0, 0],
            vec![0, 0, 1, -1, 0],
            vec![-9, -1, 0, 0, 1],
            vec![0, 1, 2, 0, -1],
        ]
    );
    assert_eq!(constant, vec![1, 0, 0, 0, 0]);
    assert_eq!(cached_rows(&calculator), (true, matrix));
    assert_eq!(calculator.get_vertex_result(node_a, never), Some(0));
    assert_eq!(calculator.get_vertex_result(resistor_current, never), Some(45));
    assert_eq!(calculator.get_vertex_result(source_current, never), Some(45));
}

#[test]
fn repeated_reads_solve_once() {
    let mut calculator: AcCalculator<&'static str, i32> = AcCalculator::new(0, 1);
    let a = calculator.register_vertex("a");
    let b = calculator.register_vertex("b");
    calculator
        .get_constraint_builder()
        .set_vertex_constraint(a, 1)
        .set_vertex_constraint(b, 1)
        .finalize();
    let calls = Cell::new(0);
    let solver = |_: &DenseMatrix<i32>, _: &Vec<i32>| {
        calls.set(calls.get() + 1);
        Some(vec![1, 7, -7])
    };
    assert_eq!(calculator.get_vertex_result(a, solver), Some(7));
    assert_eq!(calls.get(), 1);
    let before = cached_rows(&calculator);
    assert_eq!(calculator.get_vertex_result(a, solver), Some(7));
    assert_eq!(calculator.get_vertex_result(b, solver), Some(-7));
    assert_eq!(calculator.get_vertex_result(a, solver), Some(7));
    assert_eq!(calls.get(), 1);
    assert_eq!(cached_rows(&calculator), before);
}

#[test]
fn failed_solve_reads_unknown_until_the_constraints_change() {
    let mut calculator: AcCalculator<&'static str, i32> = AcCalculator::new(0, 1);
    let a = calculator.register_vertex("a");
    let b = calculator.register_vertex("b");
    calculator
        .get_constraint_builder()
        .set_vertex_constraint(a, 1)
        .finalize();
    let calls = Cell::new(0);
    let failing = |_: &DenseMatrix<i32>, _: &Vec<i32>| {
        calls.set(calls.get() + 1);
        None
    };
    assert_eq!(calculator.get_vertex_result(a, failing), None);
    assert_eq!(calculator.get_vertex_result(a, failing), None);
    assert_eq!(calls.get(), 1);
    assert_eq!(calculator.get_vertex_result(b, never), Some(0));
    calculator
        .get_constraint_builder()
        .set_vertex_constraint(b, 1)
        .finalize();
    let solving = |_: &DenseMatrix<i32>, _: &Vec<i32>| {
        calls.set(calls.get() + 1);
        Some(vec![1, 3, 4])
    };
    assert_eq!(calculator.get_vertex_result(a, solving), Some(3));
    assert_eq!(calculator.get_vertex_result(b, solving), Some(4));
    assert_eq!(calls.get(), 2);
}

#[test]
fn solution_of_the_wrong_length_is_dropped() {
    let mut calculator: AcCalculator<&'static str, i32> = AcCalculator::new(0, 1);
    let a = calculator.register_vertex("a");
    calculator
        .get_constraint_builder()
        .set_vertex_constraint(a, 1)
        .finalize();
    let short = |_: &DenseMatrix<i32>, _: &Vec<i32>| Some(vec![1]);
    assert_eq!(calculator.get_vertex_result(a, short), None);
    assert_eq!(calculator.get_vertex_result(a, never), None);
    assert!(cached_rows(&calculator).0);

    assert_eq!(accept_solution(Some(vec![1, 2]), 2), Some(vec![1, 2]));
    assert_eq!(accept_solution(Some(vec![1, 2, 3]), 2), None);
    assert_eq!(accept_solution(Some(vec![1]), 2), None);
    assert_eq!(accept_solution::<i32>(None, 2), None);
}

#[test]
fn commit_marks_the_matrix_stale_but_keeps_its_entries() {
    let mut calculator: AcCalculator<&'static str, i32> = AcCalculator::new(0, 1);
    let a = calculator.register_vertex("a");
    calculator
        .get_constraint_builder()
        .set_vertex_constraint(a, 4)
        .set_constant_constraint(-8)
        .finalize();
    assert_eq!(cached_rows(&calculator), (false, vec![]));
    let solver = |_: &DenseMatrix<i32>, _: &Vec<i32>| Some(vec![1, 2]);
    assert_eq!(calculator.get_vertex_result(a, solver), Some(2));
    let compiled = vec![vec![1, 0], vec![-8, 4]];
    assert_eq!(cached_rows(&calculator), (true, compiled.clone()));
    calculator
        .get_constraint_builder()
        .set_vertex_constraint(a, 1)
        .finalize();
    assert_eq!(cached_rows(&calculator), (false, compiled));
    let again = |matrix: &DenseMatrix<i32>, _: &Vec<i32>| {
        assert_eq!(rows(matrix), vec![vec![1, 0], vec![-8, 4], vec![0, 1]]);
        Some(vec![1, 5])
    };
    assert_eq!(calculator.get_vertex_result(a, again), Some(5));
}

#[test]
fn registering_a_vertex_keeps_the_caches() {
    let mut calculator: AcCalculator<&'static str, i32> = AcCalculator::new(0, 1);
    let a = calculator.register_vertex("a");
    calculator
        .get_constraint_builder()
        .set_vertex_constraint(a, 1)
        .finalize();
    let solver = |_: &DenseMatrix<i32>, _: &Vec<i32>| Some(vec![1, 6]);
    assert_eq!(calculator.get_vertex_result(a, solver), Some(6));
    let b = calculator.register_vertex("b");
    assert!(cached_rows(&calculator).0);
    assert_eq!(calculator.get_vertex_result(a, never), Some(6));
    assert_eq!(calculator.get_vertex_result(b, never), Some(0));
}

#[test]
fn removing_a_constrained_vertex_invalidates_and_compacts_the_columns() {
    let mut calculator: AcCalculator<&'static str, i32> = AcCalculator::new(0, 1);
    let a = calculator.register_vertex("a");
    let b = calculator.register_vertex("b");
    let c = calculator.register_vertex("c");
    calculator
        .get_constraint_builder()
        .set_vertex_constraint(a, 2)
        .set_vertex_constraint(b, 3)
        .set_vertex_constraint(c, 5)
        .finalize();
    assert_eq!(calculator.vertices().get_vertex_result_index(a), Some(1));
    assert_eq!(calculator.vertices().get_vertex_result_index(b), Some(2));
    assert_eq!(calculator.vertices().get_vertex_result_index(c), Some(3));
    let solver = |_: &DenseMatrix<i32>, _: &Vec<i32>| Some(vec![1, 10, 20, 30]);
    assert_eq!(calculator.get_vertex_result(b, solver), Some(20));
    calculator.remove_vertex(a);
    assert!(!cached_rows(&calculator).0);
    assert_eq!(calculator.vertices().get_vertex_result_index(a), None);
    assert_eq!(calculator.vertices().get_vertex_result_index(c), Some(1));
    assert_eq!(calculator.vertices().get_vertex_result_index(b), Some(2));
    assert_eq!(calculator.vertices().get_row_count(), 3);
    assert_eq!(calculator.get_vertex_result(a, never), None);
    let again = |matrix: &DenseMatrix<i32>, constant: &Vec<i32>| {
        assert_eq!(rows(matrix), vec![vec![1, 0, 0], vec![0, 5, 3]]);
        assert_eq!(constant, &vec![1, 0]);
        Some(vec![1, 300, 200])
    };
    assert_eq!(calculator.get_vertex_result(b, again), Some(200));
    assert_eq!(calculator.get_vertex_result(c, never), Some(300));
}

#[test]
fn columns_follow_the_order_of_the_terms_at_commit() {
    let mut calculator: AcCalculator<&'static str, i32> = AcCalculator::new(0, 1);
    let a = calculator.register_vertex("a");
    let b = calculator.register_vertex("b");
    let c = calculator.register_vertex("c");
    calculator
        .get_constraint_builder()
        .set_vertex_constraint(a, 2)
        .set_vertex_constraint(b, 3)
        .set_vertex_constraint(c, 5)
        .set_constant_constraint(7)
        .finalize();
    assert_eq!(calculator.vertices().get_vertex_result_index(b), Some(1));
    assert_eq!(calculator.vertices().get_vertex_result_index(c), Some(2));
    assert_eq!(calculator.vertices().get_vertex_result_index(a), Some(3));
    let solver = |matrix: &DenseMatrix<i32>, _: &Vec<i32>| {
        assert_eq!(rows(matrix), vec![vec![1, 0, 0, 0], vec![7, 3, 5, 2]]);
        Some(vec![1, 10, 20, 30])
    };
    assert_eq!(calculator.get_vertex_result(a, solver), Some(30));
}

#[test]
fn removing_an_unconstrained_vertex_keeps_the_caches() {
    let mut calculator: AcCalculator<&'static str, i32> = AcCalculator::new(0, 1);
    let a = calculator.register_vertex("a");
    let b = calculator.register_vertex("b");
    calculator
        .get_constraint_builder()
        .set_vertex_constraint(a, 1)
        .finalize();
    let solver = |_: &DenseMatrix<i32>, _: &Vec<i32>| Some(vec![1, 6]);
    assert_eq!(calculator.get_vertex_result(a, solver), Some(6));
    calculator.remove_vertex(b);
    assert!(cached_rows(&calculator).0);
    assert_eq!(calculator.get_vertex_result(a, never), Some(6));
}

#[test]
fn committed_constraints_stay_as_they_were_committed() {
    let mut calculator: AcCalculator<&'static str, i32> = AcCalculator::new(0, 1);
    let a = calculator.register_vertex("a");
    let b = calculator.register_vertex("b");
    let first = calculator
        .get_constraint_builder()
        .set_vertex_constraint(a, 2)
        .set_constant_constraint(-4)
        .finalize();
    assert_eq!(calculator.constraints().len(), 1);
    let second = calculator
        .get_constraint_builder()
        .set_vertex_constraint(b, 3)
        .finalize();
    assert_eq!(first, second);
    calculator.remove_vertex(a);
    let c = calculator.register_vertex("c");
    let solver = |_: &DenseMatrix<i32>, _: &Vec<i32>| Some(vec![1, 1]);
    calculator.get_vertex_result(b, solver);
    calculator
        .get_constraint_builder()
        .set_vertex_constraint(c, 1)
        .finalize();
    assert_eq!(calculator.constraints().len(), 3);
    let kept = calculator.constraints().get(0);
    assert_eq!(kept.len(), 2);
    assert_eq!(kept.term(0).variable, VertexOrUnit::Unit);
    assert_eq!(kept.term(0).multiplier, -4);
    assert_eq!(kept.term(1).variable, VertexOrUnit::Vertex(a));
    assert_eq!(kept.term(1).multiplier, 2);
    let kept = calculator.constraints().get(1);
    assert_eq!(kept.len(), 1);
    assert_eq!(kept.term(0).variable, VertexOrUnit::Vertex(b));
    assert_eq!(kept.term(0).multiplier, 3);
}

#[test]
fn terms_of_a_removed_vertex_contribute_nothing() {
    let mut calculator: AcCalculator<&'static str, i32> = AcCalculator::new(0, 1);
    let a = calculator.register_vertex("a");
    let b = calculator.register_vertex("b");
    calculator
        .get_constraint_builder()
        .set_vertex_constraint(a, 2)
        .set_vertex_constraint(b, 3)
        .finalize();
    calculator.remove_vertex(a);
    let reused = calculator.register_vertex("c");
    calculator
        .get_constraint_builder()
        .set_vertex_constraint(reused, 5)
        .finalize();
    let solver = |matrix: &DenseMatrix<i32>, _: &Vec<i32>| {
        assert_eq!(rows(matrix), vec![vec![1, 0, 0], vec![0, 3, 0], vec![0, 0, 5]]);
        Some(vec![1, 0, 0])
    };
    assert_eq!(calculator.get_vertex_result(b, solver), Some(0));
}

#[test]
fn a_constraint_on_an_invalid_identifier_adds_an_empty_row() {
    let mut calculator: AcCalculator<&'static str, i32> = AcCalculator::new(0, 1);
    let a = calculator.register_vertex("a");
    let b = calculator.register_vertex("b");
    calculator.remove_vertex(a);
    calculator
        .get_constraint_builder()
        .set_vertex_constraint(a, 2)
        .set_vertex_constraint(b, 3)
        .finalize();
    assert_eq!(calculator.vertices().get_row_count(), 2);
    let solver = |matrix: &DenseMatrix<i32>, _: &Vec<i32>| {
        assert_eq!(rows(matrix), vec![vec![1, 0], vec![0, 3]]);
        Some(vec![1, 0])
    };
    assert_eq!(calculator.get_vertex_result(b, solver), Some(0));
}

#[test]
fn rows_and_unit_vectors_are_filled_as_asked() {
    assert_eq!(filled_row(3, 7), vec![7, 7, 7]);
    assert_eq!(filled_row::<i32>(0, 7), vec![]);
    assert_eq!(unit_vector(4, 0, 1), vec![1, 0, 0, 0]);
    assert_eq!(unit_vector(1, 0, 1), vec![1]);
    assert_eq!(unit_vector::<i32>(0, 0, 1), vec![]);
}

#[test]
fn dense_matrix_reports_its_shape_and_entries() {
    let matrix = DenseMatrix::from_rows(vec![vec![1, 2, 3], vec![4, 5, 6]], 3);
    assert_eq!(matrix.nrows(), 2);
    assert_eq!(matrix.ncols(), 3);
    assert_eq!(matrix.get(0, 0), 1);
    assert_eq!(matrix.get(1, 2), 6);
    let empty: DenseMatrix<i32> = DenseMatrix::empty();
    assert_eq!(empty.nrows(), 0);
    assert_eq!(empty.ncols(), 0);
}

#[test]
fn elided_unknowns_read_zero_and_kept_ones_keep_their_order() {
    assert_eq!(restore_elided(&vec![10, 20, 30], &vec![1, 3], 5, 0), vec![10, 0, 20, 0, 30]);
    assert_eq!(restore_elided(&vec![10, 20, 30], &vec![], 3, 0), vec![10, 20, 30]);
    assert_eq!(restore_elided(&vec![10], &vec![0, 0, 7], 2, -1), vec![-1, 10]);
    assert_eq!(restore_elided(&vec![10, 20], &vec![0, 1], 2, 0), vec![0, 0]);
    assert_eq!(restore_elided::<i32>(&vec![], &vec![], 0, 0), vec![]);
    assert!(is_elided(&vec![4, 2], 2));
    assert!(!is_elided(&vec![4, 2], 3));
}

#[test]
fn one_equation_compiles_to_its_row() {
    let mut calculator: AcCalculator<&'static str, i32> = AcCalculator::new(0, 1);
    let a = calculator.register_vertex("a");
    let b = calculator.register_vertex("b");
    let c = calculator.register_vertex("c");
    calculator
        .get_constraint_builder()
        .set_vertex_constraint(c, 5)
        .set_vertex_constraint(a, 2)
        .finalize();
    calculator
        .get_constraint_builder()
        .set_vertex_constraint(b, 3)
        .set_constant_constraint(-7)
        .finalize();
    let mut row = vec![9, 9];
    calculator
        .constraints()
        .get(0)
        .compile_to(calculator.vertices(), 0, &mut row);
    assert_eq!(row, vec![0, 5, 2, 0]);
    calculator
        .constraints()
        .get(1)
        .compile_to(calculator.vertices(), 0, &mut row);
    assert_eq!(row, vec![-7, 0, 0, 3]);
}

#[test]
fn compiling_does_not_touch_the_caches() {
    let mut calculator: AcCalculator<&'static str, i32> = AcCalculator::new(0, 1);
    let a = calculator.register_vertex("a");
    calculator
        .get_constraint_builder()
        .set_vertex_constraint(a, 4)
        .set_constant_constraint(-8)
        .finalize();
    let mut compiled = DenseMatrix::empty();
    calculator.compile_constraints_into(&mut compiled);
    assert_eq!(rows(&compiled), vec![vec![1, 0], vec![-8, 4]]);
    assert_eq!(compiled.ncols(), 2);
    assert_eq!(cached_rows(&calculator), (false, vec![]));
}

#[test]
fn refreshing_solves_a_stale_system_once() {
    let mut calculator: AcCalculator<&'static str, i32> = AcCalculator::new(0, 1);
    calculator.refresh_results_cache(never);
    let a = calculator.register_vertex("a");
    calculator
        .get_constraint_builder()
        .set_vertex_constraint(a, 4)
        .set_constant_constraint(-8)
        .finalize();
    calculator.refresh_results_cache(|matrix: &DenseMatrix<i32>, constant: &Vec<i32>| {
        assert_eq!(rows(matrix), vec![vec![1, 0], vec![-8, 4]]);
        assert_eq!(constant, &vec![1, 0]);
        Some(vec![1, 2])
    });
    assert!(cached_rows(&calculator).0);
    calculator.refresh_results_cache(never);
    assert_eq!(calculator.get_vertex_result(a, never), Some(2));
}

#[test]
fn commit_order_exchanges_rows_and_renames_columns() {
    fn compiled(first_then_second: bool) -> (Vec<Vec<i32>>, [usize; 3]) {
        let mut calculator: AcCalculator<&'static str, i32> = AcCalculator::new(0, 1);
        let a = calculator.register_vertex("a");
        let b = calculator.register_vertex("b");
        let c = calculator.register_vertex("c");
        for which in if first_then_second { [0, 1] } else { [1, 0] } {
            let builder = calculator.get_constraint_builder();
            if which == 0 {
                builder
                    .set_vertex_constraint(a, 2)
                    .set_vertex_constraint(b, 3)
                    .set_constant_constraint(-5)
                    .finalize();
            } else {
                builder
                    .set_vertex_constraint(c, 7)
                    .set_vertex_constraint(b, 11)
                    .finalize();
            }
        }
        let mut matrix = DenseMatrix::empty();
        calculator.compile_constraints_into(&mut matrix);
        let columns = [a, b, c].map(|id| calculator.vertices().get_vertex_result_index(id).unwrap());
        (rows(&matrix), columns)
    }
    let (one_way, one_columns) = compiled(true);
    let (other_way, other_columns) = compiled(false);
    assert_eq!(one_way, vec![vec![1, 0, 0, 0], vec![-5, 3, 2, 0], vec![0, 11, 0, 7]]);
    assert_eq!(one_columns, [2, 1, 3]);
    assert_eq!(other_way, vec![vec![1, 0, 0, 0], vec![0, 7, 11, 0], vec![-5, 0, 3, 2]]);
    assert_eq!(other_columns, [3, 2, 1]);
    for (row, exchanged) in [(0, 0), (1, 2), (2, 1)] {
        assert_eq!(one_way[row][0], other_way[exchanged][0]);
        for vertex in 0..3 {
            assert_eq!(
                one_way[row][one_columns[vertex]],
                other_way[exchanged][other_columns[vertex]]
            );
        }
    }
}
