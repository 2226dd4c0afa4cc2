use thin_las::grid::{
    decimate_cell, grid_origin, grid_stride, GridCell, GridOrigin, GridRun,
};

const ZERO: GridOrigin = GridOrigin { row: 0, column: 0 };

fn kept(k: i64, origin: GridOrigin, rows: i64, columns: i64) -> Vec<GridCell> {
    let mut cells = Vec::new();
    for row in 0..rows {
        for column in 0..columns {
            if let Some(cell) = decimate_cell(k, origin, origin.row + row, origin.column + column) {
                cells.push(cell);
            }
        }
    }
    cells
}

#[test]
fn strides() {
    assert_eq!(grid_stride(true, 3), 3);
    assert_eq!(grid_stride(true, 1), 1);
    assert_eq!(grid_stride(true, 0), 1);
    assert_eq!(grid_stride(false, 7), 1);
    assert_eq!(grid_stride(true, i64::MAX as usize), i64::MAX);
    assert_eq!(grid_stride(true, usize::MAX), -1);
}

#[test]
fn origins() {
    assert_eq!(grid_origin(Some(5), Some(-2)), GridOrigin { row: 5, column: -2 });
    assert_eq!(grid_origin(None, Some(4)), GridOrigin { row: 0, column: 4 });
    assert_eq!(grid_origin(None, None), ZERO);
}

#[test]
fn every_kth_row_and_column_stays() {
    assert_eq!(decimate_cell(2, ZERO, 2, 4), Some(GridCell { row: 1, column: 2 }));
    assert_eq!(decimate_cell(2, ZERO, 3, 4), None);
    assert_eq!(decimate_cell(2, ZERO, 2, 5), None);
    assert_eq!(decimate_cell(3, ZERO, 9, 0), Some(GridCell { row: 3, column: 0 }));
    let origin = GridOrigin { row: 10, column: 20 };
    assert_eq!(decimate_cell(5, origin, 10, 20), Some(GridCell { row: 0, column: 0 }));
    assert_eq!(decimate_cell(5, origin, 15, 30), Some(GridCell { row: 1, column: 2 }));
    assert_eq!(decimate_cell(5, origin, 5, 30), Some(GridCell { row: -1, column: 2 }));
    assert_eq!(decimate_cell(5, origin, 6, 30), None);
}

#[test]
fn a_stride_of_one_keeps_all() {
    let origin = GridOrigin { row: 1, column: 1 };
    assert_eq!(decimate_cell(1, origin, 4, 9), Some(GridCell { row: 3, column: 8 }));
    assert_eq!(kept(1, origin, 3, 5).len(), 15);
}

#[test]
fn a_negative_stride_keeps_all_and_rounds_towards_zero() {
    assert_eq!(decimate_cell(-2, ZERO, 5, -5), Some(GridCell { row: -2, column: 2 }));
}

#[test]
fn indices_at_the_ends_of_their_range() {
    assert_eq!(
        decimate_cell(2, ZERO, i64::MIN, i64::MAX - 1),
        Some(GridCell { row: i64::MIN / 2, column: i64::MAX / 2 })
    );
    assert_eq!(
        decimate_cell(1, ZERO, i64::MIN, i64::MAX),
        Some(GridCell { row: i64::MIN, column: i64::MAX })
    );
}

#[test]
fn k_squared_times_fewer_cells() {
    let origin = GridOrigin { row: 100, column: 7 };
    for k in 1..=6i64 {
        assert_eq!(kept(k, origin, 60, 120).len() as i64 * k * k, 60 * 120);
    }
    assert_eq!(kept(3, origin, 7, 8).len(), 9);
}

#[test]
fn the_new_grid_has_no_gaps_and_no_doubles() {
    let cells = kept(2, GridOrigin { row: 3, column: 4 }, 5, 7);
    let mut expected = Vec::new();
    for row in 0..3 {
        for column in 0..4 {
            expected.push(GridCell { row, column });
        }
    }
    assert_eq!(cells, expected);
}

#[test]
fn new_indices_tell_the_source() {
    let origin = GridOrigin { row: -5, column: 11 };
    for row in -20..20 {
        for column in -20..20 {
            if let Some(cell) = decimate_cell(4, origin, row, column) {
                assert_eq!(origin.row + 4 * cell.row, row);
                assert_eq!(origin.column + 4 * cell.column, column);
            }
        }
    }
}

#[test]
fn a_run_counts_per_scan_and_in_all() {
    let mut run = GridRun::new(8, true, 2);
    assert_eq!(run.stride(), 2);
    for _ in 0..2 {
        run.begin_scan();
        for row in 0..2 {
            for column in 0..2 {
                if run.offer(ZERO, row, column).is_some() {
                    assert_eq!(run.wrote(), None);
                }
            }
        }
        assert_eq!(run.scan_written(), 1);
    }
    assert_eq!(run.written(), 2);
    assert_eq!(run.processed(), 8);
}

#[test]
fn a_full_grid_leaves_as_many_cells_in_any_order() {
    let origin = GridOrigin { row: 2, column: 5 };
    let mut cells = Vec::new();
    for row in 0..6 {
        for column in 0..9 {
            cells.push((origin.row + row, origin.column + column));
        }
    }
    let mut mixed = Vec::new();
    for i in 0..cells.len() {
        mixed.push(cells[i * 25 % cells.len()]);
    }
    cells.reverse();
    for order in [cells, mixed] {
        let mut run = GridRun::new(54, true, 3);
        run.begin_scan();
        for (row, column) in order {
            if run.offer(origin, row, column).is_some() {
                run.wrote();
            }
        }
        assert_eq!(run.processed(), 54);
        assert_eq!(run.written(), 6);
    }
}

#[test]
fn decimating_twice_is_decimating_by_the_product() {
    let origin = GridOrigin { row: 3, column: -8 };
    for row in -30..60 {
        for column in -30..60 {
            let twice = match decimate_cell(2, origin, row, column) {
                Some(cell) => decimate_cell(3, ZERO, cell.row, cell.column),
                None => None,
            };
            assert_eq!(twice, decimate_cell(6, origin, row, column));
        }
    }
}
