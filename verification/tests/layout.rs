use gerb::layout::{can_switch_tab, grid_cell, next_tab, prev_tab, GridCell};

#[test]
fn the_overview_fills_its_rows() {
    assert_eq!(grid_cell(0), GridCell { column: 0, row: 0 });
    assert_eq!(grid_cell(3), GridCell { column: 3, row: 0 });
    assert_eq!(grid_cell(4), GridCell { column: 0, row: 1 });
    assert_eq!(grid_cell(94), GridCell { column: 2, row: 23 });
}

#[test]
fn the_tabs_go_round() {
    assert_eq!(next_tab(0, 3), 1);
    assert_eq!(next_tab(2, 3), 0);
    assert_eq!(prev_tab(0, 3), 2);
    assert_eq!(prev_tab(2, 3), 1);
    assert_eq!(next_tab(0, 1), 0);
    assert_eq!(prev_tab(0, 1), 0);
    assert_eq!(next_tab(u32::MAX - 1, u32::MAX), 0);
    assert!(!can_switch_tab(0) && !can_switch_tab(1) && can_switch_tab(2));
}
