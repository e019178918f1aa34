use aurora_ui::data_table::{chars_le, sort_rows, visible_rows, DataTable, SortDirection};

fn row(cells: &[&str]) -> Vec<String> {
    cells.iter().map(|c| c.to_string()).collect()
}

fn table() -> DataTable {
    DataTable::new()
        .column("Name".to_string())
        .column("Status".to_string())
        .row(row(&["Carol", "Active"]))
        .row(row(&["alice", "Inactive"]))
        .row(row(&["Bob", "Active"]))
        .row(row(&["Bob"]))
}

#[test]
fn unsorted_keeps_row_order() {
    let mut t = table();
    t.apply_sort();
    assert_eq!(t.sorted_indices, vec![0, 1, 2, 3]);
    assert_eq!(SortDirection::default(), SortDirection::Unsorted);
}

#[test]
fn ascending_is_stable_and_by_code_point() {
    let mut t = table();
    assert_eq!(t.header_click(0), (0, SortDirection::Ascending));
    t.apply_sort();
    // Upper case sorts before lower case; the two "Bob" rows keep their order.
    assert_eq!(t.sorted_indices, vec![2, 3, 0, 1]);
}

#[test]
fn descending_and_missing_cells() {
    let mut t = table();
    t.header_click(1);
    t.header_click(1);
    assert_eq!(t.sort_direction, SortDirection::Descending);
    t.apply_sort();
    // "Inactive" > "Active" > "" (row 3 has no status cell); ties keep order.
    assert_eq!(t.sorted_indices, vec![1, 0, 2, 3]);
    assert_eq!(t.header_label(1), "Status v");
    assert_eq!(t.header_label(0), "Name");
    assert_eq!(t.row_click(0), Some(1));
    assert_eq!(t.row_click(4), None);
}

#[test]
fn header_clicks_cycle() {
    let mut t = table();
    assert_eq!(t.header_click(0).1, SortDirection::Ascending);
    assert_eq!(t.header_label(0), "Name ^");
    assert_eq!(t.header_click(0).1, SortDirection::Descending);
    assert_eq!(t.header_click(0).1, SortDirection::Unsorted);
    assert_eq!(t.header_click(0).1, SortDirection::Ascending);
    assert_eq!(t.header_click(1), (1, SortDirection::Ascending));
    t.apply_sort();
    assert_eq!(t.sorted_indices, vec![3, 0, 2, 1]);
}

#[test]
fn sort_rows_directly() {
    let rows = vec![row(&["b"]), row(&["a"]), row(&["ab"]), row(&["a"])];
    assert_eq!(sort_rows(&rows, Some(0), SortDirection::Ascending), vec![1, 3, 2, 0]);
    assert_eq!(sort_rows(&rows, Some(0), SortDirection::Descending), vec![0, 2, 1, 3]);
    assert_eq!(sort_rows(&rows, None, SortDirection::Descending), vec![0, 1, 2, 3]);
    assert_eq!(sort_rows(&rows, Some(5), SortDirection::Ascending), vec![0, 1, 2, 3]);
}

#[test]
fn lexicographic_compare() {
    assert!(chars_le(&vec!['a'], &vec!['a', 'b']));
    assert!(!chars_le(&vec!['b'], &vec!['a', 'b']));
    assert!(chars_le(&vec![], &vec![]));
    assert!(chars_le(&vec!['Z'], &vec!['a']));
}

#[test]
fn visible_row_window() {
    assert_eq!(visible_rows(10, 5, 5, 100), (5, 20));
    assert_eq!(visible_rows(2, 5, 5, 100), (0, 12));
    assert_eq!(visible_rows(95, 10, 5, 100), (90, 100));
}
