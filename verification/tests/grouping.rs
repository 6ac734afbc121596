use query_engine::physical_plan::grouping::{bytes_equal, bytes_less, group_rows};

#[test]
fn rows_are_grouped_in_byte_order() {
    let rows: Vec<Vec<u8>> = vec![
        b"B".to_vec(),
        b"A".to_vec(),
        b"AB".to_vec(),
        b"B".to_vec(),
        b"".to_vec(),
        b"A".to_vec(),
    ];
    let groups = group_rows(&rows);
    assert_eq!(groups.keys, vec![b"".to_vec(), b"A".to_vec(), b"AB".to_vec(), b"B".to_vec()]);
    assert_eq!(groups.group_of_row, vec![3, 1, 2, 3, 0, 1]);
}

#[test]
fn no_rows_no_groups() {
    let groups = group_rows(&vec![]);
    assert!(groups.keys.is_empty());
    assert!(groups.group_of_row.is_empty());
}

#[test]
fn byte_comparisons() {
    assert!(bytes_less(&vec![1, 2], &vec![1, 3]));
    assert!(bytes_less(&vec![1], &vec![1, 0]));
    assert!(!bytes_less(&vec![2], &vec![1, 9]));
    assert!(bytes_equal(&vec![4, 5], &vec![4, 5]));
    assert!(!bytes_equal(&vec![4, 5], &vec![4]));
}
