use ridesim::export::{ensure_matching_lengths, ensure_not_empty};

#[test]
fn empty_results_are_not_exported() {
    let none: [u32; 0] = [];
    assert_eq!(ensure_not_empty(&none), Err("No results to export".to_string()));
    assert_eq!(ensure_not_empty(&[1u32]), Ok(()));
}

#[test]
fn results_must_pair_with_parameter_sets() {
    assert_eq!(ensure_matching_lengths(&[1u32, 2], &["a", "b"]), Ok(()));
    assert_eq!(
        ensure_matching_lengths(&[1u32, 2, 3], &["a"]),
        Err("Results length (3) doesn't match parameter_sets length (1)".to_string())
    );
}
