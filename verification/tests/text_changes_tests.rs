use dnt::text_changes::{apply_text_changes, TextChange, TextChangeError};

fn tc(start: usize, end: usize, new_text: &str) -> TextChange {
    TextChange { start, end, new_text: new_text.to_string() }
}

#[test]
fn empty_batch_is_identity() {
    let r = apply_text_changes("const a = 1;", &Vec::new());
    assert_eq!(r, Ok("const a = 1;".to_string()));
}

#[test]
fn single_replacement() {
    // replace "b" in "abc" with "xyz"
    let r = apply_text_changes("abc", &vec![tc(1, 2, "xyz")]);
    assert_eq!(r, Ok("axyzc".to_string()));
}

#[test]
fn insertion_and_deletion() {
    let r = apply_text_changes("hello world", &vec![tc(5, 6, ""), tc(0, 0, ">> ")]);
    assert_eq!(r, Ok(">> helloworld".to_string()));
}

#[test]
fn arbitrary_order_matches_sorted_order() {
    let text = "0123456789";
    let unsorted = vec![tc(8, 9, "X"), tc(0, 2, "Y"), tc(4, 5, "")];
    let sorted_desc = vec![tc(8, 9, "X"), tc(4, 5, ""), tc(0, 2, "Y")];
    let a = apply_text_changes(text, &unsorted);
    let b = apply_text_changes(text, &sorted_desc);
    assert_eq!(a, b);
    assert_eq!(b, Ok("Y23567X9".to_string()));
}

#[test]
fn intersecting_ranges_are_rejected() {
    let r = apply_text_changes("0123456789", &vec![tc(0, 5, "a"), tc(3, 7, "b")]);
    assert_eq!(r, Err(TextChangeError::Conflict));
}

#[test]
fn identical_ranges_are_rejected() {
    let r = apply_text_changes("0123456789", &vec![tc(2, 4, "a"), tc(2, 4, "a")]);
    assert_eq!(r, Err(TextChangeError::Conflict));
}

#[test]
fn out_of_bounds_is_rejected() {
    let r = apply_text_changes("abc", &vec![tc(2, 9, "a")]);
    assert_eq!(r, Err(TextChangeError::OutOfBounds));
    let r2 = apply_text_changes("abc", &vec![tc(2, 1, "a")]);
    assert_eq!(r2, Err(TextChangeError::OutOfBounds));
}

#[test]
fn adjacent_ranges_are_fine() {
    let r = apply_text_changes("0123", &vec![tc(0, 2, "a"), tc(2, 4, "b")]);
    assert_eq!(r, Ok("ab".to_string()));
}
