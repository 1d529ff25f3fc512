use icey_pudding::range::{range_contains, range_syntax_parser, Bound, RangeSyntaxError};

fn parse(text: &str) -> Result<(Bound, Bound), RangeSyntaxError> {
    range_syntax_parser(text.to_string())
}

#[test]
fn at_least_form() {
    assert_eq!(parse("2.."), Ok((Bound::Included(2), Bound::Unbounded)));
}

#[test]
fn exact_form_ignores_leading_zeros() {
    assert_eq!(parse("010"), Ok((Bound::Included(10), Bound::Included(10))));
}

#[test]
fn at_most_form() {
    assert_eq!(parse("..=5"), Ok((Bound::Unbounded, Bound::Included(5))));
}

#[test]
fn at_most_form_with_spaces() {
    assert_eq!(parse("  ..=   100"), Ok((Bound::Unbounded, Bound::Included(100))));
}

#[test]
fn at_least_form_with_spaces() {
    assert_eq!(parse("  100    .."), Ok((Bound::Included(100), Bound::Unbounded)));
}

#[test]
fn spaces_after_the_marker_are_ignored() {
    assert_eq!(parse("7..  "), Ok((Bound::Included(7), Bound::Unbounded)));
    assert_eq!(parse(" 7 "), Ok((Bound::Included(7), Bound::Included(7))));
    assert_eq!(parse("..=7 "), Ok((Bound::Unbounded, Bound::Included(7))));
}

#[test]
fn bare_upper_bound_is_rejected() {
    assert_eq!(parse("..5"), Err(RangeSyntaxError::Malformed));
}

#[test]
fn number_before_inclusive_marker_is_rejected() {
    assert_eq!(parse("3..="), Err(RangeSyntaxError::Malformed));
}

#[test]
fn trailing_letter_is_rejected() {
    assert_eq!(parse("..=5f"), Err(RangeSyntaxError::Malformed));
}

#[test]
fn broken_marker_is_rejected() {
    assert_eq!(parse(".a.2"), Err(RangeSyntaxError::Malformed));
    assert_eq!(parse(" . . = 100"), Err(RangeSyntaxError::Malformed));
    assert_eq!(parse(".. =5"), Err(RangeSyntaxError::Malformed));
}

#[test]
fn words_are_rejected() {
    assert_eq!(parse("not expected"), Err(RangeSyntaxError::Malformed));
}

#[test]
fn one_or_three_dots_are_rejected() {
    assert_eq!(parse("5."), Err(RangeSyntaxError::Malformed));
    assert_eq!(parse("5..."), Err(RangeSyntaxError::Malformed));
    assert_eq!(parse("."), Err(RangeSyntaxError::Malformed));
}

#[test]
fn missing_number_is_rejected() {
    assert_eq!(parse(""), Err(RangeSyntaxError::Malformed));
    assert_eq!(parse("   "), Err(RangeSyntaxError::Malformed));
    assert_eq!(parse(".."), Err(RangeSyntaxError::Malformed));
    assert_eq!(parse("..="), Err(RangeSyntaxError::Malformed));
}

#[test]
fn second_number_or_marker_is_rejected() {
    assert_eq!(parse("5 6"), Err(RangeSyntaxError::Malformed));
    assert_eq!(parse("5..6"), Err(RangeSyntaxError::Malformed));
    assert_eq!(parse("..=5 .."), Err(RangeSyntaxError::Malformed));
    assert_eq!(parse("5.. .."), Err(RangeSyntaxError::Malformed));
}

#[test]
fn largest_number_is_accepted() {
    assert_eq!(
        parse("4294967295"),
        Ok((Bound::Included(4294967295), Bound::Included(4294967295)))
    );
    assert_eq!(parse("0004294967295.."), Ok((Bound::Included(4294967295), Bound::Unbounded)));
}

#[test]
fn too_large_number_is_out_of_range() {
    assert_eq!(parse("4294967296"), Err(RangeSyntaxError::OutOfRange));
    assert_eq!(parse("..=99999999999999999999999"), Err(RangeSyntaxError::OutOfRange));
}

#[test]
fn shape_is_judged_before_size() {
    assert_eq!(parse("99999999999x"), Err(RangeSyntaxError::Malformed));
}

#[test]
fn non_ascii_text_is_rejected() {
    assert_eq!(parse("５"), Err(RangeSyntaxError::Malformed));
    assert_eq!(parse("5\u{a0}.."), Err(RangeSyntaxError::Malformed));
}

#[test]
fn contains_follows_both_bounds() {
    let exactly = (Bound::Included(3), Bound::Included(3));
    assert!(range_contains(&exactly, 3));
    assert!(!range_contains(&exactly, 2));
    assert!(!range_contains(&exactly, 4));
    let open = (Bound::Excluded(3), Bound::Excluded(6));
    assert!(!range_contains(&open, 3));
    assert!(range_contains(&open, 4));
    assert!(range_contains(&open, 5));
    assert!(!range_contains(&open, 6));
    let least = (Bound::Included(2), Bound::Unbounded);
    assert!(range_contains(&least, u32::MAX));
    assert!(!range_contains(&least, 1));
    let most = (Bound::Unbounded, Bound::Included(5));
    assert!(range_contains(&most, 0));
    assert!(!range_contains(&most, 6));
    assert!(range_contains(&(Bound::Unbounded, Bound::Unbounded), 77));
}

#[test]
fn parsed_range_feeds_contains() {
    let range = parse("10..").unwrap();
    assert!(range_contains(&range, 10));
    assert!(range_contains(&range, 11));
    assert!(!range_contains(&range, 9));
}
