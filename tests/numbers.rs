use rust_basics::numbers::{describe_number, find_even, grade_to_description, is_even, max};

#[test]
fn test_is_even() {
    assert_eq!(is_even(4), true);
    assert_eq!(is_even(7), false);
    assert_eq!(is_even(0), true);
    assert_eq!(is_even(-2), true);
}

#[test]
fn is_even_on_odd_negatives_and_extremes() {
    assert_eq!(is_even(-3), false);
    assert_eq!(is_even(i32::MIN), true);
    assert_eq!(is_even(i32::MAX), false);
}

#[test]
fn test_max() {
    assert_eq!(max(5, 10), 10);
    assert_eq!(max(10, 5), 10);
    assert_eq!(max(-3, -8), -3);
    assert_eq!(max(7, 7), 7);
}

#[test]
fn test_describe_number() {
    assert_eq!(describe_number(-5), "negative");
    assert_eq!(describe_number(0), "zero");
    assert_eq!(describe_number(7), "small positive");
    assert_eq!(describe_number(100), "large positive");
}

#[test]
fn describe_number_at_the_boundaries() {
    assert_eq!(describe_number(-1), "negative");
    assert_eq!(describe_number(1), "small positive");
    assert_eq!(describe_number(10), "small positive");
    assert_eq!(describe_number(11), "large positive");
}

#[test]
fn test_grade_to_description() {
    assert_eq!(grade_to_description('A'), "Excellent");
    assert_eq!(grade_to_description('B'), "Good");
    assert_eq!(grade_to_description('C'), "Average");
    assert_eq!(grade_to_description('D'), "Below Average");
    assert_eq!(grade_to_description('F'), "Failing");
    assert_eq!(grade_to_description('Z'), "Invalid grade");
}

#[test]
fn grades_are_case_sensitive() {
    assert_eq!(grade_to_description('a'), "Invalid grade");
    assert_eq!(grade_to_description('E'), "Invalid grade");
}

#[test]
fn test_find_even() {
    assert_eq!(find_even(&[1, 3, 4, 7]), Some(4));
    assert_eq!(find_even(&[1, 3, 5]), None);
    assert_eq!(find_even(&[2, 4, 6]), Some(2));
}

#[test]
fn find_even_on_empty_and_negative() {
    assert_eq!(find_even(&[]), None);
    assert_eq!(find_even(&[-3, -4, 2]), Some(-4));
}
