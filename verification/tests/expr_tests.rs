use rust_agent::expr::{split_expression, SplitExpression};

#[test]
fn splits_a_sum_with_spaces() {
    match split_expression("9.11 + 9.8") {
        SplitExpression::Binary { left, op, right } => {
            assert_eq!(left, "9.11");
            assert_eq!(op, '+');
            assert_eq!(right, "9.8");
        },
        SplitExpression::Single { .. } => panic!("expected a binary split"),
    }
}

#[test]
fn splits_each_operator() {
    for (text, want_op, want_left, want_right) in [
        ("7-3", '-', "7", "3"),
        ("7*3", '*', "7", "3"),
        ("7/3", '/', "7", "3"),
    ] {
        match split_expression(text) {
            SplitExpression::Binary { left, op, right } => {
                assert_eq!(op, want_op);
                assert_eq!(left, want_left);
                assert_eq!(right, want_right);
            },
            SplitExpression::Single { .. } => panic!("expected a binary split"),
        }
    }
}

#[test]
fn plus_is_preferred_over_position() {
    // the operator is chosen by trying + - * / in that order, not by
    // position, so the star to the left loses to the plus
    match split_expression("1*2+3") {
        SplitExpression::Binary { left, op, right } => {
            assert_eq!(op, '+');
            assert_eq!(left, "1*2");
            assert_eq!(right, "3");
        },
        SplitExpression::Single { .. } => panic!("expected a binary split"),
    }
}

#[test]
fn a_bare_number_is_a_single_literal() {
    match split_expression("  42.5 ") {
        SplitExpression::Single { literal } => assert_eq!(literal, "42.5"),
        SplitExpression::Binary { .. } => panic!("expected a single literal"),
    }
}

#[test]
fn a_leading_minus_splits_at_the_sign() {
    match split_expression("-5") {
        SplitExpression::Binary { left, op, right } => {
            assert_eq!(left, "");
            assert_eq!(op, '-');
            assert_eq!(right, "5");
        },
        SplitExpression::Single { .. } => panic!("expected a binary split"),
    }
}
