use brace_expand::expand::{
    expand_brace_expr_member, expand_brace_expr_or_text, generate_and_combine_brace_expansions,
};
use brace_expand::text::decimal_string;
use brace_expand::tree::{BraceExpressionMember, BraceExpressionOrText};

fn text(s: &str) -> BraceExpressionOrText {
    BraceExpressionOrText::Text(s.to_string())
}

fn child(pieces: Vec<BraceExpressionOrText>) -> BraceExpressionMember {
    BraceExpressionMember::Child(pieces)
}

fn alt(s: &str) -> BraceExpressionMember {
    child(vec![text(s)])
}

fn numbers(start: i64, end: i64, increment: i64) -> BraceExpressionMember {
    BraceExpressionMember::NumberSequence { start, end, increment }
}

fn chars(start: char, end: char, increment: i64) -> BraceExpressionMember {
    BraceExpressionMember::CharSequence { start, end, increment }
}

fn expand(pieces: Vec<BraceExpressionOrText>) -> Vec<String> {
    generate_and_combine_brace_expansions(&pieces)
}

fn member(m: BraceExpressionMember) -> Vec<String> {
    expand_brace_expr_member(&m)
}

#[test]
fn text_alone_is_identity() {
    assert_eq!(expand(vec![text("hello")]), vec!["hello"]);
    assert_eq!(expand(vec![text("")]), vec![""]);
}

#[test]
fn union_of_alternatives() {
    let pieces = vec![BraceExpressionOrText::Expr(vec![alt("a"), alt("b")])];
    assert_eq!(expand(pieces), vec!["a", "b"]);
}

#[test]
fn ascending_numbers_between_text() {
    let pieces = vec![
        text("x"),
        BraceExpressionOrText::Expr(vec![numbers(1, 3, 1)]),
        text("y"),
    ];
    assert_eq!(expand(pieces), vec!["x1y", "x2y", "x3y"]);
}

#[test]
fn descending_numbers() {
    assert_eq!(member(numbers(5, 1, 2)), vec!["5", "3", "1"]);
}

#[test]
fn ascending_chars() {
    assert_eq!(member(chars('a', 'c', 1)), vec!["a", "b", "c"]);
}

#[test]
fn descending_chars_underflow_stops_at_start() {
    assert_eq!(member(chars('\u{1}', '\0', 5)), vec!["\u{1}"]);
    assert_eq!(member(chars('c', '\0', 200)), vec!["c"]);
}

#[test]
fn descending_chars_stop_before_surrogate() {
    assert_eq!(member(chars('\u{E000}', '\u{D000}', 1)), vec!["\u{E000}"]);
}

#[test]
fn product_first_piece_slowest() {
    let pieces = vec![
        BraceExpressionOrText::Expr(vec![alt("a"), alt("b")]),
        BraceExpressionOrText::Expr(vec![alt("1"), alt("2")]),
    ];
    assert_eq!(expand(pieces), vec!["a1", "a2", "b1", "b2"]);
}

#[test]
fn nested_child_is_flattened() {
    let inner = vec![
        text("x"),
        BraceExpressionOrText::Expr(vec![alt("1"), alt("2")]),
    ];
    let pieces = vec![BraceExpressionOrText::Expr(vec![child(inner), alt("y")])];
    assert_eq!(expand(pieces), vec!["x1", "x2", "y"]);
}

#[test]
fn repeated_expansion_is_identical() {
    let build = || {
        vec![
            text("p"),
            BraceExpressionOrText::Expr(vec![alt("a"), numbers(3, 1, 1), chars('x', 'z', 2)]),
        ]
    };
    let first = expand(build());
    let second = expand(build());
    assert_eq!(first, second);
    assert_eq!(first, vec!["pa", "p3", "p2", "p1", "px", "pz"]);
}

#[test]
fn zero_increment_steps_by_one() {
    assert_eq!(member(numbers(1, 4, 0)), member(numbers(1, 4, 1)));
    assert_eq!(member(numbers(1, 4, 0)), vec!["1", "2", "3", "4"]);
    assert_eq!(member(chars('c', 'a', 0)), vec!["c", "b", "a"]);
}

#[test]
fn negative_increment_uses_magnitude() {
    assert_eq!(member(numbers(1, 7, -2)), member(numbers(1, 7, 2)));
    assert_eq!(member(numbers(1, 7, -2)), vec!["1", "3", "5", "7"]);
    assert_eq!(member(chars('a', 'e', -2)), vec!["a", "c", "e"]);
}

#[test]
fn empty_word_expands_to_one_empty_string() {
    assert_eq!(expand(vec![]), vec![""]);
}

#[test]
fn empty_brace_expression_expands_to_nothing() {
    let pieces = vec![text("a"), BraceExpressionOrText::Expr(vec![]), text("b")];
    assert!(expand(pieces).is_empty());
    assert!(expand_brace_expr_or_text(&BraceExpressionOrText::Expr(vec![])).is_empty());
}

#[test]
fn piece_expansion_is_union_of_members() {
    let p = BraceExpressionOrText::Expr(vec![alt("a"), alt("b"), numbers(1, 2, 1)]);
    assert_eq!(expand_brace_expr_or_text(&p), vec!["a", "b", "1", "2"]);
    assert_eq!(expand_brace_expr_or_text(&text("t")), vec!["t"]);
}

#[test]
fn numbers_with_step_stop_at_last_in_range() {
    assert_eq!(member(numbers(1, 10, 3)), vec!["1", "4", "7", "10"]);
    assert_eq!(member(numbers(1, 9, 3)), vec!["1", "4", "7"]);
    assert_eq!(member(numbers(2, 2, 5)), vec!["2"]);
    assert_eq!(member(numbers(-1, 1, 1)), vec!["-1", "0", "1"]);
    assert_eq!(member(numbers(10, -5, 7)), vec!["10", "3", "-4"]);
}

#[test]
fn numbers_at_integer_limits() {
    assert_eq!(
        member(numbers(i64::MAX - 1, i64::MAX, 1)),
        vec!["9223372036854775806", "9223372036854775807"]
    );
    assert_eq!(
        member(numbers(i64::MIN + 1, i64::MIN, 1)),
        vec!["-9223372036854775807", "-9223372036854775808"]
    );
    assert_eq!(
        member(numbers(i64::MIN, i64::MAX, i64::MIN)),
        vec!["-9223372036854775808", "0"]
    );
    assert_eq!(
        member(numbers(i64::MAX, i64::MIN, i64::MAX)),
        vec!["9223372036854775807", "0", "-9223372036854775807"]
    );
}

#[test]
fn ascending_chars_skip_surrogates() {
    assert_eq!(member(chars('\u{D7FF}', '\u{E000}', 1)), vec!["\u{D7FF}", "\u{E000}"]);
}

#[test]
fn descending_chars_with_step() {
    assert_eq!(member(chars('e', 'a', 2)), vec!["e", "c", "a"]);
    assert_eq!(member(chars('e', 'b', 2)), vec!["e", "c"]);
}

#[test]
fn decimal_rendering() {
    assert_eq!(decimal_string(0), "0");
    assert_eq!(decimal_string(7), "7");
    assert_eq!(decimal_string(-42), "-42");
    assert_eq!(decimal_string(1234567890), "1234567890");
    assert_eq!(decimal_string(i64::MIN), "-9223372036854775808");
}

#[test]
fn three_pieces_product_order() {
    let pieces = vec![
        BraceExpressionOrText::Expr(vec![alt("a"), alt("b")]),
        text("-"),
        BraceExpressionOrText::Expr(vec![numbers(1, 2, 1), chars('x', 'x', 1)]),
    ];
    assert_eq!(
        expand(pieces),
        vec!["a-1", "a-2", "a-x", "b-1", "b-2", "b-x"]
    );
}
