//! The brace-expression tree that expansion reads.

use vstd::prelude::*;

verus! {

/// One segment of a word: literal text or a brace expression.
pub enum BraceExpressionOrText {
    /// A brace expression: its members are alternatives of one another.
    Expr(Vec<BraceExpressionMember>),
    /// Literal text.
    Text(String),
}

/// One alternative inside a brace expression.
pub enum BraceExpressionMember {
    /// The integers from `start` towards `end` (inclusive) in steps of
    /// `|increment|`, or of 1 when `increment` is zero.
    NumberSequence { start: i64, end: i64, increment: i64 },
    /// The characters from `start` towards `end` (inclusive), stepped the same
    /// way as a number sequence.
    CharSequence { start: char, end: char, increment: i64 },
    /// A nested word, expanded on its own.
    Child(Vec<BraceExpressionOrText>),
}

} // verus!
