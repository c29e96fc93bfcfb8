//! What a brace-expression tree expands to.

use crate::product::product;
use crate::text::{decimal, is_char_code};
use crate::tree::{BraceExpressionMember, BraceExpressionOrText};
use vstd::prelude::*;

verus! {

/// The step a sequence advances by: the magnitude of `increment`, and 1 for 0.
pub open spec fn step_of(increment: i64) -> int {
    if increment == 0 {
        1
    } else if increment < 0 {
        -(increment as int)
    } else {
        increment as int
    }
}

/// The integers from `start` to `end`, both inclusive, every `step`-th one,
/// each in base 10; descending when `start > end`.
pub open spec fn number_range(start: int, end: int, step: int) -> Seq<Seq<char>> {
    if start <= end {
        Seq::new(((end - start) / step + 1) as nat, |k: int| decimal(start + k * step))
    } else {
        Seq::new(((start - end) / step + 1) as nat, |k: int| decimal(start - k * step))
    }
}

/// The position of `c` among all characters in ascending order; the surrogate
/// block holds no character and takes no position.
pub open spec fn char_rank(c: char) -> int {
    let n = c as u32 as int;
    if n < 0xD800 {
        n
    } else {
        n - 0x800
    }
}

/// The character at position `i` of the ascending order of all characters.
pub open spec fn char_at_rank(i: int) -> char {
    (if i < 0xD800 {
        i
    } else {
        i + 0x800
    }) as u32 as char
}

/// From `start` up to `end`, every `step`-th character, each as a string.
pub open spec fn ascending_chars(start: char, end: char, step: int) -> Seq<Seq<char>> {
    Seq::new(
        ((char_rank(end) - char_rank(start)) / step + 1) as nat,
        |k: int| seq![char_at_rank(char_rank(start) + k * step)],
    )
}

/// The character of code point `code`, then, while `code - step` is the code
/// point of a character that is not below `end`, those that follow from it.
pub open spec fn descending_chars(code: int, end: int, step: int) -> Seq<Seq<char>>
    decreases code - end,
{
    let next = code - step;
    seq![seq![code as u32 as char]] + if step >= 1 && next >= end && is_char_code(next) {
        descending_chars(next, end, step)
    } else {
        Seq::empty()
    }
}

/// The characters from `start` towards `end`, every `step`-th one.
pub open spec fn char_range(start: char, end: char, step: int) -> Seq<Seq<char>> {
    if start <= end {
        ascending_chars(start, end, step)
    } else {
        descending_chars(start as u32 as int, end as u32 as int, step)
    }
}

/// The alternatives that one member contributes.
pub open spec fn member_expansion(m: BraceExpressionMember) -> Seq<Seq<char>>
    decreases m, 0int,
{
    match m {
        BraceExpressionMember::NumberSequence { start, end, increment } => number_range(
            start as int,
            end as int,
            step_of(increment),
        ),
        BraceExpressionMember::CharSequence { start, end, increment } => char_range(
            start,
            end,
            step_of(increment),
        ),
        BraceExpressionMember::Child(elements) => expansion(elements@),
    }
}

/// The alternatives of each member in turn, one after the other.
pub open spec fn members_expansion(ms: Seq<BraceExpressionMember>) -> Seq<Seq<char>>
    decreases ms, 0int,
{
    if ms.len() == 0 {
        Seq::empty()
    } else {
        members_expansion(ms.drop_last()) + member_expansion(ms.last())
    }
}

/// The candidate strings of one piece.
pub open spec fn piece_expansion(p: BraceExpressionOrText) -> Seq<Seq<char>>
    decreases p, 0int,
{
    match p {
        BraceExpressionOrText::Text(s) => seq![s@],
        BraceExpressionOrText::Expr(members) => members_expansion(members@),
    }
}

/// The candidate strings of each piece, in piece order.
pub open spec fn piece_candidates(ps: Seq<BraceExpressionOrText>) -> Seq<Seq<Seq<char>>>
    decreases ps, 0int,
{
    if ps.len() == 0 {
        Seq::empty()
    } else {
        piece_candidates(ps.drop_last()).push(piece_expansion(ps.last()))
    }
}

/// The parts written one after the other.
pub open spec fn concat_all(parts: Seq<Seq<char>>) -> Seq<char>
    decreases parts.len(),
{
    if parts.len() == 0 {
        Seq::empty()
    } else {
        concat_all(parts.drop_last()) + parts.last()
    }
}

/// The words that a sequence of pieces denotes: one for each choice of a
/// candidate per piece, the first piece varying slowest, each the chosen
/// candidates written one after the other.
pub open spec fn expansion(ps: Seq<BraceExpressionOrText>) -> Seq<Seq<char>>
    decreases ps, 1int,
{
    product(piece_candidates(ps)).map_values(|row: Seq<Seq<char>>| concat_all(row))
}

} // verus!
