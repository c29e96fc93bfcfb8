//! Properties of expansion that hold for every input.

use crate::model::{
    char_range, concat_all, descending_chars, expansion, member_expansion, members_expansion,
    piece_candidates, piece_expansion, step_of,
};
use crate::product::{prefix_each, product};
use crate::text::is_char_code;
use crate::tree::{BraceExpressionMember, BraceExpressionOrText};
use vstd::prelude::*;

verus! {

/// Putting each item in front of the one empty row makes a one-item row of it.
proof fn lemma_prefix_each_empty_row<A>(xs: Seq<A>)
    ensures
        prefix_each(xs, seq![Seq::<A>::empty()]) == Seq::new(xs.len(), |i: int| seq![xs[i]]),
    decreases xs.len(),
{
    if xs.len() > 0 {
        lemma_prefix_each_empty_row(xs.drop_last());
        let rows = seq![Seq::<A>::empty()];
        let tail = rows.map_values(|r: Seq<A>| seq![xs.last()] + r);
        assert(tail =~= seq![seq![xs.last()]]);
        assert(prefix_each(xs, rows) =~= Seq::new(xs.len(), |i: int| seq![xs[i]]));
    }
}

/// A word of a single piece expands to that piece's candidates, unchanged.
pub proof fn lemma_single_piece(p: BraceExpressionOrText)
    ensures
        expansion(seq![p]) == piece_expansion(p),
{
    let ps = seq![p];
    let xs = piece_expansion(p);
    assert(ps.drop_last() =~= Seq::<BraceExpressionOrText>::empty());
    assert(ps.last() == p);
    assert(piece_candidates(Seq::<BraceExpressionOrText>::empty()) == Seq::<Seq<Seq<char>>>::empty());
    assert(piece_candidates(ps) == piece_candidates(ps.drop_last()).push(xs));
    assert(piece_candidates(ps) =~= seq![xs]);
    assert(seq![xs].drop_first() =~= Seq::<Seq<Seq<char>>>::empty());
    lemma_prefix_each_empty_row(xs);
    let rows = product(piece_candidates(ps));
    assert(product(seq![xs].drop_first()) == seq![Seq::<Seq<char>>::empty()]);
    assert(rows == prefix_each(xs, seq![Seq::<Seq<char>>::empty()]));
    assert(rows =~= Seq::new(xs.len(), |i: int| seq![xs[i]]));
    assert forall|i: int| 0 <= i < xs.len() implies concat_all(#[trigger] seq![xs[i]]) == xs[i] by {
        let one = seq![xs[i]];
        assert(one.drop_last() =~= Seq::<Seq<char>>::empty());
        assert(one.last() == xs[i]);
        assert(concat_all(Seq::<Seq<char>>::empty()) == Seq::<char>::empty());
        assert(concat_all(one) == concat_all(one.drop_last()) + one.last());
        assert(Seq::<char>::empty() + xs[i] =~= xs[i]);
    }
    assert(expansion(ps) =~= xs);
}

/// A word that is one literal text and no brace expression expands to exactly
/// that text.
pub proof fn lemma_text_is_identity(s: String)
    ensures
        expansion(seq![BraceExpressionOrText::Text(s)]) == seq![s@],
{
    lemma_single_piece(BraceExpressionOrText::Text(s));
}

/// The alternatives of a run of members are those of its first part followed by
/// those of its second part.
pub proof fn lemma_members_concat(a: Seq<BraceExpressionMember>, b: Seq<BraceExpressionMember>)
    ensures
        members_expansion(a + b) == members_expansion(a) + members_expansion(b),
    decreases b.len(),
{
    if b.len() == 0 {
        assert(a + b =~= a);
        assert(members_expansion(a) + members_expansion(b) =~= members_expansion(a));
    } else {
        lemma_members_concat(a, b.drop_last());
        assert((a + b).drop_last() =~= a + b.drop_last());
        assert((a + b).last() == b.last());
    }
}

/// A brace expression is the union of its members in order: a single brace
/// expression expands to the alternatives of its members one after the other,
/// with no product between them.
pub proof fn lemma_expr_is_union(members: Vec<BraceExpressionMember>)
    ensures
        expansion(seq![BraceExpressionOrText::Expr(members)]) == members_expansion(members@),
{
    lemma_single_piece(BraceExpressionOrText::Expr(members));
}

/// A nested word inside a brace expression is expanded by the same rule on its
/// own, and its words stand in the union between those of the members before it
/// and those of the members after it.
pub proof fn lemma_child_is_flattened(
    before: Seq<BraceExpressionMember>,
    elements: Vec<BraceExpressionOrText>,
    after: Seq<BraceExpressionMember>,
)
    ensures
        members_expansion(before + seq![BraceExpressionMember::Child(elements)] + after)
            == members_expansion(before) + expansion(elements@) + members_expansion(after),
{
    let child = seq![BraceExpressionMember::Child(elements)];
    lemma_members_concat(before + child, after);
    lemma_members_concat(before, child);
    assert(child.drop_last() =~= Seq::<BraceExpressionMember>::empty());
    assert(child.last() == BraceExpressionMember::Child(elements));
    assert(members_expansion(Seq::<BraceExpressionMember>::empty()) == Seq::<Seq<char>>::empty());
    assert(members_expansion(child) == members_expansion(child.drop_last()) + member_expansion(
        child.last(),
    ));
    assert(members_expansion(child) =~= expansion(elements@));
}

/// Expansion is a function of the tree: equal trees give the same words, in the
/// same order.
pub proof fn lemma_deterministic(a: Seq<BraceExpressionOrText>, b: Seq<BraceExpressionOrText>)
    requires
        a == b,
    ensures
        expansion(a) == expansion(b),
{
}

/// A descending character range whose first step would go below code point
/// zero holds its start alone.
pub proof fn lemma_char_underflow_stops(start: char, end: char, increment: i64)
    requires
        end < start,
        (start as u32) < step_of(increment),
    ensures
        member_expansion(BraceExpressionMember::CharSequence { start, end, increment })
            == seq![seq![start]],
{
    let code = start as u32;
    vstd::utf8::char_u32_cast(start, code);
    let d = descending_chars(code as int, end as u32 as int, step_of(increment));
    assert(!is_char_code(code - step_of(increment)));
    assert(d =~= seq![seq![start]]);
    assert(char_range(start, end, step_of(increment)) == d);
}

/// An increment of zero steps by one.
pub proof fn lemma_zero_increment_is_one(start: i64, end: i64, first: char, last: char)
    ensures
        member_expansion(BraceExpressionMember::NumberSequence { start, end, increment: 0 })
            == member_expansion(BraceExpressionMember::NumberSequence { start, end, increment: 1 }),
        member_expansion(BraceExpressionMember::CharSequence { start: first, end: last, increment: 0 })
            == member_expansion(
            BraceExpressionMember::CharSequence { start: first, end: last, increment: 1 },
        ),
{
}

/// The sign of the increment is ignored: only its magnitude counts.
pub proof fn lemma_increment_sign_ignored(
    start: i64,
    end: i64,
    first: char,
    last: char,
    increment: i64,
    negated: i64,
)
    requires
        negated == -increment,
    ensures
        member_expansion(BraceExpressionMember::NumberSequence { start, end, increment })
            == member_expansion(
            BraceExpressionMember::NumberSequence { start, end, increment: negated },
        ),
        member_expansion(BraceExpressionMember::CharSequence { start: first, end: last, increment })
            == member_expansion(
            BraceExpressionMember::CharSequence { start: first, end: last, increment: negated },
        ),
{
}

} // verus!
