//! Expansion of a brace-expression tree into words.

use crate::model::{
    ascending_chars, char_at_rank, char_rank, concat_all, descending_chars, expansion,
    member_expansion, members_expansion, number_range, piece_candidates, piece_expansion, step_of,
};
use crate::product::{cartesian_product, product, text_rows, texts};
use crate::text::{char_from_code, char_string, decimal, decimal_string, is_char_code};
use crate::tree::{BraceExpressionMember, BraceExpressionOrText};
use vstd::prelude::*;

verus! {

/// The step of a sequence as an integer: `|increment|`, or 1 when it is 0.
fn step_value(increment: i64) -> (r: u64)
    ensures
        r as int == step_of(increment),
        r >= 1,
{
    if increment == 0 {
        1
    } else if increment < 0 {
        (-(increment as i128)) as u64
    } else {
        increment as u64
    }
}

/// The parts written one after the other.
fn join_all(parts: &Vec<String>) -> (r: String)
    ensures
        r@ == concat_all(texts(parts@)),
{
    let mut acc = String::new();
    let mut i: usize = 0;
    while i < parts.len()
        invariant
            i <= parts.len(),
            acc@ == concat_all(texts(parts@).take(i as int)),
        decreases parts.len() - i,
    {
        proof {
            let t = texts(parts@);
            assert(t.take(i as int + 1).drop_last() == t.take(i as int));
        }
        acc.append(parts[i].as_str());
        i = i + 1;
    }
    proof {
        assert(texts(parts@).take(i as int) == texts(parts@));
    }
    acc
}

/// The integers from `start` towards `end` every `step`, in base 10.
fn number_sequence(start: i64, end: i64, step: u64) -> (r: Vec<String>)
    requires
        step >= 1,
    ensures
        texts(r@) == number_range(start as int, end as int, step as int),
{
    let ghost want = number_range(start as int, end as int, step as int);
    let up = start <= end;
    let dist: i128 = if up {
        end as i128 - start as i128
    } else {
        start as i128 - end as i128
    };
    let mut out: Vec<String> = Vec::new();
    let mut done: i128 = 0;
    let ghost mut k: int = 0;
    loop
        invariant_except_break
            step >= 1,
            want == number_range(start as int, end as int, step as int),
            up == (start <= end),
            0 <= done <= dist,
            done == k * step,
            0 <= k,
            k * step <= dist,
            dist == if up { end - start } else { start - end },
            texts(out@) == want.take(k),
            want.len() == (dist as int) / (step as int) + 1,
        ensures
            texts(out@) == want,
        decreases dist - done,
    {
        let v: i64 = if up {
            (start as i128 + done) as i64
        } else {
            (start as i128 - done) as i64
        };
        proof {
            assert(k <= (dist as int) / (step as int)) by (nonlinear_arith)
                requires k * step <= dist, step >= 1, k >= 0;
        }
        let s = decimal_string(v);
        let ghost before = out@;
        out.push(s);
        proof {
            if up {
                assert(v as int == start as int + k * step);
                assert(want[k] == decimal(start as int + k * step));
            } else {
                assert(v as int == start as int - k * step);
                assert(want[k] == decimal(start as int - k * step));
            }
            assert(want[k] == decimal(v as int));
            assert(texts(out@) =~= texts(before).push(decimal(v as int)));
            assert(texts(out@) =~= want.take(k + 1));
        }
        if dist - done < step as i128 {
            proof {
                assert((dist as int) / (step as int) == k) by (nonlinear_arith)
                    requires k * step <= dist, dist < k * step + step, step >= 1, k >= 0;
                assert(want.take(k + 1) == want);
            }
            break;
        }
        done = done + step as i128;
        proof {
            k = k + 1;
            assert(done == k * step) by (nonlinear_arith)
                requires done == (k - 1) * step + step;
        }
    }
    out
}

/// The position of `c` in the ascending order of all characters.
fn rank_of(c: char) -> (r: u32)
    ensures
        r as int == char_rank(c),
        r <= 0x10FFFF - 0x800,
{
    proof {
        vstd::utf8::char_is_scalar(c);
    }
    let n = c as u32;
    if n < 0xD800 {
        n
    } else {
        n - 0x800
    }
}

/// From `start` up to `end`, every `step`-th character, each as a string.
fn ascending_char_sequence(start: char, end: char, step: u64) -> (r: Vec<String>)
    requires
        step >= 1,
        start <= end,
    ensures
        texts(r@) == ascending_chars(start, end, step as int),
{
    let ghost want = ascending_chars(start, end, step as int);
    let first = rank_of(start);
    let last = rank_of(end);
    let dist: u64 = (last - first) as u64;
    let mut out: Vec<String> = Vec::new();
    let mut done: u64 = 0;
    let ghost mut k: int = 0;
    loop
        invariant_except_break
            step >= 1,
            want == ascending_chars(start, end, step as int),
            first as int == char_rank(start),
            last <= 0x10FFFF - 0x800,
            first + dist == last,
            0 <= done <= dist,
            done == k * step,
            0 <= k,
            texts(out@) == want.take(k),
            want.len() == (dist as int) / (step as int) + 1,
        ensures
            texts(out@) == want,
        decreases dist - done,
    {
        proof {
            assert(k <= (dist as int) / (step as int)) by (nonlinear_arith)
                requires k * step <= dist, step >= 1, k >= 0;
        }
        let rank: u32 = first + done as u32;
        let code: u32 = if rank < 0xD800 {
            rank
        } else {
            rank + 0x800
        };
        let c = match char_from_code(code) {
            Some(c) => c,
            None => {
                proof {
                    assert(is_char_code(code as int));
                }
                start
            },
        };
        proof {
            assert(c == char_at_rank(char_rank(start) + k * step));
            assert(want[k] == seq![c]);
        }
        let s = char_string(c);
        let ghost before = out@;
        out.push(s);
        proof {
            assert(texts(out@) =~= texts(before).push(seq![c]));
            assert(texts(out@) =~= want.take(k + 1));
        }
        if dist - done < step {
            proof {
                assert((dist as int) / (step as int) == k) by (nonlinear_arith)
                    requires k * step <= dist, dist < k * step + step, step >= 1, k >= 0;
                assert(want.take(k + 1) == want);
            }
            break;
        }
        done = done + step;
        proof {
            k = k + 1;
            assert(done == k * step) by (nonlinear_arith)
                requires done == (k - 1) * step + step;
        }
    }
    out
}

/// From `start` down towards `end`, every `step`-th character, each as a
/// string; it ends early where the next code point would hold no character.
fn descending_char_sequence(start: char, end: char, step: u64) -> (r: Vec<String>)
    requires
        step >= 1,
        end < start,
    ensures
        texts(r@) == descending_chars(start as u32 as int, end as u32 as int, step as int),
{
    let ghost want = descending_chars(start as u32 as int, end as u32 as int, step as int);
    let bottom = end as u32;
    let mut out: Vec<String> = Vec::new();
    let mut cur = start;
    loop
        invariant_except_break
            step >= 1,
            bottom == end as u32,
            cur as u32 >= bottom,
            texts(out@) + descending_chars(cur as u32 as int, bottom as int, step as int) == want,
        ensures
            texts(out@) == want,
        decreases cur as u32,
    {
        let code = cur as u32;
        let ghost rest = descending_chars(code as int, bottom as int, step as int);
        let ghost before = out@;
        proof {
            vstd::utf8::char_u32_cast(cur, code);
            assert(rest[0] == seq![cur]);
        }
        out.push(char_string(cur));
        proof {
            assert(texts(out@) =~= texts(before).push(seq![cur]));
        }
        if (code as u64) < step {
            proof {
                assert(rest == seq![seq![cur]]);
                assert(texts(out@) =~= want);
            }
            break;
        }
        let next: u32 = code - step as u32;
        match char_from_code(next) {
            None => {
                proof {
                    assert(rest == seq![seq![cur]]);
                    assert(texts(out@) =~= want);
                }
                break;
            },
            Some(n) => {
                if next < bottom {
                    proof {
                        assert(rest == seq![seq![cur]]);
                        assert(texts(out@) =~= want);
                    }
                    break;
                }
                proof {
                    vstd::utf8::char_u32_cast(n, next);
                    assert(n as u32 == next);
                    assert(rest == seq![seq![cur]] + descending_chars(next as int, bottom as int, step as int));
                    assert(texts(out@) + descending_chars(next as int, bottom as int, step as int) =~= want);
                }
                cur = n;
            },
        }
    }
    out
}

/// Every word that `pieces` denotes: for each choice of one candidate per
/// piece, the first piece varying slowest and the last fastest, the chosen
/// candidates written one after the other.
pub fn generate_and_combine_brace_expansions(
    pieces: &Vec<BraceExpressionOrText>,
) -> (r: Vec<String>)
    ensures
        texts(r@) == expansion(pieces@),
    decreases pieces@, 1int,
{
    let mut lists: Vec<Vec<String>> = Vec::new();
    let mut i: usize = 0;
    while i < pieces.len()
        invariant
            i <= pieces.len(),
            text_rows(lists@) == piece_candidates(pieces@.take(i as int)),
        decreases pieces.len() - i,
    {
        let candidates = expand_brace_expr_or_text(&pieces[i]);
        let ghost before = lists@;
        lists.push(candidates);
        proof {
            let ps = pieces@.take(i as int + 1);
            assert(ps.drop_last() == pieces@.take(i as int));
            assert(text_rows(lists@) =~= text_rows(before).push(texts(candidates@)));
        }
        i = i + 1;
    }
    proof {
        assert(pieces@.take(i as int) == pieces@);
    }
    let rows = cartesian_product(lists);
    let ghost want = expansion(pieces@);
    proof {
        assert(text_rows(rows@).len() == rows@.len());
    }
    let mut out: Vec<String> = Vec::new();
    let mut j: usize = 0;
    while j < rows.len()
        invariant
            j <= rows.len(),
            want == expansion(pieces@),
            text_rows(rows@) == product(piece_candidates(pieces@)),
            want.len() == rows@.len(),
            texts(out@) == want.take(j as int),
        decreases rows.len() - j,
    {
        let word = join_all(&rows[j]);
        let ghost before = out@;
        proof {
            assert(text_rows(rows@)[j as int] == texts(rows@[j as int]@));
            assert(want[j as int] == concat_all(texts(rows@[j as int]@)));
        }
        out.push(word);
        proof {
            assert(texts(out@) =~= texts(before).push(word@));
            assert(texts(out@) =~= want.take(j as int + 1));
        }
        j = j + 1;
    }
    proof {
        assert(want.take(j as int) == want);
    }
    out
}

/// The candidate strings of one piece: the text itself, or the alternatives
/// of all members of the brace expression, one member after the other.
pub fn expand_brace_expr_or_text(piece: &BraceExpressionOrText) -> (r: Vec<String>)
    ensures
        texts(r@) == piece_expansion(*piece),
    decreases *piece, 0int,
{
    match piece {
        BraceExpressionOrText::Text(t) => {
            let r = vec![t.clone()];
            proof {
                assert(texts(r@) =~= seq![t@]);
            }
            r
        },
        BraceExpressionOrText::Expr(members) => {
            let mut out: Vec<String> = Vec::new();
            let mut i: usize = 0;
            while i < members.len()
                invariant
                    i <= members.len(),
                    *piece == BraceExpressionOrText::Expr(*members),
                    texts(out@) == members_expansion(members@.take(i as int)),
                decreases members.len() - i,
            {
                proof {
                    assert(decreases_to!(*piece => (*piece)->Expr_0));
                    assert(decreases_to!(*members => members@));
                    assert(decreases_to!(members@ => members@[i as int]));
                }
                let mut part = expand_brace_expr_member(&members[i]);
                let ghost before = out@;
                let ghost added = part@;
                out.append(&mut part);
                proof {
                    let ms = members@.take(i as int + 1);
                    assert(ms.drop_last() == members@.take(i as int));
                    assert(texts(out@) =~= texts(before) + texts(added));
                }
                i = i + 1;
            }
            proof {
                assert(members@.take(i as int) == members@);
            }
            out
        },
    }
}

/// The alternatives that one member of a brace expression contributes.
pub fn expand_brace_expr_member(member: &BraceExpressionMember) -> (r: Vec<String>)
    ensures
        texts(r@) == member_expansion(*member),
    decreases *member, 0int,
{
    match member {
        BraceExpressionMember::NumberSequence { start, end, increment } => {
            number_sequence(*start, *end, step_value(*increment))
        },
        BraceExpressionMember::CharSequence { start, end, increment } => {
            let step = step_value(*increment);
            if *start <= *end {
                ascending_char_sequence(*start, *end, step)
            } else {
                descending_char_sequence(*start, *end, step)
            }
        },
        BraceExpressionMember::Child(elements) => {
            proof {
                assert(decreases_to!(*member => elements@));
            }
            generate_and_combine_brace_expansions(elements)
        },
    }
}

} // verus!
