//! Cartesian products of lists of strings.

use itertools::Itertools;
use vstd::prelude::*;

verus! {

/// The characters of each string.
pub open spec fn texts(v: Seq<String>) -> Seq<Seq<char>> {
    v.map_values(|s: String| s@)
}

/// The characters of each string of each row.
pub open spec fn text_rows(v: Seq<Vec<String>>) -> Seq<Seq<Seq<char>>> {
    v.map_values(|r: Vec<String>| texts(r@))
}

/// For each `x` of `xs` in order, every row of `rows` with `x` put in front.
pub open spec fn prefix_each<A>(xs: Seq<A>, rows: Seq<Seq<A>>) -> Seq<Seq<A>>
    decreases xs.len(),
{
    if xs.len() == 0 {
        Seq::empty()
    } else {
        prefix_each(xs.drop_last(), rows) + rows.map_values(|r: Seq<A>| seq![xs.last()] + r)
    }
}

/// Every choice of one item from each list, in list order; the first list
/// varies slowest and the last fastest. No lists give one empty choice.
pub open spec fn product<A>(lists: Seq<Seq<A>>) -> Seq<Seq<A>>
    decreases lists.len(),
{
    if lists.len() == 0 {
        seq![Seq::empty()]
    } else {
        prefix_each(lists[0], product(lists.drop_first()))
    }
}

/// Relies on `itertools::Itertools::multi_cartesian_product`: it yields the
/// choices of one item per inner list in lexicographic order (last list
/// fastest), one empty choice when there is no inner list, and none when an
/// inner list is empty.
#[verifier::external_body]
pub(crate) fn cartesian_product(lists: Vec<Vec<String>>) -> (r: Vec<Vec<String>>)
    ensures
        text_rows(r@) == product(text_rows(lists@)),
{
    lists.into_iter().multi_cartesian_product().collect()
}

} // verus!
