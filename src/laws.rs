//! Properties of navigation that relate several calls.
use vstd::prelude::*;
use crate::state::{below, next_after, next_main, previous_after, Selection};

verus! {

/// The selection after `k` calls of `next` from `sel`.
pub open spec fn next_times(
    sel: Option<Selection>,
    counts: Seq<usize>,
    expanded: Seq<usize>,
    wrap: bool,
    k: nat,
) -> Option<Selection>
    decreases k,
{
    if k == 0 {
        sel
    } else {
        next_after(next_times(sel, counts, expanded, wrap, (k - 1) as nat), counts, expanded, wrap)
    }
}

/// No main item of the list is expanded.
pub open spec fn none_expanded(counts: Seq<usize>, expanded: Seq<usize>) -> bool {
    forall|i: usize| i < counts.len() ==> !expanded.contains(i)
}

/// With no main item expanded, `k` calls of `next` from no selection select
/// main item `k - 1`, for `k` from 1 to the number of main items.
pub proof fn lemma_next_from_nothing(counts: Seq<usize>, expanded: Seq<usize>, wrap: bool, k: nat)
    requires
        counts.len() <= usize::MAX,
        none_expanded(counts, expanded),
        1 <= k <= counts.len(),
    ensures
        next_times(None, counts, expanded, wrap, k) == Some(((k - 1) as usize, None::<usize>)),
    decreases k,
{
    reveal_with_fuel(next_times, 2);
    if k > 1 {
        lemma_next_from_nothing(counts, expanded, wrap, (k - 1) as nat);
    }
}

/// With no main item expanded, `k` calls of `next` from the first main item
/// select main item `k`, for `k` below the number of main items.
pub proof fn lemma_next_from_first(counts: Seq<usize>, expanded: Seq<usize>, wrap: bool, k: nat)
    requires
        counts.len() <= usize::MAX,
        none_expanded(counts, expanded),
        k < counts.len(),
    ensures
        next_times(Some((0, None)), counts, expanded, wrap, k) == Some((k as usize, None::<usize>)),
    decreases k,
{
    if k > 0 {
        lemma_next_from_first(counts, expanded, wrap, (k - 1) as nat);
    }
}

/// In a non-empty list with no main item expanded, calling `next` once per
/// main item walks through all of them: from no selection it ends on the
/// last one, and from the first one it comes back to the first when wrapping
/// is on. With wrapping off, any further calls stay on the last main item.
pub proof fn lemma_next_cycles(counts: Seq<usize>, expanded: Seq<usize>, wrap: bool, extra: nat)
    requires
        counts.len() <= usize::MAX,
        counts.len() > 0,
        none_expanded(counts, expanded),
    ensures
        next_times(None, counts, expanded, wrap, counts.len()) == Some(
            ((counts.len() - 1) as usize, None::<usize>),
        ),
        wrap ==> next_times(None, counts, expanded, wrap, counts.len() + 1) == Some(
            (0usize, None::<usize>),
        ),
        wrap ==> next_times(Some((0, None)), counts, expanded, wrap, counts.len()) == Some(
            (0usize, None::<usize>),
        ),
        !wrap ==> next_times(None, counts, expanded, wrap, counts.len() + extra) == Some(
            ((counts.len() - 1) as usize, None::<usize>),
        ),
    decreases extra,
{
    let n = counts.len();
    lemma_next_from_nothing(counts, expanded, wrap, n);
    lemma_next_from_first(counts, expanded, wrap, (n - 1) as nat);
    if extra > 0 {
        lemma_next_cycles(counts, expanded, wrap, (extra - 1) as nat);
    }
}

/// With no main item expanded, `k + 1` calls of `next` from no selection
/// select main item `k` modulo the number of main items when wrapping is on,
/// and main item `k`, held at the last one, when it is off.
pub proof fn lemma_next_count(counts: Seq<usize>, expanded: Seq<usize>, wrap: bool, k: nat)
    requires
        counts.len() <= usize::MAX,
        counts.len() > 0,
        none_expanded(counts, expanded),
    ensures
        wrap ==> next_times(None, counts, expanded, wrap, k + 1) == Some(
            ((k % counts.len()) as usize, None::<usize>),
        ),
        !wrap ==> next_times(None, counts, expanded, wrap, k + 1) == Some(
            ((if k + 1 < counts.len() { k } else { (counts.len() - 1) as nat }) as usize, None::<
                usize,
            >),
        ),
    decreases k,
{
    reveal_with_fuel(next_times, 2);
    let n = counts.len();
    if k > 0 {
        lemma_next_count(counts, expanded, wrap, (k - 1) as nat);
        let a = (k - 1) as nat % n;
        assert(k % n == if a + 1 == n { 0 } else { a + 1 }) by (nonlinear_arith)
            requires
                n > 0,
                k >= 1,
                a == (k - 1) as nat % n,
        ;
    } else {
        assert(0nat % n == 0) by (nonlinear_arith)
            requires
                n > 0,
        ;
    }
}

/// `previous` right after `next` gives back the selection that was there,
/// from any selection of a main item in range or of an existing child of an
/// expanded one. Left out is the end of the list with wrapping off, where
/// `next` cannot move on from the last main item or its last child.
pub proof fn lemma_next_then_previous(
    sel: Selection,
    counts: Seq<usize>,
    expanded: Seq<usize>,
    wrap: bool,
)
    requires
        counts.len() <= usize::MAX,
        sel.0 < counts.len(),
        match sel.1 {
            None => true,
            Some(c) => expanded.contains(sel.0) && c < counts[sel.0 as int],
        },
        wrap || sel.0 + 1 < counts.len() || (sel.1 is None && (expanded.contains(sel.0)
            || counts.len() == 1)) || (sel.1 is Some && sel.1->Some_0 + 1 < counts[sel.0 as int]),
    ensures
        previous_after(next_after(Some(sel), counts, expanded, wrap), counts, expanded, wrap) == Some(
            sel,
        ),
{
}

/// In an expanded main item with `k > 0` children, `m` calls of `next` from
/// the main item select its child `m - 1`, for `m` from 1 to `k`.
pub proof fn lemma_next_enters_children(
    counts: Seq<usize>,
    expanded: Seq<usize>,
    wrap: bool,
    i: usize,
    m: nat,
)
    requires
        counts.len() <= usize::MAX,
        i < counts.len(),
        expanded.contains(i),
        1 <= m <= counts[i as int],
    ensures
        next_times(Some((i, None)), counts, expanded, wrap, m) == Some((i, Some((m - 1) as usize))),
    decreases m,
{
    reveal_with_fuel(next_times, 2);
    if m > 1 {
        lemma_next_enters_children(counts, expanded, wrap, i, (m - 1) as nat);
    }
}

/// In an expanded main item with `k > 0` children, `k + 1` calls of `next`
/// from the main item leave it for the following main item; `previous`
/// from there comes back to the last child. The way back needs that there
/// is a following item: wrapping is on or the item is not the last.
pub proof fn lemma_next_leaves_children(
    counts: Seq<usize>,
    expanded: Seq<usize>,
    wrap: bool,
    i: usize,
)
    requires
        counts.len() <= usize::MAX,
        i < counts.len(),
        expanded.contains(i),
        counts[i as int] > 0,
    ensures
        next_times(Some((i, None)), counts, expanded, wrap, (counts[i as int] + 1) as nat) == Some(
            next_main(i, counts.len(), wrap),
        ),
        wrap || i + 1 < counts.len() ==> previous_after(
            Some(next_main(i, counts.len(), wrap)),
            counts,
            expanded,
            wrap,
        ) == Some((i, Some((counts[i as int] - 1) as usize))),
{
    lemma_next_enters_children(counts, expanded, wrap, i, counts[i as int] as nat);
}

/// With wrapping off, `previous` on the first main item and `next` on a
/// collapsed last main item leave the selection where it is.
pub proof fn lemma_no_wrap_stays(counts: Seq<usize>, expanded: Seq<usize>)
    requires
        counts.len() <= usize::MAX,
        counts.len() > 0,
        !expanded.contains((counts.len() - 1) as usize),
    ensures
        previous_after(Some((0, None)), counts, expanded, false) == Some((0usize, None::<usize>)),
        next_after(Some(((counts.len() - 1) as usize, None)), counts, expanded, false) == Some(
            ((counts.len() - 1) as usize, None::<usize>),
        ),
{
}

/// Pruning the expanded indices to a new length keeps exactly those below it.
pub proof fn lemma_pruned_expanded(expanded: Seq<usize>, len: nat)
    ensures
        forall|x: usize| #[trigger]
            expanded.filter(below(len)).contains(x) <==> (expanded.contains(x) && x < len),
{
    assert forall|x: usize| #[trigger]
        expanded.filter(below(len)).contains(x) <==> (expanded.contains(x) && x < len) by {
        if expanded.filter(below(len)).contains(x) {
            expanded.lemma_filter_contains_rev(below(len), x);
            let k = expanded.filter(below(len)).index_of(x);
            expanded.lemma_filter_pred(below(len), k);
        }
        if expanded.contains(x) && x < len {
            let k = expanded.index_of(x);
            expanded.lemma_filter_contains(below(len), k);
        }
    }
}

} // verus!
