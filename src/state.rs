use vstd::prelude::*;

verus! {

/// A selection: a main index and, optionally, the index of one of its children.
pub type Selection = (usize, Option<usize>);

/// Viewport bookkeeping: which main item is drawn first and how much of it is
/// scrolled out of sight.
#[derive(Clone, Debug)]
pub(crate) struct ViewState {
    /// The index of the first item displayed on the screen.
    pub(crate) offset: usize,
    /// The truncation in rows/columns of the first item displayed on the screen.
    pub(crate) first_truncated: u16,
}

/// The mathematical model of a [`ListState`].
pub struct ListStateView {
    /// The selected item, if any.
    pub selected: Option<Selection>,
    /// How many children each main item has, one entry per main item.
    pub counts: Seq<usize>,
    /// The expanded main indices, in the order they were expanded.
    pub expanded: Seq<usize>,
    /// Whether navigation wraps around at the ends of the list.
    pub wrap: bool,
    /// The index of the first main item shown.
    pub offset: nat,
    /// How many leading rows/columns of the first shown item are cut off.
    pub first_truncated: nat,
}

/// The main item after `index` in a list of `len` main items: the first one
/// when wrapping past the end, else the last one stays.
pub open spec fn next_main(index: usize, len: nat, wrap: bool) -> Selection {
    if index + 1 >= len {
        if wrap {
            (0, None)
        } else {
            (index, None)
        }
    } else {
        ((index + 1) as usize, None)
    }
}

/// The selection that `next` moves to from `sel`, in a non-empty list.
pub open spec fn next_selection(
    sel: Option<Selection>,
    counts: Seq<usize>,
    expanded: Seq<usize>,
    wrap: bool,
) -> Selection {
    match sel {
        None => (0, None),
        Some((i, j)) => {
            if i < counts.len() && expanded.contains(i) {
                match j {
                    None => (i, Some(0)),
                    Some(c) => if c + 1 >= counts[i as int] {
                        next_main(i, counts.len(), wrap)
                    } else {
                        (i, Some((c + 1) as usize))
                    },
                }
            } else {
                next_main(i, counts.len(), wrap)
            }
        },
    }
}

/// The selection after `next`: unchanged in an empty list.
pub open spec fn next_after(
    sel: Option<Selection>,
    counts: Seq<usize>,
    expanded: Seq<usize>,
    wrap: bool,
) -> Option<Selection> {
    if counts.len() == 0 {
        sel
    } else {
        Some(next_selection(sel, counts, expanded, wrap))
    }
}

/// The main item before `index` in a non-empty list. When that item is
/// expanded, its last child is selected instead (none if it has no children).
pub open spec fn previous_main(
    index: usize,
    counts: Seq<usize>,
    expanded: Seq<usize>,
    wrap: bool,
) -> Selection {
    if index == 0 && !wrap {
        (index, None)
    } else {
        let p: usize = if index == 0 {
            (counts.len() - 1) as usize
        } else {
            (index - 1) as usize
        };
        if expanded.contains(p) && p < counts.len() && counts[p as int] > 0 {
            (p, Some((counts[p as int] - 1) as usize))
        } else {
            (p, None)
        }
    }
}

/// The selection that `previous` moves to from `sel`, in a non-empty list.
pub open spec fn previous_selection(
    sel: Option<Selection>,
    counts: Seq<usize>,
    expanded: Seq<usize>,
    wrap: bool,
) -> Selection {
    match sel {
        None => (0, None),
        Some((i, j)) => {
            if i < counts.len() && j is Some {
                let c = j->Some_0;
                if c == 0 {
                    (i, None)
                } else {
                    (i, Some((c - 1) as usize))
                }
            } else {
                previous_main(i, counts, expanded, wrap)
            }
        },
    }
}

/// The selection after `previous`: unchanged in an empty list.
pub open spec fn previous_after(
    sel: Option<Selection>,
    counts: Seq<usize>,
    expanded: Seq<usize>,
    wrap: bool,
) -> Option<Selection> {
    if counts.len() == 0 {
        sel
    } else {
        Some(previous_selection(sel, counts, expanded, wrap))
    }
}

/// Keeps the indices below `bound`.
pub open spec fn below(bound: nat) -> spec_fn(usize) -> bool {
    |x: usize| x < bound
}

/// Keeps the indices other than `index`.
pub open spec fn other_than(index: usize) -> spec_fn(usize) -> bool {
    |x: usize| x != index
}

/// The selection with its child part dropped.
pub open spec fn main_only(sel: Option<Selection>) -> Option<Selection> {
    match sel {
        Some((i, _)) => Some((i, None)),
        None => None,
    }
}

/// Whether `index` occurs in `v`.
fn holds_index(v: &Vec<usize>, index: usize) -> (r: bool)
    ensures
        r == v@.contains(index),
{
    let mut k: usize = 0;
    while k < v.len()
        invariant
            k <= v.len(),
            forall|m: int| 0 <= m < k ==> v@[m] != index,
        decreases v.len() - k,
    {
        if v[k] == index {
            return true;
        }
        k = k + 1;
    }
    false
}

/// The entries of `v` below `bound`, in their order.
fn keep_below(v: &Vec<usize>, bound: usize) -> (r: Vec<usize>)
    ensures
        r@ == v@.filter(below(bound as nat)),
{
    let mut r: Vec<usize> = Vec::new();
    let mut k: usize = 0;
    while k < v.len()
        invariant
            k <= v.len(),
            r@ == v@.subrange(0, k as int).filter(below(bound as nat)),
        decreases v.len() - k,
    {
        proof {
            assert(v@.subrange(0, k + 1) == v@.subrange(0, k as int).push(v@[k as int]));
            v@.subrange(0, k as int).lemma_filter_push(v@[k as int], below(bound as nat));
        }
        if v[k] < bound {
            r.push(v[k]);
        }
        k = k + 1;
    }
    assert(v@.subrange(0, v@.len() as int) == v@);
    r
}

/// The entries of `v` other than `index`, in their order.
fn keep_other_than(v: &Vec<usize>, index: usize) -> (r: Vec<usize>)
    ensures
        r@ == v@.filter(other_than(index)),
{
    let mut r: Vec<usize> = Vec::new();
    let mut k: usize = 0;
    while k < v.len()
        invariant
            k <= v.len(),
            r@ == v@.subrange(0, k as int).filter(other_than(index)),
        decreases v.len() - k,
    {
        proof {
            assert(v@.subrange(0, k + 1) == v@.subrange(0, k as int).push(v@[k as int]));
            v@.subrange(0, k as int).lemma_filter_push(v@[k as int], other_than(index));
        }
        if v[k] != index {
            r.push(v[k]);
        }
        k = k + 1;
    }
    assert(v@.subrange(0, v@.len() as int) == v@);
    r
}

/// Selection state of a list whose main items may hold children.
#[derive(Clone, Debug)]
pub struct ListState {
    /// The selected item. If `None`, no item is currently selected.
    pub selected: Option<Selection>,
    /// How many children each main item has. Its length is the number of
    /// main items.
    num_elements: Vec<usize>,
    /// The expanded main items.
    expanded: Vec<usize>,
    /// If true, calling `next` on the last element selects the first, and
    /// calling `previous` on the first selects the last.
    infinite_scrolling: bool,
    /// Which item is shown first and how much it is truncated.
    view_state: ViewState,
}

impl View for ListState {
    type V = ListStateView;

    closed spec fn view(&self) -> ListStateView {
        ListStateView {
            selected: self.selected,
            counts: self.num_elements@,
            expanded: self.expanded@,
            wrap: self.infinite_scrolling,
            offset: self.view_state.offset as nat,
            first_truncated: self.view_state.first_truncated as nat,
        }
    }
}

impl Default for ListState {
    /// An empty state: nothing selected or expanded, no items, wrapping on.
    fn default() -> (r: Self)
        ensures
            r@.selected is None,
            r@.counts.len() == 0,
            r@.expanded.len() == 0,
            r@.wrap,
            r@.offset == 0,
            r@.first_truncated == 0,
    {
        ListState {
            selected: None,
            num_elements: Vec::new(),
            expanded: Vec::new(),
            infinite_scrolling: true,
            view_state: ViewState { offset: 0, first_truncated: 0 },
        }
    }
}

impl ListState {
    /// In every state the number of main items fits in a `usize`.
    pub proof fn lemma_view_facts(&self)
        ensures
            self@.counts.len() <= usize::MAX,
    {
        assert(self.num_elements@.len() == self.num_elements.len());
    }

    /// The index of the first main item shown.
    pub fn offset(&self) -> (r: usize)
        ensures
            r == self@.offset,
    {
        self.view_state.offset
    }

    /// How many leading rows/columns of the first shown item are cut off.
    pub fn first_truncated(&self) -> (r: u16)
        ensures
            r == self@.first_truncated,
    {
        self.view_state.first_truncated
    }

    /// Records where the view starts: the first main item shown and how much
    /// of it is scrolled out of sight. The layout computes these from the
    /// sizes the items report.
    pub fn set_view_state(&mut self, offset: usize, first_truncated: u16)
        ensures
            final(self)@ == (ListStateView {
                offset: offset as nat,
                first_truncated: first_truncated as nat,
                ..old(self)@
            }),
    {
        self.view_state = ViewState { offset, first_truncated };
    }

    /// Turns wrap-around at the ends of the list on or off.
    pub fn set_infinite_scrolling(&mut self, infinite_scrolling: bool)
        ensures
            final(self)@ == (ListStateView { wrap: infinite_scrolling, ..old(self)@ }),
    {
        self.infinite_scrolling = infinite_scrolling;
    }

    /// Returns the main index of the currently selected item, if any.
    /// The `selected` field gives the child part too.
    pub fn selected(&self) -> (r: Option<usize>)
        ensures
            r == match self@.selected {
                Some((i, _)) => Some(i),
                None => None,
            },
    {
        match self.selected {
            Some((i, _)) => Some(i),
            None => None,
        }
    }

    /// Selects a main item by its index, or clears the selection. Clearing
    /// it scrolls the view back to the start of the first item.
    pub fn select(&mut self, index: Option<usize>)
        ensures
            final(self)@ == (ListStateView {
                selected: match index {
                    Some(i) => Some((i, None)),
                    None => None,
                },
                offset: if index is None { 0 } else { old(self)@.offset },
                first_truncated: if index is None { 0 } else { old(self)@.first_truncated },
                ..old(self)@
            }),
    {
        self.selected = match index {
            Some(i) => Some((i, None)),
            None => None,
        };
        if index.is_none() {
            self.view_state.offset = 0;
            self.view_state.first_truncated = 0;
        }
    }

    /// Sets the whole selection, main index and child index. Clearing it
    /// scrolls the view back to the start of the first item.
    pub fn select_child(&mut self, index: Option<Selection>)
        ensures
            final(self)@ == (ListStateView {
                selected: index,
                offset: if index is None { 0 } else { old(self)@.offset },
                first_truncated: if index is None { 0 } else { old(self)@.first_truncated },
                ..old(self)@
            }),
    {
        self.selected = index;
        if index.is_none() {
            self.view_state.offset = 0;
            self.view_state.first_truncated = 0;
        }
    }

    /// Collapses every item; a selected child falls back to its main item.
    pub fn collapse_all(&mut self)
        ensures
            final(self)@ == (ListStateView {
                selected: main_only(old(self)@.selected),
                expanded: Seq::empty(),
                ..old(self)@
            }),
    {
        self.expanded = Vec::new();
        if let Some((i, _)) = self.selected {
            self.selected = Some((i, None));
        }
    }

    /// Collapses the selected item; a selected child falls back to its main
    /// item. Does nothing when nothing is selected.
    pub fn collapse_selected(&mut self)
        ensures
            final(self)@ == match old(self)@.selected {
                Some((i, _)) => ListStateView {
                    selected: Some((i, None)),
                    expanded: old(self)@.expanded.filter(other_than(i)),
                    ..old(self)@
                },
                None => old(self)@,
            },
    {
        if let Some((i, _)) = self.selected {
            self.expanded = keep_other_than(&self.expanded, i);
            self.selected = Some((i, None));
        }
    }

    /// Expands every main item, in index order.
    pub fn expand_all(&mut self)
        ensures
            final(self)@ == (ListStateView {
                expanded: Seq::new(old(self)@.counts.len(), |k: int| k as usize),
                ..old(self)@
            }),
    {
        let n = self.num_elements.len();
        let mut expanded: Vec<usize> = Vec::new();
        let mut k: usize = 0;
        while k < n
            invariant
                k <= n,
                expanded@ == Seq::new(k as nat, |m: int| m as usize),
            decreases n - k,
        {
            expanded.push(k);
            k = k + 1;
        }
        self.expanded = expanded;
    }

    /// Expands the selected main item, unless it already is. Does nothing
    /// when nothing is selected.
    pub fn expand_selected(&mut self)
        ensures
            final(self)@ == match old(self)@.selected {
                Some((i, _)) => if old(self)@.expanded.contains(i) {
                    old(self)@
                } else {
                    ListStateView { expanded: old(self)@.expanded.push(i), ..old(self)@ }
                },
                None => old(self)@,
            },
    {
        if let Some((i, _)) = self.selected {
            if !self.is_expanded(i) {
                self.expanded.push(i);
            }
        }
    }

    /// The selected child of main item `index`: `None` when another main
    /// item, no child, or nothing at all is selected.
    pub fn get_selected_child(&self, index: usize) -> (r: Option<usize>)
        ensures
            r == match self@.selected {
                Some((i, j)) => if i == index { j } else { None },
                None => None,
            },
    {
        match self.selected {
            Some((i, j)) => if i == index { j } else { None },
            None => None,
        }
    }

    /// Whether main item `index` is selected, itself or through a child.
    pub fn is_selected(&self, index: usize) -> (r: bool)
        ensures
            r == (self@.selected is Some && self@.selected->Some_0.0 == index),
    {
        match self.selected {
            Some((i, _)) => i == index,
            None => false,
        }
    }

    /// Whether main item `index` is expanded.
    pub fn is_expanded(&self, index: usize) -> (r: bool)
        ensures
            r == self@.expanded.contains(index),
    {
        holds_index(&self.expanded, index)
    }

    /// Selects the next element. From nothing it selects the first main item.
    /// In an expanded item it walks through the children before moving on to
    /// the next main item; past the last main item it wraps around to the
    /// first when wrapping is on and stays otherwise. Does nothing in an
    /// empty list.
    pub fn next(&mut self)
        ensures
            final(self)@ == (ListStateView {
                selected: next_after(
                    old(self)@.selected,
                    old(self)@.counts,
                    old(self)@.expanded,
                    old(self)@.wrap,
                ),
                ..old(self)@
            }),
    {
        let n = self.num_elements.len();
        if n == 0 {
            return ;
        }
        let target: Selection = match self.selected {
            None => (0, None),
            Some((i, j)) => {
                if i < n && self.is_expanded(i) {
                    match j {
                        None => (i, Some(0)),
                        Some(c) => if c >= self.num_elements[i].saturating_sub(1) {
                            Self::next_main_item(i, n, self.infinite_scrolling)
                        } else {
                            (i, Some(c + 1))
                        },
                    }
                } else {
                    Self::next_main_item(i, n, self.infinite_scrolling)
                }
            },
        };
        self.select_child(Some(target));
    }

    fn next_main_item(index: usize, len: usize, wrap: bool) -> (r: Selection)
        requires
            len > 0,
        ensures
            r == next_main(index, len as nat, wrap),
    {
        if index >= len - 1 {
            if wrap {
                (0, None)
            } else {
                (index, None)
            }
        } else {
            (index + 1, None)
        }
    }

    /// Selects the previous element. From nothing it selects the first main
    /// item. From a child it moves to the child before, or to the main item
    /// from its first child. From a main item it moves to the main item
    /// before (wrapping around to the last when wrapping is on, staying
    /// otherwise), entering it at its last child when it is expanded. Does
    /// nothing in an empty list.
    pub fn previous(&mut self)
        ensures
            final(self)@ == (ListStateView {
                selected: previous_after(
                    old(self)@.selected,
                    old(self)@.counts,
                    old(self)@.expanded,
                    old(self)@.wrap,
                ),
                ..old(self)@
            }),
    {
        let n = self.num_elements.len();
        if n == 0 {
            return ;
        }
        let target: Selection = match self.selected {
            None => (0, None),
            Some((i, Some(c))) if i < n => if c == 0 {
                (i, None)
            } else {
                (i, Some(c - 1))
            },
            Some((i, _)) => self.previous_main_item(i),
        };
        self.select_child(Some(target));
    }

    fn previous_main_item(&self, index: usize) -> (r: Selection)
        requires
            self@.counts.len() > 0,
        ensures
            r == previous_main(index, self@.counts, self@.expanded, self@.wrap),
    {
        if index == 0 && !self.infinite_scrolling {
            return (index, None);
        }
        let n = self.num_elements.len();
        let p: usize = if index == 0 {
            n - 1
        } else {
            index - 1
        };
        if self.is_expanded(p) && p < n && self.num_elements[p] > 0 {
            (p, Some(self.num_elements[p] - 1))
        } else {
            (p, None)
        }
    }

    /// Records how many children each main item now has. Expanded indices
    /// past the new end are dropped; the selection is left as it is.
    pub fn set_num_elements(&mut self, num_elements: Vec<usize>)
        ensures
            final(self)@ == (ListStateView {
                counts: num_elements@,
                expanded: old(self)@.expanded.filter(below(num_elements@.len())),
                ..old(self)@
            }),
    {
        self.expanded = keep_below(&self.expanded, num_elements.len());
        self.num_elements = num_elements;
    }
}

} // verus!
