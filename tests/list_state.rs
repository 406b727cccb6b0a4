use tui_widget_list::ListState;

fn state_with(counts: Vec<usize>) -> ListState {
    let mut state = ListState::default();
    state.set_num_elements(counts);
    state
}

#[test]
fn default_state_is_empty() {
    let state = ListState::default();
    assert_eq!(state.selected, None);
    assert_eq!(state.selected(), None);
    assert!(!state.is_selected(0));
    assert!(!state.is_expanded(0));
    assert_eq!(state.get_selected_child(0), None);
}

#[test]
fn next_and_previous_on_empty_list_do_nothing() {
    let mut state = ListState::default();
    state.next();
    assert_eq!(state.selected, None);
    state.previous();
    assert_eq!(state.selected, None);
    state.select_child(Some((3, Some(1))));
    state.next();
    assert_eq!(state.selected, Some((3, Some(1))));
    state.previous();
    assert_eq!(state.selected, Some((3, Some(1))));
}

#[test]
fn select_sets_main_item() {
    let mut state = state_with(vec![1, 1]);
    state.select_child(Some((1, Some(0))));
    state.select(Some(0));
    assert_eq!(state.selected, Some((0, None)));
    assert_eq!(state.selected(), Some(0));
    state.select(None);
    assert_eq!(state.selected, None);
    assert_eq!(state.selected(), None);
}

#[test]
fn select_child_sets_whole_selection() {
    let mut state = state_with(vec![3]);
    state.select_child(Some((0, Some(2))));
    assert_eq!(state.selected, Some((0, Some(2))));
    assert_eq!(state.selected(), Some(0));
    assert!(state.is_selected(0));
    assert!(!state.is_selected(1));
    assert_eq!(state.get_selected_child(0), Some(2));
    assert_eq!(state.get_selected_child(1), None);
    state.select_child(None);
    assert_eq!(state.selected, None);
}

#[test]
fn first_next_and_previous_select_first_item() {
    let mut state = state_with(vec![0, 0, 0]);
    state.next();
    assert_eq!(state.selected, Some((0, None)));
    let mut state = state_with(vec![0, 0, 0]);
    state.previous();
    assert_eq!(state.selected, Some((0, None)));
}

#[test]
fn next_walks_through_main_items_and_wraps() {
    let mut state = state_with(vec![0, 0, 0]);
    state.next();
    state.next();
    state.next();
    assert_eq!(state.selected, Some((2, None)));
    state.next();
    assert_eq!(state.selected, Some((0, None)));
    // one full cycle from the first item comes back to it
    state.next();
    state.next();
    state.next();
    assert_eq!(state.selected, Some((0, None)));
}

#[test]
fn next_without_wrap_stays_on_last_item() {
    let mut state = state_with(vec![0, 0, 0]);
    state.set_infinite_scrolling(false);
    for _ in 0..5 {
        state.next();
    }
    assert_eq!(state.selected, Some((2, None)));
}

#[test]
fn next_then_previous_round_trips() {
    let counts = vec![2, 0, 1];
    let starts = [
        (0, None),
        (0, Some(0)),
        (0, Some(1)),
        (1, None),
        (2, None),
        (2, Some(0)),
    ];
    for start in starts {
        let mut state = state_with(counts.clone());
        state.select(Some(0));
        state.expand_selected();
        state.select(Some(2));
        state.expand_selected();
        state.select_child(Some(start));
        state.next();
        state.previous();
        assert_eq!(state.selected, Some(start));
    }
    for start in [(0, None), (1, None), (2, None)] {
        let mut state = state_with(counts.clone());
        state.select_child(Some(start));
        state.next();
        state.previous();
        assert_eq!(state.selected, Some(start));
    }
}

#[test]
fn children_are_walked_then_left() {
    let mut state = state_with(vec![0, 3, 0]);
    state.select(Some(1));
    state.expand_selected();
    state.next();
    assert_eq!(state.selected, Some((1, Some(0))));
    state.next();
    assert_eq!(state.selected, Some((1, Some(1))));
    state.next();
    assert_eq!(state.selected, Some((1, Some(2))));
    state.next();
    assert_eq!(state.selected, Some((2, None)));
    state.previous();
    assert_eq!(state.selected, Some((1, Some(2))));
}

#[test]
fn previous_steps_back_through_children() {
    let mut state = state_with(vec![3]);
    state.select(Some(0));
    state.expand_selected();
    state.select_child(Some((0, Some(2))));
    state.previous();
    assert_eq!(state.selected, Some((0, Some(1))));
    state.previous();
    assert_eq!(state.selected, Some((0, Some(0))));
    state.previous();
    assert_eq!(state.selected, Some((0, None)));
}

#[test]
fn previous_into_expanded_item_without_children_selects_it() {
    let mut state = state_with(vec![0, 0]);
    state.select(Some(0));
    state.expand_selected();
    state.select(Some(1));
    state.previous();
    assert_eq!(state.selected, Some((0, None)));
}

#[test]
fn next_into_expanded_item_without_children_selects_child_zero() {
    let mut state = state_with(vec![0, 0]);
    state.select(Some(0));
    state.expand_selected();
    state.next();
    assert_eq!(state.selected, Some((0, Some(0))));
    state.next();
    assert_eq!(state.selected, Some((1, None)));
}

#[test]
fn out_of_range_selection_moves_as_main_item() {
    let mut state = state_with(vec![1, 1]);
    state.select_child(Some((5, Some(0))));
    state.next();
    assert_eq!(state.selected, Some((0, None)));
    let mut state = state_with(vec![1, 1]);
    state.set_infinite_scrolling(false);
    state.select_child(Some((5, Some(0))));
    state.next();
    assert_eq!(state.selected, Some((5, None)));
    state.previous();
    assert_eq!(state.selected, Some((4, None)));
}

#[test]
fn collapse_all_clears_expansion_and_child() {
    let mut state = state_with(vec![2, 2, 2]);
    state.expand_all();
    assert!(state.is_expanded(0));
    assert!(state.is_expanded(1));
    assert!(state.is_expanded(2));
    state.select_child(Some((1, Some(1))));
    state.collapse_all();
    assert!(!state.is_expanded(0));
    assert!(!state.is_expanded(1));
    assert!(!state.is_expanded(2));
    assert_eq!(state.selected, Some((1, None)));
    let mut state = state_with(vec![2]);
    state.expand_all();
    state.collapse_all();
    assert_eq!(state.selected, None);
    assert!(!state.is_expanded(0));
}

#[test]
fn collapse_selected_only_touches_selected_item() {
    let mut state = state_with(vec![2, 2]);
    state.expand_all();
    state.select_child(Some((0, Some(1))));
    state.collapse_selected();
    assert!(!state.is_expanded(0));
    assert!(state.is_expanded(1));
    assert_eq!(state.selected, Some((0, None)));
    // nothing selected: nothing changes
    state.select(None);
    state.collapse_selected();
    assert!(state.is_expanded(1));
}

#[test]
fn expand_all_covers_every_main_item() {
    let mut state = state_with(vec![1, 0, 4]);
    state.expand_all();
    assert!(state.is_expanded(0));
    assert!(state.is_expanded(1));
    assert!(state.is_expanded(2));
    assert!(!state.is_expanded(3));
}

#[test]
fn expand_selected_adds_selected_item_once() {
    let mut state = state_with(vec![1, 1]);
    state.expand_selected();
    assert!(!state.is_expanded(0));
    state.select(Some(1));
    state.expand_selected();
    state.expand_selected();
    assert!(state.is_expanded(1));
    assert!(!state.is_expanded(0));
    state.collapse_selected();
    assert!(!state.is_expanded(1));
}

#[test]
fn set_num_elements_prunes_expanded_indices() {
    let mut state = state_with(vec![1, 1, 1, 1]);
    state.expand_all();
    state.set_num_elements(vec![1, 1]);
    assert!(state.is_expanded(0));
    assert!(state.is_expanded(1));
    assert!(!state.is_expanded(2));
    assert!(!state.is_expanded(3));
    state.set_num_elements(vec![1, 1, 1, 1]);
    assert!(!state.is_expanded(2));
    assert!(state.is_expanded(1));
}

#[test]
fn set_num_elements_keeps_selection() {
    let mut state = state_with(vec![1, 1, 1]);
    state.select(Some(2));
    state.set_num_elements(vec![1]);
    assert_eq!(state.selected, Some((2, None)));
}

#[test]
fn scenario_forward_through_children() {
    let mut state = state_with(vec![2, 0, 1]);
    state.next();
    assert_eq!(state.selected, Some((0, None)));
    state.expand_selected();
    state.next();
    assert_eq!(state.selected, Some((0, Some(0))));
    state.next();
    assert_eq!(state.selected, Some((0, Some(1))));
    state.next();
    assert_eq!(state.selected, Some((1, None)));
    state.next();
    assert_eq!(state.selected, Some((2, None)));
    state.next();
    assert_eq!(state.selected, Some((0, None)));
}

#[test]
fn scenario_backward_entry_at_last_child() {
    let mut state = state_with(vec![2, 0, 1]);
    state.select(Some(2));
    state.expand_selected();
    state.select(Some(0));
    state.previous();
    assert_eq!(state.selected, Some((2, Some(0))));
}

#[test]
fn without_wrap_ends_do_not_move() {
    let mut state = state_with(vec![2, 0, 1]);
    state.set_infinite_scrolling(false);
    state.select(Some(0));
    state.previous();
    assert_eq!(state.selected, Some((0, None)));
    state.select(Some(2));
    state.next();
    assert_eq!(state.selected, Some((2, None)));
}

#[test]
fn with_wrap_previous_on_first_goes_to_last() {
    let mut state = state_with(vec![2, 0, 1]);
    state.select(Some(0));
    state.previous();
    assert_eq!(state.selected, Some((2, None)));
}

#[test]
fn view_state_is_recorded() {
    let mut state = state_with(vec![0, 0, 0]);
    assert_eq!(state.offset(), 0);
    assert_eq!(state.first_truncated(), 0);
    state.set_view_state(2, 3);
    assert_eq!(state.offset(), 2);
    assert_eq!(state.first_truncated(), 3);
    state.next();
    assert_eq!(state.offset(), 2);
    assert_eq!(state.first_truncated(), 3);
}

#[test]
fn clearing_selection_resets_view() {
    let mut state = state_with(vec![0, 0, 0]);
    state.select(Some(1));
    state.set_view_state(1, 4);
    state.select(Some(2));
    assert_eq!(state.offset(), 1);
    assert_eq!(state.first_truncated(), 4);
    state.select(None);
    assert_eq!(state.offset(), 0);
    assert_eq!(state.first_truncated(), 0);

    state.set_view_state(2, 5);
    state.select_child(Some((2, None)));
    assert_eq!(state.offset(), 2);
    assert_eq!(state.first_truncated(), 5);
    state.select_child(None);
    assert_eq!(state.offset(), 0);
    assert_eq!(state.first_truncated(), 0);
}

#[test]
fn next_counts_modulo_length() {
    for k in 0..10usize {
        let mut state = state_with(vec![0, 0, 0]);
        for _ in 0..=k {
            state.next();
        }
        assert_eq!(state.selected, Some((k % 3, None)));
        let mut state = state_with(vec![0, 0, 0]);
        state.set_infinite_scrolling(false);
        for _ in 0..=k {
            state.next();
        }
        assert_eq!(state.selected, Some((k.min(2), None)));
    }
}
