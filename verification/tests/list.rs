use vinyl_catalog::list::StatefulList;

#[test]
fn next_wraps_from_last_to_first() {
    let mut l = StatefulList::with_items(vec![10u32, 20, 30]);
    assert_eq!(l.state, None);
    l.next();
    assert_eq!(l.state, Some(0));
    l.next();
    l.next();
    assert_eq!(l.state, Some(2));
    l.next();
    assert_eq!(l.state, Some(0));
}

#[test]
fn previous_wraps_from_first_to_last() {
    let mut l = StatefulList::with_items(vec![10u32, 20, 30]);
    l.next();
    assert_eq!(l.state, Some(0));
    l.previous();
    assert_eq!(l.state, Some(2));
    l.previous();
    assert_eq!(l.state, Some(1));
}

#[test]
fn previous_with_no_selection_selects_first() {
    let mut l = StatefulList::with_items(vec![1u32, 2]);
    l.previous();
    assert_eq!(l.state, Some(0));
}

#[test]
fn empty_list_keeps_no_selection() {
    let mut l: StatefulList<u32> = StatefulList::with_items(vec![]);
    l.next();
    assert_eq!(l.state, None);
    l.previous();
    assert_eq!(l.state, None);
}

#[test]
fn unselect_drops_the_cursor() {
    let mut l = StatefulList::with_items(vec![1u32]);
    l.next();
    assert_eq!(l.state, Some(0));
    l.unselect();
    assert_eq!(l.state, None);
}

#[test]
fn selected_returns_the_item_under_the_cursor() {
    let mut l = StatefulList::with_items(vec![5u32, 6]);
    assert_eq!(l.selected(), None);
    l.next();
    l.next();
    assert_eq!(l.selected(), Some(&6));
}

#[test]
fn update_selected_replaces_in_place() {
    let mut l = StatefulList::with_items(vec![5u32, 6]);
    l.next();
    l.update_selected(50);
    assert_eq!(l.items, vec![50, 6]);
    assert_eq!(l.state, Some(0));
}

#[test]
fn remove_at_index_steps_the_cursor_back() {
    let mut l = StatefulList::with_items(vec![1u32, 2, 3]);
    l.next();
    l.next();
    assert_eq!(l.state, Some(1));
    l.remove_at_index(1);
    assert_eq!(l.items, vec![1, 3]);
    assert_eq!(l.state, Some(0));
}

#[test]
fn removal_clamps_a_cursor_at_the_top() {
    let mut l = StatefulList::with_items(vec![1u32, 2, 3]);
    l.next();
    assert_eq!(l.state, Some(0));
    l.remove_at_index(1);
    assert_eq!(l.items, vec![1, 3]);
    assert_eq!(l.state, Some(0));
}

#[test]
fn removing_the_last_item_steps_the_cursor_back() {
    let mut l = StatefulList::with_items(vec![1u32, 2, 3]);
    l.next();
    l.previous();
    assert_eq!(l.state, Some(2));
    l.remove_at_index(2);
    assert_eq!(l.items, vec![1, 2]);
    assert_eq!(l.state, Some(1));
}

#[test]
fn removing_the_only_item_clears_the_cursor() {
    let mut l = StatefulList::with_items(vec![1u32]);
    l.next();
    l.remove_at_index(0);
    assert!(l.items.is_empty());
    assert_eq!(l.state, None);
}
