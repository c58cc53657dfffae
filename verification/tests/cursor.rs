use tododb::cursor::{
    half_page_down, half_page_up, next_item, previous_item, update_selection_after_refresh,
    update_tree_selection_after_toggle, HALF_PAGE,
};

#[test]
fn steps_go_round() {
    assert_eq!(next_item(3, Some(0)), Some(1));
    assert_eq!(next_item(3, Some(2)), Some(0));
    assert_eq!(next_item(3, Some(9)), Some(0));
    assert_eq!(next_item(3, None), Some(0));
    assert_eq!(next_item(0, Some(4)), Some(4));
    assert_eq!(next_item(0, None), None);
    assert_eq!(previous_item(3, Some(2)), Some(1));
    assert_eq!(previous_item(3, Some(0)), Some(2));
    assert_eq!(previous_item(3, None), Some(0));
    assert_eq!(previous_item(0, Some(1)), Some(1));
    assert_eq!(next_item(usize::MAX, Some(usize::MAX - 1)), Some(0));
}

#[test]
fn half_pages_stop_at_the_ends() {
    assert_eq!(HALF_PAGE, 10);
    assert_eq!(half_page_down(100, Some(5)), Some(15));
    assert_eq!(half_page_down(100, Some(89)), Some(99));
    assert_eq!(half_page_down(100, Some(95)), Some(99));
    assert_eq!(half_page_down(100, None), Some(10));
    assert_eq!(half_page_down(4, None), Some(3));
    assert_eq!(half_page_down(4, Some(usize::MAX)), Some(3));
    assert_eq!(half_page_down(0, Some(2)), Some(2));
    assert_eq!(half_page_up(100, Some(15)), Some(5));
    assert_eq!(half_page_up(100, Some(10)), Some(0));
    assert_eq!(half_page_up(100, Some(3)), Some(0));
    assert_eq!(half_page_up(100, None), Some(0));
    assert_eq!(half_page_up(0, None), None);
}

#[test]
fn selection_is_kept_in_range() {
    assert_eq!(update_selection_after_refresh(0, Some(3)), None);
    assert_eq!(update_selection_after_refresh(5, Some(3)), Some(3));
    assert_eq!(update_selection_after_refresh(5, Some(5)), Some(4));
    assert_eq!(update_selection_after_refresh(5, Some(50)), Some(4));
    assert_eq!(update_selection_after_refresh(5, None), None);
    assert_eq!(update_tree_selection_after_toggle(0, 3), None);
    assert_eq!(update_tree_selection_after_toggle(5, 3), Some(3));
    assert_eq!(update_tree_selection_after_toggle(5, 7), Some(4));
}
