use elegant_clipboard::ordering::{bumped_sort_order, group_sort_orders, toggled_favorite};

#[test]
fn new_favorite_goes_above_the_others() {
    assert_eq!(toggled_favorite(false, 5), (true, 6));
    assert_eq!(toggled_favorite(false, 0), (true, 1));
}

#[test]
fn removed_favorite_gets_order_zero() {
    assert_eq!(toggled_favorite(true, 9), (false, 0));
}

#[test]
fn bumped_item_goes_above_the_history() {
    assert_eq!(bumped_sort_order(false, 41), Some(42));
    assert_eq!(bumped_sort_order(false, 0), Some(1));
}

#[test]
fn pinned_item_is_not_bumped() {
    assert_eq!(bumped_sort_order(true, 41), None);
}

#[test]
fn sort_orders_restart_for_each_group() {
    let groups = [None, None, Some(1), Some(1), Some(1), Some(2)];
    assert_eq!(group_sort_orders(&groups), vec![1, 2, 1, 2, 3, 1]);
}

#[test]
fn sort_orders_of_empty_list() {
    assert!(group_sort_orders(&[]).is_empty());
}
