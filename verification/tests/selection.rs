use keeper_core::selection::select_feeds;

#[test]
fn feeds_are_selected_once() {
    let selection = select_feeds(
        &[Some(6), None, Some(1), Some(6)],
        &[Some(1), Some(7), None],
        &[7, 2000, 2000],
    );
    let mut ids = selection.feed_ids.clone();
    ids.sort();
    assert_eq!(ids, vec![1, 6, 7, 2000]);
    assert_eq!(selection.extra_feeds.len(), 2);
    assert!(selection.extra_feeds.contains(&7));
    assert!(selection.extra_feeds.contains(&2000));
}

#[test]
fn markets_without_feeds_select_nothing() {
    let selection = select_feeds(&[None, None], &[None], &[]);
    assert!(selection.feed_ids.is_empty());
    assert!(selection.extra_feeds.is_empty());
}
