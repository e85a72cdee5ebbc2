use robot_bus::callback_group::SubscriptionCallback;
use robot_bus::topic_callbacks::{for_each_matching_callback, TopicCallbacks};
use std::cell::RefCell;

fn entry(id: u64, key: u64) -> SubscriptionCallback<&'static str, ()> {
    SubscriptionCallback { id, key, callback: "cb", group: () }
}

#[test]
fn exact_then_prefix_matches_each_callback_once() {
    let mut table = TopicCallbacks::new();
    table.add("/cam", entry(1, 10));
    table.add("/ca", entry(2, 20));
    table.add("", entry(3, 30));
    table.add("/cam", entry(4, 20));
    table.add("/other", entry(5, 50));
    let found = table.matching_callbacks("/cam");
    let ids: Vec<u64> = found.iter().map(|p| table.entry_at(*p).id).collect();
    assert_eq!(ids, vec![1, 4]);
    let ids: Vec<u64> = table
        .matching_callbacks("/cam/raw")
        .iter()
        .map(|p| table.entry_at(*p).id)
        .collect();
    assert_eq!(ids, vec![1, 4]);
    let seen = RefCell::new(Vec::new());
    for_each_matching_callback("/cat", &table, |e| seen.borrow_mut().push(e.id));
    assert_eq!(seen.into_inner(), vec![2]);
    assert!(table.matching_callbacks("nothing").is_empty());
}
