use robot_bus::goal_table::GoalTable;

#[test]
fn read_back_what_was_written() {
    let mut t = GoalTable::new();
    assert_eq!(t.insert("g1".to_string(), 1), None);
    assert_eq!(t.insert("g2".to_string(), 2), None);
    assert_eq!(t.insert("g1".to_string(), 3), Some(1));
    assert_eq!(t.get("g1"), Some(&3));
    assert_eq!(t.get("g2"), Some(&2));
    assert!(t.contains("g2"));
    assert_eq!(t.len(), 2);
    assert_eq!(t.remove("g1"), Some(3));
    assert_eq!(t.remove("g1"), None);
    assert_eq!(t.get("g1"), None);
    assert_eq!(t.len(), 1);
}
