use robot_bus::qos::{
    ws_subscribe_queue_capacity, HighWaterMark, QosProfile, SubscriptionOverflowPolicy,
};

#[test]
fn keep_last_maps_to_hwm() {
    let qos = QosProfile::keep_last(16);
    assert_eq!(qos.depth(), 16);
    assert_eq!(qos.to_hwm(), HighWaterMark::new(16, 16));
    assert_eq!(QosProfile::default_profile().depth(), HighWaterMark::stream().snd);
}

#[test]
fn ws_subscribe_queue_honors_keep_last_and_default() {
    assert_eq!(ws_subscribe_queue_capacity(0), 64);
    assert_eq!(ws_subscribe_queue_capacity(-1), 64);
    assert_eq!(ws_subscribe_queue_capacity(10), 10);
    assert_eq!(ws_subscribe_queue_capacity(1), 1);
    assert_eq!(ws_subscribe_queue_capacity(i32::MAX), 1_048_576);
}

#[test]
fn keep_last_one_is_the_latest_message_profile() {
    assert_eq!(QosProfile::keep_last(1).depth(), 1);
    assert_eq!(
        SubscriptionOverflowPolicy::default(),
        SubscriptionOverflowPolicy::DropOldest
    );
}

#[test]
fn overflow_policy_wire_values() {
    assert_eq!(SubscriptionOverflowPolicy::from_wire(0), Some(SubscriptionOverflowPolicy::DropNewest));
    assert_eq!(SubscriptionOverflowPolicy::from_wire(1), Some(SubscriptionOverflowPolicy::DropOldest));
    assert_eq!(SubscriptionOverflowPolicy::from_wire(2), Some(SubscriptionOverflowPolicy::Latest));
    assert_eq!(SubscriptionOverflowPolicy::from_wire(3), None);
    assert_eq!(QosProfile::default().depth(), 8);
    assert_eq!(robot_bus::qos::qos_profile_default().to_hwm(), HighWaterMark::stream());
    assert_eq!(ws_subscribe_queue_capacity(1_048_577), 1_048_576);
}
