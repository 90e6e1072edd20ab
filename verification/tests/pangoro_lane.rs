use bridger::chains::pangoro::{
    delivery_messages_count, PangoroMessagesToPangolinRunner, SOURCE_NAME, TARGET_NAME,
};

#[test]
fn messages_count_is_inclusive() {
    assert_eq!(delivery_messages_count(1, 1), 1);
    assert_eq!(delivery_messages_count(5, 9), 5);
    assert_eq!(delivery_messages_count(0, u32::MAX as u64 - 1), u32::MAX);
    assert_eq!(delivery_messages_count(0, u32::MAX as u64), 0);
}

#[test]
fn batch_size_is_a_third_of_the_extrinsic() {
    assert_eq!(PangoroMessagesToPangolinRunner::max_messages_size_in_single_batch(0), 0);
    assert_eq!(PangoroMessagesToPangolinRunner::max_messages_size_in_single_batch(10), 3);
    assert_eq!(PangoroMessagesToPangolinRunner::max_messages_size_in_single_batch(3_932_160), 1_310_720);
}

#[test]
fn lane_names_and_stall_timeout() {
    assert_eq!(SOURCE_NAME, "pangoro");
    assert_eq!(TARGET_NAME, "pangolin");
    assert_eq!(PangoroMessagesToPangolinRunner::stall_timeout_secs(), 300);
}
