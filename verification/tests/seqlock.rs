use physics_mujoco_frontend::seqlock::SnapshotReader;

#[test]
fn nothing_published_is_not_read() {
    let reader = SnapshotReader::new();
    assert_eq!(reader.begin(Some(0)), None);
    assert_eq!(reader.begin(None), None);
}

#[test]
fn writer_inside_the_block_is_not_read() {
    let reader = SnapshotReader::new();
    assert_eq!(reader.begin(Some(3)), None);
    assert_eq!(reader.begin(Some(-1)), None);
    assert_eq!(reader.begin(Some(i32::MAX)), None);
}

#[test]
fn whole_frame_is_taken_over_once() {
    let mut reader = SnapshotReader::new();
    assert_eq!(reader.begin(Some(4)), Some(4));
    assert!(reader.still_whole(4, Some(4)));
    assert_eq!(reader.finish(4, Some(4), Some(12)), Some(12));
    assert_eq!(reader.begin(Some(4)), None);
    assert_eq!(reader.begin(Some(6)), Some(6));
}

#[test]
fn torn_frame_changes_nothing() {
    let mut reader = SnapshotReader::new();
    assert!(!reader.still_whole(4, Some(5)));
    assert!(!reader.still_whole(4, Some(6)));
    assert_eq!(reader.finish(4, Some(6), Some(12)), None);
    assert_eq!(reader.begin(Some(4)), Some(4));
}

#[test]
fn failed_look_drops_the_copy() {
    let mut reader = SnapshotReader::new();
    assert!(!reader.still_whole(4, None));
    assert_eq!(reader.finish(4, None, Some(1)), None);
}

#[test]
fn wrapped_number_is_read_like_any_other() {
    let reader = SnapshotReader::new();
    assert_eq!(reader.begin(Some(i32::MIN)), Some(i32::MIN));
    assert_eq!(reader.begin(Some(-2)), Some(-2));
}

#[test]
fn contact_count_is_never_negative() {
    let mut reader = SnapshotReader::new();
    assert_eq!(reader.finish(2, Some(2), Some(-7)), Some(0));
    assert_eq!(reader.finish(4, Some(4), None), Some(0));
    assert_eq!(reader.finish(6, Some(6), Some(i32::MAX)), Some(i32::MAX as usize));
}
