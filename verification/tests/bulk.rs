use dedich32::bulk::BlockStream;

#[test]
fn block_stream_steps_every_block() {
    let mut s = BlockStream::new(3);
    assert_eq!(s.next(), Some(true));
    assert_eq!(s.next(), Some(true));
    assert_eq!(s.next(), Some(true));
    assert_eq!(s.next(), None);
    assert!(!s.failed());
}

#[test]
fn block_stream_stops_transfers_after_error() {
    let mut s = BlockStream::new(3);
    assert_eq!(s.next(), Some(true));
    s.record_error();
    assert_eq!(s.next(), Some(false));
    assert_eq!(s.next(), Some(false));
    assert_eq!(s.next(), None);
    assert!(s.failed());
}
