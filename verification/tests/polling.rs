use serial_mcp_server::codec::Encoding;
use serial_mcp_server::tools::polling::{
    poll_slice_ms, progress_elapsed_ms, rx_event, ChunkCollector, PatternWatch, PollStep,
    ReadCollector, RxEvent, WaitStep,
};

#[test]
fn poll_slices_are_clamped() {
    assert_eq!(poll_slice_ms(0), 1);
    assert_eq!(poll_slice_ms(1), 1);
    assert_eq!(poll_slice_ms(100), 100);
    assert_eq!(poll_slice_ms(250), 250);
    assert_eq!(poll_slice_ms(10_000), 250);
    assert_eq!(progress_elapsed_ms(1000, 400), 600);
    assert_eq!(progress_elapsed_ms(1000, 2000), 0);
}

#[test]
fn read_times_out_without_data() {
    let mut c = ReadCollector::new(16);
    assert_eq!(c.next(false, 1000), PollStep::Read { max_len: 16, wait_ms: 250 });
    c.no_data();
    assert_eq!(c.next(false, 100), PollStep::Read { max_len: 16, wait_ms: 100 });
    c.no_data();
    assert_eq!(c.next(true, 0), PollStep::Stop);
    assert_eq!(c.next(true, 0), PollStep::Stop);
    let o = c.outcome(1000);
    assert!(o.timed_out);
    assert!(o.bytes.is_empty());
    assert_eq!(o.elapsed_ms, 1000);
}

#[test]
fn read_settles_after_first_bytes() {
    let mut c = ReadCollector::new(8);
    assert_eq!(c.next(false, 900), PollStep::Read { max_len: 8, wait_ms: 250 });
    c.absorb(b"abc");
    assert_eq!(c.next(false, 900), PollStep::Read { max_len: 5, wait_ms: 50 });
    c.absorb(b"de");
    assert_eq!(c.next(false, 20), PollStep::Read { max_len: 3, wait_ms: 20 });
    c.no_data();
    assert_eq!(c.next(false, 20), PollStep::Stop);
    let o = c.outcome(80);
    assert!(!o.timed_out);
    assert_eq!(o.bytes, b"abcde");
}

#[test]
fn read_stops_when_full() {
    let mut c = ReadCollector::new(3);
    assert_eq!(c.next(false, 500), PollStep::Read { max_len: 3, wait_ms: 250 });
    c.absorb(b"xyz");
    assert_eq!(c.next(false, 500), PollStep::Stop);
    assert_eq!(c.outcome(5).bytes, b"xyz");
}

#[test]
fn pattern_watch_matches_when_pattern_arrives() {
    let mut w = PatternWatch::new(b"OK>".to_vec(), 1024);
    assert_eq!(w.next(false, 1000), WaitStep::Read { max_len: 256, wait_ms: 250 });
    w.absorb(b"junk before O");
    assert_eq!(w.next(false, 900), WaitStep::Read { max_len: 256, wait_ms: 250 });
    w.absorb(b"K> and tail");
    let last = w.next(false, 800);
    assert_eq!(last, WaitStep::Matched(12));
    let o = w.outcome(last);
    assert_eq!(o.match_index, Some(12));
    assert!(!o.timed_out);
    assert!(o.bytes.starts_with(b"junk before OK>"));
}

#[test]
fn pattern_watch_times_out_with_no_match() {
    let mut w = PatternWatch::new(b"OK>".to_vec(), 1024);
    w.absorb(b"only noise here");
    let last = w.next(true, 0);
    assert_eq!(last, WaitStep::TimedOut);
    let o = w.outcome(last);
    assert!(o.timed_out);
    assert!(o.match_index.is_none());
    assert!(o.bytes.windows(3).all(|x| x != b"OK>"));
}

#[test]
fn pattern_watch_stops_at_max_bytes() {
    let mut w = PatternWatch::new(b"OK>".to_vec(), 256);
    assert_eq!(w.next(false, 1000), WaitStep::Read { max_len: 256, wait_ms: 250 });
    w.absorb(&vec![b'.'; 200]);
    assert_eq!(w.next(false, 1000), WaitStep::Read { max_len: 56, wait_ms: 250 });
    w.absorb(&vec![b'.'; 56]);
    let last = w.next(false, 1000);
    assert_eq!(last, WaitStep::Full);
    let o = w.outcome(last);
    assert!(!o.timed_out);
    assert!(o.match_index.is_none());
    assert_eq!(o.bytes.len(), 256);
}

#[test]
fn chunk_collector_stops_at_timeout_or_full() {
    let mut c = ChunkCollector::new(4, 500, 200);
    assert_eq!(c.next(0), PollStep::Read { max_len: 4, wait_ms: 200 });
    assert_eq!(c.next(400), PollStep::Read { max_len: 4, wait_ms: 100 });
    c.absorb(b"ab");
    assert_eq!(c.next(410), PollStep::Read { max_len: 2, wait_ms: 90 });
    assert_eq!(c.next(500), PollStep::Stop);
    c.absorb(b"cd");
    assert_eq!(c.next(10), PollStep::Stop);
    assert_eq!(c.into_bytes(), b"abcd");
}

#[test]
fn rx_events_encode_or_drop() {
    match rx_event(Encoding::Hex, b"\x01\x02") {
        RxEvent::Data { data, bytes_read } => {
            assert_eq!(data, "01 02");
            assert_eq!(bytes_read, 2);
        }
        RxEvent::Dropped { .. } => panic!("hex always encodes"),
    }
    match rx_event(Encoding::Utf8, &[0xff, 0x00]) {
        RxEvent::Dropped { bytes_dropped, reason } => {
            assert_eq!(bytes_dropped, 2);
            assert!(reason.starts_with("Invalid UTF-8: "));
        }
        RxEvent::Data { .. } => panic!("invalid UTF-8 must be dropped"),
    }
}
