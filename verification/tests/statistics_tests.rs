use traffic_monitor::statistics::{
    handle_message, Bitrates, CaptureStats, Message, PacketData, Statistics,
};
use traffic_monitor::statistics::throttled_printer::ThrottledPrinter;

fn event(number: u64, seconds: i32, size: u32, source: u64, destination: u64) -> PacketData {
    PacketData {
        packet_number: number,
        packet_seconds: seconds,
        size,
        ethernet_destination: destination,
        ethernet_source: source,
    }
}

#[test]
fn three_events_scenario() {
    let mut s = Statistics::new();
    s.got_packet(&event(0, 10, 100, 1, 2));
    assert_eq!(s.total_bytes, 100);
    assert_eq!(s.rate_bytes_count, vec![100]);
    s.got_packet(&event(1, 10, 200, 1, 2));
    assert_eq!(s.total_bytes, 300);
    assert_eq!(s.rate_bytes_count, vec![300]);
    s.got_packet(&event(2, 12, 50, 1, 2));
    assert_eq!(s.total_bytes, 350);
    assert_eq!(s.rate_bytes_count, vec![50, 300]);
    assert_eq!(s.total_seconds, 2);
}

#[test]
fn total_bytes_is_exact_sum() {
    let mut s = Statistics::new();
    let sizes: [u32; 6] = [0, 1, 1500, 64, 9000, 42];
    let mut expected: u64 = 0;
    for (i, size) in sizes.iter().enumerate() {
        s.got_packet(&event(i as u64, 10 + i as i32 * 5, *size, 7, 8));
        expected += *size as u64;
    }
    assert_eq!(s.total_bytes, expected);
}

#[test]
fn address_frequencies_count_occurrences() {
    let mut s = Statistics::new();
    s.got_packet(&event(0, 10, 10, 0xa, 0xb));
    s.got_packet(&event(1, 10, 10, 0xa, 0xc));
    s.got_packet(&event(2, 10, 10, 0xd, 0xb));
    s.got_packet(&event(3, 10, 10, 0xa, 0xb));
    assert_eq!(s.ethernet_sources.get(&0xa).copied(), Some(3));
    assert_eq!(s.ethernet_sources.get(&0xd).copied(), Some(1));
    assert_eq!(s.ethernet_sources.get(&0xb).copied(), None);
    assert_eq!(s.ethernet_destinations.get(&0xb).copied(), Some(3));
    assert_eq!(s.ethernet_destinations.get(&0xc).copied(), Some(1));
    assert_eq!(s.ethernet_destinations.get(&0xa).copied(), None);
}

#[test]
fn rate_window_never_exceeds_bound() {
    let mut s = Statistics::new();
    for i in 0..200 {
        // every event is more than one second after the last: a new bucket each time
        s.got_packet(&event(i, 10 + 2 * i as i32, 1, 1, 2));
        assert!(s.rate_bytes_count.len() <= 60);
    }
    assert_eq!(s.rate_bytes_count.len(), 60);
}

#[test]
fn full_window_evicts_oldest() {
    let mut s = Statistics::new();
    // fill all 60 buckets with recognizable sizes: bucket for event i holds i
    for i in 0..60 {
        s.got_packet(&event(i, 10 + 2 * i as i32, i as u32, 1, 2));
    }
    assert_eq!(s.rate_bytes_count.len(), 60);
    // front holds the newest (59), back holds the oldest (0)
    assert_eq!(s.rate_bytes_count[0], 59);
    assert_eq!(s.rate_bytes_count[59], 0);
    // one more transition: oldest (0) evicted, previous front (59) at index 1
    s.got_packet(&event(60, 10 + 2 * 60, 777, 1, 2));
    assert_eq!(s.rate_bytes_count.len(), 60);
    assert_eq!(s.rate_bytes_count[0], 777);
    assert_eq!(s.rate_bytes_count[1], 59);
    assert_eq!(s.rate_bytes_count[59], 1);
}

#[test]
fn interval_boundary_is_strictly_more_than_one_second() {
    let mut s = Statistics::new();
    s.got_packet(&event(0, 10, 5, 1, 2));
    // 11 > 10 + 1 is false: same bucket
    s.got_packet(&event(1, 11, 7, 1, 2));
    assert_eq!(s.rate_bytes_count, vec![12]);
    // 12 > 10 + 1 is true: new bucket
    s.got_packet(&event(2, 12, 9, 1, 2));
    assert_eq!(s.rate_bytes_count, vec![9, 12]);
}

#[test]
fn first_event_in_the_first_second_opens_a_bucket() {
    // at t = 0 or 1 no interval boundary is crossed, yet the event's
    // bytes need an in-progress bucket to land in
    let mut s = Statistics::new();
    s.got_packet(&event(0, 0, 50, 1, 2));
    assert_eq!(s.rate_bytes_count, vec![50]);
    assert_eq!(s.total_bytes, 50);

    let mut s = Statistics::new();
    s.got_packet(&event(0, 1, 60, 1, 2));
    assert_eq!(s.rate_bytes_count, vec![60]);
}

#[test]
fn clock_going_backwards_clamps_elapsed_to_zero() {
    let mut s = Statistics::new();
    s.got_packet(&event(0, 10, 100, 1, 2));
    s.got_packet(&event(1, 5, 100, 1, 2));
    assert_eq!(s.total_seconds, 0);
    // moving forward again resumes normal elapsed-time accounting
    s.got_packet(&event(2, 25, 100, 1, 2));
    assert_eq!(s.total_seconds, 15);
}

#[test]
fn bitrates_zero_elapsed_yields_zero_average() {
    let s = Statistics::new();
    let b: Bitrates = s.get_bitrates();
    assert_eq!(b.avg_bytes_per_second, 0);
    assert_eq!(b.seconds_rates, Vec::<u64>::new());

    // one event: elapsed is still zero, bytes were counted
    let mut s = Statistics::new();
    s.got_packet(&event(0, 10, 1000, 1, 2));
    let b = s.get_bitrates();
    assert_eq!(b.avg_bytes_per_second, 0);
    assert_eq!(b.seconds_rates, vec![1000]);
}

#[test]
fn bitrates_average_is_total_over_elapsed() {
    let mut s = Statistics::new();
    s.got_packet(&event(0, 100, 300, 1, 2));
    s.got_packet(&event(1, 110, 401, 1, 2));
    // total 701 bytes over 10 seconds, integer division
    let b = s.get_bitrates();
    assert_eq!(b.avg_bytes_per_second, 70);
}

#[test]
fn last_second_bytes_reads_completed_interval() {
    let mut s = Statistics::new();
    let early = s.get_bitrates();
    assert_eq!(early.last_second_bytes(), 0);
    s.got_packet(&event(0, 10, 100, 1, 2));
    let one_bucket = s.get_bitrates();
    assert_eq!(one_bucket.last_second_bytes(), 0);
    s.got_packet(&event(1, 12, 50, 1, 2));
    let two_buckets = s.get_bitrates();
    assert_eq!(two_buckets.last_second_bytes(), 100);
}

#[test]
fn query_resolves_with_state_at_processing_time() {
    let mut s = Statistics::new();
    let (mut printer, _diagnostics) = ThrottledPrinter::new(1000);
    let events = [
        event(0, 10, 100, 1, 2),
        event(1, 10, 200, 1, 2),
        event(2, 12, 50, 1, 2),
    ];
    for pd in events {
        assert_eq!(handle_message(&mut s, &mut printer, Message::GotPacket(pd)), Ok(()));
    }
    let (reply_tx, reply_rx) = crossbeam_channel::bounded::<Bitrates>(1);
    assert_eq!(handle_message(&mut s, &mut printer, Message::GetBitrate(reply_tx)), Ok(()));
    let answer = reply_rx.try_recv().expect("the continuation must be invoked before handle_message returns");
    assert_eq!(answer.avg_bytes_per_second, 350 / 2);
    assert_eq!(answer.seconds_rates, vec![50, 300]);
    assert_eq!(answer.last_second_bytes(), 300);
}

#[test]
fn capture_stats_message_changes_no_state_and_is_rendered() {
    let mut s = Statistics::new();
    s.got_packet(&event(0, 10, 100, 1, 2));
    let (mut printer, diagnostics) = ThrottledPrinter::new(1000);
    let stats = CaptureStats { received: 1, dropped: 2, if_dropped: 3 };
    assert_eq!(handle_message(&mut s, &mut printer, Message::GotStatistics(stats)), Ok(()));
    assert_eq!(s.total_bytes, 100);
    assert_eq!(s.total_seconds, 0);
    assert_eq!(s.rate_bytes_count, vec![100]);
    assert_eq!(
        diagnostics.try_recv().expect("the report must reach the sink"),
        "Stats: received 1, dropped 2, dropped by interface 3"
    );
}

#[test]
fn get_string_query_is_answered() {
    let mut s = Statistics::new();
    let (mut printer, _diagnostics) = ThrottledPrinter::new(1000);
    let (reply_tx, reply_rx) = crossbeam_channel::bounded::<String>(1);
    assert_eq!(handle_message(&mut s, &mut printer, Message::GetString(reply_tx)), Ok(()));
    assert_eq!(reply_rx.try_recv().expect("the continuation must be invoked"), "Response");
}

#[test]
fn abandoned_query_is_discarded_without_fault() {
    let mut s = Statistics::new();
    let (mut printer, _diagnostics) = ThrottledPrinter::new(1000);
    let (reply_tx, reply_rx) = crossbeam_channel::bounded::<Bitrates>(1);
    drop(reply_rx);
    assert_eq!(handle_message(&mut s, &mut printer, Message::GetBitrate(reply_tx)), Ok(()));
}
