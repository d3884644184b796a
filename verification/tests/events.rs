use std::collections::VecDeque;
use timesync::events::{
    decode_event, drain_until_match, find_queue_event, find_queue_event_or_newest,
    newest_queued_before, route_event, take_matching_event, take_queue_event, Event, EventLayout,
    Route, RoutingPolicy,
};
use timesync::protocol::MessageType;

fn ev(event_type: u8, timestamp: u64, msg_type: u8, seq: u64) -> Event {
    Event { event_type, timestamp, pid: 0, msg_type, seq, tcp_seq: 0 }
}

fn record(layout: EventLayout) -> Vec<u8> {
    let mut b = vec![0u8; layout.size()];
    b[0] = 2;
    b[8..16].copy_from_slice(&1_000_000u64.to_le_bytes());
    match layout {
        EventLayout::Basic => {
            b[16] = 5;
            b[24..32].copy_from_slice(&9u64.to_le_bytes());
        }
        _ => {
            b[16..20].copy_from_slice(&4321u32.to_le_bytes());
            b[24] = 5;
            b[32..40].copy_from_slice(&9u64.to_le_bytes());
            if layout == EventLayout::WithTcpSeq {
                b[40..48].copy_from_slice(&77u64.to_le_bytes());
            }
        }
    }
    b
}

#[test]
fn event_layout_sizes() {
    assert_eq!(EventLayout::Basic.size(), 32);
    assert_eq!(EventLayout::WithPid.size(), 40);
    assert_eq!(EventLayout::WithTcpSeq.size(), 48);
}

#[test]
fn decode_basic_event() {
    let e = decode_event(EventLayout::Basic, &record(EventLayout::Basic)).unwrap();
    assert_eq!(e, Event { event_type: 2, timestamp: 1_000_000, pid: 0, msg_type: 5, seq: 9, tcp_seq: 0 });
}

#[test]
fn decode_event_with_pid() {
    let e = decode_event(EventLayout::WithPid, &record(EventLayout::WithPid)).unwrap();
    assert_eq!(e, Event { event_type: 2, timestamp: 1_000_000, pid: 4321, msg_type: 5, seq: 9, tcp_seq: 0 });
}

#[test]
fn decode_event_with_tcp_seq() {
    let e = decode_event(EventLayout::WithTcpSeq, &record(EventLayout::WithTcpSeq)).unwrap();
    assert_eq!(e, Event { event_type: 2, timestamp: 1_000_000, pid: 4321, msg_type: 5, seq: 9, tcp_seq: 77 });
}

#[test]
fn decode_event_rejects_wrong_size() {
    assert_eq!(decode_event(EventLayout::Basic, &[0u8; 40]), None);
    assert_eq!(decode_event(EventLayout::WithPid, &[0u8; 32]), None);
    assert_eq!(decode_event(EventLayout::WithTcpSeq, &[0u8; 47]), None);
}

#[test]
fn routing_by_kind_and_pid() {
    let p = RoutingPolicy::PerKindOwnPid;
    let mut e = ev(0, 55, 0, 0);
    e.pid = 7;
    assert_eq!(route_event(p, &e, 7), Route::SetKernelZero(55));
    e.event_type = 1;
    assert_eq!(route_event(p, &e, 7), Route::Receive);
    e.event_type = 2;
    assert_eq!(route_event(p, &e, 7), Route::Send);
    e.event_type = 3;
    assert_eq!(route_event(p, &e, 7), Route::Queue);
    e.event_type = 4;
    assert_eq!(route_event(p, &e, 7), Route::Unknown);
    e.event_type = 1;
    assert_eq!(route_event(p, &e, 8), Route::Unknown);
}

#[test]
fn routing_queue_apart_and_single() {
    assert_eq!(route_event(RoutingPolicy::QueueApart, &ev(0, 3, 0, 0), 1), Route::SetKernelZero(3));
    assert_eq!(route_event(RoutingPolicy::QueueApart, &ev(3, 3, 0, 0), 1), Route::Queue);
    assert_eq!(route_event(RoutingPolicy::QueueApart, &ev(1, 3, 0, 0), 1), Route::Shared);
    assert_eq!(route_event(RoutingPolicy::QueueApart, &ev(9, 3, 0, 0), 1), Route::Shared);
    assert_eq!(route_event(RoutingPolicy::SingleQueue, &ev(0, 4, 0, 0), 1), Route::SetKernelZero(4));
    assert_eq!(route_event(RoutingPolicy::SingleQueue, &ev(3, 4, 0, 0), 1), Route::Shared);
}

#[test]
fn take_matching_returns_first_match_and_clears() {
    let mut q: VecDeque<Event> = VecDeque::new();
    q.push_back(ev(1, 10, 1, 3));
    q.push_back(ev(1, 20, 1, 4));
    q.push_back(ev(1, 30, 1, 4));
    q.push_back(ev(1, 40, 1, 5));
    let r = take_matching_event(&mut q, 4, MessageType::NTP, 1);
    assert_eq!(r, Some(ev(1, 20, 1, 4)));
    assert!(q.is_empty());
}

#[test]
fn take_matching_without_match_keeps_queue() {
    let mut q: VecDeque<Event> = VecDeque::new();
    q.push_back(ev(1, 10, 1, 3));
    q.push_back(ev(2, 20, 1, 4));
    let r = take_matching_event(&mut q, 4, MessageType::NTP, 1);
    assert_eq!(r, None);
    assert_eq!(q.len(), 2);
    let r = take_matching_event(&mut q, 4, MessageType::PTP, 2);
    assert_eq!(r, None);
}

#[test]
fn drain_until_match_keeps_later_events() {
    let mut q: VecDeque<Event> = VecDeque::new();
    q.push_back(ev(1, 10, 5, 0));
    q.push_back(ev(2, 20, 5, 1));
    q.push_back(ev(2, 30, 5, 2));
    let r = drain_until_match(&mut q, 1, MessageType::Calc, 2);
    assert_eq!(r, Some(ev(2, 20, 5, 1)));
    assert_eq!(q.len(), 1);
    assert_eq!(q[0], ev(2, 30, 5, 2));
}

#[test]
fn drain_until_match_without_match_empties() {
    let mut q: VecDeque<Event> = VecDeque::new();
    q.push_back(ev(1, 10, 5, 0));
    q.push_back(ev(2, 20, 5, 1));
    assert_eq!(drain_until_match(&mut q, 9, MessageType::Calc, 2), None);
    assert!(q.is_empty());
}

fn queue_events() -> VecDeque<Event> {
    // relative times (kernel zero 100): 0, 50, 80, 120
    let mut q = VecDeque::new();
    for ts in [100u64, 150, 180, 220] {
        q.push_back(ev(3, ts, 5, 0));
    }
    q
}

#[test]
fn newest_queued_before_scans_from_the_back() {
    let q = queue_events();
    assert_eq!(newest_queued_before(&q, 100, 100), Some(2));
    assert_eq!(newest_queued_before(&q, 100, 200), Some(3));
    assert_eq!(newest_queued_before(&q, 100, 60), Some(1));
    // the oldest entry is never considered
    assert_eq!(newest_queued_before(&q, 100, 10), None);
    assert_eq!(newest_queued_before(&VecDeque::new(), 0, 10), None);
}

#[test]
fn find_queue_event_needs_enough_events() {
    let q = queue_events();
    assert_eq!(find_queue_event(&q, 100, 100, 4), Some(ev(3, 180, 5, 0)));
    assert_eq!(find_queue_event(&q, 100, 100, 5), None);
    assert_eq!(find_queue_event(&q, 100, 10, 0), None);
}

#[test]
fn find_queue_event_or_newest_falls_back() {
    let q = queue_events();
    assert_eq!(find_queue_event_or_newest(&q, 100, 100, 7), Some(ev(3, 180, 5, 0)));
    assert_eq!(find_queue_event_or_newest(&q, 100, 100, 8), Some(ev(3, 220, 5, 0)));
    assert_eq!(find_queue_event_or_newest(&q, 100, 10, 0), Some(ev(3, 220, 5, 0)));
    assert_eq!(find_queue_event_or_newest(&VecDeque::new(), 100, 10, 0), None);
}

#[test]
fn take_queue_event_clears_long_queues() {
    let mut q = queue_events();
    assert_eq!(take_queue_event(&mut q, 100, 100), Some(ev(3, 180, 5, 0)));
    assert_eq!(q.len(), 4);
    for ts in [230u64, 240] {
        q.push_back(ev(3, ts, 5, 0));
    }
    assert_eq!(take_queue_event(&mut q, 100, 135), Some(ev(3, 230, 5, 0)));
    assert!(q.is_empty());
    let mut q = queue_events();
    assert_eq!(take_queue_event(&mut q, 100, 10), Some(ev(3, 220, 5, 0)));
    assert_eq!(q.len(), 4);
}
