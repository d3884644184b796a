//! Kernel events reported by the eBPF probes through the ring buffer: their
//! wire layouts, how a callback dispatches them, and how the measurement code
//! looks them up in the event queues.
use crate::bytes::{
    le_bytes, le_value, lemma_le_bytes_len, lemma_le_value_bound, lemma_le_value_of_bytes,
    lemma_pow256_widths, read_le,
};
use crate::protocol::{is_type_code, type_code, MessageType};
use std::collections::VecDeque;
use vstd::prelude::*;

verus! {

/// Kind of a kernel event: reference timestamp taken by the uprobe.
pub const EVENT_KERNEL_ZERO: u8 = 0;

/// Kind of a kernel event: packet received (`netif_receive_skb`).
pub const EVENT_RECEIVE: u8 = 1;

/// Kind of a kernel event: packet sent (`net_dev_xmit`).
pub const EVENT_SEND: u8 = 2;

/// Kind of a kernel event: packet queued (`net_dev_queue`).
pub const EVENT_QUEUE: u8 = 3;

/// A kernel event. Fields that a layout does not carry read as zero.
#[derive(Clone, Copy, Debug, PartialEq, Eq, Structural)]
pub struct Event {
    /// Kind of the event (see the `EVENT_*` constants).
    pub event_type: u8,
    /// Kernel timestamp in nanoseconds.
    pub timestamp: u64,
    /// Process that caused the event.
    pub pid: u32,
    /// Wire code of the application message the packet carried.
    pub msg_type: u8,
    /// Sequence number of that message.
    pub seq: u64,
    /// TCP sequence number of the packet.
    pub tcp_seq: u64,
}

/// The ring-buffer record layouts that the probe programs emit.
#[derive(Clone, Copy, Debug, PartialEq, Eq, Structural)]
pub enum EventLayout {
    /// 32 bytes: type @0, timestamp @8, message type @16, sequence @24.
    Basic,
    /// 40 bytes: type @0, timestamp @8, pid @16, message type @24, sequence @32.
    WithPid,
    /// 48 bytes: the `WithPid` fields and the TCP sequence @40.
    WithTcpSeq,
}

/// Record size of a layout.
pub open spec fn layout_size(l: EventLayout) -> nat {
    match l {
        EventLayout::Basic => 32,
        EventLayout::WithPid => 40,
        EventLayout::WithTcpSeq => 48,
    }
}

/// The event that a record of the right size holds.
pub open spec fn event_of_layout(l: EventLayout, b: Seq<u8>) -> Event {
    match l {
        EventLayout::Basic => Event {
            event_type: b[0],
            timestamp: le_value(b.subrange(8, 16)) as u64,
            pid: 0,
            msg_type: b[16],
            seq: le_value(b.subrange(24, 32)) as u64,
            tcp_seq: 0,
        },
        EventLayout::WithPid => Event {
            event_type: b[0],
            timestamp: le_value(b.subrange(8, 16)) as u64,
            pid: le_value(b.subrange(16, 20)) as u32,
            msg_type: b[24],
            seq: le_value(b.subrange(32, 40)) as u64,
            tcp_seq: 0,
        },
        EventLayout::WithTcpSeq => Event {
            event_type: b[0],
            timestamp: le_value(b.subrange(8, 16)) as u64,
            pid: le_value(b.subrange(16, 20)) as u32,
            msg_type: b[24],
            seq: le_value(b.subrange(32, 40)) as u64,
            tcp_seq: le_value(b.subrange(40, 48)) as u64,
        },
    }
}

impl EventLayout {
    /// Record size of this layout in bytes.
    pub fn size(&self) -> (r: usize)
        ensures
            r == layout_size(*self),
    {
        match self {
            EventLayout::Basic => 32,
            EventLayout::WithPid => 40,
            EventLayout::WithTcpSeq => 48,
        }
    }
}

/// Decodes a ring-buffer record; `None` when its size is not that of the
/// layout (such records are dropped).
pub fn decode_event(layout: EventLayout, data: &[u8]) -> (r: Option<Event>)
    ensures
        r is Some <==> data@.len() == layout_size(layout),
        r matches Some(e) ==> e == event_of_layout(layout, data@),
        r matches Some(e) ==> {
            &&& e.event_type == data@[0]
            &&& e.timestamp as nat == le_value(data@.subrange(8, 16))
            &&& layout == EventLayout::Basic ==> {
                &&& e.msg_type == data@[16]
                &&& e.seq as nat == le_value(data@.subrange(24, 32))
                &&& e.pid == 0 && e.tcp_seq == 0
            }
            &&& layout != EventLayout::Basic ==> {
                &&& e.pid as nat == le_value(data@.subrange(16, 20))
                &&& e.msg_type == data@[24]
                &&& e.seq as nat == le_value(data@.subrange(32, 40))
            }
            &&& layout == EventLayout::WithPid ==> e.tcp_seq == 0
            &&& layout == EventLayout::WithTcpSeq ==> e.tcp_seq as nat == le_value(
                data@.subrange(40, 48),
            )
        },
{
    if data.len() != layout.size() {
        return None;
    }
    proof {
        lemma_pow256_widths();
        lemma_le_value_bound(data@.subrange(8, 16));
        lemma_le_value_bound(data@.subrange(16, 20));
        lemma_le_value_bound(data@.subrange(24, 32));
        lemma_le_value_bound(data@.subrange(32, 40));
        if layout == EventLayout::WithTcpSeq {
            lemma_le_value_bound(data@.subrange(40, 48));
        }
    }
    let timestamp = read_le(data, 8, 8) as u64;
    match layout {
        EventLayout::Basic => Some(
            Event {
                event_type: data[0],
                timestamp,
                pid: 0,
                msg_type: data[16],
                seq: read_le(data, 24, 8) as u64,
                tcp_seq: 0,
            },
        ),
        EventLayout::WithPid => Some(
            Event {
                event_type: data[0],
                timestamp,
                pid: read_le(data, 16, 4) as u32,
                msg_type: data[24],
                seq: read_le(data, 32, 8) as u64,
                tcp_seq: 0,
            },
        ),
        EventLayout::WithTcpSeq => Some(
            Event {
                event_type: data[0],
                timestamp,
                pid: read_le(data, 16, 4) as u32,
                msg_type: data[24],
                seq: read_le(data, 32, 8) as u64,
                tcp_seq: read_le(data, 40, 8) as u64,
            },
        ),
    }
}

/// `n` zero bytes.
pub open spec fn zeros(n: nat) -> Seq<u8> {
    Seq::new(n, |i: int| 0u8)
}

/// The ring-buffer record of `e` in a layout, as the probe programs write
/// it: every integer little endian, padding zero.
pub open spec fn event_record(l: EventLayout, e: Event) -> Seq<u8> {
    let head = seq![e.event_type] + zeros(7) + le_bytes(e.timestamp as nat, 8);
    match l {
        EventLayout::Basic => head + seq![e.msg_type] + zeros(7) + le_bytes(e.seq as nat, 8),
        EventLayout::WithPid => head + le_bytes(e.pid as nat, 4) + zeros(4) + seq![e.msg_type]
            + zeros(7) + le_bytes(e.seq as nat, 8),
        EventLayout::WithTcpSeq => head + le_bytes(e.pid as nat, 4) + zeros(4) + seq![e.msg_type]
            + zeros(7) + le_bytes(e.seq as nat, 8) + le_bytes(e.tcp_seq as nat, 8),
    }
}

proof fn lemma_le_roundtrip_u64(x: u64, n: nat)
    requires
        n == 8 || n == 4,
        n == 4 ==> x < 0x1_0000_0000,
    ensures
        le_value(le_bytes(x as nat, n)) == x,
        le_bytes(x as nat, n).len() == n,
{
    lemma_pow256_widths();
    lemma_le_bytes_len(x as nat, n);
    lemma_le_value_of_bytes(x as nat, n);
    vstd::arithmetic::div_mod::lemma_small_mod(x as nat, crate::bytes::pow256(n));
}

/// Decoding the record of an event gives the event back, every field the
/// layout carries whole (the `Basic` layout carries no pid and no TCP
/// sequence number, `WithPid` no TCP sequence number).
pub proof fn lemma_event_roundtrip(l: EventLayout, e: Event)
    requires
        l == EventLayout::Basic ==> e.pid == 0,
        l != EventLayout::WithTcpSeq ==> e.tcp_seq == 0,
    ensures
        event_record(l, e).len() == layout_size(l),
        event_of_layout(l, event_record(l, e)) == e,
{
    let b = event_record(l, e);
    lemma_le_roundtrip_u64(e.timestamp, 8);
    lemma_le_roundtrip_u64(e.pid as u64, 4);
    lemma_le_roundtrip_u64(e.seq, 8);
    lemma_le_roundtrip_u64(e.tcp_seq, 8);
    assert(b[0] == e.event_type);
    assert(b.subrange(8, 16) =~= le_bytes(e.timestamp as nat, 8));
    match l {
        EventLayout::Basic => {
            assert(b[16] == e.msg_type);
            assert(b.subrange(24, 32) =~= le_bytes(e.seq as nat, 8));
        },
        EventLayout::WithPid => {
            assert(b.subrange(16, 20) =~= le_bytes(e.pid as nat, 4));
            assert(b[24] == e.msg_type);
            assert(b.subrange(32, 40) =~= le_bytes(e.seq as nat, 8));
        },
        EventLayout::WithTcpSeq => {
            assert(b.subrange(16, 20) =~= le_bytes(e.pid as nat, 4));
            assert(b[24] == e.msg_type);
            assert(b.subrange(32, 40) =~= le_bytes(e.seq as nat, 8));
            assert(b.subrange(40, 48) =~= le_bytes(e.tcp_seq as nat, 8));
        },
    }
}

/// How a ring-buffer callback sorts incoming events.
#[derive(Clone, Copy, Debug, PartialEq, Eq, Structural)]
pub enum RoutingPolicy {
    /// Only events of this process; receive, send and queue events each to
    /// their own queue.
    PerKindOwnPid,
    /// Queue events to the queue-event queue, all others (but the reference
    /// timestamp) to one shared queue.
    QueueApart,
    /// Every event but the reference timestamp to one shared queue.
    SingleQueue,
}

/// What a callback does with one event.
#[derive(Clone, Copy, Debug, PartialEq, Eq, Structural)]
pub enum Route {
    /// Store this kernel timestamp as the kernel reference.
    SetKernelZero(u64),
    /// Append the event to the receive queue.
    Receive,
    /// Append the event to the send queue.
    Send,
    /// Append the event to the queue-event queue.
    Queue,
    /// Append the event to the shared queue.
    Shared,
    /// Drop the event (reported as unknown).
    Unknown,
}

/// Where an event goes under a policy, for the process `own_pid`.
pub open spec fn route_of(policy: RoutingPolicy, e: Event, own_pid: u32) -> Route {
    match policy {
        RoutingPolicy::PerKindOwnPid => if e.pid != own_pid {
            Route::Unknown
        } else if e.event_type == EVENT_KERNEL_ZERO {
            Route::SetKernelZero(e.timestamp)
        } else if e.event_type == EVENT_RECEIVE {
            Route::Receive
        } else if e.event_type == EVENT_SEND {
            Route::Send
        } else if e.event_type == EVENT_QUEUE {
            Route::Queue
        } else {
            Route::Unknown
        },
        RoutingPolicy::QueueApart => if e.event_type == EVENT_KERNEL_ZERO {
            Route::SetKernelZero(e.timestamp)
        } else if e.event_type == EVENT_QUEUE {
            Route::Queue
        } else {
            Route::Shared
        },
        RoutingPolicy::SingleQueue => if e.event_type == EVENT_KERNEL_ZERO {
            Route::SetKernelZero(e.timestamp)
        } else {
            Route::Shared
        },
    }
}

/// Decides where a ring-buffer callback puts an event.
pub fn route_event(policy: RoutingPolicy, event: &Event, own_pid: u32) -> (r: Route)
    ensures
        r == route_of(policy, *event, own_pid),
{
    match policy {
        RoutingPolicy::PerKindOwnPid => {
            if event.pid != own_pid {
                Route::Unknown
            } else if event.event_type == EVENT_KERNEL_ZERO {
                Route::SetKernelZero(event.timestamp)
            } else if event.event_type == EVENT_RECEIVE {
                Route::Receive
            } else if event.event_type == EVENT_SEND {
                Route::Send
            } else if event.event_type == EVENT_QUEUE {
                Route::Queue
            } else {
                Route::Unknown
            }
        },
        RoutingPolicy::QueueApart => {
            if event.event_type == EVENT_KERNEL_ZERO {
                Route::SetKernelZero(event.timestamp)
            } else if event.event_type == EVENT_QUEUE {
                Route::Queue
            } else {
                Route::Shared
            }
        },
        RoutingPolicy::SingleQueue => {
            if event.event_type == EVENT_KERNEL_ZERO {
                Route::SetKernelZero(event.timestamp)
            } else {
                Route::Shared
            }
        },
    }
}

/// Where events go under each policy. A reference timestamp (kind 0) sets
/// the kernel reference under every policy (for the own process under
/// `PerKindOwnPid`). Under `QueueApart` a queue event goes to the queue-event
/// queue and every other event to the shared queue; under `SingleQueue` every
/// other event goes to the shared queue; neither drops an event. Under
/// `PerKindOwnPid` the events of the own process go to the queue of their
/// kind, and all others are dropped.
pub proof fn lemma_routes(e: Event, own_pid: u32)
    ensures
        e.event_type == 0 ==> route_of(RoutingPolicy::QueueApart, e, own_pid) == Route::SetKernelZero(
            e.timestamp,
        ),
        e.event_type == 3 ==> route_of(RoutingPolicy::QueueApart, e, own_pid) == Route::Queue,
        e.event_type != 0 && e.event_type != 3 ==> route_of(RoutingPolicy::QueueApart, e, own_pid)
            == Route::Shared,
        e.event_type == 0 ==> route_of(RoutingPolicy::SingleQueue, e, own_pid)
            == Route::SetKernelZero(e.timestamp),
        e.event_type != 0 ==> route_of(RoutingPolicy::SingleQueue, e, own_pid) == Route::Shared,
        e.pid != own_pid ==> route_of(RoutingPolicy::PerKindOwnPid, e, own_pid) == Route::Unknown,
        e.pid == own_pid ==> route_of(RoutingPolicy::PerKindOwnPid, e, own_pid) == (
        if e.event_type == 0 {
            Route::SetKernelZero(e.timestamp)
        } else if e.event_type == 1 {
            Route::Receive
        } else if e.event_type == 2 {
            Route::Send
        } else if e.event_type == 3 {
            Route::Queue
        } else {
            Route::Unknown
        }),
{
}

/// Whether `e` is the event of kind `event_type` for message `seq` of type `t`.
pub open spec fn is_match(e: Event, seq: u64, t: MessageType, event_type: u8) -> bool {
    e.msg_type == type_code(t) && e.seq == seq && e.event_type == event_type
}

/// Whether a front-to-back search for the match only meets events whose
/// message code is valid (the search reads the code of each event it passes).
pub open spec fn search_reads_valid_codes(
    s: Seq<Event>,
    seq: u64,
    t: MessageType,
    event_type: u8,
) -> bool {
    forall|i: int|
        0 <= i < s.len() && (forall|j: int| 0 <= j < i ==> !is_match(#[trigger] s[j], seq, t, event_type))
            ==> is_type_code(#[trigger] s[i].msg_type)
}

/// Whether `i` is the position of the first match in `s`.
pub open spec fn is_first_match(s: Seq<Event>, i: int, seq: u64, t: MessageType, event_type: u8) -> bool {
    &&& 0 <= i < s.len()
    &&& is_match(s[i], seq, t, event_type)
    &&& forall|j: int| 0 <= j < i ==> !is_match(#[trigger] s[j], seq, t, event_type)
}

/// Whether no event of `s` matches.
pub open spec fn no_match(s: Seq<Event>, seq: u64, t: MessageType, event_type: u8) -> bool {
    forall|j: int| 0 <= j < s.len() ==> !is_match(#[trigger] s[j], seq, t, event_type)
}

/// One look into an event queue for the event of kind `event_type` belonging
/// to message `seq` of type `msg_type`: when found, it is returned and the
/// queue is cleared; otherwise the queue is left as it is.
pub fn take_matching_event(
    queue: &mut VecDeque<Event>,
    seq: u64,
    msg_type: MessageType,
    event_type: u8,
) -> (r: Option<Event>)
    requires
        search_reads_valid_codes(old(queue)@, seq, msg_type, event_type),
    ensures
        r matches Some(e) ==> e.seq == seq && e.event_type == event_type && e.msg_type
            == type_code(msg_type),
        match r {
            Some(e) => {
                &&& exists|i: int|
                    is_first_match(old(queue)@, i, seq, msg_type, event_type) && old(queue)@[i] == e
                &&& final(queue)@ == Seq::<Event>::empty()
            },
            None => {
                &&& no_match(old(queue)@, seq, msg_type, event_type)
                &&& final(queue)@ == old(queue)@
            },
        },
{
    let code = msg_type.code();
    let n = queue.len();
    let mut i: usize = 0;
    while i < n
        invariant
            n == queue@.len(),
            i <= n,
            code == type_code(msg_type),
            queue@ == old(queue)@,
            forall|j: int| 0 <= j < i ==> !is_match(#[trigger] queue@[j], seq, msg_type, event_type),
        decreases n - i,
    {
        let e = queue[i];
        if e.msg_type == code && e.seq == seq && e.event_type == event_type {
            assert(is_first_match(old(queue)@, i as int, seq, msg_type, event_type));
            queue.clear();
            return Some(e);
        }
        i = i + 1;
    }
    None
}

/// One look into an event queue that consumes it from the front: every event
/// before the match is discarded, the match is returned, and the events after
/// it stay. Without a match the queue ends up empty.
pub fn drain_until_match(
    queue: &mut VecDeque<Event>,
    seq: u64,
    msg_type: MessageType,
    event_type: u8,
) -> (r: Option<Event>)
    requires
        search_reads_valid_codes(old(queue)@, seq, msg_type, event_type),
    ensures
        r matches Some(e) ==> e.seq == seq && e.event_type == event_type && e.msg_type
            == type_code(msg_type),
        match r {
            Some(e) => exists|i: int|
                is_first_match(old(queue)@, i, seq, msg_type, event_type) && old(queue)@[i] == e
                    && final(queue)@ == old(queue)@.subrange(i + 1, old(queue)@.len() as int),
            None => {
                &&& no_match(old(queue)@, seq, msg_type, event_type)
                &&& final(queue)@ == Seq::<Event>::empty()
            },
        },
{
    let code = msg_type.code();
    let ghost start = old(queue)@;
    let ghost mut popped: int = 0;
    loop
        invariant
            code == type_code(msg_type),
            start == old(queue)@,
            0 <= popped <= start.len(),
            queue@ == start.subrange(popped, start.len() as int),
            forall|j: int| 0 <= j < popped ==> !is_match(#[trigger] start[j], seq, msg_type, event_type),
        decreases queue@.len(),
    {
        match queue.pop_front() {
            Some(e) => {
                if e.msg_type == code && e.seq == seq && e.event_type == event_type {
                    assert(start[popped] == e);
                    assert(is_first_match(start, popped, seq, msg_type, event_type));
                    assert(queue@ =~= start.subrange(popped + 1, start.len() as int));
                    return Some(e);
                }
                proof {
                    assert(start[popped] == e);
                    popped = popped + 1;
                }
                assert(queue@ =~= start.subrange(popped, start.len() as int));
            },
            None => {
                assert(popped == start.len());
                return None;
            },
        }
    }
}

/// Time of `e` relative to the kernel reference `kernel_zero`.
pub open spec fn relative_time(e: Event, kernel_zero: u64) -> int {
    e.timestamp - kernel_zero
}

/// Whether the queue event `e` happened before `before` (relative time).
pub open spec fn queued_before(e: Event, kernel_zero: u64, before: u64) -> bool {
    relative_time(e, kernel_zero) < before
}

/// Whether `i` is the newest position, among `1..s.len()`, of an event queued
/// before `before`.
pub open spec fn is_newest_before(s: Seq<Event>, i: int, kernel_zero: u64, before: u64) -> bool {
    &&& 1 <= i < s.len()
    &&& queued_before(s[i], kernel_zero, before)
    &&& forall|j: int| i < j < s.len() ==> !queued_before(#[trigger] s[j], kernel_zero, before)
}

/// Whether no event in `1..s.len()` was queued before `before`.
pub open spec fn none_before(s: Seq<Event>, kernel_zero: u64, before: u64) -> bool {
    forall|j: int| 1 <= j < s.len() ==> !queued_before(#[trigger] s[j], kernel_zero, before)
}

/// Whether the newest-first scan only meets events not older than the kernel
/// reference (their relative time is computed without wrapping).
pub open spec fn scan_reads_after_zero(s: Seq<Event>, kernel_zero: u64, before: u64) -> bool {
    forall|i: int|
        1 <= i < s.len() && (forall|j: int|
            i < j < s.len() ==> !queued_before(#[trigger] s[j], kernel_zero, before))
            ==> #[trigger] s[i].timestamp >= kernel_zero
}

/// Scans a queue-event queue from its newest entry down to its second one for
/// the newest event queued before `before`; returns its position.
pub fn newest_queued_before(queue: &VecDeque<Event>, kernel_zero: u64, before: u64) -> (r: Option<
    usize,
>)
    requires
        scan_reads_after_zero(queue@, kernel_zero, before),
    ensures
        match r {
            Some(i) => is_newest_before(queue@, i as int, kernel_zero, before),
            None => none_before(queue@, kernel_zero, before),
        },
{
    let n = queue.len();
    let mut k: usize = 1;
    while k < n
        invariant
            n == queue@.len(),
            scan_reads_after_zero(queue@, kernel_zero, before),
            1 <= k,
            k <= n || n == 0,
            forall|j: int| n - k < j < n ==> !queued_before(#[trigger] queue@[j], kernel_zero, before),
        decreases n - k,
    {
        let idx = n - k;
        let e = queue[idx];
        assert(e.timestamp >= kernel_zero);
        if e.timestamp - kernel_zero < before {
            return Some(idx);
        }
        k = k + 1;
    }
    None
}

/// Queue-event lookup of the TCP server: the newest event queued before
/// `before`, provided the queue holds at least `message_count` events.
pub fn find_queue_event(
    queue: &VecDeque<Event>,
    kernel_zero: u64,
    before: u64,
    message_count: usize,
) -> (r: Option<Event>)
    requires
        queue@.len() >= message_count ==> scan_reads_after_zero(queue@, kernel_zero, before),
    ensures
        r matches Some(e) ==> e.timestamp >= kernel_zero && e.timestamp - kernel_zero < before,
        queue@.len() < message_count ==> r is None,
        queue@.len() >= message_count ==> match r {
            Some(e) => exists|i: int| is_newest_before(queue@, i, kernel_zero, before) && queue@[i] == e,
            None => none_before(queue@, kernel_zero, before),
        },
{
    if queue.len() < message_count {
        return None;
    }
    match newest_queued_before(queue, kernel_zero, before) {
        Some(i) => Some(queue[i]),
        None => None,
    }
}

/// Queue-event lookup of the UDP client: the newest event queued before
/// `before` when the queue holds at least `message_count - 3` events
/// (saturating), and otherwise its newest event, if any.
pub fn find_queue_event_or_newest(
    queue: &VecDeque<Event>,
    kernel_zero: u64,
    before: u64,
    message_count: usize,
) -> (r: Option<Event>)
    requires
        queue@.len() >= (if message_count >= 3 { message_count - 3 } else { 0 })
            ==> scan_reads_after_zero(queue@, kernel_zero, before),
    ensures
        ({
            let min_len: int = if message_count >= 3 { message_count - 3 } else { 0 };
            let s = queue@;
            if s.len() >= min_len && exists|i: int| is_newest_before(s, i, kernel_zero, before) {
                exists|i: int| is_newest_before(s, i, kernel_zero, before) && r == Some(s[i])
            } else if s.len() == 0 {
                r is None
            } else {
                r == Some(s[s.len() - 1])
            }
        }),
{
    let min_len = message_count.saturating_sub(3);
    if queue.len() >= min_len {
        match newest_queued_before(queue, kernel_zero, before) {
            Some(i) => {
                return Some(queue[i]);
            },
            None => {},
        }
    }
    let n = queue.len();
    if n == 0 {
        None
    } else {
        Some(queue[n - 1])
    }
}

/// Queue-event lookup that consumes: the newest event queued before `before`
/// (the queue is cleared when it held more than five events), and otherwise
/// the newest event, if any, with the queue left as it is.
pub fn take_queue_event(queue: &mut VecDeque<Event>, kernel_zero: u64, before: u64) -> (r: Option<
    Event,
>)
    requires
        scan_reads_after_zero(old(queue)@, kernel_zero, before),
    ensures
        ({
            let s = old(queue)@;
            if exists|i: int| is_newest_before(s, i, kernel_zero, before) {
                exists|i: int|
                    is_newest_before(s, i, kernel_zero, before) && r == Some(s[i]) && final(queue)@
                        == (if s.len() > 5 { Seq::<Event>::empty() } else { s })
            } else {
                &&& final(queue)@ == s
                &&& if s.len() == 0 {
                    r is None
                } else {
                    r == Some(s[s.len() - 1])
                }
            }
        }),
{
    match newest_queued_before(queue, kernel_zero, before) {
        Some(i) => {
            let e = queue[i];
            if queue.len() > 5 {
                queue.clear();
            }
            Some(e)
        },
        None => {
            let n = queue.len();
            if n == 0 {
                None
            } else {
                Some(queue[n - 1])
            }
        },
    }
}

} // verus!
