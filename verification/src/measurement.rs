//! The decisions of the server's measurement phases: the coarse round-trip
//! synchronisation (NTP-like), the precise one (PTP-like), the latency test
//! and the bookkeeping of the calculation phase.
use crate::stats::{
    lemma_median_bounds, lemma_sorted_values, median, median_defined, median_of, sort_ascending,
};
use vstd::prelude::*;

verus! {

/// Pacing interval of all phases, and the on-time bound of a calculation
/// reply, in ns.
pub const TIMEOUT_NS: u64 = 3_000_000;

/// Initial round-trip bound of the NTP phase, in ns.
pub const NTP_INITIAL_REGULATION: u128 = 500_000;

/// Rounds of the NTP phase before its bound starts to be relaxed.
pub const NTP_STABILIZATION_ROUNDS: u64 = 200;

/// Initial value of the PTP regulation counter.
pub const PTP_INITIAL_REGULATION: u128 = 1_000;

/// The PTP phase fails once its regulation counter exceeds this.
pub const PTP_MAX_TOLERANCE: u128 = 5_000;

/// Accepted deviation of a PTP round trip on TCP, in ns.
pub const PTP_TCP_THRESHOLD: u128 = 10_000;

/// Number of exchanges of the latency test.
pub const LATENCY_TEST_MESSAGES: u64 = 1000;

/// Accepted absolute median offset of the latency test, in ns.
pub const LATENCY_TOLERANCE: i128 = 10_000;

// ---------------------------------------------------------------------------
// NTP phase
// ---------------------------------------------------------------------------

/// Progress of the NTP phase.
#[derive(Clone, Copy, Debug, PartialEq, Eq, Structural)]
pub struct NtpState {
    /// Rounds done so far.
    pub round: u64,
    /// Current bound on the round trip.
    pub regulation: u128,
    /// Last measured round trip (ns).
    pub needed_time: u128,
}

/// The bound after a round: relaxed halfway toward the measured round trip
/// when that exceeds it after the stabilisation rounds.
pub open spec fn ntp_next_regulation(round: u64, regulation: u128, needed_time: u128) -> u128 {
    if needed_time > regulation && round > NTP_STABILIZATION_ROUNDS {
        (regulation + (needed_time - regulation) / 2) as u128
    } else {
        regulation
    }
}

impl NtpState {
    /// State before the first round.
    pub fn new() -> (r: NtpState)
        ensures
            r.round == 0,
            r.regulation == NTP_INITIAL_REGULATION,
            r.needed_time == u128::MAX,
    {
        NtpState { round: 0, regulation: NTP_INITIAL_REGULATION, needed_time: u128::MAX }
    }

    /// Whether the phase is over: the measured round trip is within the bound.
    pub fn is_done(&self) -> (r: bool)
        ensures
            r == (self.needed_time <= self.regulation),
    {
        self.needed_time <= self.regulation
    }

    /// Ends a round. `measured` is the round trip measured in it, if a reply
    /// came; the bound is then regulated.
    pub fn finish_round(&mut self, measured: Option<u128>)
        requires
            old(self).round < u64::MAX,
        ensures
            final(self).needed_time == match measured {
                Some(t) => t,
                None => old(self).needed_time,
            },
            final(self).round == old(self).round + 1,
            final(self).regulation == ntp_next_regulation(
                final(self).round,
                old(self).regulation,
                final(self).needed_time,
            ),
    {
        match measured {
            Some(t) => {
                self.needed_time = t;
            },
            None => {},
        }
        self.round = self.round + 1;
        if self.needed_time > self.regulation && self.round > NTP_STABILIZATION_ROUNDS {
            let difference = self.needed_time - self.regulation;
            self.regulation = self.regulation + difference / 2;
        }
    }
}

/// Round trip of one NTP exchange: arrival time of the reply minus the
/// sending time, both relative to the same reference.
pub fn ntp_round_trip(end_time: u64, start_elapsed: u128) -> (r: u128)
    requires
        end_time >= start_elapsed,
    ensures
        r == end_time - start_elapsed,
{
    end_time as u128 - start_elapsed
}

/// A regulation step never lowers the bound, never raises it past the
/// measured round trip, and leaves the gap to it rounded-up halved.
pub proof fn lemma_ntp_regulation_step(round: u64, regulation: u128, needed_time: u128)
    ensures
        regulation <= ntp_next_regulation(round, regulation, needed_time),
        needed_time > regulation ==> ntp_next_regulation(round, regulation, needed_time)
            <= needed_time,
        needed_time > regulation && round > NTP_STABILIZATION_ROUNDS ==> needed_time
            - ntp_next_regulation(round, regulation, needed_time) == (needed_time - regulation) - (
        needed_time - regulation) / 2,
        !(needed_time > regulation && round > NTP_STABILIZATION_ROUNDS) ==> ntp_next_regulation(
            round,
            regulation,
            needed_time,
        ) == regulation,
{
}

// ---------------------------------------------------------------------------
// PTP phase
// ---------------------------------------------------------------------------

/// Acceptance rule of a PTP round trip.
#[derive(Clone, Copy, Debug, PartialEq, Eq, Structural)]
pub enum PtpThreshold {
    /// Accept a deviation up to this many ns.
    Fixed(u128),
    /// Accept a deviation up to the current regulation counter.
    Regulation,
}

/// Progress of the PTP phase.
#[derive(Clone, Copy, Debug, PartialEq, Eq, Structural)]
pub struct PtpState {
    /// Rounds done so far.
    pub round: u64,
    /// Regulation counter, one more per round.
    pub regulation: u128,
    /// Last deviation of the round trip from the NTP round trip (ns).
    pub deviation: u128,
}

/// Result of a PTP round.
#[derive(Clone, Copy, Debug, PartialEq, Eq, Structural)]
pub enum PtpOutcome {
    /// Deviation still too large: go on.
    Continue,
    /// Deviation accepted: the phase succeeded.
    Synchronized,
    /// The regulation counter exceeded its limit: the phase failed.
    ToleranceExceeded,
}

/// `|a - b|`.
pub open spec fn abs_diff(a: u128, b: u128) -> u128 {
    if a >= b {
        (a - b) as u128
    } else {
        (b - a) as u128
    }
}

/// Well-formed PTP progress: the counter tracks the rounds.
pub open spec fn ptp_wf(s: PtpState) -> bool {
    &&& s.regulation == PTP_INITIAL_REGULATION + s.round
    &&& s.regulation <= PTP_MAX_TOLERANCE
}

/// The largest deviation that a threshold accepts at a given counter.
pub open spec fn accepted_deviation(threshold: PtpThreshold, regulation: u128) -> u128 {
    match threshold {
        PtpThreshold::Fixed(t) => t,
        PtpThreshold::Regulation => regulation,
    }
}

/// One PTP round from `s`: the new state and the outcome. The deviation is
/// that of the round trip `measured` in it, if a reply came, else the last
/// one; the counter goes up by one and decides with the threshold.
pub open spec fn ptp_round(
    s: PtpState,
    needed_time: u128,
    measured: Option<u128>,
    threshold: PtpThreshold,
) -> (PtpState, PtpOutcome) {
    let deviation = match measured {
        Some(d) => abs_diff(d, needed_time),
        None => s.deviation,
    };
    let next = PtpState {
        round: (s.round + 1) as u64,
        regulation: (s.regulation + 1) as u128,
        deviation,
    };
    let outcome = if next.regulation > PTP_MAX_TOLERANCE {
        PtpOutcome::ToleranceExceeded
    } else if deviation > accepted_deviation(threshold, next.regulation) {
        PtpOutcome::Continue
    } else {
        PtpOutcome::Synchronized
    };
    (next, outcome)
}

/// The PTP phase over the replies `ms` (one per round, `None` for a round
/// without reply), from state `s` after `k` rounds: rounds go on while they
/// continue and replies are left.
pub open spec fn ptp_run(
    s: PtpState,
    needed_time: u128,
    ms: Seq<Option<u128>>,
    threshold: PtpThreshold,
    k: nat,
) -> (PtpState, PtpOutcome)
    decreases ms.len() - k,
{
    if k >= ms.len() {
        (s, PtpOutcome::Continue)
    } else {
        let (next, outcome) = ptp_round(s, needed_time, ms[k as int], threshold);
        if outcome == PtpOutcome::Continue {
            ptp_run(next, needed_time, ms, threshold, k + 1)
        } else {
            (next, outcome)
        }
    }
}

/// The deviation after the first `k` rounds of replies `ms`: that of the
/// last round with a reply, or the largest value before any reply.
pub open spec fn deviation_after(needed_time: u128, ms: Seq<Option<u128>>, k: nat) -> u128
    decreases k,
{
    if k == 0 {
        u128::MAX
    } else {
        match ms[k - 1] {
            Some(d) => abs_diff(d, needed_time),
            None => deviation_after(needed_time, ms, (k - 1) as nat),
        }
    }
}

/// Whether round `j` (from 1) of replies `ms` is accepted.
pub open spec fn ptp_accepts(
    needed_time: u128,
    ms: Seq<Option<u128>>,
    threshold: PtpThreshold,
    j: nat,
) -> bool {
    deviation_after(needed_time, ms, j) <= accepted_deviation(
        threshold,
        (PTP_INITIAL_REGULATION + j) as u128,
    )
}

impl PtpState {
    /// State before the first round.
    pub fn new() -> (r: PtpState)
        ensures
            r.round == 0,
            r.regulation == PTP_INITIAL_REGULATION,
            r.deviation == u128::MAX,
            ptp_wf(r),
    {
        PtpState { round: 0, regulation: PTP_INITIAL_REGULATION, deviation: u128::MAX }
    }

    /// Ends a round. `measured` is the round trip (ns) measured in it, if a
    /// reply came; `needed_time` is the round trip of the NTP phase.
    pub fn finish_round(
        &mut self,
        needed_time: u128,
        measured: Option<u128>,
        threshold: PtpThreshold,
    ) -> (r: PtpOutcome)
        requires
            ptp_wf(*old(self)),
        ensures
            (*final(self), r) == ptp_round(*old(self), needed_time, measured, threshold),
            r == PtpOutcome::Continue ==> ptp_wf(*final(self)),
    {
        match measured {
            Some(d) => {
                self.deviation = if d >= needed_time {
                    d - needed_time
                } else {
                    needed_time - d
                };
            },
            None => {},
        }
        self.round = self.round + 1;
        self.regulation = self.regulation + 1;
        if self.regulation > PTP_MAX_TOLERANCE {
            return PtpOutcome::ToleranceExceeded;
        }
        let limit = match threshold {
            PtpThreshold::Fixed(t) => t,
            PtpThreshold::Regulation => self.regulation,
        };
        if self.deviation > limit {
            PtpOutcome::Continue
        } else {
            PtpOutcome::Synchronized
        }
    }
}

/// The PTP phase from its start over the replies `ms` succeeds exactly when
/// some round `j` within the first 4000 (and the replies) is accepted, its
/// deviation at most the threshold at counter `1000 + j`; it fails exactly
/// when more than 4000 replies are there and none of the first 4000 rounds
/// is accepted; otherwise it is still going on when the replies run out.
pub proof fn lemma_ptp_run(needed_time: u128, ms: Seq<Option<u128>>, threshold: PtpThreshold)
    ensures
        ({
            let start = PtpState {
                round: 0,
                regulation: PTP_INITIAL_REGULATION,
                deviation: u128::MAX,
            };
            let outcome = ptp_run(start, needed_time, ms, threshold, 0).1;
            let limit = PTP_MAX_TOLERANCE - PTP_INITIAL_REGULATION;
            &&& outcome == PtpOutcome::Synchronized <==> exists|j: nat|
                1 <= j <= ms.len() && j <= limit && #[trigger] ptp_accepts(
                    needed_time,
                    ms,
                    threshold,
                    j,
                )
            &&& outcome == PtpOutcome::ToleranceExceeded <==> ms.len() > limit && forall|j: nat|
                1 <= j <= limit ==> !#[trigger] ptp_accepts(needed_time, ms, threshold, j)
        }),
{
    let start = PtpState { round: 0, regulation: PTP_INITIAL_REGULATION, deviation: u128::MAX };
    lemma_ptp_run_from(needed_time, ms, threshold, 0, start);
}

proof fn lemma_ptp_run_from(
    needed_time: u128,
    ms: Seq<Option<u128>>,
    threshold: PtpThreshold,
    k: nat,
    s: PtpState,
)
    requires
        s.round == k,
        s.regulation == PTP_INITIAL_REGULATION + k,
        s.deviation == deviation_after(needed_time, ms, k),
        k <= PTP_MAX_TOLERANCE - PTP_INITIAL_REGULATION,
        forall|j: nat| 1 <= j <= k ==> !#[trigger] ptp_accepts(needed_time, ms, threshold, j),
    ensures
        ({
            let outcome = ptp_run(s, needed_time, ms, threshold, k).1;
            let limit = PTP_MAX_TOLERANCE - PTP_INITIAL_REGULATION;
            &&& outcome == PtpOutcome::Synchronized <==> exists|j: nat|
                1 <= j <= ms.len() && j <= limit && #[trigger] ptp_accepts(
                    needed_time,
                    ms,
                    threshold,
                    j,
                )
            &&& outcome == PtpOutcome::ToleranceExceeded <==> ms.len() > limit && forall|j: nat|
                1 <= j <= limit ==> !#[trigger] ptp_accepts(needed_time, ms, threshold, j)
        }),
    decreases ms.len() - k,
{
    let limit = PTP_MAX_TOLERANCE - PTP_INITIAL_REGULATION;
    if k < ms.len() {
        let (next, outcome) = ptp_round(s, needed_time, ms[k as int], threshold);
        assert(next.deviation == deviation_after(needed_time, ms, k + 1));
        if k + 1 > limit {
            assert(outcome == PtpOutcome::ToleranceExceeded);
            assert(!exists|j: nat|
                1 <= j <= ms.len() && j <= limit && #[trigger] ptp_accepts(
                    needed_time,
                    ms,
                    threshold,
                    j,
                ));
        } else if outcome == PtpOutcome::Continue {
            assert(!ptp_accepts(needed_time, ms, threshold, k + 1));
            assert forall|j: nat| 1 <= j <= k + 1 implies !#[trigger] ptp_accepts(
                needed_time,
                ms,
                threshold,
                j,
            ) by {
                if j <= k {
                }
            }
            lemma_ptp_run_from(needed_time, ms, threshold, k + 1, next);
        } else {
            assert(outcome == PtpOutcome::Synchronized);
            assert(ptp_accepts(needed_time, ms, threshold, k + 1));
        }
    } else {
        assert(!exists|j: nat|
            1 <= j <= ms.len() && j <= limit && #[trigger] ptp_accepts(
                needed_time,
                ms,
                threshold,
                j,
            ));
    }
}

/// The PTP phase ends within a bounded number of rounds: a round that goes
/// on leaves fewer rounds than before until the limit.
pub proof fn lemma_ptp_rounds_bounded(s: PtpState)
    requires
        ptp_wf(s),
    ensures
        s.round <= PTP_MAX_TOLERANCE - PTP_INITIAL_REGULATION,
{
}

// ---------------------------------------------------------------------------
// Latency test
// ---------------------------------------------------------------------------

/// Timestamps of one latency-test exchange (ns).
#[derive(Clone, Copy, Debug, PartialEq, Eq, Structural)]
pub struct PtpTimestampSet {
    pub server_arrival: u128,
    pub server_arrival_kernel: u128,
    pub server_sent: u128,
    pub server_kernel_sent: u128,
    pub client_arrival: u128,
    /// Kernel send time of the client's reply; known one exchange later.
    pub client_sent: Option<u128>,
}

impl PtpTimestampSet {
    /// All times zero, client send time unknown.
    pub fn empty() -> (r: PtpTimestampSet)
        ensures
            r == empty_ptp_set(),
    {
        PtpTimestampSet {
            server_arrival: 0,
            server_arrival_kernel: 0,
            server_sent: 0,
            server_kernel_sent: 0,
            client_arrival: 0,
            client_sent: None,
        }
    }
}

pub open spec fn empty_ptp_set() -> PtpTimestampSet {
    PtpTimestampSet {
        server_arrival: 0,
        server_arrival_kernel: 0,
        server_sent: 0,
        server_kernel_sent: 0,
        client_arrival: 0,
        client_sent: None,
    }
}

/// `n` empty timestamp sets.
pub fn new_ptp_sets(n: usize) -> (r: Vec<PtpTimestampSet>)
    ensures
        r@ == Seq::new(n as nat, |i: int| empty_ptp_set()),
{
    let mut v: Vec<PtpTimestampSet> = Vec::new();
    let mut i: usize = 0;
    while i < n
        invariant
            i <= n,
            v@ =~= Seq::new(i as nat, |k: int| empty_ptp_set()),
        decreases n - i,
    {
        v.push(PtpTimestampSet::empty());
        i = i + 1;
    }
    v
}

/// Stores the reply to latency-test message `i`: its own times when `i` is
/// below `test_count`, and the client's send time of the previous reply.
pub fn record_latency_reply(
    sets: &mut Vec<PtpTimestampSet>,
    i: u64,
    test_count: u64,
    server_arrival: u128,
    server_arrival_kernel: u128,
    server_sent: u128,
    server_kernel_sent: u128,
    client_arrival: u128,
    client_sent: u128,
)
    requires
        i < test_count ==> i < old(sets)@.len(),
        i > 0 ==> i - 1 < old(sets)@.len(),
    ensures
        final(sets)@.len() == old(sets)@.len(),
        i < test_count ==> final(sets)@[i as int] == (PtpTimestampSet {
            server_arrival,
            server_arrival_kernel,
            server_sent,
            server_kernel_sent,
            client_arrival,
            client_sent: old(sets)@[i as int].client_sent,
        }),
        i > 0 ==> final(sets)@[i - 1] == (PtpTimestampSet {
            client_sent: Some(client_sent),
            ..old(sets)@[i - 1]
        }),
        forall|k: int|
            0 <= k < old(sets)@.len() && !(k == i && i < test_count) && !(i > 0 && k == i - 1)
                ==> #[trigger] final(sets)@[k] == old(sets)@[k],
{
    let n = sets.len();
    assert(i < test_count ==> i < n && (i as usize) as int == i);
    assert(i > 0 ==> i - 1 < n && ((i - 1) as usize) as int == i - 1);
    if i < test_count {
        let index = i as usize;
        let prev = sets[index].client_sent;
        sets.set(
            index,
            PtpTimestampSet {
                server_arrival,
                server_arrival_kernel,
                server_sent,
                server_kernel_sent,
                client_arrival,
                client_sent: prev,
            },
        );
    }
    if i > 0 {
        let index = (i - 1) as usize;
        let old_set = sets[index];
        sets.set(index, PtpTimestampSet { client_sent: Some(client_sent), ..old_set });
    }
}

/// Offset difference of one exchange: the delay of the client-to-server leg
/// minus that of the server-to-client leg (times as signed 128-bit values).
pub open spec fn offset_of(s: PtpTimestampSet, client_sent: u128) -> int {
    ((s.server_arrival_kernel as i128) - (client_sent as i128)) - ((s.client_arrival as i128) - (
    s.server_kernel_sent as i128))
}

/// Whether the offset of a complete set stays in the `i128` range at every
/// step of its computation.
pub open spec fn offset_in_range(s: PtpTimestampSet) -> bool {
    match s.client_sent {
        Some(c) => {
            let first = (s.client_arrival as i128) - (s.server_kernel_sent as i128);
            let second = (s.server_arrival_kernel as i128) - (c as i128);
            &&& i128::MIN <= first <= i128::MAX
            &&& i128::MIN <= second <= i128::MAX
            &&& i128::MIN <= second - first <= i128::MAX
        },
        None => true,
    }
}

/// The offset of a set, when its client send time is known.
pub fn offset_difference(s: &PtpTimestampSet) -> (r: Option<i128>)
    requires
        offset_in_range(*s),
    ensures
        r is Some <==> s.client_sent is Some,
        r matches Some(d) ==> d == offset_of(*s, s.client_sent->0),
{
    match s.client_sent {
        Some(c) => {
            let first_offset = s.client_arrival as i128 - s.server_kernel_sent as i128;
            let second_offset = s.server_arrival_kernel as i128 - c as i128;
            Some(second_offset - first_offset)
        },
        None => None,
    }
}

/// Verdict of the latency test.
#[derive(Clone, Copy, Debug, PartialEq, Eq, Structural)]
pub enum LatencyVerdict {
    /// The set at this index lacks the client's send time.
    Incomplete(usize),
    /// The median offset is within the tolerance.
    Passed(i128),
    /// The median offset is below the negative tolerance.
    TooLow(i128),
    /// The median offset is above the tolerance.
    TooHigh(i128),
}

/// The offsets of a sequence of complete sets.
pub open spec fn offsets(s: Seq<PtpTimestampSet>) -> Seq<i128> {
    Seq::new(s.len(), |i: int| offset_of(s[i], s[i].client_sent->0) as i128)
}

/// Whether the latency test can be evaluated without leaving the `i128`
/// range: every offset up to the first incomplete set is in range, and when
/// all sets are complete their median is defined and has an absolute value.
pub open spec fn latency_evaluable(s: Seq<PtpTimestampSet>) -> bool {
    &&& forall|i: int|
        0 <= i < s.len() && (forall|j: int| 0 <= j < i ==> (#[trigger] s[j]).client_sent is Some)
            ==> offset_in_range(#[trigger] s[i])
    &&& (forall|j: int| 0 <= j < s.len() ==> (#[trigger] s[j]).client_sent is Some) ==> {
        &&& median_defined(offsets(s))
        &&& median_of(offsets(s)) != i128::MIN
    }
}

/// The verdict for a sequence of sets.
pub open spec fn latency_verdict(s: Seq<PtpTimestampSet>, tolerance: i128) -> LatencyVerdict {
    if exists|i: int| 0 <= i < s.len() && (#[trigger] s[i]).client_sent is None {
        let i = choose|i: int|
            0 <= i < s.len() && (#[trigger] s[i]).client_sent is None && forall|j: int|
                0 <= j < i ==> (#[trigger] s[j]).client_sent is Some;
        LatencyVerdict::Incomplete(i as usize)
    } else {
        let m = median_of(offsets(s));
        if m > tolerance || m < -tolerance {
            if m < 0 {
                LatencyVerdict::TooLow(m as i128)
            } else {
                LatencyVerdict::TooHigh(m as i128)
            }
        } else {
            LatencyVerdict::Passed(m as i128)
        }
    }
}

/// The verdict of the latency test. When a set lacks the client's send time,
/// the verdict names the first such set. When all sets are complete (and
/// there is one), the verdict carries the median of all the sets' offsets,
/// each offset being the client-to-server delay minus the server-to-client
/// delay; it passes exactly when that median lies within `[-tolerance,
/// tolerance]`, is too low below and too high above.
pub proof fn lemma_latency_verdict(s: Seq<PtpTimestampSet>, tolerance: i128)
    requires
        tolerance >= 0,
        s.len() <= usize::MAX,
    ensures
        forall|i: int|
            0 <= i < s.len() && offset_in_range(#[trigger] s[i]) && s[i].client_sent is Some
                ==> offsets(s)[i] == ((s[i].server_arrival_kernel as i128) - (
            s[i].client_sent->0 as i128)) - ((s[i].client_arrival as i128) - (
            s[i].server_kernel_sent as i128)),
        (exists|i: int| 0 <= i < s.len() && (#[trigger] s[i]).client_sent is None) ==> {
            &&& latency_verdict(s, tolerance) is Incomplete
            &&& {
                let k = latency_verdict(s, tolerance)->Incomplete_0 as int;
                &&& 0 <= k < s.len()
                &&& s[k].client_sent is None
                &&& forall|j: int| 0 <= j < k ==> (#[trigger] s[j]).client_sent is Some
            }
        },
        s.len() > 0 && (forall|i: int| 0 <= i < s.len() ==> (#[trigger] s[i]).client_sent is Some)
            ==> {
            let m = median_of(offsets(s));
            let v = latency_verdict(s, tolerance);
            &&& v is Passed <==> -tolerance <= m <= tolerance
            &&& v is TooLow <==> m < -tolerance
            &&& v is TooHigh <==> m > tolerance
            &&& v matches LatencyVerdict::Passed(x) ==> x == m
            &&& v matches LatencyVerdict::TooLow(x) ==> x == m
            &&& v matches LatencyVerdict::TooHigh(x) ==> x == m
        },
{
    if exists|i: int| 0 <= i < s.len() && (#[trigger] s[i]).client_sent is None {
        let w = choose|i: int| 0 <= i < s.len() && (#[trigger] s[i]).client_sent is None;
        lemma_first_incomplete(s, w);
    } else if s.len() > 0 {
        lemma_median_bounds(offsets(s));
    }
}

/// Some set before or at `w` is the first incomplete one.
proof fn lemma_first_incomplete(s: Seq<PtpTimestampSet>, w: int)
    requires
        0 <= w < s.len(),
        s[w].client_sent is None,
    ensures
        exists|i: int|
            0 <= i < s.len() && (#[trigger] s[i]).client_sent is None && forall|j: int|
                0 <= j < i ==> (#[trigger] s[j]).client_sent is Some,
    decreases w,
{
    if exists|j: int| 0 <= j < w && (#[trigger] s[j]).client_sent is None {
        let j = choose|j: int| 0 <= j < w && (#[trigger] s[j]).client_sent is None;
        lemma_first_incomplete(s, j);
    } else {
        assert(forall|j: int| 0 <= j < w ==> (#[trigger] s[j]).client_sent is Some);
    }
}

/// Evaluates the latency test: the first incomplete set fails it; otherwise
/// the median offset decides, against `tolerance`.
pub fn evaluate_latency(sets: &Vec<PtpTimestampSet>, tolerance: i128) -> (r: LatencyVerdict)
    requires
        latency_evaluable(sets@),
        tolerance >= 0,
    ensures
        r == latency_verdict(sets@, tolerance),
{
    let n = sets.len();
    let mut diffs: Vec<i128> = Vec::new();
    let mut i: usize = 0;
    while i < n
        invariant
            n == sets@.len(),
            i <= n,
            latency_evaluable(sets@),
            diffs@.len() == i,
            forall|j: int| 0 <= j < i ==> (#[trigger] sets@[j]).client_sent is Some,
            forall|j: int|
                0 <= j < i ==> #[trigger] diffs@[j] == offset_of(sets@[j], sets@[j].client_sent->0),
        decreases n - i,
    {
        let s = sets[i];
        match offset_difference(&s) {
            Some(d) => {
                diffs.push(d);
            },
            None => {
                proof {
                    let w = choose|k: int|
                        0 <= k < sets@.len() && (#[trigger] sets@[k]).client_sent is None && forall|
                            j: int,
                        | 0 <= j < k ==> (#[trigger] sets@[j]).client_sent is Some;
                    assert(0 <= i < sets@.len() && sets@[i as int].client_sent is None && forall|
                        j: int,
                    | 0 <= j < i ==> (#[trigger] sets@[j]).client_sent is Some);
                    if w < i {
                        assert(sets@[w].client_sent is Some);
                    } else if w > i {
                        assert(sets@[i as int].client_sent is Some);
                    }
                }
                return LatencyVerdict::Incomplete(i);
            },
        }
        i = i + 1;
    }
    proof {
        assert(diffs@ =~= offsets(sets@));
    }
    verdict_for_median(median(&diffs), tolerance)
}

/// The verdict for the median offset `med` against `tolerance`.
fn verdict_for_median(med: i128, tolerance: i128) -> (r: LatencyVerdict)
    requires
        tolerance >= 0,
    ensures
        r == (if med > tolerance || med < -tolerance {
            if med < 0 {
                LatencyVerdict::TooLow(med)
            } else {
                LatencyVerdict::TooHigh(med)
            }
        } else {
            LatencyVerdict::Passed(med)
        }),
{
    if med > tolerance || med < -tolerance {
        if med < 0 {
            LatencyVerdict::TooLow(med)
        } else {
            LatencyVerdict::TooHigh(med)
        }
    } else {
        LatencyVerdict::Passed(med)
    }
}

/// `a - b` on the `i128` readings of two times, when it is in range.
fn checked_signed_diff(a: u128, b: u128) -> (r: Option<i128>)
    ensures
        r is Some <==> in_i128(signed_diff(a, b)),
        r matches Some(d) ==> d == signed_diff(a, b),
{
    (a as i128).checked_sub(b as i128)
}

/// Whether the offset of a set can be computed within the `i128` range.
pub fn offset_fits(s: &PtpTimestampSet) -> (r: bool)
    ensures
        r == offset_in_range(*s),
{
    match s.client_sent {
        Some(c) => {
            match (
                checked_signed_diff(s.client_arrival, s.server_kernel_sent),
                checked_signed_diff(s.server_arrival_kernel, c),
            ) {
                (Some(first), Some(second)) => second.checked_sub(first).is_some(),
                _ => false,
            }
        },
        None => true,
    }
}

/// Evaluates the latency test like [`evaluate_latency`], or returns `None`
/// when the evaluation would leave the `i128` range.
pub fn evaluate_latency_checked(sets: &Vec<PtpTimestampSet>, tolerance: i128) -> (r: Option<
    LatencyVerdict,
>)
    requires
        tolerance >= 0,
    ensures
        r is Some <==> latency_evaluable(sets@),
        r matches Some(v) ==> v == latency_verdict(sets@, tolerance),
{
    let n = sets.len();
    let mut diffs: Vec<i128> = Vec::new();
    let mut i: usize = 0;
    while i < n
        invariant
            n == sets@.len(),
            i <= n,
            tolerance >= 0,
            diffs@.len() == i,
            forall|j: int| 0 <= j < i ==> (#[trigger] sets@[j]).client_sent is Some,
            forall|j: int| 0 <= j < i ==> offset_in_range(#[trigger] sets@[j]),
            forall|j: int|
                0 <= j < i ==> #[trigger] diffs@[j] == offset_of(sets@[j], sets@[j].client_sent->0),
        decreases n - i,
    {
        let s = sets[i];
        if !offset_fits(&s) {
            return None;
        }
        match offset_difference(&s) {
            Some(d) => {
                diffs.push(d);
            },
            None => {
                proof {
                    assert forall|k: int|
                        0 <= k < sets@.len() && (forall|j: int|
                            0 <= j < k ==> (#[trigger] sets@[j]).client_sent is Some) implies offset_in_range(
                        #[trigger] sets@[k],
                    ) by {
                        if k > i {
                            assert(sets@[i as int].client_sent is Some);
                        }
                    }
                    let w = choose|k: int|
                        0 <= k < sets@.len() && (#[trigger] sets@[k]).client_sent is None && forall|
                            j: int,
                        | 0 <= j < k ==> (#[trigger] sets@[j]).client_sent is Some;
                    assert(0 <= i < sets@.len() && sets@[i as int].client_sent is None && forall|
                        j: int,
                    | 0 <= j < i ==> (#[trigger] sets@[j]).client_sent is Some);
                    if w < i {
                        assert(sets@[w].client_sent is Some);
                    } else if w > i {
                        assert(sets@[i as int].client_sent is Some);
                    }
                }
                return Some(LatencyVerdict::Incomplete(i));
            },
        }
        i = i + 1;
    }
    proof {
        assert(diffs@ =~= offsets(sets@));
    }
    if n == 0 {
        return None;
    }
    let sorted = sort_ascending(&diffs);
    proof {
        lemma_sorted_values(diffs@);
    }
    let med = if n % 2 == 1 {
        sorted[n / 2]
    } else {
        match sorted[n / 2 - 1].checked_add(sorted[n / 2]) {
            Some(sum) => sum / 2,
            None => {
                return None;
            },
        }
    };
    assert(med == median_of(diffs@));
    if med == i128::MIN {
        return None;
    }
    Some(verdict_for_median(med, tolerance))
}

// ---------------------------------------------------------------------------
// Calculation phase
// ---------------------------------------------------------------------------

/// Timestamps of one calculation exchange (ns).
#[derive(Clone, Copy, Debug, PartialEq, Eq, Structural)]
pub struct CalcTimestampSet {
    pub server_arrival: u128,
    pub server_arrival_kernel: u128,
    pub server_queue: u128,
    pub server_sent: u128,
    pub server_sent_kernel: u128,
    /// Client queueing time of its reply; known one exchange later.
    pub client_queue: Option<u128>,
    pub client_arrival_kernel: u128,
    /// Client kernel send time of its reply; known one exchange later.
    pub client_sent_kernel: Option<u128>,
}

pub open spec fn empty_calc_set() -> CalcTimestampSet {
    CalcTimestampSet {
        server_arrival: 0,
        server_arrival_kernel: 0,
        server_queue: 0,
        server_sent: 0,
        server_sent_kernel: 0,
        client_queue: None,
        client_arrival_kernel: 0,
        client_sent_kernel: None,
    }
}

/// `n` empty calculation timestamp sets.
pub fn new_calc_sets(n: usize) -> (r: Vec<CalcTimestampSet>)
    ensures
        r@ == Seq::new(n as nat, |i: int| empty_calc_set()),
{
    let mut v: Vec<CalcTimestampSet> = Vec::new();
    let mut i: usize = 0;
    while i < n
        invariant
            i <= n,
            v@ =~= Seq::new(i as nat, |k: int| empty_calc_set()),
        decreases n - i,
    {
        v.push(
            CalcTimestampSet {
                server_arrival: 0,
                server_arrival_kernel: 0,
                server_queue: 0,
                server_sent: 0,
                server_sent_kernel: 0,
                client_queue: None,
                client_arrival_kernel: 0,
                client_sent_kernel: None,
            },
        );
        i = i + 1;
    }
    v
}

/// Number of the next message after a round of the latency test or the
/// calculation phase in which no reply came (UDP): the same message is sent
/// again, but a lost first message is not retried.
pub fn index_after_timeout(i: u64) -> (r: u64)
    ensures
        r == (if i > 0 {
            i
        } else {
            1
        }),
{
    let mut next = i;
    if next > 0 {
        next = next - 1;
    }
    next + 1
}

/// Number of the next exchange of the latency test or the calculation
/// phase (UDP): the following one after a reply, else as after a timeout.
pub fn next_exchange(i: u64, replied: bool) -> (r: u64)
    requires
        i < u64::MAX,
    ensures
        r == (if replied {
            i + 1
        } else if i > 0 {
            i as int
        } else {
            1
        }),
{
    if replied {
        i + 1
    } else {
        index_after_timeout(i)
    }
}

/// Number of calculation points for a run of `seconds` at the pacing interval.
pub fn calc_point_count(seconds: u64) -> (r: u64)
    requires
        seconds * 1_000_000_000 <= u64::MAX,
    ensures
        r == seconds * 1_000_000_000 / (TIMEOUT_NS as int),
{
    (seconds * 1_000_000_000) / TIMEOUT_NS
}

/// Whether a calculation reply came within the pacing interval; returns the
/// send-to-arrival duration too.
pub fn calc_reply_on_time(sent_elapsed: u128, arrival_elapsed: u128) -> (r: (u128, bool))
    requires
        arrival_elapsed >= sent_elapsed,
    ensures
        r.0 == arrival_elapsed - sent_elapsed,
        r.1 == (r.0 <= TIMEOUT_NS),
{
    let duration = arrival_elapsed - sent_elapsed;
    (duration, duration <= TIMEOUT_NS as u128)
}

/// Stores the reply to calculation message `i`, and the client's queueing
/// and send times of its previous reply.
pub fn record_calc_reply(
    sets: &mut Vec<CalcTimestampSet>,
    i: usize,
    server_arrival: u128,
    server_arrival_kernel: u128,
    server_queue: u128,
    server_sent: u128,
    server_sent_kernel: u128,
    client_arrival_kernel: u128,
    client_queue: u128,
    client_sent: u128,
)
    requires
        i < old(sets)@.len(),
    ensures
        final(sets)@.len() == old(sets)@.len(),
        final(sets)@[i as int] == (CalcTimestampSet {
            server_arrival,
            server_arrival_kernel,
            server_queue,
            server_sent,
            server_sent_kernel,
            client_arrival_kernel,
            ..old(sets)@[i as int]
        }),
        i > 0 ==> final(sets)@[i - 1] == (CalcTimestampSet {
            client_sent_kernel: Some(client_sent),
            client_queue: Some(client_queue),
            ..old(sets)@[i - 1]
        }),
        forall|k: int|
            0 <= k < old(sets)@.len() && k != i && k != i - 1 ==> #[trigger] final(sets)@[k]
                == old(sets)@[k],
{
    let cur = sets[i];
    sets.set(
        i,
        CalcTimestampSet {
            server_arrival,
            server_arrival_kernel,
            server_queue,
            server_sent,
            server_sent_kernel,
            client_arrival_kernel,
            ..cur
        },
    );
    if i > 0 {
        let prev = sets[i - 1];
        sets.set(
            i - 1,
            CalcTimestampSet {
                client_sent_kernel: Some(client_sent),
                client_queue: Some(client_queue),
                ..prev
            },
        );
    }
}

/// Stores the client's queueing and send times of its last reply, carried by
/// the acknowledgement of the termination message.
pub fn record_final_calc_ack(sets: &mut Vec<CalcTimestampSet>, client_sent: u128, client_queue: u128)
    requires
        old(sets)@.len() > 0,
    ensures
        final(sets)@ == old(sets)@.update(
            old(sets)@.len() - 1,
            CalcTimestampSet {
                client_sent_kernel: Some(client_sent),
                client_queue: Some(client_queue),
                ..old(sets)@[old(sets)@.len() - 1]
            },
        ),
{
    let last = sets.len() - 1;
    let cur = sets[last];
    sets.set(
        last,
        CalcTimestampSet { client_sent_kernel: Some(client_sent), client_queue: Some(client_queue), ..cur },
    );
}

/// Breakdown of one calculation round trip into its stages (ns).
#[derive(Clone, Copy, Debug, PartialEq, Eq, Structural)]
pub struct LatencyBreakdown {
    /// Server processing until queueing.
    pub work_t1: i128,
    /// Server queueing until sending.
    pub queue_t1: i128,
    /// Transit server to client.
    pub send_t1: i128,
    /// Client processing until queueing.
    pub work_t2: i128,
    /// Client queueing until sending.
    pub queue_t2: i128,
    /// Transit client to server.
    pub send_t2: i128,
    /// Whole round trip seen by the server's user space.
    pub whole: i128,
}

/// `a - b` on the `i128` readings of two times.
pub open spec fn signed_diff(a: u128, b: u128) -> int {
    (a as i128) - (b as i128)
}

pub open spec fn in_i128(x: int) -> bool {
    i128::MIN <= x <= i128::MAX
}

/// Whether every stage of a complete set is in the `i128` range.
pub open spec fn breakdown_in_range(s: CalcTimestampSet) -> bool {
    match (s.client_sent_kernel, s.client_queue) {
        (Some(cs), Some(cq)) => {
            &&& in_i128(signed_diff(s.server_queue, s.server_sent))
            &&& in_i128(signed_diff(s.server_sent_kernel, s.server_queue))
            &&& in_i128(signed_diff(s.client_arrival_kernel, s.server_sent_kernel))
            &&& in_i128(signed_diff(cq, s.client_arrival_kernel))
            &&& in_i128(signed_diff(cs, cq))
            &&& in_i128(signed_diff(s.server_arrival_kernel, cs))
            &&& in_i128(signed_diff(s.server_arrival, s.server_sent))
        },
        _ => true,
    }
}

/// Whether every stage of a set can be computed within the `i128` range.
pub fn breakdown_fits(s: &CalcTimestampSet) -> (r: bool)
    ensures
        r == breakdown_in_range(*s),
{
    match (s.client_sent_kernel, s.client_queue) {
        (Some(cs), Some(cq)) => {
            checked_signed_diff(s.server_queue, s.server_sent).is_some()
                && checked_signed_diff(s.server_sent_kernel, s.server_queue).is_some()
                && checked_signed_diff(s.client_arrival_kernel, s.server_sent_kernel).is_some()
                && checked_signed_diff(cq, s.client_arrival_kernel).is_some()
                && checked_signed_diff(cs, cq).is_some()
                && checked_signed_diff(s.server_arrival_kernel, cs).is_some()
                && checked_signed_diff(s.server_arrival, s.server_sent).is_some()
        },
        _ => true,
    }
}

/// The stages of a set whose client times are both known.
pub fn latency_breakdown(s: &CalcTimestampSet) -> (r: Option<LatencyBreakdown>)
    requires
        breakdown_in_range(*s),
    ensures
        r is Some <==> (s.client_sent_kernel is Some && s.client_queue is Some),
        r matches Some(b) ==> {
            let cs = s.client_sent_kernel->0;
            let cq = s.client_queue->0;
            &&& b.work_t1 == signed_diff(s.server_queue, s.server_sent)
            &&& b.queue_t1 == signed_diff(s.server_sent_kernel, s.server_queue)
            &&& b.send_t1 == signed_diff(s.client_arrival_kernel, s.server_sent_kernel)
            &&& b.work_t2 == signed_diff(cq, s.client_arrival_kernel)
            &&& b.queue_t2 == signed_diff(cs, cq)
            &&& b.send_t2 == signed_diff(s.server_arrival_kernel, cs)
            &&& b.whole == signed_diff(s.server_arrival, s.server_sent)
        },
{
    match (s.client_sent_kernel, s.client_queue) {
        (Some(client_sent_kernel), Some(client_queue)) => Some(
            LatencyBreakdown {
                work_t1: s.server_queue as i128 - s.server_sent as i128,
                queue_t1: s.server_sent_kernel as i128 - s.server_queue as i128,
                send_t1: s.client_arrival_kernel as i128 - s.server_sent_kernel as i128,
                work_t2: client_queue as i128 - s.client_arrival_kernel as i128,
                queue_t2: client_sent_kernel as i128 - client_queue as i128,
                send_t2: s.server_arrival_kernel as i128 - client_sent_kernel as i128,
                whole: s.server_arrival as i128 - s.server_sent as i128,
            },
        ),
        _ => None,
    }
}

/// The six stages of a breakdown add up to the time from the server's
/// user-space send to the kernel arrival of the client's reply.
pub proof fn lemma_breakdown_sums(s: CalcTimestampSet)
    requires
        s.client_sent_kernel is Some,
        s.client_queue is Some,
    ensures
        signed_diff(s.server_queue, s.server_sent) + signed_diff(s.server_sent_kernel, s.server_queue)
            + signed_diff(s.client_arrival_kernel, s.server_sent_kernel) + signed_diff(
            s.client_queue->0,
            s.client_arrival_kernel,
        ) + signed_diff(s.client_sent_kernel->0, s.client_queue->0) + signed_diff(
            s.server_arrival_kernel,
            s.client_sent_kernel->0,
        ) == signed_diff(s.server_arrival_kernel, s.server_sent),
{
}

} // verus!
