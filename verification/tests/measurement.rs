use timesync::measurement::{
    breakdown_fits, calc_point_count, calc_reply_on_time, evaluate_latency,
    evaluate_latency_checked, index_after_timeout, next_exchange, latency_breakdown, new_calc_sets, offset_fits,
    new_ptp_sets, ntp_round_trip, offset_difference, record_calc_reply, record_final_calc_ack,
    record_latency_reply, CalcTimestampSet, LatencyBreakdown, LatencyVerdict, NtpState,
    PtpOutcome, PtpState, PtpThreshold, PtpTimestampSet, LATENCY_TOLERANCE, TIMEOUT_NS,
};

#[test]
fn ntp_starts_unsynchronised() {
    let s = NtpState::new();
    assert_eq!((s.round, s.regulation, s.needed_time), (0, 500_000, u128::MAX));
    assert!(!s.is_done());
}

#[test]
fn ntp_round_trip_is_difference() {
    assert_eq!(ntp_round_trip(1_500, 1_000), 500);
}

#[test]
fn ntp_done_when_within_bound() {
    let mut s = NtpState::new();
    s.finish_round(Some(400_000));
    assert!(s.is_done());
    assert_eq!(s.round, 1);
    assert_eq!(s.regulation, 500_000);
}

#[test]
fn ntp_bound_relaxes_only_after_stabilisation() {
    let mut s = NtpState::new();
    for _ in 0..200 {
        s.finish_round(Some(900_000));
    }
    assert_eq!(s.regulation, 500_000);
    s.finish_round(Some(900_000));
    assert_eq!(s.round, 201);
    assert_eq!(s.regulation, 700_000);
    s.finish_round(None);
    assert_eq!(s.needed_time, 900_000);
    assert_eq!(s.regulation, 800_000);
}

#[test]
fn ntp_gap_of_one_does_not_close() {
    let mut s = NtpState { round: 500, regulation: 10, needed_time: 11 };
    s.finish_round(Some(11));
    assert_eq!(s.regulation, 10);
    assert!(!s.is_done());
}

#[test]
fn ptp_synchronises_within_fixed_threshold() {
    let mut s = PtpState::new();
    let o = s.finish_round(1_000_000, Some(1_005_000), PtpThreshold::Fixed(10_000));
    assert_eq!(o, PtpOutcome::Synchronized);
    assert_eq!((s.round, s.regulation, s.deviation), (1, 1_001, 5_000));
}

#[test]
fn ptp_continues_when_deviation_large() {
    let mut s = PtpState::new();
    let o = s.finish_round(1_000_000, Some(900_000), PtpThreshold::Fixed(10_000));
    assert_eq!(o, PtpOutcome::Continue);
    assert_eq!(s.deviation, 100_000);
    let o = s.finish_round(1_000_000, None, PtpThreshold::Fixed(10_000));
    assert_eq!(o, PtpOutcome::Continue);
    assert_eq!(s.deviation, 100_000);
}

#[test]
fn ptp_regulation_threshold_tracks_counter() {
    let mut s = PtpState::new();
    assert_eq!(s.finish_round(10_000, Some(11_001), PtpThreshold::Regulation), PtpOutcome::Synchronized);
    let mut s = PtpState::new();
    assert_eq!(s.finish_round(10_000, Some(11_002), PtpThreshold::Regulation), PtpOutcome::Continue);
}

#[test]
fn ptp_fails_after_four_thousand_and_one_rounds() {
    let mut s = PtpState::new();
    let mut rounds = 0;
    loop {
        rounds += 1;
        match s.finish_round(0, Some(1_000_000), PtpThreshold::Fixed(10_000)) {
            PtpOutcome::Continue => continue,
            o => {
                assert_eq!(o, PtpOutcome::ToleranceExceeded);
                break;
            }
        }
    }
    assert_eq!(rounds, 4_001);
}

fn complete_set(ca: u128, sks: u128, sak: u128, cs: u128) -> PtpTimestampSet {
    PtpTimestampSet {
        server_arrival: 0,
        server_arrival_kernel: sak,
        server_sent: 0,
        server_kernel_sent: sks,
        client_arrival: ca,
        client_sent: Some(cs),
    }
}

#[test]
fn offset_difference_formula() {
    // second leg 1000 - 800 = 200, first leg 500 - 100 = 400
    assert_eq!(offset_difference(&complete_set(500, 100, 1000, 800)), Some(-200));
    let mut s = complete_set(1, 2, 3, 4);
    s.client_sent = None;
    assert_eq!(offset_difference(&s), None);
}

#[test]
fn record_latency_reply_fills_current_and_previous() {
    let mut sets = new_ptp_sets(3);
    record_latency_reply(&mut sets, 0, 3, 1, 2, 3, 4, 5, 99);
    assert_eq!(sets[0].client_arrival, 5);
    assert_eq!(sets[0].client_sent, None);
    record_latency_reply(&mut sets, 1, 3, 11, 12, 13, 14, 15, 77);
    assert_eq!(sets[0].client_sent, Some(77));
    assert_eq!(sets[1].server_arrival, 11);
    record_latency_reply(&mut sets, 3, 3, 0, 0, 0, 0, 0, 66);
    assert_eq!(sets[2].client_sent, Some(66));
}

#[test]
fn latency_verdicts() {
    let passed = vec![complete_set(500, 100, 1000, 800); 3];
    assert_eq!(evaluate_latency(&passed, LATENCY_TOLERANCE), LatencyVerdict::Passed(-200));
    let low = vec![complete_set(20_500, 100, 1000, 800); 3];
    assert_eq!(evaluate_latency(&low, LATENCY_TOLERANCE), LatencyVerdict::TooLow(-20_200));
    let high = vec![complete_set(0, 0, 20_001, 0); 2];
    assert_eq!(evaluate_latency(&high, LATENCY_TOLERANCE), LatencyVerdict::TooHigh(20_001));
    let mut incomplete = passed.clone();
    incomplete[1].client_sent = None;
    incomplete[2].client_sent = None;
    assert_eq!(evaluate_latency(&incomplete, LATENCY_TOLERANCE), LatencyVerdict::Incomplete(1));
}

#[test]
fn latency_boundary_is_inclusive() {
    let edge = vec![complete_set(0, 0, 10_000, 0)];
    assert_eq!(evaluate_latency(&edge, 10_000), LatencyVerdict::Passed(10_000));
}

#[test]
fn calc_point_count_formula() {
    assert_eq!(calc_point_count(12), 4_000);
    assert_eq!(calc_point_count(0), 0);
    assert_eq!(calc_point_count(1), 333);
}

#[test]
fn calc_on_time() {
    assert_eq!(calc_reply_on_time(100, 100 + TIMEOUT_NS as u128), (3_000_000, true));
    assert_eq!(calc_reply_on_time(100, 101 + TIMEOUT_NS as u128), (3_000_001, false));
}

#[test]
fn calc_records() {
    let mut sets = new_calc_sets(2);
    record_calc_reply(&mut sets, 0, 1, 2, 3, 4, 5, 6, 7, 8);
    assert_eq!(sets[0].server_queue, 3);
    assert_eq!(sets[0].client_queue, None);
    record_calc_reply(&mut sets, 1, 11, 12, 13, 14, 15, 16, 17, 18);
    assert_eq!(sets[0].client_queue, Some(17));
    assert_eq!(sets[0].client_sent_kernel, Some(18));
    record_final_calc_ack(&mut sets, 28, 27);
    assert_eq!(sets[1].client_sent_kernel, Some(28));
    assert_eq!(sets[1].client_queue, Some(27));
}

#[test]
fn breakdown_stages() {
    let s = CalcTimestampSet {
        server_arrival: 1_000,
        server_arrival_kernel: 900,
        server_queue: 110,
        server_sent: 100,
        server_sent_kernel: 130,
        client_queue: Some(500),
        client_arrival_kernel: 400,
        client_sent_kernel: Some(520),
    };
    assert_eq!(
        latency_breakdown(&s),
        Some(LatencyBreakdown {
            work_t1: 10,
            queue_t1: 20,
            send_t1: 270,
            work_t2: 100,
            queue_t2: 20,
            send_t2: 380,
            whole: 900,
        })
    );
    let b = latency_breakdown(&s).unwrap();
    let stages = b.work_t1 + b.queue_t1 + b.send_t1 + b.work_t2 + b.queue_t2 + b.send_t2;
    assert_eq!(stages, 900 - 100);
    let mut incomplete = s;
    incomplete.client_queue = None;
    assert_eq!(latency_breakdown(&incomplete), None);
}

#[test]
fn breakdown_fits_detects_overflow() {
    let mut s = CalcTimestampSet {
        server_arrival: 2,
        server_arrival_kernel: 2,
        server_queue: 1,
        server_sent: 0,
        server_sent_kernel: 1,
        client_queue: Some(1),
        client_arrival_kernel: 1,
        client_sent_kernel: Some(1),
    };
    assert!(breakdown_fits(&s));
    // As i128, i128::MAX - i128::MIN leaves the range.
    s.server_queue = i128::MAX as u128;
    s.server_sent = 1u128 << 127;
    assert!(!breakdown_fits(&s));
    s.client_queue = None;
    assert!(breakdown_fits(&s));
}

#[test]
fn offset_fits_and_checked_evaluation() {
    let fine = complete_set(500, 100, 1000, 800);
    assert!(offset_fits(&fine));
    let huge = complete_set(i128::MAX as u128, 1u128 << 127, 0, 0);
    assert!(!offset_fits(&huge));
    let mut open = huge;
    open.client_sent = None;
    assert!(offset_fits(&open));
    let sets = vec![fine; 3];
    assert_eq!(
        evaluate_latency_checked(&sets, LATENCY_TOLERANCE),
        Some(LatencyVerdict::Passed(-200))
    );
    assert_eq!(evaluate_latency_checked(&vec![fine, huge], LATENCY_TOLERANCE), None);
    // An incomplete set ends the evaluation before a later overflowing one.
    assert_eq!(
        evaluate_latency_checked(&vec![fine, open, huge], LATENCY_TOLERANCE),
        Some(LatencyVerdict::Incomplete(1))
    );
}

#[test]
fn index_after_timeout_retries_but_not_the_first() {
    assert_eq!(index_after_timeout(0), 1);
    assert_eq!(index_after_timeout(1), 1);
    assert_eq!(index_after_timeout(7), 7);
}

#[test]
fn next_exchange_after_reply_or_timeout() {
    assert_eq!(next_exchange(0, true), 1);
    assert_eq!(next_exchange(5, true), 6);
    assert_eq!(next_exchange(5, false), 5);
    assert_eq!(next_exchange(0, false), 1);
}
