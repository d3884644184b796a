use timesync::measurement::new_calc_sets;
use timesync::session::{
    after_save, next_state, results_dir, update_context, ClientAddress, SessionOverrides, SessionState, State,
    Transport,
};

fn addr(port: u16) -> ClientAddress {
    // 192.168.1.10
    ClientAddress { ip: 0xC0A8_010A, port }
}

#[test]
fn new_session_defaults() {
    let s = SessionState::new(addr(12345));
    assert!(s.running);
    assert_eq!(s.counter, 0);
    assert_eq!(s.needed_time, u128::MAX);
    assert!(!s.ptp_result && !s.latency_result);
    assert_eq!(s.client, addr(12345));
    assert!(s.points.is_empty() && s.latency.is_empty());
}

#[test]
fn update_context_applies_overrides() {
    let s = SessionState::new(addr(12345));
    assert_eq!(update_context(&s, SessionOverrides::none()), s);
    let o = SessionOverrides { running: Some(false), needed_time: Some(123), ..SessionOverrides::none() };
    let t = update_context(&s, o);
    assert!(!t.running);
    assert_eq!(t.needed_time, 123);
    assert_eq!(t.counter, 0);
    let u = update_context(&t, SessionOverrides { counter: Some(t.counter + 1), ..SessionOverrides::none() });
    assert_eq!(u.counter, 1);
    assert_eq!(u.needed_time, 123);
}

#[test]
fn happy_path_through_all_phases() {
    let mut s = SessionState::new(addr(12345));
    s.ptp_result = true;
    s.latency_result = true;
    let mut state = State::WaitForStart;
    let mut seen = vec![state];
    while let Some(n) = next_state(state, &s) {
        state = n;
        seen.push(state);
    }
    assert_eq!(
        seen,
        vec![
            State::WaitForStart,
            State::Ntp,
            State::Ptp,
            State::LatencyTest,
            State::Calculation,
            State::SaveResults,
            State::Done
        ]
    );
}

#[test]
fn failures_go_back_or_to_error() {
    let mut s = SessionState::new(addr(12345));
    assert_eq!(next_state(State::Ptp, &s), Some(State::Ntp));
    assert_eq!(next_state(State::LatencyTest, &s), Some(State::Ptp));
    s.running = false;
    for st in [State::Ntp, State::Ptp, State::LatencyTest, State::Calculation] {
        assert_eq!(next_state(st, &s), Some(State::Error));
    }
    assert_eq!(next_state(State::Error, &s), None);
    assert_eq!(next_state(State::Done, &s), None);
    assert_eq!(next_state(State::SaveResults, &s), Some(State::Done));
}

#[test]
fn results_dir_paths() {
    assert_eq!(
        results_dir(None, "ax", "5", "80", "be", Transport::Tcp),
        "../results/standard_ax/frequency_5/bandwith_80/qos_be/tcp/"
    );
    assert_eq!(
        results_dir(Some("cfg1"), "ac", "2.4", "20", "vo", Transport::Udp),
        "../cfg1/results/standard_ac/frequency_2.4/bandwith_20/qos_vo/udp/"
    );
}

#[test]
fn update_context_client_and_results() {
    let s = SessionState::new(addr(1));
    let t = update_context(
        &s,
        SessionOverrides { client: Some(addr(2)), ..SessionOverrides::none() },
    );
    assert_eq!(t.client, addr(2));
    assert!(t.points.is_empty());
    let sets = new_calc_sets(2);
    let u = update_context(
        &t,
        SessionOverrides {
            calculation_result: Some((vec![(1, 2), (3, 4)], sets.clone())),
            ..SessionOverrides::none()
        },
    );
    assert_eq!(u.points, vec![(1, 2), (3, 4)]);
    assert_eq!(u.latency, sets);
    assert_eq!(u.client, addr(2));
    // Later overrides win; untouched values carry over.
    let v = update_context(&u, SessionOverrides { counter: Some(5), ..SessionOverrides::none() });
    assert_eq!(v.points, u.points);
    assert_eq!(v.latency, u.latency);
    assert_eq!(v.counter, 5);
    assert_eq!(update_context(&v, SessionOverrides::none()), v);
}

#[test]
fn stopping_and_saving() {
    let s = SessionState::new(addr(7));
    let t = update_context(&s, SessionOverrides::stopped(Some(42)));
    assert!(!t.running);
    assert_eq!(t.needed_time, 42);
    let u = update_context(&t, SessionOverrides::stopped(None));
    assert_eq!(u.needed_time, 42);
    let v = after_save(&after_save(&u));
    assert_eq!(v.counter, 2);
    assert_eq!(v.client, addr(7));
    assert!(!v.running);
}
