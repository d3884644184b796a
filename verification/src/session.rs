//! The measurement server's session: the phase state machine, the session
//! values that each phase hands to the next, and where results are stored.
use crate::measurement::CalcTimestampSet;
use vstd::prelude::*;
use vstd::string::StringExecFns;

verus! {

/// Phases of a server session.
#[derive(Clone, Copy, Debug, PartialEq, Eq, Structural)]
pub enum State {
    Error,
    WaitForStart,
    Ntp,
    Ptp,
    LatencyTest,
    Calculation,
    SaveResults,
    Done,
}

/// An IPv4 endpoint: the address as the big-endian value of its four
/// octets, and the port.
#[derive(Clone, Copy, Debug, PartialEq, Eq, Structural)]
pub struct ClientAddress {
    pub ip: u32,
    pub port: u16,
}

/// The values of a session that the phases read and update.
#[derive(Debug, PartialEq, Eq)]
pub struct SessionState {
    /// Whether the session is still running (false after a failure).
    pub running: bool,
    /// Number of result sets written so far.
    pub counter: u64,
    /// Round trip measured by the NTP phase (ns).
    pub needed_time: u128,
    /// Whether the PTP phase succeeded.
    pub ptp_result: bool,
    /// Whether the latency test succeeded.
    pub latency_result: bool,
    /// Where the session's messages go.
    pub client: ClientAddress,
    /// Circle points of the calculation phase, as the bit patterns of `(x, y)`.
    pub points: Vec<(u64, u64)>,
    /// Timestamp sets of the calculation phase.
    pub latency: Vec<CalcTimestampSet>,
}

/// The values a phase changes; `None` keeps the current value.
#[derive(Debug, PartialEq, Eq)]
pub struct SessionOverrides {
    pub running: Option<bool>,
    pub counter: Option<u64>,
    pub needed_time: Option<u128>,
    pub ptp_result: Option<bool>,
    pub latency_result: Option<bool>,
    pub client: Option<ClientAddress>,
    /// New calculation results: points and timestamp sets together.
    pub calculation_result: Option<(Vec<(u64, u64)>, Vec<CalcTimestampSet>)>,
}

/// The mathematical value of a session.
pub struct SessionView {
    pub running: bool,
    pub counter: u64,
    pub needed_time: u128,
    pub ptp_result: bool,
    pub latency_result: bool,
    pub client: ClientAddress,
    pub points: Seq<(u64, u64)>,
    pub latency: Seq<CalcTimestampSet>,
}

/// The mathematical value of a set of overrides.
pub struct OverridesView {
    pub running: Option<bool>,
    pub counter: Option<u64>,
    pub needed_time: Option<u128>,
    pub ptp_result: Option<bool>,
    pub latency_result: Option<bool>,
    pub client: Option<ClientAddress>,
    pub calculation_result: Option<(Seq<(u64, u64)>, Seq<CalcTimestampSet>)>,
}

impl View for SessionState {
    type V = SessionView;

    open spec fn view(&self) -> SessionView {
        SessionView {
            running: self.running,
            counter: self.counter,
            needed_time: self.needed_time,
            ptp_result: self.ptp_result,
            latency_result: self.latency_result,
            client: self.client,
            points: self.points@,
            latency: self.latency@,
        }
    }
}

impl View for SessionOverrides {
    type V = OverridesView;

    open spec fn view(&self) -> OverridesView {
        OverridesView {
            running: self.running,
            counter: self.counter,
            needed_time: self.needed_time,
            ptp_result: self.ptp_result,
            latency_result: self.latency_result,
            client: self.client,
            calculation_result: match self.calculation_result {
                Some(pair) => Some((pair.0@, pair.1@)),
                None => None,
            },
        }
    }
}

pub open spec fn or_keep<T>(o: Option<T>, v: T) -> T {
    match o {
        Some(x) => x,
        None => v,
    }
}

/// Overrides that change nothing.
pub open spec fn no_overrides() -> OverridesView {
    OverridesView {
        running: None,
        counter: None,
        needed_time: None,
        ptp_result: None,
        latency_result: None,
        client: None,
        calculation_result: None,
    }
}

/// `b` where it overrides a value, else `a`: one set of overrides that acts
/// as applying `a` and then `b`.
pub open spec fn merge_overrides(a: OverridesView, b: OverridesView) -> OverridesView {
    OverridesView {
        running: if b.running is Some { b.running } else { a.running },
        counter: if b.counter is Some { b.counter } else { a.counter },
        needed_time: if b.needed_time is Some { b.needed_time } else { a.needed_time },
        ptp_result: if b.ptp_result is Some { b.ptp_result } else { a.ptp_result },
        latency_result: if b.latency_result is Some { b.latency_result } else { a.latency_result },
        client: if b.client is Some { b.client } else { a.client },
        calculation_result: if b.calculation_result is Some {
            b.calculation_result
        } else {
            a.calculation_result
        },
    }
}

/// The session after applying overrides: each overridden value replaced,
/// every other one kept.
pub open spec fn apply_overrides(base: SessionView, o: OverridesView) -> SessionView {
    SessionView {
        running: or_keep(o.running, base.running),
        counter: or_keep(o.counter, base.counter),
        needed_time: or_keep(o.needed_time, base.needed_time),
        ptp_result: or_keep(o.ptp_result, base.ptp_result),
        latency_result: or_keep(o.latency_result, base.latency_result),
        client: or_keep(o.client, base.client),
        points: match o.calculation_result {
            Some(pair) => pair.0,
            None => base.points,
        },
        latency: match o.calculation_result {
            Some(pair) => pair.1,
            None => base.latency,
        },
    }
}

impl SessionState {
    /// A new session with `client`: running, nothing written, no round trip
    /// measured yet, no phase succeeded, no calculation results.
    pub fn new(client: ClientAddress) -> (r: SessionState)
        ensures
            r.running,
            r.counter == 0,
            r.needed_time == u128::MAX,
            !r.ptp_result,
            !r.latency_result,
            r.client == client,
            r.points@ == Seq::<(u64, u64)>::empty(),
            r.latency@ == Seq::<CalcTimestampSet>::empty(),
    {
        SessionState {
            running: true,
            counter: 0,
            needed_time: u128::MAX,
            ptp_result: false,
            latency_result: false,
            client,
            points: Vec::new(),
            latency: Vec::new(),
        }
    }
}

impl SessionOverrides {
    /// Overrides that change nothing.
    pub fn none() -> (r: SessionOverrides)
        ensures
            r@ == no_overrides(),
    {
        SessionOverrides {
            running: None,
            counter: None,
            needed_time: None,
            ptp_result: None,
            latency_result: None,
            client: None,
            calculation_result: None,
        }
    }
}

impl SessionOverrides {
    /// Overrides of a phase that gives up: the session stops running, and
    /// `needed_time`, when given, is kept as the measured round trip.
    pub fn stopped(needed_time: Option<u128>) -> (r: SessionOverrides)
        ensures
            r@ == (OverridesView { running: Some(false), needed_time, ..no_overrides() }),
    {
        SessionOverrides {
            running: Some(false),
            counter: None,
            needed_time,
            ptp_result: None,
            latency_result: None,
            client: None,
            calculation_result: None,
        }
    }
}

fn keep_or<T: Copy>(o: Option<T>, v: T) -> (r: T)
    ensures
        r == or_keep(o, v),
{
    match o {
        Some(x) => x,
        None => v,
    }
}

fn copy_vec<T: Copy>(v: &Vec<T>) -> (r: Vec<T>)
    ensures
        r@ == v@,
{
    let mut r: Vec<T> = Vec::new();
    let mut i: usize = 0;
    while i < v.len()
        invariant
            i <= v@.len(),
            r@ =~= v@.subrange(0, i as int),
        decreases v@.len() - i,
    {
        r.push(v[i]);
        i = i + 1;
    }
    r
}

/// Derives the session a phase hands on: every overridden value replaced,
/// every other one kept.
pub fn update_context(base: &SessionState, overrides: SessionOverrides) -> (r: SessionState)
    ensures
        r@ == apply_overrides(base@, overrides@),
        overrides.running matches Some(v) ==> r.running == v,
        overrides.running is None ==> r.running == base.running,
        overrides.counter matches Some(v) ==> r.counter == v,
        overrides.counter is None ==> r.counter == base.counter,
        overrides.needed_time matches Some(v) ==> r.needed_time == v,
        overrides.needed_time is None ==> r.needed_time == base.needed_time,
        overrides.ptp_result matches Some(v) ==> r.ptp_result == v,
        overrides.ptp_result is None ==> r.ptp_result == base.ptp_result,
        overrides.latency_result matches Some(v) ==> r.latency_result == v,
        overrides.latency_result is None ==> r.latency_result == base.latency_result,
        overrides.client matches Some(v) ==> r.client == v,
        overrides.client is None ==> r.client == base.client,
        overrides.calculation_result matches Some(p) ==> r.points@ == p.0@ && r.latency@ == p.1@,
        overrides.calculation_result is None ==> r.points@ == base.points@ && r.latency@ == base.latency@,
{
    let (points, latency) = match overrides.calculation_result {
        Some(pair) => pair,
        None => (copy_vec(&base.points), copy_vec(&base.latency)),
    };
    SessionState {
        running: keep_or(overrides.running, base.running),
        counter: keep_or(overrides.counter, base.counter),
        needed_time: keep_or(overrides.needed_time, base.needed_time),
        ptp_result: keep_or(overrides.ptp_result, base.ptp_result),
        latency_result: keep_or(overrides.latency_result, base.latency_result),
        client: keep_or(overrides.client, base.client),
        points,
        latency,
    }
}

/// The session after its results were saved: one more result set written.
pub fn after_save(base: &SessionState) -> (r: SessionState)
    requires
        base.counter < u64::MAX,
    ensures
        r@ == apply_overrides(base@, OverridesView { counter: Some((base.counter + 1) as u64), ..no_overrides() }),
{
    update_context(
        base,
        SessionOverrides {
            running: None,
            counter: Some(base.counter + 1),
            needed_time: None,
            ptp_result: None,
            latency_result: None,
            client: None,
            calculation_result: None,
        },
    )
}

/// Every overridden value is replaced by its override, and every value
/// without one is kept.
pub proof fn lemma_override_fields(base: SessionView, o: OverridesView)
    ensures
        o.running matches Some(v) ==> apply_overrides(base, o).running == v,
        o.running is None ==> apply_overrides(base, o).running == base.running,
        o.counter matches Some(v) ==> apply_overrides(base, o).counter == v,
        o.counter is None ==> apply_overrides(base, o).counter == base.counter,
        o.needed_time matches Some(v) ==> apply_overrides(base, o).needed_time == v,
        o.needed_time is None ==> apply_overrides(base, o).needed_time == base.needed_time,
        o.ptp_result matches Some(v) ==> apply_overrides(base, o).ptp_result == v,
        o.ptp_result is None ==> apply_overrides(base, o).ptp_result == base.ptp_result,
        o.latency_result matches Some(v) ==> apply_overrides(base, o).latency_result == v,
        o.latency_result is None ==> apply_overrides(base, o).latency_result == base.latency_result,
        o.client matches Some(v) ==> apply_overrides(base, o).client == v,
        o.client is None ==> apply_overrides(base, o).client == base.client,
        o.calculation_result matches Some(p) ==> apply_overrides(base, o).points == p.0
            && apply_overrides(base, o).latency == p.1,
        o.calculation_result is None ==> apply_overrides(base, o).points == base.points
            && apply_overrides(base, o).latency == base.latency,
{
}

/// Applying no overrides keeps the session, and applying `a` and then `b` is
/// applying their merge, where a value that `b` overrides takes `b`'s value.
pub proof fn lemma_overrides(base: SessionView, a: OverridesView, b: OverridesView)
    ensures
        apply_overrides(base, no_overrides()) == base,
        apply_overrides(apply_overrides(base, a), b) == apply_overrides(
            base,
            merge_overrides(a, b),
        ),
{
}

/// The phase that follows `state` given the session it produced; `None`
/// when the session ends.
pub open spec fn successor(state: State, s: SessionView) -> Option<State> {
    match state {
        State::WaitForStart => Some(State::Ntp),
        State::Ntp => if !s.running {
            Some(State::Error)
        } else {
            Some(State::Ptp)
        },
        State::Ptp => if !s.running {
            Some(State::Error)
        } else if s.ptp_result {
            Some(State::LatencyTest)
        } else {
            Some(State::Ntp)
        },
        State::LatencyTest => if !s.running {
            Some(State::Error)
        } else if s.latency_result {
            Some(State::Calculation)
        } else {
            Some(State::Ptp)
        },
        State::Calculation => if !s.running {
            Some(State::Error)
        } else {
            Some(State::SaveResults)
        },
        State::SaveResults => Some(State::Done),
        State::Done => None,
        State::Error => None,
    }
}

/// Transition of the session state machine.
pub fn next_state(state: State, session: &SessionState) -> (r: Option<State>)
    ensures
        r == successor(state, session@),
{
    match state {
        State::WaitForStart => Some(State::Ntp),
        State::Ntp => {
            if !session.running {
                Some(State::Error)
            } else {
                Some(State::Ptp)
            }
        },
        State::Ptp => {
            if !session.running {
                Some(State::Error)
            } else if session.ptp_result {
                Some(State::LatencyTest)
            } else {
                Some(State::Ntp)
            }
        },
        State::LatencyTest => {
            if !session.running {
                Some(State::Error)
            } else if session.latency_result {
                Some(State::Calculation)
            } else {
                Some(State::Ptp)
            }
        },
        State::Calculation => {
            if !session.running {
                Some(State::Error)
            } else {
                Some(State::SaveResults)
            }
        },
        State::SaveResults => Some(State::Done),
        State::Done => None,
        State::Error => None,
    }
}

/// Laws of the phase order: `Done` and `Error` end the session; `Error`
/// follows a phase exactly when the session stopped running; the calculation
/// is only entered after a passed latency test, the latency test only after a
/// successful PTP phase, and results are only saved after a calculation.
pub proof fn lemma_phase_order(state: State, s: SessionView, next: State)
    ensures
        successor(State::Done, s) is None,
        successor(State::Error, s) is None,
        (state == State::Ntp || state == State::Ptp || state == State::LatencyTest || state
            == State::Calculation) ==> (successor(state, s) == Some(State::Error) <==> !s.running),
        successor(state, s) == Some(State::Calculation) ==> state == State::LatencyTest
            && s.latency_result && s.running,
        successor(state, s) == Some(State::LatencyTest) ==> state == State::Ptp && s.ptp_result
            && s.running,
        successor(state, s) == Some(State::SaveResults) ==> state == State::Calculation
            && s.running,
        successor(state, s) == Some(State::Done) ==> state == State::SaveResults,
        successor(state, s) != Some(State::WaitForStart),
{
}

/// Transport of a session, part of the results path.
#[derive(Clone, Copy, Debug, PartialEq, Eq, Structural)]
pub enum Transport {
    Tcp,
    Udp,
}

pub open spec fn transport_name(t: Transport) -> Seq<char> {
    match t {
        Transport::Tcp => seq!['t', 'c', 'p'],
        Transport::Udp => seq!['u', 'd', 'p'],
    }
}

/// The directory of the results of a run:
/// `../[config/]results/standard_S/frequency_F/bandwith_B/qos_Q/T/`.
pub open spec fn results_path(
    config: Option<Seq<char>>,
    standard: Seq<char>,
    frequency: Seq<char>,
    bandwith: Seq<char>,
    qos: Seq<char>,
    transport: Transport,
) -> Seq<char> {
    seq!['.', '.', '/'] + match config {
        Some(c) => c + seq!['/'],
        None => Seq::<char>::empty(),
    } + seq!['r', 'e', 's', 'u', 'l', 't', 's', '/', 's', 't', 'a', 'n', 'd', 'a', 'r', 'd', '_']
        + standard + seq!['/', 'f', 'r', 'e', 'q', 'u', 'e', 'n', 'c', 'y', '_'] + frequency + seq![
        '/',
        'b',
        'a',
        'n',
        'd',
        'w',
        'i',
        't',
        'h',
        '_',
    ] + bandwith + seq!['/', 'q', 'o', 's', '_'] + qos + seq!['/'] + transport_name(transport)
        + seq!['/']
}

/// Builds the results directory of a run.
pub fn results_dir(
    config: Option<&str>,
    standard: &str,
    frequency: &str,
    bandwith: &str,
    qos: &str,
    transport: Transport,
) -> (r: String)
    ensures
        r@ == results_path(
            match config {
                Some(c) => Some(c@),
                None => None,
            },
            standard@,
            frequency@,
            bandwith@,
            qos@,
            transport,
        ),
{
    let mut p = String::from_str("../");
    match config {
        Some(c) => {
            p.append(c);
            p.append("/");
        },
        None => {},
    }
    p.append("results/standard_");
    p.append(standard);
    p.append("/frequency_");
    p.append(frequency);
    p.append("/bandwith_");
    p.append(bandwith);
    p.append("/qos_");
    p.append(qos);
    p.append("/");
    match transport {
        Transport::Tcp => p.append("tcp"),
        Transport::Udp => p.append("udp"),
    }
    p.append("/");
    proof {
        reveal_strlit("../");
        reveal_strlit("/");
        reveal_strlit("results/standard_");
        reveal_strlit("/frequency_");
        reveal_strlit("/bandwith_");
        reveal_strlit("/qos_");
        reveal_strlit("tcp");
        reveal_strlit("udp");
    }
    p
}

} // verus!
