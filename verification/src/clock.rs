//! Reference points of the kernel and user clocks, and the counters that the
//! measurement programs keep.
use crate::events::Event;
use vstd::prelude::*;

verus! {

/// Number of timeouts after which a phase is abandoned (more than this many).
pub const TIMEOUT_LIMIT: u64 = 10;

/// The reference timestamps against which kernel and user times are taken.
#[derive(Clone, Copy, Debug, PartialEq, Eq, Structural)]
pub struct ReferenceClock {
    /// Kernel timestamp (ns) captured when the uprobe fired.
    pub kernel_zero: u64,
    /// User-space reference timestamp (ns).
    pub user_zero: u64,
}

impl ReferenceClock {
    /// Both references at zero.
    pub fn new() -> (r: ReferenceClock)
        ensures
            r.kernel_zero == 0,
            r.user_zero == 0,
    {
        ReferenceClock { kernel_zero: 0, user_zero: 0 }
    }

    /// Stores the kernel reference timestamp.
    pub fn set_kernel_zero(&mut self, value: u64)
        ensures
            final(self).kernel_zero == value,
            final(self).user_zero == old(self).user_zero,
    {
        self.kernel_zero = value;
    }

    /// The kernel reference timestamp.
    pub fn get_kernel_zero(&self) -> (r: u64)
        ensures
            r == self.kernel_zero,
    {
        self.kernel_zero
    }

    /// Stores the user reference timestamp.
    pub fn set_user_zero(&mut self, value: u64)
        ensures
            final(self).user_zero == value,
            final(self).kernel_zero == old(self).kernel_zero,
    {
        self.user_zero = value;
    }

    /// The user reference timestamp.
    pub fn get_user_zero(&self) -> (r: u64)
        ensures
            r == self.user_zero,
    {
        self.user_zero
    }

    /// A kernel timestamp relative to the kernel reference.
    pub fn kernel_relative(&self, timestamp: u64) -> (r: u64)
        requires
            timestamp >= self.kernel_zero,
        ensures
            r == timestamp - self.kernel_zero,
    {
        timestamp - self.kernel_zero
    }

    /// The time of a packet: the kernel time of its event relative to the
    /// kernel reference when the event was seen, else the user-space time
    /// `fallback`.
    pub fn preferred_time(&self, event: Option<Event>, fallback: u64) -> (r: u64)
        requires
            event matches Some(e) ==> e.timestamp >= self.kernel_zero,
        ensures
            r == match event {
                Some(e) => (e.timestamp - self.kernel_zero) as u64,
                None => fallback,
            },
    {
        match event {
            Some(e) => self.kernel_relative(e.timestamp),
            None => fallback,
        }
    }
}

/// A value written to a reference is the value read back, and writing one
/// reference leaves the other alone.
pub proof fn lemma_reference_read_after_write(c: ReferenceClock, k: u64, u: u64)
    ensures
        (ReferenceClock { kernel_zero: k, ..c }).kernel_zero == k,
        (ReferenceClock { kernel_zero: k, ..c }).user_zero == c.user_zero,
        (ReferenceClock { user_zero: u, ..c }).user_zero == u,
        (ReferenceClock { user_zero: u, ..c }).kernel_zero == c.kernel_zero,
{
}

/// A counter after one more event.
pub open spec fn counter_step(count: int) -> int {
    count + 1
}

/// Whether a timeout count exceeds the limit.
pub open spec fn timeouts_exceeded(count: int) -> bool {
    count > TIMEOUT_LIMIT
}

/// What `k` successive calls of [`increment_message_count`] return, from
/// the count `n`.
pub open spec fn message_count_run(n: int, k: nat) -> Seq<int>
    decreases k,
{
    if k == 0 {
        Seq::empty()
    } else {
        let c = counter_step(n);
        seq![c] + message_count_run(c, (k - 1) as nat)
    }
}

/// What `k` successive calls of [`increment_timeout_count`] return, from
/// the count `n`.
pub open spec fn timeout_count_run(n: int, k: nat) -> Seq<bool>
    decreases k,
{
    if k == 0 {
        Seq::empty()
    } else {
        let c = counter_step(n);
        seq![timeouts_exceeded(c)] + timeout_count_run(c, (k - 1) as nat)
    }
}

/// Counts one more sent message and returns the new count.
pub fn increment_message_count(count: &mut u64) -> (r: u64)
    requires
        *old(count) < u64::MAX,
    ensures
        *final(count) == counter_step(*old(count) as int),
        r == *final(count),
{
    *count = *count + 1;
    *count
}

/// Counts one more timeout; true when the count now exceeds the limit.
pub fn increment_timeout_count(count: &mut u64) -> (r: bool)
    requires
        *old(count) < u64::MAX,
    ensures
        *final(count) == counter_step(*old(count) as int),
        r == timeouts_exceeded(*final(count) as int),
{
    *count = *count + 1;
    *count > TIMEOUT_LIMIT
}

/// `k` successive calls of [`increment_message_count`] from the count `n`
/// return `n + 1`, ..., `n + k`: each result one more than the previous.
pub proof fn lemma_message_count_run(n: int, k: nat)
    ensures
        message_count_run(n, k).len() == k,
        forall|i: int| 0 <= i < k ==> #[trigger] message_count_run(n, k)[i] == n + i + 1,
    decreases k,
{
    if k > 0 {
        lemma_message_count_run(n + 1, (k - 1) as nat);
        let r = message_count_run(n, k);
        assert forall|i: int| 0 <= i < k implies #[trigger] r[i] == n + i + 1 by {
            if i > 0 {
                assert(r[i] == message_count_run(n + 1, (k - 1) as nat)[i - 1]);
            }
        }
    }
}

/// `k` successive calls of [`increment_timeout_count`] from the count `n`:
/// call `i` (from 0) returns whether `n + i + 1` exceeds the limit, so once a
/// call returns true every later call does too.
pub proof fn lemma_timeout_count_run(n: int, k: nat)
    ensures
        timeout_count_run(n, k).len() == k,
        forall|i: int|
            0 <= i < k ==> #[trigger] timeout_count_run(n, k)[i] == timeouts_exceeded(n + i + 1),
        forall|i: int, j: int|
            0 <= i <= j < k && #[trigger] timeout_count_run(n, k)[i] ==> #[trigger] timeout_count_run(
                n,
                k,
            )[j],
    decreases k,
{
    if k > 0 {
        lemma_timeout_count_run(n + 1, (k - 1) as nat);
        let r = timeout_count_run(n, k);
        assert forall|i: int| 0 <= i < k implies #[trigger] r[i] == timeouts_exceeded(n + i + 1) by {
            if i > 0 {
                assert(r[i] == timeout_count_run(n + 1, (k - 1) as nat)[i - 1]);
            }
        }
    }
}

/// From a count of zero, the first ten calls of [`increment_timeout_count`]
/// return false and every later call returns true.
pub proof fn lemma_timeout_count_from_zero(k: nat)
    ensures
        forall|i: int| 0 <= i < k ==> (#[trigger] timeout_count_run(0, k)[i] <==> i >= 10),
{
    lemma_timeout_count_run(0, k);
}

/// Drift between the clocks over one interval: the kernel reference moved by
/// `kernel_new - kernel_old` while the user reference moved by `user_diff`;
/// returns the kernel movement and the user movement minus it.
pub fn kernel_user_drift(user_diff: i128, kernel_old: u64, kernel_new: u64) -> (r: (i128, i128))
    requires
        i128::MIN <= user_diff - (kernel_new - kernel_old) <= i128::MAX,
    ensures
        r.0 == kernel_new - kernel_old,
        r.1 == user_diff - (kernel_new - kernel_old),
{
    let kernel_diff = (kernel_new as i128) - (kernel_old as i128);
    (kernel_diff, user_diff - kernel_diff)
}

/// System time in ns shifted back by a measured offset: `now_ns - diff` for a
/// non-negative offset (taken modulo 2^64), `now_ns + |diff|` otherwise.
pub open spec fn adjusted_time(diff: i128, now_ns: u128) -> int {
    if diff >= 0 {
        now_ns - (diff as u64)
    } else {
        now_ns + ((-diff) as u64)
    }
}

/// Corrects the system time `now_ns` (ns since the Unix epoch) by an offset.
pub fn adjust_time(diff: i128, now_ns: u128) -> (r: u128)
    requires
        diff >= 0 ==> now_ns >= (diff as u64),
        diff < 0 ==> diff > i128::MIN && now_ns + ((-diff) as u64) <= u128::MAX,
    ensures
        r == adjusted_time(diff, now_ns),
{
    if diff >= 0 {
        now_ns - (diff as u64) as u128
    } else {
        now_ns + ((-diff) as u64) as u128
    }
}

} // verus!
