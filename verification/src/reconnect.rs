//! When an agent connects again: at once after a session that ended, after a growing delay when
//! the connection itself failed.

use vstd::prelude::*;

verus! {

/// The delay after the first failure, in milliseconds.
pub const INITIAL_DELAY_MS: u64 = 1000;

/// The longest delay, in milliseconds.
pub const MAX_DELAY_MS: u64 = 30000;

/// What to wait for before the next attempt. A shutdown signal ends either wait.
#[derive(Debug, Clone, Copy, PartialEq, Eq, Structural)]
pub enum Wait {
    /// The attempt failed: so many milliseconds.
    Backoff(u64),
    /// The session ended: so many milliseconds. A shutdown signal that is there already is looked
    /// at first.
    Pause(u64),
}

#[derive(Debug, Clone, Copy, PartialEq, Eq, Structural)]
pub enum Next {
    Connect,
    Exit,
}

/// The smaller of two numbers.
pub open spec fn least(a: int, b: int) -> int {
    if a <= b {
        a
    } else {
        b
    }
}

/// The delay that follows a delay that did not help.
pub open spec fn grown(delay: int) -> int {
    least(delay * 2, MAX_DELAY_MS as int)
}

/// How long the next failure is going to hold the agent up.
pub struct Retry {
    delay_ms: u64,
}

impl View for Retry {
    type V = int;

    closed spec fn view(&self) -> int {
        self.delay_ms as int
    }
}

impl Retry {
    /// The delay is within its bounds.
    pub open spec fn wf(self) -> bool {
        INITIAL_DELAY_MS <= self@ <= MAX_DELAY_MS
    }

    pub fn new() -> (retry: Self)
        ensures
            retry.wf(),
            retry@ == INITIAL_DELAY_MS,
    {
        Retry { delay_ms: INITIAL_DELAY_MS }
    }

    /// An attempt is over. `ended` says that there was a session and that it ended: then the next
    /// attempt follows at once, and the delay is back at its start. Otherwise the attempt failed.
    pub fn after_attempt(&mut self, ended: bool) -> (wait: Wait)
        requires
            old(self).wf(),
        ensures
            final(self).wf(),
            final(self)@ == if ended {
                INITIAL_DELAY_MS as int
            } else {
                old(self)@
            },
            wait == if ended {
                Wait::Pause(0)
            } else {
                Wait::Backoff(old(self)@ as u64)
            },
    {
        if ended {
            self.delay_ms = INITIAL_DELAY_MS;
            Wait::Pause(0)
        } else {
            Wait::Backoff(self.delay_ms)
        }
    }

    /// A wait is over, because its time is up or because the process is to shut down.
    pub fn after_wait(&mut self, wait: Wait, shutdown: bool) -> (next: Next)
        requires
            old(self).wf(),
        ensures
            final(self).wf(),
            next == if shutdown {
                Next::Exit
            } else {
                Next::Connect
            },
            final(self)@ == if !shutdown && wait is Backoff {
                grown(old(self)@)
            } else {
                old(self)@
            },
    {
        if shutdown {
            return Next::Exit;
        }
        match wait {
            Wait::Backoff(_) => {
                let doubled: u64 = self.delay_ms * 2;
                self.delay_ms = if doubled <= MAX_DELAY_MS {
                    doubled
                } else {
                    MAX_DELAY_MS
                };
            },
            Wait::Pause(_) => {},
        }
        Next::Connect
    }
}

/// The delay that awaits the next failure after a series of attempts, none of whose waits was cut
/// short. Each entry says whether the attempt was a session that ended.
pub open spec fn delay_after(attempts: Seq<bool>) -> int
    decreases attempts.len(),
{
    if attempts.len() == 0 {
        INITIAL_DELAY_MS as int
    } else if attempts.last() {
        INITIAL_DELAY_MS as int
    } else {
        grown(delay_after(attempts.drop_last()))
    }
}

/// How many attempts failed since the last session.
pub open spec fn failures_in_a_row(attempts: Seq<bool>) -> nat
    decreases attempts.len(),
{
    if attempts.len() == 0 || attempts.last() {
        0
    } else {
        failures_in_a_row(attempts.drop_last()) + 1
    }
}

/// One more attempt, with the wait that follows it, changes the delay as `after_attempt` and
/// `after_wait` do.
pub proof fn delay_follows_each_attempt(attempts: Seq<bool>, ended: bool)
    ensures
        delay_after(Seq::empty()) == INITIAL_DELAY_MS,
        delay_after(attempts.push(ended)) == if ended {
            INITIAL_DELAY_MS as int
        } else {
            grown(delay_after(attempts))
        },
{
    assert(attempts.push(ended).drop_last() =~= attempts);
}

/// The delay doubles with every failure in a row, from one second up to thirty, and a session
/// sets it back to one second.
pub proof fn delay_grows_exponentially(attempts: Seq<bool>)
    ensures
        delay_after(attempts) == least(
            INITIAL_DELAY_MS * vstd::arithmetic::power2::pow2(failures_in_a_row(attempts)),
            MAX_DELAY_MS as int,
        ),
        INITIAL_DELAY_MS <= delay_after(attempts) <= MAX_DELAY_MS,
        attempts.len() > 0 && attempts.last() ==> delay_after(attempts) == INITIAL_DELAY_MS,
    decreases attempts.len(),
{
    vstd::arithmetic::power2::lemma2_to64();
    if attempts.len() > 0 && !attempts.last() {
        let before = attempts.drop_last();
        delay_grows_exponentially(before);
        vstd::arithmetic::power2::lemma_pow2_unfold(failures_in_a_row(attempts));
    }
}

/// A delay doubles up to half a minute, and is half a minute from then on.
pub proof fn delay_doubles(delay: int)
    ensures
        delay * 2 <= 30000 ==> grown(delay) == delay * 2,
        delay * 2 > 30000 ==> grown(delay) == 30000,
{
}

/// An agent starts with a delay of one second. After a session it connects again at once, and the
/// delay is one second again; after a failure it waits for its delay, which stays as it is.
pub proof fn waits_of_attempts(start: Retry, retry: &mut Retry, ended: bool, wait: Wait)
    requires
        call_ensures(Retry::new, (), start),
        1000 <= old(retry)@ <= 30000,
        call_ensures(Retry::after_attempt, (retry, ended), wait),
    ensures
        start@ == 1000,
        ended ==> wait == Wait::Pause(0) && final(retry)@ == 1000,
        !ended ==> (wait matches Wait::Backoff(ms) && ms == old(retry)@) && final(retry)@ == old(
            retry,
        )@,
{
}

/// A shutdown ends the attempts, and nothing else does. A wait after a failure doubles the delay, up
/// to half a minute, and a wait after a session leaves it as it is.
pub proof fn attempts_after_waits(retry: &mut Retry, wait: Wait, shutdown: bool, next: Next)
    requires
        1000 <= old(retry)@ <= 30000,
        call_ensures(Retry::after_wait, (retry, wait, shutdown), next),
    ensures
        shutdown <==> next == Next::Exit,
        !shutdown <==> next == Next::Connect,
        shutdown || wait is Pause ==> final(retry)@ == old(retry)@,
        !shutdown && wait is Backoff && old(retry)@ <= 15000 ==> final(retry)@ == old(retry)@ * 2,
        !shutdown && wait is Backoff && old(retry)@ > 15000 ==> final(retry)@ == 30000,
{
}

/// Two failures one after the other: the second holds the agent up for twice as long as the first,
/// or for half a minute where that is less. A failure that follows a session holds it up for one
/// second.
pub proof fn second_failure_waits_longer(
    a: &mut Retry,
    ended: bool,
    first: Wait,
    b: &mut Retry,
    next: Next,
    c: &mut Retry,
    second: Wait,
)
    requires
        1000 <= old(a)@ <= 30000,
        call_ensures(Retry::after_attempt, (a, ended), first),
        *b == *final(a),
        call_ensures(Retry::after_wait, (b, first, false), next),
        *c == *final(b),
        call_ensures(Retry::after_attempt, (c, false), second),
    ensures
        next == Next::Connect,
        ended ==> second == Wait::Backoff(1000),
        !ended ==> {
            &&& first matches Wait::Backoff(x)
            &&& second matches Wait::Backoff(y)
            &&& y <= 30000
            &&& y == x * 2 || (y == 30000 && x * 2 > 30000)
        },
{
}

} // verus!
