//! Retrying a fetch: after every failed attempt the caller waits, and the wait
//! doubles from its first length up to a cap. There is no limit on attempts;
//! only a readable body ends a fetch.

use vstd::prelude::*;

verus! {

/// The first wait of the standard policy, in seconds.
pub const INITIAL_BACKOFF_SECONDS: u64 = 1;

/// The longest wait of the standard policy, in seconds: five minutes.
pub const MAX_BACKOFF_SECONDS: u64 = 300;

/// Twice `delay`, but no more than `cap`.
pub open spec fn doubled_capped(delay: nat, cap: nat) -> nat {
    if 2 * delay <= cap {
        2 * delay
    } else {
        cap
    }
}

/// The wait that follows a failed attempt which `failures` failed attempts
/// came before, under a policy that starts at `initial` and stops at `cap`.
pub open spec fn delay_after(initial: nat, cap: nat, failures: nat) -> nat
    decreases failures,
{
    if failures == 0 {
        initial
    } else {
        doubled_capped(delay_after(initial, cap, (failures - 1) as nat), cap)
    }
}

/// Whether an HTTP status code reports success: 200 to 299.
pub open spec fn is_success(status: u16) -> bool {
    200 <= status <= 299
}

/// Whether an HTTP status code reports success.
pub fn status_is_success(status: u16) -> (r: bool)
    ensures
        r == is_success(status),
{
    200 <= status && status <= 299
}

/// How long to wait after failures: at first `initial` seconds, then twice as
/// long each time, never longer than `cap` seconds.
#[derive(Clone, Copy, Debug)]
pub struct RetryPolicy {
    initial: u64,
    cap: u64,
}

impl RetryPolicy {
    #[verifier::type_invariant]
    spec fn ordered(self) -> bool {
        1 <= self.initial <= self.cap
    }

    /// The first wait, in seconds.
    pub closed spec fn initial(self) -> nat {
        self.initial as nat
    }

    /// The longest wait, in seconds.
    pub closed spec fn cap(self) -> nat {
        self.cap as nat
    }

    /// The policy that starts at `initial` seconds and stops at `cap`, if
    /// `initial` is at least 1 and at most `cap`.
    pub fn new(initial: u64, cap: u64) -> (r: Option<RetryPolicy>)
        ensures
            r is Some <==> 1 <= initial <= cap,
            r matches Some(p) ==> p.initial() == initial && p.cap() == cap,
    {
        if 1 <= initial && initial <= cap {
            Some(RetryPolicy { initial, cap })
        } else {
            None
        }
    }

    /// One second at first, five minutes at most.
    pub fn standard() -> (p: RetryPolicy)
        ensures
            p.initial() == INITIAL_BACKOFF_SECONDS,
            p.cap() == MAX_BACKOFF_SECONDS,
    {
        RetryPolicy { initial: INITIAL_BACKOFF_SECONDS, cap: MAX_BACKOFF_SECONDS }
    }

    /// The wait that follows a wait of `delay` seconds.
    pub fn next_delay(&self, delay: u64) -> (next: u64)
        ensures
            next as nat == doubled_capped(delay as nat, self.cap()),
            1 <= self.initial() <= self.cap() <= u64::MAX,
    {
        proof {
            use_type_invariant(self);
        }
        if delay > self.cap / 2 {
            self.cap
        } else {
            delay * 2
        }
    }
}

/// What one attempt to get a page came to.
pub enum FetchOutcome {
    /// No response arrived.
    Unreachable,
    /// A response arrived with this status; `body` is its text, if it was
    /// read and could be.
    Response { status: u16, body: Option<String> },
}

/// Why an attempt counts as failed.
#[derive(Clone, Copy, Debug, PartialEq, Eq, Structural)]
pub enum FetchFailure {
    /// No response arrived.
    Unreachable,
    /// The response's status was not a success.
    Status(u16),
    /// The response's body could not be read as text.
    Unreadable,
}

/// What the caller does after an attempt.
pub enum FetchStep {
    /// The fetch is over: this is the page.
    Deliver(String),
    /// Wait `seconds`, then try again.
    RetryAfter { seconds: u64, failure: FetchFailure },
}

/// Why `outcome` is a failure, if it is one.
pub open spec fn failure_of(outcome: FetchOutcome) -> Option<FetchFailure> {
    match outcome {
        FetchOutcome::Unreachable => Some(FetchFailure::Unreachable),
        FetchOutcome::Response { status, body } => if !is_success(status) {
            Some(FetchFailure::Status(status))
        } else if body is None {
            Some(FetchFailure::Unreadable)
        } else {
            None
        },
    }
}

/// One fetch in progress: it remembers how long the next wait is.
pub struct Fetcher {
    policy: RetryPolicy,
    backoff: u64,
    failures: Ghost<nat>,
}

impl Fetcher {
    #[verifier::type_invariant]
    spec fn on_schedule(self) -> bool {
        &&& 1 <= self.policy.initial <= self.policy.cap
        &&& self.backoff == delay_after(
            self.policy.initial as nat,
            self.policy.cap as nat,
            self.failures@,
        )
    }

    /// The policy of this fetch.
    pub closed spec fn policy(self) -> RetryPolicy {
        self.policy
    }

    /// The failed attempts so far.
    pub closed spec fn failures(self) -> nat {
        self.failures@
    }

    /// The wait, in seconds, that the next failure is answered with.
    pub closed spec fn backoff(self) -> nat {
        self.backoff as nat
    }

    /// A fetch that no attempt has been made for: the wait starts over at the
    /// policy's first length, whatever earlier fetches came to.
    pub fn new(policy: RetryPolicy) -> (f: Fetcher)
        ensures
            f.policy() == policy,
            f.failures() == 0,
            f.backoff() == policy.initial(),
            1 <= policy.initial() <= policy.cap() <= u64::MAX,
    {
        proof {
            use_type_invariant(policy);
        }
        Fetcher { policy, backoff: policy.initial, failures: Ghost(0) }
    }

    /// Takes in what an attempt came to. A body read from a successful
    /// response ends the fetch. Anything else is a failure: the caller is told
    /// to wait the current backoff, and the backoff doubles up to the cap.
    pub fn on_outcome(&mut self, outcome: FetchOutcome) -> (step: FetchStep)
        ensures
            final(self).policy() == old(self).policy(),
            match failure_of(outcome) {
                None => outcome matches FetchOutcome::Response { body: Some(text), .. } && step
                    == FetchStep::Deliver(text) && final(self).failures() == old(self).failures()
                    && final(self).backoff() == old(self).backoff(),
                Some(failure) => step matches FetchStep::RetryAfter { seconds, failure: told }
                    && seconds as nat == old(self).backoff() && told == failure
                    && final(self).failures() == old(self).failures() + 1
                    && final(self).backoff() == doubled_capped(
                    old(self).backoff(),
                    old(self).policy().cap(),
                ),
            },
            1 <= final(self).policy().initial() <= final(self).policy().cap() <= u64::MAX,
            1 <= final(self).backoff() <= final(self).policy().cap(),
            final(self).backoff() == delay_after(
                old(self).policy().initial(),
                old(self).policy().cap(),
                final(self).failures(),
            ),
    {
        proof {
            use_type_invariant(&*self);
            lemma_delay_bounded(
                self.policy.initial as nat,
                self.policy.cap as nat,
                self.failures@ + 1,
            );
        }
        let failure = match outcome {
            FetchOutcome::Unreachable => FetchFailure::Unreachable,
            FetchOutcome::Response { status, body } => {
                if !status_is_success(status) {
                    FetchFailure::Status(status)
                } else {
                    match body {
                        Some(text) => {
                            return FetchStep::Deliver(text);
                        },
                        None => FetchFailure::Unreadable,
                    }
                }
            },
        };
        let seconds = self.backoff;
        let next = self.policy.next_delay(seconds);
        *self = Fetcher {
            policy: self.policy,
            backoff: next,
            failures: Ghost((self.failures@ + 1) as nat),
        };
        FetchStep::RetryAfter { seconds, failure }
    }
}

/// No wait is longer than the cap.
pub proof fn lemma_delay_bounded(initial: nat, cap: nat, failures: nat)
    requires
        1 <= initial <= cap,
    ensures
        1 <= delay_after(initial, cap, failures) <= cap,
    decreases failures,
{
    if failures > 0 {
        lemma_delay_bounded(initial, cap, (failures - 1) as nat);
    }
}

/// The waits never get shorter.
pub proof fn lemma_delay_monotonic(initial: nat, cap: nat, earlier: nat, later: nat)
    requires
        1 <= initial <= cap,
        earlier <= later,
    ensures
        delay_after(initial, cap, earlier) <= delay_after(initial, cap, later),
    decreases later,
{
    if earlier < later {
        lemma_delay_monotonic(initial, cap, earlier, (later - 1) as nat);
    }
}

/// The waits reach the cap and stay there: after `cap` failures at the
/// latest every wait is the cap.
pub proof fn lemma_delay_saturates(initial: nat, cap: nat, failures: nat)
    requires
        1 <= initial <= cap,
        failures >= cap,
    ensures
        delay_after(initial, cap, failures) == cap,
{
    lemma_delay_grows(initial, cap, failures);
}

proof fn lemma_delay_grows(initial: nat, cap: nat, failures: nat)
    requires
        1 <= initial <= cap,
    ensures
        delay_after(initial, cap, failures) == cap || delay_after(initial, cap, failures)
            >= failures + 1,
        delay_after(initial, cap, failures) <= cap,
    decreases failures,
{
    if failures > 0 {
        lemma_delay_grows(initial, cap, (failures - 1) as nat);
    }
}

/// Under the standard policy the waits are 1, 2, 4, 8, 16, 32, 64, 128 and
/// 256 seconds, and 300 seconds from then on.
pub proof fn lemma_standard_delays(failures: nat)
    ensures
        delay_after(1, 300, 0) == 1,
        delay_after(1, 300, 1) == 2,
        delay_after(1, 300, 2) == 4,
        delay_after(1, 300, 3) == 8,
        delay_after(1, 300, 4) == 16,
        delay_after(1, 300, 5) == 32,
        delay_after(1, 300, 6) == 64,
        delay_after(1, 300, 7) == 128,
        delay_after(1, 300, 8) == 256,
        failures >= 9 ==> delay_after(1, 300, failures) == 300,
    decreases failures,
{
    reveal_with_fuel(delay_after, 10);
    if failures > 9 {
        lemma_standard_delays((failures - 1) as nat);
    }
}

} // verus!
