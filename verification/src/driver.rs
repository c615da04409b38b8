//! The driver of the cycles: it waits for the next trigger, has the pages
//! fetched and the result delivered, and waits again or stops. It decides;
//! its owner does the waiting, the fetching and the delivering, and reports
//! back what happened.

use crate::calendar::DAY_SECONDS;
use crate::calendar::Instant;
use crate::calendar::LATEST_SECONDS;
use crate::schedule::get_target_time;
use crate::schedule::next_trigger;
use crate::schedule::reaches_ahead;
use crate::schedule::seconds_until;
use vstd::prelude::*;

verus! {

/// Where the driver stands.
#[derive(Clone, Copy, Debug, PartialEq, Eq, Structural)]
pub enum Phase {
    /// Not started yet.
    Idle,
    /// Waiting for the next trigger.
    Waiting,
    /// The pages are being fetched and read.
    Fetching,
    /// The rendered result is being delivered.
    Delivering,
    /// A single run is over.
    Terminated,
}

/// What the driver's owner reports.
#[derive(Clone, Copy, Debug)]
pub enum DriverEvent {
    /// The owner is ready to run cycles; it is now `0`. This may be reported
    /// again, after a reconnect.
    Ready(Instant),
    /// The wait that was asked for is over.
    TimerExpired,
    /// Both pages were fetched and the result is rendered.
    Fetched,
    /// A page lacks the row asked for; it is now `0`.
    FetchFailed(Instant),
    /// The result was handed over, with or without success; it is now `0`.
    Delivered(Instant),
}

/// What the driver's owner is to do next.
#[derive(Clone, Copy, Debug, PartialEq, Eq, Structural)]
pub enum DriverAction {
    /// Nothing: the report changes nothing.
    Nothing,
    /// Wait this many seconds, then report `TimerExpired`.
    Wait(u64),
    /// Fetch both pages and render the result, then report `Fetched` or
    /// `FetchFailed`.
    Fetch,
    /// Deliver the result, then report `Delivered`.
    Deliver,
    /// Stop: the single run is over.
    Stop,
}

/// A driver as plain values. `until` is the trigger that is waited for, in
/// seconds since 1970-01-01 00:00:00 UTC, and 0 in any phase but `Waiting`.
pub struct DriverView {
    pub run_once: bool,
    pub immediate: bool,
    pub started: bool,
    pub phase: Phase,
    pub until: int,
}

/// The driver of the cycles.
#[derive(Debug)]
pub struct Driver {
    run_once: bool,
    immediate: bool,
    started: bool,
    phase: Phase,
    until: i64,
}

impl View for Driver {
    type V = DriverView;

    closed spec fn view(&self) -> DriverView {
        DriverView {
            run_once: self.run_once,
            immediate: self.immediate,
            started: self.started,
            phase: self.phase,
            until: self.until as int,
        }
    }
}

/// The instant from which a step computes the next wait, if the step leads
/// to a wait: the first `Ready` of a driver that does not run at once, and the
/// end of a cycle of a driver that runs on.
pub open spec fn wait_from_instant(d: DriverView, event: DriverEvent) -> Option<int> {
    match event {
        DriverEvent::Ready(now) => if !d.started && d.phase == Phase::Idle && !d.immediate {
            Some(now@)
        } else {
            None
        },
        DriverEvent::FetchFailed(now) => if d.phase == Phase::Fetching && !d.run_once {
            Some(now@)
        } else {
            None
        },
        DriverEvent::Delivered(now) => if d.phase == Phase::Delivering && !d.run_once {
            Some(now@)
        } else {
            None
        },
        _ => None,
    }
}

/// The driver in the phase `phase`, waiting for nothing.
pub open spec fn in_phase(d: DriverView, phase: Phase) -> DriverView {
    DriverView { phase, until: 0, ..d }
}

/// The driver waiting for the next trigger after `now`, and the wait to ask
/// for.
pub open spec fn waiting_from(d: DriverView, now: int) -> (DriverView, DriverAction) {
    (
        DriverView { phase: Phase::Waiting, until: next_trigger(now), ..d },
        DriverAction::Wait((next_trigger(now) - now) as u64),
    )
}

/// What follows a cycle that ended at `now`, delivered or abandoned: a single
/// run stops, else the driver waits for the next trigger after `now`.
pub open spec fn after_cycle(d: DriverView, now: int) -> (DriverView, DriverAction) {
    if d.run_once {
        (in_phase(d, Phase::Terminated), DriverAction::Stop)
    } else {
        waiting_from(d, now)
    }
}

/// The driver after an event, and the action it asks for. A first `Ready`
/// starts the driver: with a fetch if it is to run at once, else with the wait
/// for the next trigger; any later `Ready` changes nothing. The end of a wait
/// starts a fetch. A fetch that succeeded is followed by the delivery, and a
/// delivery or a failed fetch by what follows a cycle. An event that does not
/// belong to the phase changes nothing.
pub open spec fn step(d: DriverView, event: DriverEvent) -> (DriverView, DriverAction) {
    match event {
        DriverEvent::Ready(now) => if d.started || d.phase != Phase::Idle {
            (d, DriverAction::Nothing)
        } else if d.immediate {
            (in_phase(DriverView { started: true, ..d }, Phase::Fetching), DriverAction::Fetch)
        } else {
            waiting_from(DriverView { started: true, ..d }, now@)
        },
        DriverEvent::TimerExpired => if d.phase == Phase::Waiting {
            (in_phase(d, Phase::Fetching), DriverAction::Fetch)
        } else {
            (d, DriverAction::Nothing)
        },
        DriverEvent::Fetched => if d.phase == Phase::Fetching {
            (in_phase(d, Phase::Delivering), DriverAction::Deliver)
        } else {
            (d, DriverAction::Nothing)
        },
        DriverEvent::FetchFailed(now) => if d.phase == Phase::Fetching {
            after_cycle(d, now@)
        } else {
            (d, DriverAction::Nothing)
        },
        DriverEvent::Delivered(now) => if d.phase == Phase::Delivering {
            after_cycle(d, now@)
        } else {
            (d, DriverAction::Nothing)
        },
    }
}

impl Driver {
    /// A driver that has not started. With `run_once` it stops after one
    /// cycle; with `immediate` its first cycle starts without a wait.
    pub fn new(run_once: bool, immediate: bool) -> (d: Driver)
        ensures
            d@ == (DriverView { run_once, immediate, started: false, phase: Phase::Idle, until: 0 }),
    {
        Driver { run_once, immediate, started: false, phase: Phase::Idle, until: 0 }
    }

    /// Where the driver stands.
    pub fn phase(&self) -> (phase: Phase)
        ensures
            phase == self@.phase,
    {
        self.phase
    }

    /// Whether the driver was started.
    pub fn started(&self) -> (started: bool)
        ensures
            started == self@.started,
    {
        self.started
    }

    fn wait_from(&mut self, now: &Instant) -> (action: DriverAction)
        requires
            reaches_ahead(now@) ==> now@ + DAY_SECONDS <= LATEST_SECONDS,
        ensures
            (final(self)@, action) == waiting_from(old(self)@, now@),
    {
        let target = get_target_time(now);
        self.phase = Phase::Waiting;
        self.until = target.unix_seconds();
        DriverAction::Wait(seconds_until(now, &target))
    }

    fn end_cycle(&mut self, now: &Instant) -> (action: DriverAction)
        requires
            !old(self)@.run_once && reaches_ahead(now@) ==> now@ + DAY_SECONDS <= LATEST_SECONDS,
        ensures
            (final(self)@, action) == after_cycle(old(self)@, now@),
    {
        if self.run_once {
            self.phase = Phase::Terminated;
            self.until = 0;
            DriverAction::Stop
        } else {
            self.wait_from(now)
        }
    }

    /// Takes in an event and says what to do next. Where the step leads to a
    /// wait that ends on the next day, the instant that is reported must not lie
    /// on the calendar's last day.
    pub fn on_event(&mut self, event: DriverEvent) -> (action: DriverAction)
        requires
            wait_from_instant(old(self)@, event) matches Some(now) ==> (reaches_ahead(now) ==> now
                + DAY_SECONDS <= LATEST_SECONDS),
        ensures
            (final(self)@, action) == step(old(self)@, event),
    {
        match event {
            DriverEvent::Ready(now) => {
                if self.started || self.phase != Phase::Idle {
                    DriverAction::Nothing
                } else if self.immediate {
                    self.started = true;
                    self.phase = Phase::Fetching;
                    self.until = 0;
                    DriverAction::Fetch
                } else {
                    self.started = true;
                    self.wait_from(&now)
                }
            },
            DriverEvent::TimerExpired => {
                if self.phase == Phase::Waiting {
                    self.phase = Phase::Fetching;
                    self.until = 0;
                    DriverAction::Fetch
                } else {
                    DriverAction::Nothing
                }
            },
            DriverEvent::Fetched => {
                if self.phase == Phase::Fetching {
                    self.phase = Phase::Delivering;
                    self.until = 0;
                    DriverAction::Deliver
                } else {
                    DriverAction::Nothing
                }
            },
            DriverEvent::FetchFailed(now) => {
                if self.phase == Phase::Fetching {
                    self.end_cycle(&now)
                } else {
                    DriverAction::Nothing
                }
            },
            DriverEvent::Delivered(now) => {
                if self.phase == Phase::Delivering {
                    self.end_cycle(&now)
                } else {
                    DriverAction::Nothing
                }
            },
        }
    }
}

/// Whether a driver is as `new` and `step` can make it: it is idle exactly
/// until it is started, and it waits for no trigger unless it is waiting.
pub open spec fn consistent(d: DriverView) -> bool {
    &&& d.started <==> d.phase != Phase::Idle
    &&& d.phase != Phase::Waiting ==> d.until == 0
    &&& d.phase == Phase::Terminated ==> d.run_once
}

/// Every step leaves a consistent driver consistent and its two settings as
/// they were.
pub proof fn lemma_step_keeps_consistent(d: DriverView, event: DriverEvent)
    requires
        consistent(d),
    ensures
        consistent(step(d, event).0),
        step(d, event).0.run_once == d.run_once,
        step(d, event).0.immediate == d.immediate,
{
}

/// The driver is started once: whatever is reported to a started driver, a
/// further `Ready` changes nothing and asks for nothing.
pub proof fn lemma_started_once(d: DriverView, now: Instant)
    requires
        consistent(d),
        d.started,
    ensures
        step(d, DriverEvent::Ready(now)) == (d, DriverAction::Nothing),
        step(d, DriverEvent::Ready(now)).0.started,
{
}

/// Cycles do not overlap: a fetch is asked for only by a driver that is not in
/// a cycle, and a delivery only during a fetch.
pub proof fn lemma_one_cycle_at_a_time(d: DriverView, event: DriverEvent)
    requires
        consistent(d),
    ensures
        step(d, event).1 == DriverAction::Fetch ==> (d.phase == Phase::Idle || d.phase
            == Phase::Waiting) && step(d, event).0.phase == Phase::Fetching,
        step(d, event).1 == DriverAction::Deliver ==> d.phase == Phase::Fetching && step(
            d,
            event,
        ).0.phase == Phase::Delivering,
        step(d, event).1 == DriverAction::Stop ==> d.run_once && step(d, event).0.phase
            == Phase::Terminated,
        d.phase == Phase::Terminated ==> step(d, event) == (d, DriverAction::Nothing),
{
}

/// A wait that is asked for is longer than nothing and no longer than a day,
/// and ends at the trigger the driver waits for.
pub proof fn lemma_wait_is_within_a_day(d: DriverView, now: int)
    ensures
        waiting_from(d, now).0.until == next_trigger(now),
        now < next_trigger(now) <= now + DAY_SECONDS,
        waiting_from(d, now).1 == DriverAction::Wait((next_trigger(now) - now) as u64),
{
}

} // verus!
