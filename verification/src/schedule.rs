//! The three schedules and the rules by which an instant is resolved to the
//! day whose table row is current.

use crate::calendar::civil_date;
use crate::calendar::date_key;
use crate::calendar::date_key_of;
use crate::calendar::day_of;
use crate::calendar::DAY_SECONDS;
use crate::calendar::EARLIEST_SECONDS;
use crate::calendar::in_calendar;
use crate::calendar::Instant;
use crate::calendar::LATEST_SECONDS;
use crate::calendar::second_of_day;
use vstd::prelude::*;

verus! {

/// Seconds in a week.
pub const WEEK_SECONDS: i64 = 604_800;

/// The instant the weekly schedule counts from: 2025-02-10 15:00:00 UTC.
pub const WEEKLY_ANCHOR_SECONDS: i64 = 1_739_199_600;

/// 16:00:05, as seconds of the day.
pub const PRIMARY_CUTOFF: i64 = 57_605;

/// 07:00:00, as seconds of the day.
pub const SECONDARY_CUTOFF: i64 = 25_200;

/// 15:00:00, as seconds of the day.
pub const WEEKLY_CUTOFF: i64 = 54_000;

/// A schedule on which rows become current.
#[derive(Clone, Copy, Debug, PartialEq, Eq, Structural)]
pub enum ScheduleKind {
    /// Daily, from 16:00:05 UTC.
    Primary,
    /// Daily, from 07:00:00 UTC.
    Secondary,
    /// Every seven days, from 15:00:00 UTC on the anchor's weekday.
    Weekly,
}

/// The second of the day from which a schedule's new row is current.
pub open spec fn cutoff_of(kind: ScheduleKind) -> int {
    match kind {
        ScheduleKind::Primary => PRIMARY_CUTOFF as int,
        ScheduleKind::Secondary => SECONDARY_CUTOFF as int,
        ScheduleKind::Weekly => WEEKLY_CUTOFF as int,
    }
}

/// The instant of the cutoff of `kind` on the day that holds `now`.
pub open spec fn cutoff_instant(now: int, kind: ScheduleKind) -> int {
    now - second_of_day(now) + cutoff_of(kind)
}

/// For a daily schedule: `now` itself at or after the day's cutoff, a day
/// earlier before it.
pub open spec fn cutoff_adjusted(now: int, kind: ScheduleKind) -> int {
    if now < cutoff_instant(now, kind) {
        now - DAY_SECONDS
    } else {
        now
    }
}

/// The latest of the instants anchor, anchor + 7 days, anchor + 14 days, ...
/// that is not after `at`; the anchor itself where `at` is before it.
pub open spec fn weekly_boundary(at: int) -> int {
    if at < WEEKLY_ANCHOR_SECONDS {
        WEEKLY_ANCHOR_SECONDS as int
    } else {
        WEEKLY_ANCHOR_SECONDS + ((at - WEEKLY_ANCHOR_SECONDS) / (WEEK_SECONDS as int))
            * WEEK_SECONDS
    }
}

/// The instant whose day is current for `kind` at `now`. A daily schedule
/// goes by the day's cutoff. The weekly schedule goes by its boundaries alone:
/// they are whole weeks from the anchor, which carries the weekly cutoff.
pub open spec fn resolved_instant(now: int, kind: ScheduleKind) -> int {
    match kind {
        ScheduleKind::Weekly => weekly_boundary(now),
        _ => cutoff_adjusted(now, kind),
    }
}

/// Whether the day before `now` is needed to resolve it, and so must lie in
/// the calendar: a daily schedule needs it before its cutoff of the day.
pub open spec fn reaches_back(now: int, kind: ScheduleKind) -> bool {
    kind != ScheduleKind::Weekly && second_of_day(now) < cutoff_of(kind)
}

/// Whether the next trigger after `now` lies on the day after `now`: from the
/// primary cutoff of the day on.
pub open spec fn reaches_ahead(now: int) -> bool {
    second_of_day(now) >= PRIMARY_CUTOFF
}

/// The date key that is current for `kind` at `now`.
pub open spec fn resolved_key(now: int, kind: ScheduleKind) -> Seq<char> {
    date_key_of(resolved_instant(now, kind))
}

/// The next instant after `now` at which the primary schedule's row changes.
pub open spec fn next_trigger(now: int) -> int {
    if now >= cutoff_instant(now, ScheduleKind::Primary) {
        cutoff_instant(now, ScheduleKind::Primary) + DAY_SECONDS
    } else {
        cutoff_instant(now, ScheduleKind::Primary)
    }
}

/// The seconds between two rows of a schedule: a day, or a week.
pub open spec fn cadence_of(kind: ScheduleKind) -> int {
    match kind {
        ScheduleKind::Weekly => WEEK_SECONDS as int,
        _ => DAY_SECONDS as int,
    }
}

/// The instant a schedule counts its rows from, if it counts from one.
pub open spec fn anchor_of(kind: ScheduleKind) -> Option<int> {
    match kind {
        ScheduleKind::Weekly => Some(WEEKLY_ANCHOR_SECONDS as int),
        _ => None,
    }
}

impl ScheduleKind {
    /// The second of the day from which the schedule's new row is current.
    pub fn cutoff_seconds(self) -> (r: i64)
        ensures
            r == cutoff_of(self),
            0 <= r < DAY_SECONDS,
    {
        match self {
            ScheduleKind::Primary => PRIMARY_CUTOFF,
            ScheduleKind::Secondary => SECONDARY_CUTOFF,
            ScheduleKind::Weekly => WEEKLY_CUTOFF,
        }
    }

    /// The cutoff as hour, minute and second of the day.
    pub fn cutoff_time(self) -> (r: (u8, u8, u8))
        ensures
            r.0 <= 23,
            r.1 <= 59,
            r.2 <= 59,
            r.0 * 3600 + r.1 * 60 + r.2 == cutoff_of(self),
    {
        match self {
            ScheduleKind::Primary => (16, 0, 5),
            ScheduleKind::Secondary => (7, 0, 0),
            ScheduleKind::Weekly => (15, 0, 0),
        }
    }

    /// The seconds between two rows: a day, or a week.
    pub fn cadence_seconds(self) -> (r: i64)
        ensures
            r == cadence_of(self),
    {
        match self {
            ScheduleKind::Weekly => WEEK_SECONDS,
            _ => DAY_SECONDS,
        }
    }

    /// The instant the schedule counts its rows from, if it counts from one,
    /// in seconds since 1970-01-01 00:00:00 UTC.
    pub fn anchor_seconds(self) -> (r: Option<i64>)
        ensures
            match r {
                Some(anchor) => anchor_of(self) == Some(anchor as int),
                None => anchor_of(self) is None,
            },
    {
        match self {
            ScheduleKind::Weekly => Some(WEEKLY_ANCHOR_SECONDS),
            _ => None,
        }
    }
}

/// The seconds that have passed of its day at `secs`.
fn seconds_into_day(secs: i64) -> (r: i64)
    requires
        in_calendar(secs as int),
    ensures
        r == second_of_day(secs as int),
        0 <= r < DAY_SECONDS,
{
    let r: i64 = secs % DAY_SECONDS;
    if r < 0 {
        r + DAY_SECONDS
    } else {
        r
    }
}

/// Whether resolving `now` for `kind` reaches a day back.
pub fn needs_day_before(now: &Instant, kind: ScheduleKind) -> (r: bool)
    ensures
        r == reaches_back(now@, kind),
{
    match kind {
        ScheduleKind::Weekly => false,
        _ => seconds_into_day(now.unix_seconds()) < kind.cutoff_seconds(),
    }
}

/// Whether the next trigger after `now` lies on the day after `now`.
pub fn needs_day_after(now: &Instant) -> (r: bool)
    ensures
        r == reaches_ahead(now@),
{
    seconds_into_day(now.unix_seconds()) >= PRIMARY_CUTOFF
}

/// The instant whose day is current for `kind` at `now`. Where a daily
/// schedule reaches a day back, `now` must not lie on the calendar's first
/// day.
pub fn resolve_instant(now: &Instant, kind: ScheduleKind) -> (r: Instant)
    requires
        reaches_back(now@, kind) ==> now@ - DAY_SECONDS >= EARLIEST_SECONDS,
    ensures
        r@ == resolved_instant(now@, kind),
{
    let secs = now.unix_seconds();
    let resolved: i64 = match kind {
        ScheduleKind::Weekly => {
            if secs < WEEKLY_ANCHOR_SECONDS {
                WEEKLY_ANCHOR_SECONDS
            } else {
                let weeks: i64 = (secs - WEEKLY_ANCHOR_SECONDS) / WEEK_SECONDS;
                WEEKLY_ANCHOR_SECONDS + weeks * WEEK_SECONDS
            }
        },
        _ => {
            if seconds_into_day(secs) < kind.cutoff_seconds() {
                secs - DAY_SECONDS
            } else {
                secs
            }
        },
    };
    let r = Instant::from_unix_seconds(resolved);
    r.unwrap()
}

/// The date key that is current for `kind` at `now`.
pub fn resolve_key(now: &Instant, kind: ScheduleKind) -> (key: String)
    requires
        reaches_back(now@, kind) ==> now@ - DAY_SECONDS >= EARLIEST_SECONDS,
    ensures
        key@ == resolved_key(now@, kind),
{
    let at = resolve_instant(now, kind);
    date_key(&at)
}

/// The instant whose day the primary daily row is read for. Before 16:00:05
/// that is a day back, and `now` must not lie on the calendar's first day.
pub fn get_current_daily_date(now: &Instant) -> (r: Instant)
    requires
        reaches_back(now@, ScheduleKind::Primary) ==> now@ - DAY_SECONDS >= EARLIEST_SECONDS,
    ensures
        r@ == resolved_instant(now@, ScheduleKind::Primary),
{
    resolve_instant(now, ScheduleKind::Primary)
}

/// The instant whose day the secondary daily row, Nicholas Sandford's, is
/// read for. Before 07:00:00 that is a day back, and `now` must not lie on the
/// calendar's first day.
pub fn get_nicholas_sandford_date(now: &Instant) -> (r: Instant)
    requires
        reaches_back(now@, ScheduleKind::Secondary) ==> now@ - DAY_SECONDS >= EARLIEST_SECONDS,
    ensures
        r@ == resolved_instant(now@, ScheduleKind::Secondary),
{
    resolve_instant(now, ScheduleKind::Secondary)
}

/// The instant whose day the weekly row is read for: the start of the
/// seven-day span that holds `now`.
pub fn get_current_weekly_date(now: &Instant) -> (r: Instant)
    ensures
        r@ == resolved_instant(now@, ScheduleKind::Weekly),
{
    resolve_instant(now, ScheduleKind::Weekly)
}

/// The next instant at which a cycle is due: today's primary cutoff if it is
/// still ahead, tomorrow's otherwise. From the cutoff on, `now` must not lie
/// on the calendar's last day.
pub fn get_target_time(now: &Instant) -> (target: Instant)
    requires
        reaches_ahead(now@) ==> now@ + DAY_SECONDS <= LATEST_SECONDS,
    ensures
        target@ == next_trigger(now@),
        now@ < target@ <= now@ + DAY_SECONDS,
        second_of_day(target@) == PRIMARY_CUTOFF,
{
    let secs = now.unix_seconds();
    let cutoff: i64 = secs - seconds_into_day(secs) + PRIMARY_CUTOFF;
    let target: i64 = if secs >= cutoff {
        cutoff + DAY_SECONDS
    } else {
        cutoff
    };
    Instant::from_unix_seconds(target).unwrap()
}

/// The whole seconds to wait at `now` until `target`; none if it has passed.
pub fn seconds_until(now: &Instant, target: &Instant) -> (delay: u64)
    ensures
        delay == if target@ > now@ {
            target@ - now@
        } else {
            0
        },
{
    let from = now.unix_seconds();
    let to = target.unix_seconds();
    if to > from {
        (to - from) as u64
    } else {
        0
    }
}

/// The number of the seven-day span that holds `at`: span 0 starts at the
/// anchor, span `k` at `k` weeks after it.
pub open spec fn week_index(at: int) -> int {
    (at - WEEKLY_ANCHOR_SECONDS) / (WEEK_SECONDS as int)
}

/// The first instant of span `k`.
pub open spec fn span_start(k: int) -> int {
    WEEKLY_ANCHOR_SECONDS + k * WEEK_SECONDS
}

/// The weekly boundary of an instant at or after the anchor is the last of
/// the instants anchor, anchor + 7 days, ... that is not after it: it lies a
/// whole number of weeks after the anchor, not after the instant, and the next
/// one does.
pub proof fn lemma_weekly_boundary_is_last(at: int)
    requires
        at >= WEEKLY_ANCHOR_SECONDS,
    ensures
        weekly_boundary(at) == span_start(week_index(at)),
        week_index(at) >= 0,
        weekly_boundary(at) <= at < weekly_boundary(at) + WEEK_SECONDS,
{
}

/// What a schedule resolves an instant to, by its cadence and anchor: a
/// schedule without an anchor resolves to the instant itself or to one
/// cadence before; one with an anchor resolves to the anchor or a whole number
/// of cadences after it, and from the anchor on to the last such instant that
/// is not after the instant.
pub proof fn lemma_resolved_by_cadence(now: int, kind: ScheduleKind)
    ensures
        match anchor_of(kind) {
            None => resolved_instant(now, kind) == now || resolved_instant(now, kind) == now
                - cadence_of(kind),
            Some(anchor) => resolved_instant(now, kind) >= anchor && (resolved_instant(now, kind)
                - anchor) % cadence_of(kind) == 0 && (now >= anchor ==> resolved_instant(
                now,
                kind,
            ) <= now < resolved_instant(now, kind) + cadence_of(kind)),
        },
{
    if kind == ScheduleKind::Weekly && now >= WEEKLY_ANCHOR_SECONDS {
        let weeks = (now - WEEKLY_ANCHOR_SECONDS) / 604_800;
        assert((weeks * 604_800) % 604_800 == 0) by (nonlinear_arith);
    }
}

/// The weekly anchor is 10 February 2025, 15:00:00 UTC.
pub proof fn lemma_weekly_anchor_date()
    ensures
        civil_date(day_of(WEEKLY_ANCHOR_SECONDS as int)) == (2025int, 2int, 10int),
        second_of_day(WEEKLY_ANCHOR_SECONDS as int) == 15 * 3600,
{
}

/// Every weekly boundary lies at the weekly cutoff of its day, 15:00:00.
pub proof fn lemma_weekly_boundary_at_cutoff(at: int)
    ensures
        second_of_day(weekly_boundary(at)) == cutoff_of(ScheduleKind::Weekly),
{
}

/// The next trigger is the next primary cutoff after `now`: it lies at
/// 16:00:05 of its day, after `now` and within a day of it, and no instant
/// between the two lies at 16:00:05.
pub proof fn lemma_next_trigger_is_next_cutoff(now: int)
    ensures
        second_of_day(next_trigger(now)) == PRIMARY_CUTOFF,
        now < next_trigger(now) <= now + DAY_SECONDS,
        forall|t: int| now < t < next_trigger(now) ==> second_of_day(t) != PRIMARY_CUTOFF,
{
}

/// Before its cutoff of the day a daily schedule resolves to the day before,
/// from the cutoff on to the day itself; the cutoff lies on the day of `now`
/// at the schedule's second of the day.
pub proof fn lemma_daily_key_by_cutoff(now: int, kind: ScheduleKind)
    requires
        kind != ScheduleKind::Weekly,
    ensures
        day_of(cutoff_instant(now, kind)) == day_of(now),
        second_of_day(cutoff_instant(now, kind)) == cutoff_of(kind),
        now < cutoff_instant(now, kind) ==> day_of(resolved_instant(now, kind)) == day_of(now) - 1
            && resolved_key(now, kind) == date_key_of(now - DAY_SECONDS),
        now >= cutoff_instant(now, kind) ==> day_of(resolved_instant(now, kind)) == day_of(now)
            && resolved_key(now, kind) == date_key_of(now),
{
}

/// The two daily schedules are resolved apart: between 07:00:00 and 16:00:05
/// the secondary one reads the day of `now` and the primary one the day
/// before.
pub proof fn lemma_dailies_straddle(now: int)
    requires
        SECONDARY_CUTOFF <= second_of_day(now) < PRIMARY_CUTOFF,
    ensures
        resolved_instant(now, ScheduleKind::Secondary) == now,
        resolved_instant(now, ScheduleKind::Primary) == now - DAY_SECONDS,
{
}

/// Within one seven-day span from the anchor the weekly key does not change:
/// two instants of the same span resolve to the first instant of the span, and
/// so to the same key.
pub proof fn lemma_weekly_key_constant_in_span(a: int, b: int)
    requires
        week_index(a) == week_index(b),
        week_index(a) >= 0,
    ensures
        resolved_instant(a, ScheduleKind::Weekly) == span_start(week_index(a)),
        resolved_instant(a, ScheduleKind::Weekly) == resolved_instant(b, ScheduleKind::Weekly),
        resolved_key(a, ScheduleKind::Weekly) == resolved_key(b, ScheduleKind::Weekly),
{
}

/// The same with the span given: every instant from the start of span `k` up
/// to the start of the next resolves to the start of span `k`.
pub proof fn lemma_weekly_resolution(at: int, k: int)
    requires
        k >= 0,
        span_start(k) <= at < span_start(k + 1),
    ensures
        week_index(at) == k,
        resolved_instant(at, ScheduleKind::Weekly) == span_start(k),
        resolved_key(at, ScheduleKind::Weekly) == date_key_of(span_start(k)),
{
}

} // verus!
