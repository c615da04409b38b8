use chrono::TimeZone;
use chrono::Utc;
use sheepnet::calendar::Instant;
use sheepnet::driver::Driver;
use sheepnet::driver::DriverAction;
use sheepnet::driver::DriverEvent;
use sheepnet::driver::Phase;

fn at(hour: u32, minute: u32, second: u32) -> Instant {
    let stamp = Utc.with_ymd_and_hms(2025, 11, 22, hour, minute, second).unwrap().timestamp();
    Instant::from_unix_seconds(stamp).unwrap()
}

#[test]
fn a_looping_driver_waits_fetches_delivers_and_waits_again() {
    let mut driver = Driver::new(false, false);
    assert_eq!(driver.phase(), Phase::Idle);
    assert!(!driver.started());
    assert_eq!(driver.on_event(DriverEvent::Ready(at(15, 0, 5))), DriverAction::Wait(3600));
    assert_eq!(driver.phase(), Phase::Waiting);
    assert!(driver.started());
    assert_eq!(driver.on_event(DriverEvent::TimerExpired), DriverAction::Fetch);
    assert_eq!(driver.phase(), Phase::Fetching);
    assert_eq!(driver.on_event(DriverEvent::Fetched), DriverAction::Deliver);
    assert_eq!(driver.phase(), Phase::Delivering);
    assert_eq!(driver.on_event(DriverEvent::Delivered(at(16, 0, 9))), DriverAction::Wait(86_396));
    assert_eq!(driver.phase(), Phase::Waiting);
}

#[test]
fn a_single_run_stops_after_its_delivery() {
    let mut driver = Driver::new(true, true);
    assert_eq!(driver.on_event(DriverEvent::Ready(at(9, 0, 0))), DriverAction::Fetch);
    assert_eq!(driver.on_event(DriverEvent::Fetched), DriverAction::Deliver);
    assert_eq!(driver.on_event(DriverEvent::Delivered(at(9, 0, 3))), DriverAction::Stop);
    assert_eq!(driver.phase(), Phase::Terminated);
    assert_eq!(driver.on_event(DriverEvent::TimerExpired), DriverAction::Nothing);
    assert_eq!(driver.on_event(DriverEvent::Ready(at(9, 1, 0))), DriverAction::Nothing);
    assert_eq!(driver.phase(), Phase::Terminated);
}

#[test]
fn a_single_run_that_waits_first() {
    let mut driver = Driver::new(true, false);
    assert_eq!(driver.on_event(DriverEvent::Ready(at(16, 0, 4))), DriverAction::Wait(1));
    assert_eq!(driver.on_event(DriverEvent::TimerExpired), DriverAction::Fetch);
    assert_eq!(driver.on_event(DriverEvent::FetchFailed(at(16, 0, 6))), DriverAction::Stop);
    assert_eq!(driver.phase(), Phase::Terminated);
}

#[test]
fn a_failed_fetch_skips_the_delivery_and_the_loop_goes_on() {
    let mut driver = Driver::new(false, true);
    assert_eq!(driver.on_event(DriverEvent::Ready(at(12, 0, 0))), DriverAction::Fetch);
    assert_eq!(driver.on_event(DriverEvent::FetchFailed(at(12, 0, 5))), DriverAction::Wait(14_400));
    assert_eq!(driver.phase(), Phase::Waiting);
    assert_eq!(driver.on_event(DriverEvent::TimerExpired), DriverAction::Fetch);
    assert_eq!(driver.on_event(DriverEvent::Fetched), DriverAction::Deliver);
}

#[test]
fn a_second_ready_starts_nothing() {
    let mut driver = Driver::new(false, false);
    assert_eq!(driver.on_event(DriverEvent::Ready(at(10, 0, 5))), DriverAction::Wait(21_600));
    assert_eq!(driver.on_event(DriverEvent::Ready(at(10, 30, 0))), DriverAction::Nothing);
    assert_eq!(driver.phase(), Phase::Waiting);
    assert_eq!(driver.on_event(DriverEvent::TimerExpired), DriverAction::Fetch);
    assert_eq!(driver.on_event(DriverEvent::Ready(at(16, 0, 6))), DriverAction::Nothing);
    assert_eq!(driver.phase(), Phase::Fetching);
}

#[test]
fn events_out_of_turn_change_nothing() {
    let mut driver = Driver::new(false, false);
    assert_eq!(driver.on_event(DriverEvent::TimerExpired), DriverAction::Nothing);
    assert_eq!(driver.on_event(DriverEvent::Fetched), DriverAction::Nothing);
    assert_eq!(driver.on_event(DriverEvent::Delivered(at(1, 0, 0))), DriverAction::Nothing);
    assert_eq!(driver.on_event(DriverEvent::FetchFailed(at(1, 0, 0))), DriverAction::Nothing);
    assert_eq!(driver.phase(), Phase::Idle);
    assert!(!driver.started());
    assert_eq!(driver.on_event(DriverEvent::Ready(at(16, 0, 5))), DriverAction::Wait(86_400));
    assert_eq!(driver.on_event(DriverEvent::Fetched), DriverAction::Nothing);
    assert_eq!(driver.on_event(DriverEvent::Delivered(at(17, 0, 0))), DriverAction::Nothing);
    assert_eq!(driver.phase(), Phase::Waiting);
}

#[test]
fn on_the_last_day_a_wait_is_asked_for_until_the_cutoff() {
    let last_day = 8_210_266_876_799 - 86_399;
    let morning = Instant::from_unix_seconds(last_day + 50_000).unwrap();
    let mut driver = Driver::new(false, false);
    assert_eq!(driver.on_event(DriverEvent::Ready(morning)), DriverAction::Wait(7_605));
    assert_eq!(driver.on_event(DriverEvent::TimerExpired), DriverAction::Fetch);
    let late = Instant::from_unix_seconds(last_day + 86_399).unwrap();
    let mut once = Driver::new(true, true);
    assert_eq!(once.on_event(DriverEvent::Ready(late)), DriverAction::Fetch);
    assert_eq!(once.on_event(DriverEvent::FetchFailed(late)), DriverAction::Stop);
    assert_eq!(driver.on_event(DriverEvent::Ready(late)), DriverAction::Nothing);
}
