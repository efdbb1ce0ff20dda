use rtactor::payload::{Payload, Timeout};
use rtactor::timer::TimeoutScheduler;
use rtactor::{Instant, Notification, Timer};
use std::time::Duration;

fn timeout_of(id: u32) -> Notification {
    Notification {
        data: Payload::from_timeout(Timeout(id)),
    }
}

#[test]
fn unschedule_undoes_schedule() {
    let now = std::time::Instant::now();
    let mut scheduler = TimeoutScheduler::new();
    let mut other = Timer::new();
    scheduler.schedule_until(&mut other, Instant::new(now) + Duration::from_secs(5), 3);

    let mut timer = Timer::new();
    scheduler.schedule_until(&mut timer, Instant::new(now) + Duration::from_secs(1), 7);
    assert_eq!(timer.id, 2);
    let (first, dst) = scheduler.next_timeout(&now).unwrap();
    assert!(first == timer);
    assert_eq!(dst, 7);

    scheduler.unschedule(&mut timer, 7);
    assert!(timer.deadline.at_inf());
    assert_eq!(timer.id, 0);
    // Only the other timer is left.
    let (first, dst) = scheduler.next_timeout(&now).unwrap();
    assert!(first == other);
    assert_eq!(dst, 3);

    // Unscheduling twice does what unscheduling once does.
    scheduler.unschedule(&mut timer, 7);
    let (first, _) = scheduler.next_timeout(&now).unwrap();
    assert!(first == other);

    scheduler.unschedule(&mut other, 3);
    assert!(scheduler.next_timeout(&now).is_none());
}

#[test]
fn unschedule_for_an_other_actor_keeps_the_entry() {
    let now = std::time::Instant::now();
    let mut scheduler = TimeoutScheduler::new();
    let mut timer = Timer::new();
    scheduler.schedule_until(&mut timer, Instant::new(now), 7);
    scheduler.unschedule(&mut timer, 8);
    assert!(timer.deadline.at_inf());
    assert!(scheduler.next_timeout(&now).is_some());
}

#[test]
fn timer_scheduled_at_infinity_can_not_be_unscheduled() {
    let now = std::time::Instant::now();
    let mut scheduler = TimeoutScheduler::new();
    let mut timer = Timer::new();
    scheduler.schedule_until(&mut timer, Instant::INFINITY, 7);
    scheduler.unschedule(&mut timer, 7);
    // The entry stays: an infinite deadline reads as "not scheduled".
    let (first, dst) = scheduler.next_timeout(&now).unwrap();
    assert!(first.deadline.at_inf());
    assert_eq!(dst, 7);
}

#[test]
fn rescheduled_timer_ignores_former_timeout() {
    let now = std::time::Instant::now();
    let mut scheduler = TimeoutScheduler::new();
    let mut timer = Timer::new();
    scheduler.schedule_until(&mut timer, Instant::new(now), 7);
    let former = timeout_of(timer.id);

    scheduler.schedule_until(&mut timer, Instant::new(now) + Duration::from_secs(1), 7);
    assert!(!timer.is_scheduling(&former));
    assert!(timer.is_scheduling(&timeout_of(timer.id)));
    assert!(timer.deadline.at_inf());
}

#[test]
fn unscheduled_timer_ignores_its_queued_timeout() {
    let now = std::time::Instant::now();
    let mut scheduler = TimeoutScheduler::new();
    let mut timer = Timer::new();
    scheduler.schedule_until(&mut timer, Instant::new(now), 7);
    let queued = timeout_of(timer.id);
    scheduler.unschedule(&mut timer, 7);
    // A timeout queued before the unschedule is not taken.
    assert!(!timer.is_scheduling(&queued));
}

#[test]
fn new_timer_takes_no_timeout() {
    let mut timer = Timer::new();
    assert!(!timer.is_scheduling(&timeout_of(0)));
    assert!(!timer.is_scheduling(&timeout_of(1)));
}

#[test]
fn fired_timer_takes_its_timeout_again() {
    let now = std::time::Instant::now();
    let mut scheduler = TimeoutScheduler::new();
    let mut timer = Timer::new();
    scheduler.schedule_until(&mut timer, Instant::new(now), 7);
    let fired = timeout_of(timer.id);
    assert!(timer.is_scheduling(&fired));
    assert!(timer.deadline.at_inf());
    assert!(timer.is_scheduling(&fired));
}

#[test]
fn next_timeout_is_the_earliest() {
    let now = std::time::Instant::now();
    let mut scheduler = TimeoutScheduler::new();
    let mut timers = [Timer::new(), Timer::new(), Timer::new()];
    scheduler.schedule_until(&mut timers[0], Instant::new(now) + Duration::from_millis(30), 1);
    scheduler.schedule_until(&mut timers[1], Instant::new(now) + Duration::from_millis(10), 2);
    scheduler.schedule_until(&mut timers[2], Instant::new(now) + Duration::from_millis(20), 3);
    let (first, dst) = scheduler.next_timeout(&now).unwrap();
    assert!(first == timers[1]);
    assert_eq!(dst, 2);
    scheduler.remove(&timers[1]);
    let (first, dst) = scheduler.next_timeout(&now).unwrap();
    assert!(first == timers[2]);
    assert_eq!(dst, 3);
}

#[test]
fn timeout_identifiers_follow_each_other() {
    let now = std::time::Instant::now();
    let mut scheduler = TimeoutScheduler::new();
    let mut timer = Timer::new();
    for expected in 1..6u32 {
        scheduler.schedule_until(&mut timer, Instant::new(now), 1);
        assert_eq!(timer.id, expected);
    }
}

#[test]
fn request_identifiers_differ() {
    let mut mailbox = rtactor::ActiveMailbox::new(1);
    let first = mailbox.generate_request_id();
    let second = mailbox.generate_request_id();
    assert_eq!(first, 1);
    assert_eq!(second, 2);
    assert_ne!(first, second);
}
