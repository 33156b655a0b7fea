use panel_firmware::restart::{RestartScheduler, RESTART_DELAY_MS};

#[test]
fn restart_delay_is_five_seconds() {
    assert_eq!(RESTART_DELAY_MS, 5000);
}

#[test]
fn new_scheduler_never_fires() {
    let mut scheduler = RestartScheduler::new();
    assert!(!scheduler.is_pending());
    assert_eq!(scheduler.fire_at(), None);
    assert!(!scheduler.poll(0));
    assert!(!scheduler.poll(u64::MAX));
}

#[test]
fn armed_timer_is_due_after_the_delay() {
    let mut scheduler = RestartScheduler::new();
    scheduler.arm(1_000, RESTART_DELAY_MS);
    assert!(scheduler.is_pending());
    assert_eq!(scheduler.fire_at(), Some(6_000));
}

#[test]
fn timer_fires_exactly_once() {
    let mut scheduler = RestartScheduler::new();
    scheduler.arm(1_000, RESTART_DELAY_MS);
    assert!(!scheduler.poll(1_000));
    assert!(!scheduler.poll(5_999));
    assert!(scheduler.is_pending());
    assert!(scheduler.poll(6_000));
    assert!(!scheduler.is_pending());
    assert!(!scheduler.poll(6_000));
    assert!(!scheduler.poll(60_000));
    assert_eq!(scheduler.fire_at(), Some(6_000));
}

#[test]
fn late_poll_still_fires_once() {
    let mut scheduler = RestartScheduler::new();
    scheduler.arm(0, 5);
    let fired = [100u64, 200, 300]
        .iter()
        .filter(|now| scheduler.poll(**now))
        .count();
    assert_eq!(fired, 1);
}

#[test]
fn arming_twice_keeps_the_last_timer() {
    let mut scheduler = RestartScheduler::new();
    scheduler.arm(1_000, RESTART_DELAY_MS);
    scheduler.arm(3_000, RESTART_DELAY_MS);
    assert_eq!(scheduler.fire_at(), Some(8_000));
    assert!(!scheduler.poll(6_000));
    assert!(scheduler.poll(8_000));
    assert!(!scheduler.poll(8_001));
}

#[test]
fn arming_after_the_fire_arms_again() {
    let mut scheduler = RestartScheduler::new();
    scheduler.arm(0, 10);
    assert!(scheduler.poll(10));
    scheduler.arm(20, 10);
    assert!(scheduler.is_pending());
    assert!(!scheduler.poll(29));
    assert!(scheduler.poll(30));
}
