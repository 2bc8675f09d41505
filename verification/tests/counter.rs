use std::time::Duration;

use yuki::counter::{MessageCounter, MessageTimer};

#[test]
fn test_counter_works() {
    let mut counter = MessageCounter::new(Duration::from_secs(3));
    counter.sent_version();
    counter.got_version();
    assert!(counter.timer.tracked_time.is_some());
    counter.got_verack();
    assert!(counter.timer.tracked_time.is_none());
    counter.sent_header();
    assert!(counter.timer.tracked_time.is_some());
    counter.got_header();
    assert!(counter.timer.tracked_time.is_none());
    counter.sent_addrs();
    counter.sent_filter_header();
    assert!(counter.timer.tracked_time.is_some());
    counter.got_filter_header();
    assert!(counter.timer.tracked_time.is_none());
    counter.sent_filters();
    assert!(counter.timer.tracked_time.is_some());
    counter.got_filter();
    assert!(counter.timer.tracked_time.is_none());
    counter.sent_block();
    assert!(counter.timer.tracked_time.is_some());
    counter.got_block();
    assert!(counter.timer.tracked_time.is_none());
    counter.got_addrs(1);
    assert!(!counter.unsolicited());
    counter.got_verack();
    assert!(counter.unsolicited());
}

#[test]
fn timer_tracks_and_untracks_without_timing_out() {
    let mut timer = MessageTimer::new(Duration::from_secs(3));
    assert!(!timer.unresponsive());
    timer.track();
    assert!(!timer.unresponsive());
    timer.untrack();
    assert!(!timer.unresponsive());
    timer.untrack();
    assert!(!timer.unresponsive());
    timer.track();
    assert!(!timer.unresponsive());
    assert_eq!(timer.timeout, Duration::from_secs(3));
}

#[test]
fn untracked_timer_with_zero_timeout_is_responsive() {
    let timer = MessageTimer::new(Duration::ZERO);
    assert!(!timer.unresponsive());
}

#[test]
fn counter_reports_unresponsive_only_while_tracking() {
    let mut counter = MessageCounter::new(Duration::from_secs(60));
    assert!(!counter.unresponsive());
    counter.sent_block();
    assert!(!counter.unresponsive());
    counter.got_block();
    assert!(!counter.unresponsive());
}

#[test]
fn fresh_counter_is_solicited() {
    let counter = MessageCounter::new(Duration::from_secs(3));
    assert!(!counter.unsolicited());
    assert!(counter.timer.tracked_time.is_none());
}

#[test]
fn handshake_accepts_one_version_and_one_verack() {
    let mut counter = MessageCounter::new(Duration::from_secs(3));
    counter.got_version();
    counter.got_verack();
    assert!(!counter.unsolicited());
    counter.got_version();
    assert!(counter.unsolicited());
}

#[test]
fn unrequested_messages_are_caught() {
    let mut c = MessageCounter::new(Duration::from_secs(3));
    c.got_block();
    assert!(c.unsolicited());

    let mut c = MessageCounter::new(Duration::from_secs(3));
    c.got_filter_header();
    assert!(c.unsolicited());

    let mut c = MessageCounter::new(Duration::from_secs(3));
    c.got_filter();
    assert!(c.unsolicited());

    let mut c = MessageCounter::new(Duration::from_secs(3));
    c.got_reject();
    assert!(c.unsolicited());

    let mut c = MessageCounter::new(Duration::from_secs(3));
    c.got_addrs(1);
    assert!(c.unsolicited());

    let mut c = MessageCounter::new(Duration::from_secs(3));
    c.got_header();
    assert!(!c.unsolicited());
}

#[test]
fn requested_answers_balance() {
    let mut c = MessageCounter::new(Duration::from_secs(3));
    c.sent_tx();
    c.got_reject();
    assert!(!c.unsolicited());
    c.got_reject();
    assert!(c.unsolicited());

    let mut c = MessageCounter::new(Duration::from_secs(3));
    c.sent_addrs();
    c.got_addrs(10_000);
    assert!(!c.unsolicited());
    c.got_addrs(1);
    assert!(c.unsolicited());

    let mut c = MessageCounter::new(Duration::from_secs(3));
    c.sent_filters();
    for _ in 0..1000 {
        c.got_filter();
    }
    assert!(!c.unsolicited());
    assert!(c.timer.tracked_time.is_none());
    c.got_filter();
    assert!(c.unsolicited());
}

#[test]
fn sending_starts_the_timer_except_for_addrs_and_tx() {
    let mut c = MessageCounter::new(Duration::from_secs(3));
    c.sent_addrs();
    assert!(c.timer.tracked_time.is_none());
    c.sent_tx();
    assert!(c.timer.tracked_time.is_none());
    c.sent_version();
    assert!(c.timer.tracked_time.is_some());
    c.got_version();
    assert!(c.timer.tracked_time.is_some());
    c.got_reject();
    assert!(c.timer.tracked_time.is_some());
    c.got_addrs(10_000);
    assert!(c.timer.tracked_time.is_some());
}

#[test]
fn tracked_timer_times_out_once_the_timeout_has_passed() {
    let mut timer = MessageTimer::new(Duration::from_millis(1));
    timer.track();
    let start = std::time::Instant::now();
    while start.elapsed() < Duration::from_millis(5) {}
    assert!(timer.unresponsive());
    timer.untrack();
    assert!(!timer.unresponsive());
}

#[test]
fn unresponsive_at_compares_the_elapsed_time_with_the_timeout() {
    let mut timer = MessageTimer::new(Duration::from_secs(3));
    let start = tokio::time::Instant::now();
    assert!(!timer.unresponsive_at(start + Duration::from_secs(10)));
    timer.track();
    let later = tokio::time::Instant::now() + Duration::from_secs(10);
    assert!(timer.unresponsive_at(later));
    assert!(!timer.unresponsive_at(start));
}

#[test]
fn address_budget_holds_across_interleavings() {
    let mut c = MessageCounter::new(Duration::from_secs(3));
    c.sent_addrs();
    c.got_addrs(4_000);
    c.sent_addrs();
    c.got_addrs(6_000);
    c.got_addrs(10_000);
    assert_eq!(c.addrs, 0);
    assert!(!c.unsolicited());
    c.got_addrs(1);
    assert_eq!(c.addrs, -1);
    assert!(c.unsolicited());
}

#[test]
fn untimed_messages_leave_the_timer_alone() {
    let mut c = MessageCounter::new(Duration::from_secs(3));
    c.sent_block();
    let started = c.timer.tracked_time;
    assert!(started.is_some());
    c.got_addrs(0);
    c.got_version();
    c.sent_tx();
    c.got_reject();
    c.sent_addrs();
    assert_eq!(c.timer.tracked_time, started);
}
