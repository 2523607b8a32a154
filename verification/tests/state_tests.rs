//! The timer state machine at runtime: phases, the inclusive expiry
//! boundary, remaining time, and the poll-cycle decisions.

use pomodoro_engine::config::{
    IntervalConfig, FOCUS_MINUTES, LONG_BREAK_MINUTES, SHORT_BREAK_MINUTES,
};
use pomodoro_engine::state::{
    current_phase, is_timer_over, needs_fast_poll, remaining_display, remaining_seconds,
    should_notify, TimerPhase,
};
use pomodoro_engine::store::Store;
use pomodoro_engine::tasks::{confirm_task_name, create_task, get_tasks};
use pomodoro_engine::timers::{
    create_timer, delete_pomodoros_without_task, get_running_timers, get_task_pomodoros,
    update_timer_task,
};

#[test]
fn empty_store_is_idle() {
    let s = Store::new();
    assert_eq!(current_phase(&s, 0), TimerPhase::Idle);
    assert_eq!(current_phase(&s, u64::MAX), TimerPhase::Idle);
}

#[test]
fn exact_end_is_expired_not_running() {
    let mut s = Store::new();
    let start: u64 = 10_000;
    let minutes: u64 = 25;
    create_timer(&mut s, true, start, minutes, None).unwrap();
    let end = start + minutes * 60;
    assert_eq!(current_phase(&s, end - 1), TimerPhase::Running);
    // The boundary belongs to expiry: start + duration exactly.
    assert_eq!(current_phase(&s, end), TimerPhase::Expired);
    assert_eq!(current_phase(&s, end + 1), TimerPhase::Expired);
}

#[test]
fn state_query_is_idempotent() {
    let mut s = Store::new();
    create_timer(&mut s, true, 0, 25, None).unwrap();
    let now: u64 = 700;
    let first = current_phase(&s, now);
    let second = current_phase(&s, now);
    assert_eq!(first, second);
    assert_eq!(first, TimerPhase::Running);
}

#[test]
fn remaining_time_counts_down_and_stops_at_zero() {
    let mut s = Store::new();
    create_timer(&mut s, true, 0, 25, None).unwrap();
    let t = &get_running_timers(&s)[0];
    assert_eq!(remaining_seconds(t, 0), 1500);
    assert_eq!(remaining_seconds(t, 1440), 60);
    assert_eq!(remaining_seconds(t, 1500), 0);
    // Never negative: the Expired phase supersedes the numeric display.
    assert_eq!(remaining_seconds(t, 9999), 0);
    assert_eq!(remaining_display(remaining_seconds(t, 1379)), (2, 1));
    assert_eq!(remaining_display(remaining_seconds(t, 1440)), (1, 0));
}

#[test]
fn only_expired_focus_intervals_offer_attachment() {
    let mut s = Store::new();
    create_timer(&mut s, true, 0, 25, None).unwrap();
    let focus = get_running_timers(&s)[0];
    assert!(!is_timer_over(&focus, 1499));
    assert!(is_timer_over(&focus, 1500));
    create_timer(&mut s, false, 0, 5, None).unwrap();
    let brk = get_running_timers(&s)[0];
    // An expired break never asks to be attached.
    assert!(!is_timer_over(&brk, 301));
}

#[test]
fn scenario_focus_interval_attributed() {
    let mut s = Store::new();
    let task = create_task(&mut s, String::from("Write spec"));
    confirm_task_name(&mut s, task, String::from("Write spec"));
    let listed = get_tasks(&s);
    assert!(listed[0].locked);
    assert!(listed[0].just_created);
    let t0: u64 = 1_000_000;
    let timer = create_timer(&mut s, true, t0, 25, None).unwrap();
    let near_end = t0 + 24 * 60;
    assert_eq!(current_phase(&s, near_end), TimerPhase::Running);
    let running = get_running_timers(&s);
    assert_eq!(running.len(), 1);
    assert_eq!(remaining_seconds(&running[0], near_end), 60);
    assert_eq!(remaining_display(60), (1, 0));
    let at_end = t0 + 25 * 60;
    assert_eq!(current_phase(&s, at_end), TimerPhase::Expired);
    update_timer_task(&mut s, timer, task).unwrap();
    assert_eq!(get_running_timers(&s).len(), 0);
    assert_eq!(current_phase(&s, at_end), TimerPhase::Idle);
    assert_eq!(get_task_pomodoros(&s, task), 1);
}

#[test]
fn scenario_break_expires_without_attribution() {
    let mut s = Store::new();
    create_timer(&mut s, false, 0, 5, None).unwrap();
    assert_eq!(current_phase(&s, 5 * 60), TimerPhase::Expired);
    delete_pomodoros_without_task(&mut s);
    assert_eq!(get_running_timers(&s).len(), 0);
    assert_eq!(current_phase(&s, 5 * 60), TimerPhase::Idle);
}

#[test]
fn notification_fires_once_per_expiry() {
    assert!(should_notify(TimerPhase::Expired, false));
    assert!(!should_notify(TimerPhase::Expired, true));
    assert!(!should_notify(TimerPhase::Running, false));
    assert!(!should_notify(TimerPhase::Idle, false));
}

#[test]
fn fast_polling_only_while_an_interval_exists() {
    assert!(needs_fast_poll(TimerPhase::Running));
    assert!(needs_fast_poll(TimerPhase::Expired));
    assert!(!needs_fast_poll(TimerPhase::Idle));
}

#[test]
fn stock_interval_lengths() {
    let c = IntervalConfig::default();
    assert_eq!(c.focus_minutes, FOCUS_MINUTES);
    assert_eq!(c.short_break_minutes, SHORT_BREAK_MINUTES);
    assert_eq!(c.long_break_minutes, LONG_BREAK_MINUTES);
}
