//! The statistics engine at runtime: median arithmetic and the trailing
//! window of daily focus-interval counts.

use pomodoro_engine::stats::{
    daily_pomodoro_counts, get_pomodoros_median, median, ESTIMATE_WINDOW_DAYS, SECONDS_PER_DAY,
};
use pomodoro_engine::store::Store;
use pomodoro_engine::tasks::create_task;
use pomodoro_engine::timers::{add_pomodoros, insert_timer_row};

#[test]
fn median_of_nothing_is_zero() {
    let mut counts: Vec<u64> = vec![];
    assert_eq!(median(&mut counts), 0);
}

#[test]
fn median_of_one_is_that_count() {
    let mut counts: Vec<u64> = vec![3];
    assert_eq!(median(&mut counts), 3);
}

#[test]
fn median_of_two_averages() {
    let mut counts: Vec<u64> = vec![2, 4];
    assert_eq!(median(&mut counts), 3);
}

#[test]
fn median_of_four_truncates_toward_zero() {
    let mut counts: Vec<u64> = vec![1, 2, 3, 4];
    // the mean of the middle counts 2 and 3, truncated
    assert_eq!(median(&mut counts), 2);
}

#[test]
fn median_sorts_before_picking() {
    let mut counts: Vec<u64> = vec![9, 1, 5];
    assert_eq!(median(&mut counts), 5);
    assert_eq!(counts, vec![1, 5, 9]);
}

#[test]
fn median_of_even_unsorted() {
    let mut counts: Vec<u64> = vec![4, 2, 2, 4];
    assert_eq!(median(&mut counts), 3);
}

#[test]
fn median_over_backfilled_history() {
    let mut s = Store::new();
    let task = create_task(&mut s, String::from("history"));
    // Five preceding days, completing 20, 8, 7, 6 and 6 focus intervals.
    // Querying at midnight makes every time of day qualify.
    let now: u64 = 40 * SECONDS_PER_DAY;
    let noon: u64 = 12 * 3600;
    add_pomodoros(&mut s, 20, now - 1 * SECONDS_PER_DAY + noon, task).unwrap();
    add_pomodoros(&mut s, 8, now - 2 * SECONDS_PER_DAY + noon, task).unwrap();
    add_pomodoros(&mut s, 7, now - 3 * SECONDS_PER_DAY + noon, task).unwrap();
    add_pomodoros(&mut s, 6, now - 4 * SECONDS_PER_DAY + noon, task).unwrap();
    add_pomodoros(&mut s, 6, now - 5 * SECONDS_PER_DAY + noon, task).unwrap();
    let counts = daily_pomodoro_counts(&s, now, ESTIMATE_WINDOW_DAYS);
    assert_eq!(counts, vec![6, 6, 7, 8, 20]);
    assert_eq!(get_pomodoros_median(&s, now), 7);
}

#[test]
fn counts_respect_time_of_day_cutoff() {
    let mut s = Store::new();
    let task = create_task(&mut s, String::from("cutoff"));
    let base: u64 = 100 * SECONDS_PER_DAY;
    // One focus interval yesterday at ten in the morning.
    add_pomodoros(&mut s, 1, base - SECONDS_PER_DAY + 10 * 3600, task).unwrap();
    // Queried at eleven, yesterday's ten-o'clock interval is before the
    // cutoff and does not count.
    assert_eq!(get_pomodoros_median(&s, base + 11 * 3600), 0);
    // Queried at nine it counts.
    assert_eq!(get_pomodoros_median(&s, base + 9 * 3600), 1);
    // The cutoff is inclusive: queried at ten sharp it still counts.
    assert_eq!(get_pomodoros_median(&s, base + 10 * 3600), 1);
}

#[test]
fn counts_exclude_today() {
    let mut s = Store::new();
    let task = create_task(&mut s, String::from("today"));
    let base: u64 = 100 * SECONDS_PER_DAY;
    // A focus interval earlier today does not reach the history.
    add_pomodoros(&mut s, 1, base + 3600, task).unwrap();
    assert_eq!(get_pomodoros_median(&s, base + 2 * 3600), 0);
}

#[test]
fn counts_respect_window_edge() {
    let mut s = Store::new();
    let task = create_task(&mut s, String::from("window"));
    let base: u64 = 100 * SECONDS_PER_DAY;
    // Thirty days back is the oldest day inside the window.
    add_pomodoros(&mut s, 2, base - 30 * SECONDS_PER_DAY, task).unwrap();
    assert_eq!(get_pomodoros_median(&s, base), 2);
    // Thirty-one days back falls outside.
    let mut s2 = Store::new();
    let task2 = create_task(&mut s2, String::from("window"));
    add_pomodoros(&mut s2, 2, base - 31 * SECONDS_PER_DAY, task2).unwrap();
    assert_eq!(get_pomodoros_median(&s2, base), 0);
}

#[test]
fn counts_skip_break_intervals() {
    let mut s = Store::new();
    let base: u64 = 100 * SECONDS_PER_DAY;
    // A break interval attributed to nothing in particular is not a focus
    // interval: give it a task so it is history, then check it stays out.
    let task = create_task(&mut s, String::from("breaks"));
    insert_timer_row(&mut s, 77, false, base - SECONDS_PER_DAY, 5, Some(task)).unwrap();
    assert_eq!(get_pomodoros_median(&s, base), 0);
}

#[test]
fn daily_counts_keep_day_order() {
    let mut s = Store::new();
    let task = create_task(&mut s, String::from("order"));
    let base: u64 = 50 * SECONDS_PER_DAY;
    // Insert newest first: the counts still come out oldest day first.
    add_pomodoros(&mut s, 1, base - 1 * SECONDS_PER_DAY, task).unwrap();
    add_pomodoros(&mut s, 3, base - 9 * SECONDS_PER_DAY, task).unwrap();
    let counts = daily_pomodoro_counts(&s, base, ESTIMATE_WINDOW_DAYS);
    assert_eq!(counts, vec![3, 1]);
}
