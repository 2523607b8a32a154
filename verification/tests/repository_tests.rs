//! The repositories at runtime: task CRUD, timer CRUD, row loading, and
//! each rejection the engine owes.

use pomodoro_engine::store::{EngineError, Store};
use pomodoro_engine::tasks::{
    confirm_task_name, create_task, delete_task, get_all_tasks, get_tasks, insert_task_row,
    next_estimate, set_task_estimate, set_task_just_created, set_task_locked, set_task_name,
    set_task_status,
};
use pomodoro_engine::timers::{
    add_pomodoros, create_timer, delete_pomodoros_without_task, get_running_timers,
    get_task_pomodoros, insert_timer_row, update_timer_task,
};

#[test]
fn created_task_lists_with_defaults() {
    let mut s = Store::new();
    let id = create_task(&mut s, String::from("Write spec"));
    let tasks = get_tasks(&s);
    assert_eq!(tasks.len(), 1);
    assert_eq!(tasks[0].id, id);
    assert_eq!(tasks[0].name, "Write spec");
    assert!(!tasks[0].done);
    assert_eq!(tasks[0].estimate, 0);
    assert!(!tasks[0].locked);
    assert!(tasks[0].just_created);
}

#[test]
fn listing_filters_done_and_keeps_order() {
    let mut s = Store::new();
    let a = create_task(&mut s, String::from("a"));
    let b = create_task(&mut s, String::from("b"));
    let c = create_task(&mut s, String::from("c"));
    set_task_status(&mut s, true, b);
    let tasks = get_tasks(&s);
    assert_eq!(tasks.len(), 2);
    assert_eq!(tasks[0].id, a);
    assert_eq!(tasks[1].id, c);
    set_task_status(&mut s, false, b);
    assert_eq!(get_tasks(&s).len(), 3);
}

#[test]
fn full_listing_keeps_done_tasks() {
    let mut s = Store::new();
    let a = create_task(&mut s, String::from("a"));
    let b = create_task(&mut s, String::from("b"));
    set_task_status(&mut s, true, a);
    let all = get_all_tasks(&s);
    assert_eq!(all.len(), 2);
    assert_eq!(all[0].id, a);
    assert!(all[0].done);
    assert_eq!(all[1].id, b);
    assert!(!all[1].done);
}

#[test]
fn field_setters_update_their_field() {
    let mut s = Store::new();
    let id = create_task(&mut s, String::from("fields"));
    set_task_locked(&mut s, true, id);
    set_task_just_created(&mut s, false, id);
    set_task_name(&mut s, String::from("renamed"), id);
    set_task_estimate(&mut s, 4, id);
    let tasks = get_tasks(&s);
    assert_eq!(tasks[0].name, "renamed");
    assert!(tasks[0].locked);
    assert!(!tasks[0].just_created);
    assert_eq!(tasks[0].estimate, 4);
}

#[test]
fn setters_ignore_unknown_ids() {
    let mut s = Store::new();
    let id = create_task(&mut s, String::from("keep"));
    set_task_status(&mut s, true, id + 1);
    set_task_name(&mut s, String::from("other"), id + 1);
    let tasks = get_tasks(&s);
    assert_eq!(tasks.len(), 1);
    assert_eq!(tasks[0].name, "keep");
    assert!(!tasks[0].done);
}

#[test]
fn confirming_a_name_locks_and_refocuses() {
    let mut s = Store::new();
    let id = create_task(&mut s, String::new());
    confirm_task_name(&mut s, id, String::from("Write spec"));
    let tasks = get_tasks(&s);
    assert_eq!(tasks.len(), 1);
    assert_eq!(tasks[0].name, "Write spec");
    assert!(tasks[0].locked);
    assert!(tasks[0].just_created);
}

#[test]
fn confirming_an_empty_name_deletes() {
    let mut s = Store::new();
    let id = create_task(&mut s, String::new());
    assert_eq!(get_tasks(&s).len(), 1);
    confirm_task_name(&mut s, id, String::new());
    assert_eq!(get_tasks(&s).len(), 0);
}

#[test]
fn deleting_a_task_keeps_its_history() {
    let mut s = Store::new();
    let id = create_task(&mut s, String::from("gone"));
    add_pomodoros(&mut s, 3, 1000, id).unwrap();
    delete_task(&mut s, id);
    assert_eq!(get_tasks(&s).len(), 0);
    // The timers survive and still count toward the dangling id.
    assert_eq!(get_task_pomodoros(&s, id), 3);
}

#[test]
fn counting_an_unknown_task_is_zero() {
    let s = Store::new();
    assert_eq!(get_task_pomodoros(&s, 42), 0);
}

#[test]
fn starting_a_timer_replaces_the_running_one() {
    let mut s = Store::new();
    create_timer(&mut s, true, 0, 25, None).unwrap();
    create_timer(&mut s, false, 100, 5, None).unwrap();
    let third = create_timer(&mut s, true, 200, 25, None).unwrap();
    let running = get_running_timers(&s);
    assert_eq!(running.len(), 1);
    assert_eq!(running[0].id, third);
    assert_eq!(running[0].start, 200);
    assert!(running[0].is_pomodoro);
}

#[test]
fn clearing_unattributed_keeps_history() {
    let mut s = Store::new();
    let task = create_task(&mut s, String::from("kept"));
    add_pomodoros(&mut s, 2, 500, task).unwrap();
    create_timer(&mut s, true, 1000, 25, None).unwrap();
    delete_pomodoros_without_task(&mut s);
    assert_eq!(get_running_timers(&s).len(), 0);
    assert_eq!(get_task_pomodoros(&s, task), 2);
}

#[test]
fn attaching_moves_the_timer_out_of_running() {
    let mut s = Store::new();
    let task = create_task(&mut s, String::from("focus"));
    let timer = create_timer(&mut s, true, 0, 25, None).unwrap();
    update_timer_task(&mut s, timer, task).unwrap();
    assert_eq!(get_running_timers(&s).len(), 0);
    assert_eq!(get_task_pomodoros(&s, task), 1);
}

#[test]
fn attaching_twice_is_rejected() {
    let mut s = Store::new();
    let task = create_task(&mut s, String::from("once"));
    let timer = create_timer(&mut s, true, 0, 25, None).unwrap();
    update_timer_task(&mut s, timer, task).unwrap();
    let again = update_timer_task(&mut s, timer, task);
    assert_eq!(again, Err(EngineError::ConstraintViolation));
    assert_eq!(get_task_pomodoros(&s, task), 1);
}

#[test]
fn attaching_an_unknown_timer_is_rejected() {
    let mut s = Store::new();
    let task = create_task(&mut s, String::from("no timer"));
    let r = update_timer_task(&mut s, 99, task);
    assert_eq!(r, Err(EngineError::ConstraintViolation));
}

#[test]
fn attaching_to_an_unknown_task_is_rejected() {
    let mut s = Store::new();
    let timer = create_timer(&mut s, true, 0, 25, None).unwrap();
    let r = update_timer_task(&mut s, timer, 99);
    assert_eq!(r, Err(EngineError::ConstraintViolation));
    // The timer is still there, still unattributed.
    assert_eq!(get_running_timers(&s).len(), 1);
}

#[test]
fn creating_history_for_an_unknown_task_is_rejected() {
    let mut s = Store::new();
    let r = create_timer(&mut s, true, 0, 25, Some(7));
    assert_eq!(r, Err(EngineError::ConstraintViolation));
    let r2 = add_pomodoros(&mut s, 2, 0, 7);
    assert_eq!(r2, Err(EngineError::ConstraintViolation));
}

#[test]
fn loading_task_rows_keeps_ids_and_continues_after_them() {
    let mut s = Store::new();
    insert_task_row(&mut s, 5, String::from("loaded"), false, 2, true, false).unwrap();
    let dup = insert_task_row(&mut s, 5, String::from("again"), false, 0, false, false);
    assert_eq!(dup, Err(EngineError::ConstraintViolation));
    let fresh = create_task(&mut s, String::from("fresh"));
    assert_eq!(fresh, 6);
    let tasks = get_tasks(&s);
    assert_eq!(tasks.len(), 2);
    assert_eq!(tasks[0].name, "loaded");
    assert_eq!(tasks[0].estimate, 2);
    assert!(tasks[0].locked);
}

#[test]
fn loading_timer_rows_enforces_shape_and_constraints() {
    let mut s = Store::new();
    insert_timer_row(&mut s, 3, true, 0, 25, None).unwrap();
    // A second unattributed row is a stale interval: rejected.
    let stale = insert_timer_row(&mut s, 4, true, 50, 25, None);
    assert_eq!(stale, Err(EngineError::ConstraintViolation));
    // A reused id is rejected.
    let dup = insert_timer_row(&mut s, 3, false, 0, 5, Some(1));
    assert_eq!(dup, Err(EngineError::ConstraintViolation));
    // A row whose end does not fit the timestamp type is malformed.
    let huge = insert_timer_row(&mut s, 9, true, u64::MAX - 10, 25, Some(1));
    assert_eq!(huge, Err(EngineError::QueryFailure));
    assert_eq!(get_running_timers(&s).len(), 1);
}

#[test]
fn next_estimate_never_falls_below_completed() {
    assert_eq!(next_estimate(3, 1), 4);
    assert_eq!(next_estimate(1, 3), 4);
    assert_eq!(next_estimate(2, 2), 3);
    assert_eq!(next_estimate(0, 0), 1);
}
