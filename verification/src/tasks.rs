//! The task repository: create, list, field updates, deletion, and the
//! name-confirmation step of the task lifecycle.
//!
//! Every mutation is total over the store: updating or deleting an id that no
//! row carries leaves the store unchanged. Deleting a task does not cascade
//! to its timers: completed intervals stay behind as history, and the
//! statistics side tolerates the dangling references.

use vstd::prelude::*;

use crate::store::{
    EngineError, Store, StoreModel, Task, TaskModel, has_task, tasks_view,
};

verus! {

/// The rows the not-done task listing keeps.
pub open spec fn keep_not_done() -> spec_fn(TaskModel) -> bool {
    |t: TaskModel| !t.done
}

/// The model of a task as `create_task` makes it: name as given, not done,
/// no estimate, name still editable, input focus requested.
pub open spec fn fresh_task(id: u64, name: Seq<char>) -> TaskModel {
    TaskModel { id, name, done: false, estimate: 0u64, locked: false, just_created: true }
}

/// Insert a new task with the given name and the creation defaults. The
/// store assigns the id and returns it.
pub fn create_task(store: &mut Store, name: String) -> (id: u64)
    requires
        old(store)@.wf(),
        old(store)@.next_task_id < u64::MAX,
    ensures
        final(store)@.wf(),
        id == old(store)@.next_task_id,
        final(store)@.tasks == old(store)@.tasks.push(fresh_task(id, name@)),
        final(store)@.timers == old(store)@.timers,
        final(store)@.next_task_id == id + 1,
        final(store)@.next_timer_id == old(store)@.next_timer_id,
{
    let id = store.next_task_id;
    let task = Task {
        id,
        name,
        done: false,
        estimate: 0,
        locked: false,
        just_created: true,
    };
    store.tasks.push(task);
    store.next_task_id = id + 1;
    proof {
        assert(final(store)@.tasks =~= old(store)@.tasks.push(fresh_task(id, task.name@)));
        assert(final(store)@.timers =~= old(store)@.timers);
    }
    id
}

/// List the tasks that are not done, in insertion order. Rows are copied
/// out: the listing is a snapshot, not a borrow of the store.
pub fn get_tasks(store: &Store) -> (r: Vec<Task>)
    ensures
        tasks_view(r@) == store@.tasks.filter(keep_not_done()),
{
    let mut r: Vec<Task> = Vec::new();
    let n = store.tasks.len();
    proof {
        reveal(Seq::filter);
        assert(tasks_view(r@) =~= store@.tasks.take(0).filter(keep_not_done()));
    }
    let mut i: usize = 0;
    while i < n
        invariant
            n == store.tasks.len(),
            i <= n,
            tasks_view(r@) == store@.tasks.take(i as int).filter(keep_not_done()),
        decreases n - i,
    {
        let t = &store.tasks[i];
        let ghost prev = r@;
        if !t.done {
            let copy = Task {
                id: t.id,
                name: t.name.clone(),
                done: t.done,
                estimate: t.estimate,
                locked: t.locked,
                just_created: t.just_created,
            };
            r.push(copy);
            proof {
                assert(copy@ == store@.tasks[i as int]);
                assert(tasks_view(r@) =~= tasks_view(prev).push(copy@));
            }
        }
        proof {
            reveal(Seq::filter);
            assert(store@.tasks.take(i + 1).drop_last() =~= store@.tasks.take(i as int));
            assert(store@.tasks.take(i + 1).last() == store@.tasks[i as int]);
            assert(tasks_view(r@) == store@.tasks.take(i + 1).filter(keep_not_done()));
        }
        i = i + 1;
    }
    proof {
        assert(store@.tasks.take(n as int) =~= store@.tasks);
    }
    r
}

/// List every task, done or not, in insertion order: the view that shows
/// finished work too.
pub fn get_all_tasks(store: &Store) -> (r: Vec<Task>)
    ensures
        tasks_view(r@) == store@.tasks,
{
    let mut r: Vec<Task> = Vec::new();
    let n = store.tasks.len();
    proof {
        assert(tasks_view(r@) =~= store@.tasks.take(0));
    }
    let mut i: usize = 0;
    while i < n
        invariant
            n == store.tasks.len(),
            i <= n,
            tasks_view(r@) == store@.tasks.take(i as int),
        decreases n - i,
    {
        let t = &store.tasks[i];
        let ghost prev = r@;
        let copy = Task {
            id: t.id,
            name: t.name.clone(),
            done: t.done,
            estimate: t.estimate,
            locked: t.locked,
            just_created: t.just_created,
        };
        r.push(copy);
        proof {
            assert(copy@ == store@.tasks[i as int]);
            assert(tasks_view(r@) =~= tasks_view(prev).push(copy@));
            assert(store@.tasks.take(i + 1) =~= store@.tasks.take(i as int).push(
                store@.tasks[i as int],
            ));
        }
        i = i + 1;
    }
    proof {
        assert(store@.tasks.take(n as int) =~= store@.tasks);
    }
    r
}

/// Find the position of the task row with this id, if any.
pub(crate) fn find_task_index(store: &Store, id: u64) -> (r: Option<usize>)
    ensures
        match r {
            Some(i) => i < store@.tasks.len() && store@.tasks[i as int].id == id,
            None => !has_task(store@.tasks, id),
        },
{
    let n = store.tasks.len();
    let mut i: usize = 0;
    while i < n && store.tasks[i].id != id
        invariant
            n == store.tasks.len(),
            i <= n,
            forall|k: int| 0 <= k < i ==> #[trigger] store@.tasks[k].id != id,
        decreases n - i,
    {
        i = i + 1;
    }
    if i < n {
        Some(i)
    } else {
        None
    }
}

/// The pointwise effect of a field update on the task table: the rows whose
/// id matches are replaced by `updated`, all others kept. Under
/// `task_ids_unique` at most one row matches.
pub open spec fn tasks_with_update(
    tasks: Seq<TaskModel>,
    after: Seq<TaskModel>,
    id: u64,
    updated: spec_fn(TaskModel) -> TaskModel,
) -> bool {
    &&& after.len() == tasks.len()
    &&& forall|k: int|
        0 <= k < tasks.len() ==> #[trigger] after[k] == (if tasks[k].id == id {
            updated(tasks[k])
        } else {
            tasks[k]
        })
}

/// Set the completion flag of the task with this id; a no-op when no row
/// carries the id.
pub fn set_task_status(store: &mut Store, done: bool, id: u64)
    requires
        old(store)@.wf(),
    ensures
        final(store)@.wf(),
        tasks_with_update(
            old(store)@.tasks,
            final(store)@.tasks,
            id,
            |t: TaskModel| TaskModel { done, ..t },
        ),
        final(store)@.timers == old(store)@.timers,
        final(store)@.next_task_id == old(store)@.next_task_id,
        final(store)@.next_timer_id == old(store)@.next_timer_id,
{
    if let Some(i) = find_task_index(store, id) {
        store.tasks[i].done = done;
        proof {
            assert(final(store)@.tasks =~= old(store)@.tasks.update(
                i as int,
                TaskModel { done, ..old(store)@.tasks[i as int] },
            ));
            assert(final(store)@.timers =~= old(store)@.timers);
        }
    }
}

/// Set the name-editing lock of the task with this id; a no-op when no row
/// carries the id.
pub fn set_task_locked(store: &mut Store, locked: bool, id: u64)
    requires
        old(store)@.wf(),
    ensures
        final(store)@.wf(),
        tasks_with_update(
            old(store)@.tasks,
            final(store)@.tasks,
            id,
            |t: TaskModel| TaskModel { locked, ..t },
        ),
        final(store)@.timers == old(store)@.timers,
        final(store)@.next_task_id == old(store)@.next_task_id,
        final(store)@.next_timer_id == old(store)@.next_timer_id,
{
    if let Some(i) = find_task_index(store, id) {
        store.tasks[i].locked = locked;
        proof {
            assert(final(store)@.tasks =~= old(store)@.tasks.update(
                i as int,
                TaskModel { locked, ..old(store)@.tasks[i as int] },
            ));
            assert(final(store)@.timers =~= old(store)@.timers);
        }
    }
}

/// Set the focus-request flag of the task with this id; a no-op when no row
/// carries the id.
pub fn set_task_just_created(store: &mut Store, just_created: bool, id: u64)
    requires
        old(store)@.wf(),
    ensures
        final(store)@.wf(),
        tasks_with_update(
            old(store)@.tasks,
            final(store)@.tasks,
            id,
            |t: TaskModel| TaskModel { just_created, ..t },
        ),
        final(store)@.timers == old(store)@.timers,
        final(store)@.next_task_id == old(store)@.next_task_id,
        final(store)@.next_timer_id == old(store)@.next_timer_id,
{
    if let Some(i) = find_task_index(store, id) {
        store.tasks[i].just_created = just_created;
        proof {
            assert(final(store)@.tasks =~= old(store)@.tasks.update(
                i as int,
                TaskModel { just_created, ..old(store)@.tasks[i as int] },
            ));
            assert(final(store)@.timers =~= old(store)@.timers);
        }
    }
}

/// Set the name of the task with this id; a no-op when no row carries the
/// id.
pub fn set_task_name(store: &mut Store, name: String, id: u64)
    requires
        old(store)@.wf(),
    ensures
        final(store)@.wf(),
        tasks_with_update(
            old(store)@.tasks,
            final(store)@.tasks,
            id,
            |t: TaskModel| TaskModel { name: name@, ..t },
        ),
        final(store)@.timers == old(store)@.timers,
        final(store)@.next_task_id == old(store)@.next_task_id,
        final(store)@.next_timer_id == old(store)@.next_timer_id,
{
    if let Some(i) = find_task_index(store, id) {
        let ghost name_model = name@;
        store.tasks[i].name = name;
        proof {
            assert(final(store)@.tasks =~= old(store)@.tasks.update(
                i as int,
                TaskModel { name: name_model, ..old(store)@.tasks[i as int] },
            ));
            assert(final(store)@.timers =~= old(store)@.timers);
        }
    }
}

/// Set the planned-Pomodoro estimate of the task with this id; a no-op when
/// no row carries the id.
pub fn set_task_estimate(store: &mut Store, estimate: u64, id: u64)
    requires
        old(store)@.wf(),
    ensures
        final(store)@.wf(),
        tasks_with_update(
            old(store)@.tasks,
            final(store)@.tasks,
            id,
            |t: TaskModel| TaskModel { estimate, ..t },
        ),
        final(store)@.timers == old(store)@.timers,
        final(store)@.next_task_id == old(store)@.next_task_id,
        final(store)@.next_timer_id == old(store)@.next_timer_id,
{
    if let Some(i) = find_task_index(store, id) {
        store.tasks[i].estimate = estimate;
        proof {
            assert(final(store)@.tasks =~= old(store)@.tasks.update(
                i as int,
                TaskModel { estimate, ..old(store)@.tasks[i as int] },
            ));
            assert(final(store)@.timers =~= old(store)@.timers);
        }
    }
}

/// Delete the task row with this id; a no-op when no row carries the id.
/// The task's timers are not touched: history survives the task.
pub fn delete_task(store: &mut Store, id: u64)
    requires
        old(store)@.wf(),
    ensures
        final(store)@.wf(),
        !has_task(old(store)@.tasks, id) ==> final(store)@ == old(store)@,
        has_task(old(store)@.tasks, id) ==> exists|i: int|
            0 <= i < old(store)@.tasks.len() && (#[trigger] old(store)@.tasks[i]).id == id
                && final(store)@.tasks == old(store)@.tasks.remove(i),
        final(store)@.timers == old(store)@.timers,
        final(store)@.next_task_id == old(store)@.next_task_id,
        final(store)@.next_timer_id == old(store)@.next_timer_id,
{
    if let Some(i) = find_task_index(store, id) {
        store.tasks.remove(i);
        proof {
            assert(final(store)@.tasks =~= old(store)@.tasks.remove(i as int));
            assert(final(store)@.timers =~= old(store)@.timers);
            assert(old(store)@.tasks[i as int].id == id);
        }
    } else {
        proof {
            assert(final(store)@ =~= old(store)@);
        }
    }
}

/// Confirm the name typed for the task with this id. A non-empty name is
/// committed: the row gets the name, is locked, and asks for input focus
/// once more. An empty name deletes the task instead of locking it. With no
/// row carrying the id, nothing changes.
pub fn confirm_task_name(store: &mut Store, id: u64, name: String)
    requires
        old(store)@.wf(),
    ensures
        final(store)@.wf(),
        name@.len() == 0 ==> {
            &&& !has_task(old(store)@.tasks, id) ==> final(store)@ == old(store)@
            &&& has_task(old(store)@.tasks, id) ==> exists|i: int|
                0 <= i < old(store)@.tasks.len() && (#[trigger] old(store)@.tasks[i]).id == id
                    && final(store)@.tasks == old(store)@.tasks.remove(i)
        },
        name@.len() > 0 ==> tasks_with_update(
            old(store)@.tasks,
            final(store)@.tasks,
            id,
            |t: TaskModel| TaskModel { name: name@, locked: true, just_created: true, ..t },
        ),
        final(store)@.timers == old(store)@.timers,
        final(store)@.next_task_id == old(store)@.next_task_id,
        final(store)@.next_timer_id == old(store)@.next_timer_id,
{
    if name.as_str().is_empty() {
        delete_task(store, id);
    } else {
        if let Some(i) = find_task_index(store, id) {
            let ghost name_model = name@;
            store.tasks[i].name = name;
            store.tasks[i].locked = true;
            store.tasks[i].just_created = true;
            proof {
                assert(final(store)@.tasks =~= old(store)@.tasks.update(
                    i as int,
                    TaskModel {
                        name: name_model,
                        locked: true,
                        just_created: true,
                        ..old(store)@.tasks[i as int]
                    },
                ));
                assert(final(store)@.timers =~= old(store)@.timers);
            }
        }
    }
}

/// Bring a stored task row back into the engine, keeping its id. Rows come
/// from the collaborator that owns durable storage, one call per row. A row
/// reusing an existing id, or an id at the very top of the id range, is
/// rejected with the store untouched.
pub fn insert_task_row(
    store: &mut Store,
    id: u64,
    name: String,
    done: bool,
    estimate: u64,
    locked: bool,
    just_created: bool,
) -> (r: Result<(), EngineError>)
    requires
        old(store)@.wf(),
    ensures
        final(store)@.wf(),
        final(store)@.timers == old(store)@.timers,
        final(store)@.next_timer_id == old(store)@.next_timer_id,
        !(!has_task(old(store)@.tasks, id) && id < u64::MAX) ==> r == Err::<(), EngineError>(
            EngineError::ConstraintViolation,
        ) && final(store)@ == old(store)@,
        !has_task(old(store)@.tasks, id) && id < u64::MAX ==> {
            &&& r == Ok::<(), EngineError>(())
            &&& final(store)@.tasks == old(store)@.tasks.push(
                TaskModel { id, name: name@, done, estimate, locked, just_created },
            )
            &&& final(store)@.next_task_id == (if id + 1 > old(store)@.next_task_id {
                (id + 1) as u64
            } else {
                old(store)@.next_task_id
            })
        },
{
    if id == u64::MAX {
        return Err(EngineError::ConstraintViolation);
    }
    if find_task_index(store, id).is_some() {
        return Err(EngineError::ConstraintViolation);
    }
    let ghost name_model = name@;
    store.tasks.push(Task { id, name, done, estimate, locked, just_created });
    if id + 1 > store.next_task_id {
        store.next_task_id = id + 1;
    }
    proof {
        assert(final(store)@.tasks =~= old(store)@.tasks.push(
            TaskModel { id, name: name_model, done, estimate, locked, just_created },
        ));
        assert(final(store)@.timers =~= old(store)@.timers);
    }
    Ok(())
}

/// The estimate the add-estimation control jumps to: one more than the
/// larger of the current estimate and the completed-interval count, so the
/// suggestion never falls below what is already done.
pub fn next_estimate(current: u64, completed: u64) -> (r: u64)
    requires
        current < u64::MAX,
        completed < u64::MAX,
    ensures
        current >= completed ==> r == current + 1,
        current < completed ==> r == completed + 1,
{
    if current >= completed {
        current + 1
    } else {
        completed + 1
    }
}

/// Round trip of creation and listing: for any well-formed store, the task
/// that `create_task` appends shows up in the `get_tasks` listing (the
/// not-done filter) as its last entry, with the given name and the creation
/// defaults: not done, zero estimate, name not yet locked.
pub proof fn lemma_create_then_list(s: StoreModel, name: Seq<char>)
    ensures
        ({
            let created = fresh_task(s.next_task_id, name);
            let listed = s.tasks.push(created).filter(keep_not_done());
            &&& listed.len() > 0
            &&& listed.last() == created
            &&& listed.contains(created)
            &&& created.name == name
            &&& !created.done
            &&& created.estimate == 0
            &&& !created.locked
        }),
{
    reveal(Seq::filter);
    let created = fresh_task(s.next_task_id, name);
    let pushed = s.tasks.push(created);
    assert(pushed.drop_last() =~= s.tasks);
    assert(pushed.last() == created);
    let listed = pushed.filter(keep_not_done());
    assert(listed == s.tasks.filter(keep_not_done()).push(created));
    assert(listed.last() == created);
    assert(listed.contains(created));
}

} // verus!
