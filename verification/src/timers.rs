//! The timer repository: starting intervals, looking up the running
//! interval, clearing unattributed rows, attaching a completed focus
//! interval to a task, and counting a task's completed intervals.
//!
//! The structural rule of this table: at most one row is unattributed
//! (`task == None`). Starting a new interval first clears every
//! unattributed row, so stale intervals from an earlier session are treated
//! as garbage, never resumed.

use vstd::prelude::*;

use crate::store::{
    EngineError, Store, Timer, TimerModel, at_most_one_unattributed, has_task, has_timer,
    some_unattributed, timer_ids_unique, timer_is_unattributed, timers_view,
};
use crate::tasks::find_task_index;

verus! {

/// The rows that survive `delete_pomodoros_without_task`: those already
/// attached to a task.
pub open spec fn keep_attributed() -> spec_fn(TimerModel) -> bool {
    |t: TimerModel| !(t.task is None)
}

/// The rows `get_running_timers` returns: the unattributed ones.
pub open spec fn keep_unattributed() -> spec_fn(TimerModel) -> bool {
    |t: TimerModel| t.task is None
}

/// A filtered timer table is a selection of the original rows: every kept
/// row occurs in the original, and unique ids stay unique.
proof fn lemma_filter_selects(timers: Seq<TimerModel>, pred: spec_fn(TimerModel) -> bool)
    ensures
        forall|i: int|
            0 <= i < timers.filter(pred).len() ==> timers.contains(
                #[trigger] timers.filter(pred)[i],
            ),
        timer_ids_unique(timers) ==> timer_ids_unique(timers.filter(pred)),
    decreases timers.len(),
{
    reveal(Seq::filter);
    if timers.len() > 0 {
        let dl = timers.drop_last();
        lemma_filter_selects(dl, pred);
        assert forall|x: TimerModel| dl.contains(x) implies timers.contains(x) by {
            let p = choose|p: int| 0 <= p < dl.len() && dl[p] == x;
            assert(timers[p] == x);
        }
        let f = timers.filter(pred);
        if pred(timers.last()) {
            assert(f == dl.filter(pred).push(timers.last()));
            assert(timers.contains(timers.last())) by {
                assert(timers[timers.len() - 1] == timers.last());
            }
            if timer_ids_unique(timers) {
                assert(timer_ids_unique(dl)) by {
                    assert forall|i: int, j: int|
                        0 <= i < j < dl.len() implies #[trigger] dl[i].id != #[trigger] dl[j].id by {
                        assert(timers[i].id != timers[j].id);
                    }
                }
                assert forall|i: int, j: int|
                    0 <= i < j < f.len() implies #[trigger] f[i].id != #[trigger] f[j].id by {
                    if j < f.len() - 1 {
                        assert(dl.filter(pred)[i].id != dl.filter(pred)[j].id);
                    } else {
                        // f[j] is the last row of the original; f[i] sits in
                        // the earlier rows, where its id already occurs.
                        assert(dl.contains(f[i]));
                        let p = choose|p: int| 0 <= p < dl.len() && dl[p] == f[i];
                        assert(timers[p] == f[i]);
                        assert(timers[p].id != timers[timers.len() - 1].id);
                    }
                }
            }
        } else {
            assert(f == dl.filter(pred));
            if timer_ids_unique(timers) {
                assert(timer_ids_unique(dl)) by {
                    assert forall|i: int, j: int|
                        0 <= i < j < dl.len() implies #[trigger] dl[i].id != #[trigger] dl[j].id by {
                        assert(timers[i].id != timers[j].id);
                    }
                }
            }
        }
    }
}

/// Under the at-most-one-unattributed invariant, the unattributed selection
/// holds zero or one rows.
proof fn lemma_unattributed_selection_small(timers: Seq<TimerModel>)
    requires
        at_most_one_unattributed(timers),
    ensures
        timers.filter(keep_unattributed()).len() <= 1,
    decreases timers.len(),
{
    reveal(Seq::filter);
    if timers.len() > 0 {
        let dl = timers.drop_last();
        assert(at_most_one_unattributed(dl)) by {
            assert forall|i: int, j: int|
                0 <= i < j < dl.len() implies !(#[trigger] dl[i].task is None
                && #[trigger] dl[j].task is None) by {
                assert(!(timers[i].task is None && timers[j].task is None));
            }
        }
        lemma_unattributed_selection_small(dl);
        if timers.last().task is None {
            // No earlier row can be unattributed as well.
            assert forall|i: int| 0 <= i < dl.len() implies !(#[trigger] dl[i].task is None) by {
                assert(!(timers[i].task is None && timers[timers.len() - 1].task is None));
            }
            assert(dl.filter(keep_unattributed()).len() == 0) by {
                dl.lemma_all_neg_filter_empty(keep_unattributed());
            }
        }
    }
}

/// Delete every unattributed timer row. Attributed rows — the history the
/// statistics feed on — are untouched, in order. No attribution step is
/// ever required: an expired break, a cancelled interval and a stale row
/// from an earlier session are all discarded alike.
pub fn delete_pomodoros_without_task(store: &mut Store)
    requires
        old(store)@.wf(),
    ensures
        final(store)@.wf(),
        final(store)@.timers == old(store)@.timers.filter(keep_attributed()),
        !some_unattributed(final(store)@.timers),
        final(store)@.tasks == old(store)@.tasks,
        final(store)@.next_task_id == old(store)@.next_task_id,
        final(store)@.next_timer_id == old(store)@.next_timer_id,
{
    let mut kept: Vec<Timer> = Vec::new();
    let n = store.timers.len();
    proof {
        reveal(Seq::filter);
        assert(timers_view(kept@) =~= store@.timers.take(0).filter(keep_attributed()));
    }
    let mut i: usize = 0;
    while i < n
        invariant
            n == store.timers.len(),
            i <= n,
            *store == *old(store),
            timers_view(kept@) == store@.timers.take(i as int).filter(keep_attributed()),
        decreases n - i,
    {
        let t = store.timers[i];
        let ghost prev = kept@;
        if t.task.is_some() {
            kept.push(t);
            proof {
                assert(timers_view(kept@) =~= timers_view(prev).push(store@.timers[i as int]));
            }
        }
        proof {
            reveal(Seq::filter);
            assert(store@.timers.take(i + 1).drop_last() =~= store@.timers.take(i as int));
            assert(store@.timers.take(i + 1).last() == store@.timers[i as int]);
            assert(timers_view(kept@) == store@.timers.take(i + 1).filter(keep_attributed()));
        }
        i = i + 1;
    }
    proof {
        assert(store@.timers.take(n as int) =~= store@.timers);
        lemma_filter_selects(store@.timers, keep_attributed());
    }
    store.timers = kept;
    proof {
        assert(final(store)@.timers =~= old(store)@.timers.filter(keep_attributed()));
        assert(final(store)@.tasks =~= old(store)@.tasks);
        let after = final(store)@.timers;
        let before = old(store)@.timers;
        assert forall|k: int|
            0 <= k < after.len() implies (#[trigger] after[k]).id < final(store)@.next_timer_id
            && after[k].start + after[k].duration * 60 <= u64::MAX by {
            assert(before.contains(after[k]));
            let p = choose|p: int| 0 <= p < before.len() && before[p] == after[k];
        }
    }
}

/// The unattributed timer rows: the currently running or just-expired
/// interval. Under the store invariant there is zero or one.
pub fn get_running_timers(store: &Store) -> (r: Vec<Timer>)
    ensures
        timers_view(r@) == store@.timers.filter(keep_unattributed()),
        store@.wf() ==> r@.len() <= 1,
{
    let mut r: Vec<Timer> = Vec::new();
    let n = store.timers.len();
    proof {
        reveal(Seq::filter);
        assert(timers_view(r@) =~= store@.timers.take(0).filter(keep_unattributed()));
    }
    let mut i: usize = 0;
    while i < n
        invariant
            n == store.timers.len(),
            i <= n,
            timers_view(r@) == store@.timers.take(i as int).filter(keep_unattributed()),
        decreases n - i,
    {
        let t = store.timers[i];
        let ghost prev = r@;
        if t.task.is_none() {
            r.push(t);
            proof {
                assert(timers_view(r@) =~= timers_view(prev).push(store@.timers[i as int]));
            }
        }
        proof {
            reveal(Seq::filter);
            assert(store@.timers.take(i + 1).drop_last() =~= store@.timers.take(i as int));
            assert(store@.timers.take(i + 1).last() == store@.timers[i as int]);
            assert(timers_view(r@) == store@.timers.take(i + 1).filter(keep_unattributed()));
        }
        i = i + 1;
    }
    proof {
        assert(store@.timers.take(n as int) =~= store@.timers);
        if store@.wf() {
            lemma_unattributed_selection_small(store@.timers);
            assert(r@.len() == timers_view(r@).len());
        }
    }
    r
}

/// Find the position of the timer row with this id, if any.
pub(crate) fn find_timer_index(store: &Store, id: u64) -> (r: Option<usize>)
    ensures
        match r {
            Some(i) => i < store@.timers.len() && store@.timers[i as int].id == id,
            None => !has_timer(store@.timers, id),
        },
{
    let n = store.timers.len();
    let mut i: usize = 0;
    while i < n && store.timers[i].id != id
        invariant
            n == store.timers.len(),
            i <= n,
            forall|k: int| 0 <= k < i ==> #[trigger] store@.timers[k].id != id,
        decreases n - i,
    {
        i = i + 1;
    }
    if i < n {
        Some(i)
    } else {
        None
    }
}

/// Find the position of the unattributed timer row, if one exists.
pub(crate) fn find_unattributed_index(store: &Store) -> (r: Option<usize>)
    ensures
        match r {
            Some(i) => i < store@.timers.len() && store@.timers[i as int].task is None,
            None => !some_unattributed(store@.timers),
        },
{
    let n = store.timers.len();
    let mut i: usize = 0;
    while i < n && store.timers[i].task.is_some()
        invariant
            n == store.timers.len(),
            i <= n,
            forall|k: int| 0 <= k < i ==> !(#[trigger] store@.timers[k].task is None),
        decreases n - i,
    {
        i = i + 1;
    }
    if i < n {
        Some(i)
    } else {
        None
    }
}

/// Insert a new timer row. The store assigns the id and returns it.
///
/// Starting an interval — `task == None` — first deletes every unattributed
/// row, which is what keeps the at-most-one-unattributed invariant across
/// any sequence of operations. Creating a row already attached to a task
/// (a historical record) is rejected when the task id does not resolve.
pub fn create_timer(
    store: &mut Store,
    is_pomodoro: bool,
    start: u64,
    duration: u64,
    task: Option<u64>,
) -> (r: Result<u64, EngineError>)
    requires
        old(store)@.wf(),
        old(store)@.next_timer_id < u64::MAX,
        start + duration * 60 <= u64::MAX,
    ensures
        final(store)@.wf(),
        final(store)@.tasks == old(store)@.tasks,
        final(store)@.next_task_id == old(store)@.next_task_id,
        match task {
            Some(tid) => {
                &&& has_task(old(store)@.tasks, tid) ==> {
                    &&& r == Ok::<u64, EngineError>(old(store)@.next_timer_id)
                    &&& final(store)@.timers == old(store)@.timers.push(
                        TimerModel {
                            id: old(store)@.next_timer_id,
                            is_pomodoro,
                            start,
                            duration,
                            task: Some(tid),
                        },
                    )
                    &&& final(store)@.next_timer_id == old(store)@.next_timer_id + 1
                }
                &&& !has_task(old(store)@.tasks, tid) ==> {
                    &&& r == Err::<u64, EngineError>(EngineError::ConstraintViolation)
                    &&& final(store)@ == old(store)@
                }
            },
            None => {
                &&& r == Ok::<u64, EngineError>(old(store)@.next_timer_id)
                &&& final(store)@.timers == old(store)@.timers.filter(keep_attributed()).push(
                    TimerModel {
                        id: old(store)@.next_timer_id,
                        is_pomodoro,
                        start,
                        duration,
                        task: None,
                    },
                )
                &&& final(store)@.next_timer_id == old(store)@.next_timer_id + 1
            },
        },
{
    match task {
        Some(tid) => {
            if find_task_index(store, tid).is_none() {
                return Err(EngineError::ConstraintViolation);
            }
            let id = store.next_timer_id;
            store.timers.push(Timer { id, is_pomodoro, start, duration, task: Some(tid) });
            store.next_timer_id = id + 1;
            proof {
                assert(final(store)@.timers =~= old(store)@.timers.push(
                    TimerModel { id, is_pomodoro, start, duration, task: Some(tid) },
                ));
                assert(final(store)@.tasks =~= old(store)@.tasks);
            }
            Ok(id)
        },
        None => {
            delete_pomodoros_without_task(store);
            let id = store.next_timer_id;
            store.timers.push(Timer { id, is_pomodoro, start, duration, task: None });
            store.next_timer_id = id + 1;
            proof {
                assert(final(store)@.timers =~= old(store)@.timers.filter(
                    keep_attributed(),
                ).push(TimerModel { id, is_pomodoro, start, duration, task: None }));
                assert(final(store)@.tasks =~= old(store)@.tasks);
            }
            Ok(id)
        },
    }
}

/// Attach a completed focus interval to a task: set `task` on the timer row
/// exactly once. Rejected, with the store untouched, when the timer id does
/// not resolve, when the timer is already attached, or when the task id
/// does not resolve.
pub fn update_timer_task(store: &mut Store, timer_id: u64, task_id: u64) -> (r: Result<
    (),
    EngineError,
>)
    requires
        old(store)@.wf(),
    ensures
        final(store)@.wf(),
        final(store)@.tasks == old(store)@.tasks,
        final(store)@.next_task_id == old(store)@.next_task_id,
        final(store)@.next_timer_id == old(store)@.next_timer_id,
        timer_is_unattributed(old(store)@.timers, timer_id) && has_task(
            old(store)@.tasks,
            task_id,
        ) ==> {
            &&& r == Ok::<(), EngineError>(())
            &&& exists|i: int|
                0 <= i < old(store)@.timers.len() && (#[trigger] old(store)@.timers[i]).id
                    == timer_id && old(store)@.timers[i].task is None && final(store)@.timers
                    == old(store)@.timers.update(
                    i,
                    TimerModel { task: Some(task_id), ..old(store)@.timers[i] },
                )
        },
        !(timer_is_unattributed(old(store)@.timers, timer_id) && has_task(
            old(store)@.tasks,
            task_id,
        )) ==> {
            &&& r == Err::<(), EngineError>(EngineError::ConstraintViolation)
            &&& final(store)@ == old(store)@
        },
{
    let i = match find_timer_index(store, timer_id) {
        Some(i) => i,
        None => {
            return Err(EngineError::ConstraintViolation);
        },
    };
    if store.timers[i].task.is_some() {
        proof {
            // The found row is the only one with this id, and it is
            // attached, so no unattributed row carries the id.
            assert forall|k: int|
                0 <= k < old(store)@.timers.len() implies !((#[trigger] old(
                store,
            )@.timers[k]).id == timer_id && old(store)@.timers[k].task is None) by {
                if k != i as int {
                    assert(old(store)@.timers[k].id != old(store)@.timers[i as int].id);
                }
            }
        }
        return Err(EngineError::ConstraintViolation);
    }
    if find_task_index(store, task_id).is_none() {
        return Err(EngineError::ConstraintViolation);
    }
    store.timers[i].task = Some(task_id);
    proof {
        assert(final(store)@.timers =~= old(store)@.timers.update(
            i as int,
            TimerModel { task: Some(task_id), ..old(store)@.timers[i as int] },
        ));
        assert(final(store)@.tasks =~= old(store)@.tasks);
    }
    Ok(())
}

/// How many timer rows carry the given task id: one per completed focus
/// interval attributed to it.
pub open spec fn count_for_task(timers: Seq<TimerModel>, task_id: u64) -> nat
    decreases timers.len(),
{
    if timers.len() == 0 {
        0nat
    } else {
        count_for_task(timers.drop_last(), task_id) + (if timers.last().task == Some(task_id) {
            1nat
        } else {
            0nat
        })
    }
}

/// Count the timer rows attributed to the given task. A deleted task's id
/// still counts its surviving history; an id no row carries counts zero.
pub fn get_task_pomodoros(store: &Store, task_id: u64) -> (r: usize)
    ensures
        r as nat == count_for_task(store@.timers, task_id),
{
    let n = store.timers.len();
    let mut c: usize = 0;
    let mut i: usize = 0;
    proof {
        assert(store@.timers.take(0) =~= Seq::<TimerModel>::empty());
    }
    while i < n
        invariant
            n == store.timers.len(),
            i <= n,
            c <= i,
            c as nat == count_for_task(store@.timers.take(i as int), task_id),
        decreases n - i,
    {
        let t = &store.timers[i];
        proof {
            assert(store@.timers.take(i + 1).drop_last() =~= store@.timers.take(i as int));
            assert(store@.timers.take(i + 1).last() == store@.timers[i as int]);
        }
        let matched = match t.task {
            Some(tid) => tid == task_id,
            None => false,
        };
        if matched {
            c = c + 1;
        }
        i = i + 1;
    }
    proof {
        assert(store@.timers.take(n as int) =~= store@.timers);
    }
    c
}

/// The length a backfilled focus interval is recorded with.
pub const HISTORIC_POMODORO_MINUTES: u64 = 25;

/// The rows `add_pomodoros` appends: `amount` focus intervals of the
/// standard recorded length, all starting at the same moment and already
/// attributed to the task.
pub open spec fn pomodoro_batch(first_id: u64, amount: u64, start: u64, task_id: u64) -> Seq<
    TimerModel,
> {
    Seq::new(
        amount as nat,
        |k: int|
            TimerModel {
                id: (first_id + k) as u64,
                is_pomodoro: true,
                start,
                duration: HISTORIC_POMODORO_MINUTES,
                task: Some(task_id),
            },
    )
}

/// Record `amount` completed focus intervals for a task in one go: a
/// backfill of history (for example, from a previous tracking method), not
/// a running interval. Rejected when the task id does not resolve.
pub fn add_pomodoros(store: &mut Store, amount: u64, start: u64, task_id: u64) -> (r: Result<
    (),
    EngineError,
>)
    requires
        old(store)@.wf(),
        old(store)@.next_timer_id + amount <= u64::MAX,
        start + HISTORIC_POMODORO_MINUTES * 60 <= u64::MAX,
    ensures
        final(store)@.wf(),
        final(store)@.tasks == old(store)@.tasks,
        final(store)@.next_task_id == old(store)@.next_task_id,
        has_task(old(store)@.tasks, task_id) ==> {
            &&& r == Ok::<(), EngineError>(())
            &&& final(store)@.timers == old(store)@.timers + pomodoro_batch(
                old(store)@.next_timer_id,
                amount,
                start,
                task_id,
            )
            &&& final(store)@.next_timer_id == old(store)@.next_timer_id + amount
        },
        !has_task(old(store)@.tasks, task_id) ==> {
            &&& r == Err::<(), EngineError>(EngineError::ConstraintViolation)
            &&& final(store)@ == old(store)@
        },
{
    if find_task_index(store, task_id).is_none() {
        return Err(EngineError::ConstraintViolation);
    }
    proof {
        assert(old(store)@.timers + pomodoro_batch(old(store)@.next_timer_id, 0, start, task_id)
            =~= old(store)@.timers);
    }
    let mut k: u64 = 0;
    while k < amount
        invariant
            old(store)@.wf(),
            k <= amount,
            old(store)@.next_timer_id + amount <= u64::MAX,
            start + HISTORIC_POMODORO_MINUTES * 60 <= u64::MAX,
            has_task(old(store)@.tasks, task_id),
            store@.wf(),
            store@.tasks == old(store)@.tasks,
            store@.next_task_id == old(store)@.next_task_id,
            store@.next_timer_id == old(store)@.next_timer_id + k,
            store@.timers == old(store)@.timers + pomodoro_batch(
                old(store)@.next_timer_id,
                k,
                start,
                task_id,
            ),
        decreases amount - k,
    {
        let ghost mid = store@;
        let created = create_timer(
            store,
            true,
            start,
            HISTORIC_POMODORO_MINUTES,
            Some(task_id),
        );
        proof {
            if !has_task(mid.tasks, task_id) {
                assert(false);
            }
            assert(store@.timers =~= old(store)@.timers + pomodoro_batch(
                old(store)@.next_timer_id,
                (k + 1) as u64,
                start,
                task_id,
            ));
        }
        match created {
            Ok(_) => {},
            Err(_) => {
                proof {
                    assert(false);
                }
            },
        }
        k = k + 1;
    }
    Ok(())
}

/// Bring a stored timer row back into the engine, keeping its id. Rows come
/// from the collaborator that owns durable storage, one call per row, into
/// a store that satisfies the invariant.
///
/// A row whose end time does not fit the timestamp type is malformed and
/// rejected as such. A row reusing an existing id, an id at the very top of
/// the id range, or a second unattributed row (a stale interval from an
/// earlier session, which the caller should discard instead) violates a
/// constraint and is rejected. Either rejection leaves the store untouched.
pub fn insert_timer_row(
    store: &mut Store,
    id: u64,
    is_pomodoro: bool,
    start: u64,
    duration: u64,
    task: Option<u64>,
) -> (r: Result<(), EngineError>)
    requires
        old(store)@.wf(),
    ensures
        final(store)@.wf(),
        final(store)@.tasks == old(store)@.tasks,
        final(store)@.next_task_id == old(store)@.next_task_id,
        !(start + duration * 60 <= u64::MAX) ==> r == Err::<(), EngineError>(
            EngineError::QueryFailure,
        ) && final(store)@ == old(store)@,
        start + duration * 60 <= u64::MAX && !(!has_timer(old(store)@.timers, id) && id < u64::MAX
            && (task is None ==> !some_unattributed(old(store)@.timers))) ==> r == Err::<
            (),
            EngineError,
        >(EngineError::ConstraintViolation) && final(store)@ == old(store)@,
        start + duration * 60 <= u64::MAX && !has_timer(old(store)@.timers, id) && id < u64::MAX
            && (task is None ==> !some_unattributed(old(store)@.timers)) ==> {
            &&& r == Ok::<(), EngineError>(())
            &&& final(store)@.timers == old(store)@.timers.push(
                TimerModel { id, is_pomodoro, start, duration, task },
            )
            &&& final(store)@.next_timer_id == (if id + 1 > old(store)@.next_timer_id {
                (id + 1) as u64
            } else {
                old(store)@.next_timer_id
            })
        },
{
    if duration > u64::MAX / 60 {
        return Err(EngineError::QueryFailure);
    }
    let span: u64 = duration * 60;
    if start > u64::MAX - span {
        return Err(EngineError::QueryFailure);
    }
    if id == u64::MAX {
        return Err(EngineError::ConstraintViolation);
    }
    if find_timer_index(store, id).is_some() {
        return Err(EngineError::ConstraintViolation);
    }
    if task.is_none() {
        if find_unattributed_index(store).is_some() {
            return Err(EngineError::ConstraintViolation);
        }
    }
    store.timers.push(Timer { id, is_pomodoro, start, duration, task });
    if id + 1 > store.next_timer_id {
        store.next_timer_id = id + 1;
    }
    proof {
        assert(final(store)@.timers =~= old(store)@.timers.push(
            TimerModel { id, is_pomodoro, start, duration, task },
        ));
        assert(final(store)@.tasks =~= old(store)@.tasks);
    }
    Ok(())
}

} // verus!
