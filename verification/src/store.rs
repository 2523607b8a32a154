//! The engine's state: two in-memory tables (tasks and timers) with
//! store-assigned ids, plus the structural invariant that at most one timer
//! row is unattributed (`task == None`) at any time.
//!
//! The store is the single mutable resource of the engine. Durable storage is
//! a collaborator's concern: rows travel in and out of the engine as plain
//! values, through the row-insertion functions and the query functions.

use vstd::prelude::*;

verus! {

/// One entry of the to-do list.
///
/// `locked` is false while the name is still editable (newly created, before
/// confirmation) and true once confirmed. `just_created` asks the
/// presentation layer to focus the name input field.
#[derive(Debug)]
pub struct Task {
    pub id: u64,
    pub name: String,
    pub done: bool,
    pub estimate: u64,
    pub locked: bool,
    pub just_created: bool,
}

/// One interval-timer row. `start` is a timestamp in seconds on the engine's
/// timeline (the collaborator supplies timestamps already adjusted to local
/// time); `duration` is in minutes. `task == None` marks the currently
/// running, or just expired but not yet attributed, interval.
#[derive(Clone, Copy, Debug)]
pub struct Timer {
    pub id: u64,
    pub is_pomodoro: bool,
    pub start: u64,
    pub duration: u64,
    pub task: Option<u64>,
}

/// Mathematical model of a task.
#[verifier::ext_equal]
pub ghost struct TaskModel {
    pub id: u64,
    pub name: Seq<char>,
    pub done: bool,
    pub estimate: u64,
    pub locked: bool,
    pub just_created: bool,
}

/// Mathematical model of a timer row.
#[verifier::ext_equal]
pub ghost struct TimerModel {
    pub id: u64,
    pub is_pomodoro: bool,
    pub start: u64,
    pub duration: u64,
    pub task: Option<u64>,
}

impl View for Task {
    type V = TaskModel;

    open spec fn view(&self) -> TaskModel {
        TaskModel {
            id: self.id,
            name: self.name@,
            done: self.done,
            estimate: self.estimate,
            locked: self.locked,
            just_created: self.just_created,
        }
    }
}

impl View for Timer {
    type V = TimerModel;

    open spec fn view(&self) -> TimerModel {
        TimerModel {
            id: self.id,
            is_pomodoro: self.is_pomodoro,
            start: self.start,
            duration: self.duration,
            task: self.task,
        }
    }
}

/// The model of a task table: each row abstracted to its model, order kept.
pub open spec fn tasks_view(v: Seq<Task>) -> Seq<TaskModel> {
    v.map_values(|t: Task| t@)
}

/// The model of a timer table: each row abstracted to its model, order kept.
pub open spec fn timers_view(v: Seq<Timer>) -> Seq<TimerModel> {
    v.map_values(|t: Timer| t@)
}

/// Mathematical model of the whole store: both tables in insertion order,
/// and the next id each table will assign.
#[verifier::ext_equal]
pub ghost struct StoreModel {
    pub tasks: Seq<TaskModel>,
    pub timers: Seq<TimerModel>,
    pub next_task_id: u64,
    pub next_timer_id: u64,
}

/// No two task rows share an id.
pub open spec fn task_ids_unique(tasks: Seq<TaskModel>) -> bool {
    forall|i: int, j: int|
        0 <= i < j < tasks.len() ==> #[trigger] tasks[i].id != #[trigger] tasks[j].id
}

/// No two timer rows share an id.
pub open spec fn timer_ids_unique(timers: Seq<TimerModel>) -> bool {
    forall|i: int, j: int|
        0 <= i < j < timers.len() ==> #[trigger] timers[i].id != #[trigger] timers[j].id
}

/// At most one timer row is unattributed: the invariant that makes "the
/// running timer" well defined.
pub open spec fn at_most_one_unattributed(timers: Seq<TimerModel>) -> bool {
    forall|i: int, j: int|
        0 <= i < j < timers.len() ==> !(#[trigger] timers[i].task is None
            && #[trigger] timers[j].task is None)
}

/// Some task row carries this id.
pub open spec fn has_task(tasks: Seq<TaskModel>, id: u64) -> bool {
    exists|i: int| 0 <= i < tasks.len() && #[trigger] tasks[i].id == id
}

/// Some timer row carries this id.
pub open spec fn has_timer(timers: Seq<TimerModel>, id: u64) -> bool {
    exists|i: int| 0 <= i < timers.len() && #[trigger] timers[i].id == id
}

/// The timer row with this id is unattributed. Under `timer_ids_unique`
/// there is at most one such row.
pub open spec fn timer_is_unattributed(timers: Seq<TimerModel>, id: u64) -> bool {
    exists|i: int|
        0 <= i < timers.len() && #[trigger] timers[i].id == id && timers[i].task is None
}

/// Some timer row is unattributed (a running or just-expired interval
/// exists).
pub open spec fn some_unattributed(timers: Seq<TimerModel>) -> bool {
    exists|i: int| 0 <= i < timers.len() && #[trigger] timers[i].task is None
}

impl StoreModel {
    /// Well-formedness of the store: ids are unique and below the next id to
    /// be assigned, every timer's end time fits the timestamp type, and at
    /// most one timer row is unattributed.
    pub open spec fn wf(self) -> bool {
        &&& task_ids_unique(self.tasks)
        &&& timer_ids_unique(self.timers)
        &&& at_most_one_unattributed(self.timers)
        &&& forall|i: int|
            0 <= i < self.tasks.len() ==> #[trigger] self.tasks[i].id < self.next_task_id
        &&& forall|i: int|
            0 <= i < self.timers.len() ==> #[trigger] self.timers[i].id < self.next_timer_id
        &&& forall|i: int|
            0 <= i < self.timers.len() ==> (#[trigger] self.timers[i].start)
                + self.timers[i].duration * 60 <= u64::MAX
    }
}

/// The engine's state. All engine operations read or mutate a `Store`; every
/// mutation is a plain synchronous call that either completes in full or, on
/// a rejected argument, leaves the store exactly as it was.
pub struct Store {
    pub tasks: Vec<Task>,
    pub timers: Vec<Timer>,
    pub next_task_id: u64,
    pub next_timer_id: u64,
}

impl View for Store {
    type V = StoreModel;

    open spec fn view(&self) -> StoreModel {
        StoreModel {
            tasks: tasks_view(self.tasks@),
            timers: timers_view(self.timers@),
            next_task_id: self.next_task_id,
            next_timer_id: self.next_timer_id,
        }
    }
}

impl Store {
    /// An empty store: no tasks, no timers, ids assigned from 1 upward.
    pub fn new() -> (s: Store)
        ensures
            s@.wf(),
            s@.tasks == Seq::<TaskModel>::empty(),
            s@.timers == Seq::<TimerModel>::empty(),
            s@.next_task_id == 1u64,
            s@.next_timer_id == 1u64,
    {
        let s = Store { tasks: Vec::new(), timers: Vec::new(), next_task_id: 1, next_timer_id: 1 };
        proof {
            assert(s@.tasks =~= Seq::<TaskModel>::empty());
            assert(s@.timers =~= Seq::<TimerModel>::empty());
        }
        s
    }
}

/// How an engine operation fails. Every mutation is all-or-nothing: on any
/// error the store is left in its prior state.
#[derive(Clone, Copy, Debug, PartialEq, Eq, Structural)]
pub enum EngineError {
    /// The backing file could not be opened or created: fatal at startup.
    StoreUnavailable,
    /// A usage error caught before any write: attaching to an already
    /// attached timer, or referencing an id that does not resolve.
    ConstraintViolation,
    /// A malformed or unexpected row shape: an internal invariant break,
    /// surfaced rather than silently defaulted.
    QueryFailure,
}

} // verus!
