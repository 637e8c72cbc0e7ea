//! The scheduler that runs an automation set.
//!
//! The scheduler's lifecycle is one call of a driver's run function: spawn
//! every run-loop task of a materialized automation set, wait for all of them
//! to finish naturally or for an external shutdown signal, and on shutdown
//! broadcast cancellation, allow a bounded grace period, and forcibly abort
//! whatever remains. The decisions live here as an explicit state machine;
//! the driver owns the spawned tasks, the signal and the timer, feeds each
//! observation in as a [`SchedulerEvent`] and obeys the returned
//! [`SchedulerStep`].

use crate::automations::AutomationSet;
use vstd::prelude::*;

verus! {

/// The status of one spawned run-loop task.
#[derive(Debug, Clone, Copy, PartialEq, Eq, Structural)]
pub enum TaskStatus {
    /// Spawned and not yet ended.
    Running,
    /// Completed naturally, on closure of its trigger stream.
    Finished,
    /// Ended by a panic, caught at the task boundary and logged.
    Panicked,
    /// Still alive at the shutdown deadline and forcibly ended.
    Aborted,
}

/// Where the scheduler stands in its lifecycle.
#[derive(Debug, Clone, Copy, PartialEq, Eq, Structural)]
pub enum SchedulerPhase {
    /// Tasks are spawned; no shutdown has been requested.
    Dispatching,
    /// Shutdown was requested: cancellation is broadcast and the grace
    /// period is running.
    Draining,
    /// The run is over; the driver's run call may return.
    Stopped,
}

/// One observation handed to [`Scheduler::step`] by the driver.
pub enum SchedulerEvent {
    /// The task at `index` ended on its own.
    TaskEnded {
        /// Which task ended.
        index: usize,
        /// True when it ended by panicking rather than returning.
        panicked: bool,
    },
    /// The external shutdown signal fired.
    Shutdown,
    /// The grace period that started at shutdown has elapsed.
    GraceElapsed,
}

/// What the driver must do after handing one event to the scheduler.
pub struct SchedulerStep {
    /// Broadcast cooperative cancellation to every task and start the grace
    /// timer.
    pub broadcast_cancel: bool,
    /// Forcibly abort every task that is still alive.
    pub abort_rest: bool,
    /// Log that the task at this position panicked; the others continue.
    pub log_panic: Option<usize>,
}

/// The mathematical state of a scheduler.
pub struct SchedulerModel {
    /// The status of each spawned task, in spawn order.
    pub tasks: Seq<TaskStatus>,
    /// Where the run stands.
    pub phase: SchedulerPhase,
}

/// True when no task is still running.
pub open spec fn all_ended(tasks: Seq<TaskStatus>) -> bool {
    forall|i: int| 0 <= i < tasks.len() ==> !(#[trigger] tasks[i] is Running)
}

/// Scheduler well-formedness: the run is over exactly when every task has
/// ended, and nothing is ever aborted before a shutdown was requested.
pub open spec fn sched_wf(m: SchedulerModel) -> bool {
    &&& (m.phase is Stopped <==> all_ended(m.tasks))
    &&& (m.phase is Dispatching ==> forall|i: int|
        0 <= i < m.tasks.len() ==> !(#[trigger] m.tasks[i] is Aborted))
}

/// The events a driver can hand to a scheduler in state `m`: only a running
/// task can end, shutdown is requested at most once, and the grace period
/// elapses only after it was started.
pub open spec fn sched_event_ok(m: SchedulerModel, e: SchedulerEvent) -> bool {
    match e {
        SchedulerEvent::TaskEnded { index, panicked } => {
            &&& index < m.tasks.len()
            &&& m.tasks[index as int] is Running
        },
        SchedulerEvent::Shutdown => m.phase is Dispatching,
        SchedulerEvent::GraceElapsed => m.phase is Draining,
    }
}

/// A [`SchedulerStep`] that asks the driver for nothing.
pub open spec fn sched_quiet() -> SchedulerStep {
    SchedulerStep { broadcast_cancel: false, abort_rest: false, log_panic: None }
}

/// The complete transition function of the scheduler.
pub open spec fn spec_sched_step(m: SchedulerModel, e: SchedulerEvent) -> (
    SchedulerModel,
    SchedulerStep,
) {
    match e {
        SchedulerEvent::TaskEnded { index, panicked } => {
            let status = if panicked {
                TaskStatus::Panicked
            } else {
                TaskStatus::Finished
            };
            let tasks = m.tasks.update(index as int, status);
            let phase = if all_ended(tasks) {
                SchedulerPhase::Stopped
            } else {
                m.phase
            };
            (
                SchedulerModel { tasks, phase },
                SchedulerStep {
                    broadcast_cancel: false,
                    abort_rest: false,
                    log_panic: if panicked {
                        Some(index)
                    } else {
                        None
                    },
                },
            )
        },
        SchedulerEvent::Shutdown => (
            SchedulerModel { tasks: m.tasks, phase: SchedulerPhase::Draining },
            SchedulerStep { broadcast_cancel: true, abort_rest: false, log_panic: None },
        ),
        SchedulerEvent::GraceElapsed => (
            SchedulerModel {
                tasks: m.tasks.map_values(
                    |t: TaskStatus|
                        if t is Running {
                            TaskStatus::Aborted
                        } else {
                            t
                        },
                ),
                phase: SchedulerPhase::Stopped,
            },
            SchedulerStep { broadcast_cancel: false, abort_rest: true, log_panic: None },
        ),
    }
}

/// The state of one run of an automation set: one status per spawned task,
/// and the phase of the run.
pub struct Scheduler {
    tasks: Vec<TaskStatus>,
    phase: SchedulerPhase,
}

impl View for Scheduler {
    type V = SchedulerModel;

    closed spec fn view(&self) -> SchedulerModel {
        SchedulerModel { tasks: self.tasks@, phase: self.phase }
    }
}

impl Scheduler {
    /// Begin a run with `task_count` spawned run-loop tasks — one per task
    /// that materializing the automation set yielded. With nothing to run,
    /// the run is over at once.
    pub fn new(task_count: usize) -> (s: Self)
        ensures
            s@.tasks.len() == task_count,
            forall|i: int| 0 <= i < task_count ==> s@.tasks[i] is Running,
            s@.phase == (if task_count == 0 {
                SchedulerPhase::Stopped
            } else {
                SchedulerPhase::Dispatching
            }),
            sched_wf(s@),
    {
        let mut tasks: Vec<TaskStatus> = Vec::new();
        let mut i: usize = 0;
        while i < task_count
            invariant
                i <= task_count,
                tasks@.len() == i,
                forall|j: int| 0 <= j < i ==> tasks@[j] is Running,
            decreases task_count - i,
        {
            tasks.push(TaskStatus::Running);
            i = i + 1;
        }
        let phase = if task_count == 0 {
            SchedulerPhase::Stopped
        } else {
            SchedulerPhase::Dispatching
        };
        proof {
            if task_count > 0 {
                assert(tasks@[0] is Running);
                assert(!all_ended(tasks@));
            }
        }
        Scheduler { tasks, phase }
    }

    /// The run is over: every task has ended, naturally or by force.
    pub fn stopped(&self) -> (r: bool)
        ensures
            r == self@.phase is Stopped,
    {
        matches!(self.phase, SchedulerPhase::Stopped)
    }

    /// The status of the task at `index`.
    pub fn task_status(&self, index: usize) -> (r: TaskStatus)
        requires
            index < self@.tasks.len(),
        ensures
            r == self@.tasks[index as int],
    {
        self.tasks[index]
    }

    /// How many tasks this run spawned.
    pub fn task_count(&self) -> (r: usize)
        ensures
            r == self@.tasks.len(),
    {
        self.tasks.len()
    }

    /// Feed one observation to the scheduler and learn what to do next.
    pub fn step(&mut self, event: SchedulerEvent) -> (r: SchedulerStep)
        requires
            sched_wf(old(self)@),
            sched_event_ok(old(self)@, event),
        ensures
            final(self)@ == spec_sched_step(old(self)@, event).0,
            r == spec_sched_step(old(self)@, event).1,
            sched_wf(final(self)@),
    {
        match event {
            SchedulerEvent::TaskEnded { index, panicked } => {
                let status = if panicked {
                    TaskStatus::Panicked
                } else {
                    TaskStatus::Finished
                };
                self.tasks.set(index, status);
                if !self.any_running() {
                    self.phase = SchedulerPhase::Stopped;
                }
                SchedulerStep {
                    broadcast_cancel: false,
                    abort_rest: false,
                    log_panic: if panicked {
                        Some(index)
                    } else {
                        None
                    },
                }
            },
            SchedulerEvent::Shutdown => {
                self.phase = SchedulerPhase::Draining;
                SchedulerStep { broadcast_cancel: true, abort_rest: false, log_panic: None }
            },
            SchedulerEvent::GraceElapsed => {
                let ghost pre = self.tasks@;
                let n = self.tasks.len();
                let mut i: usize = 0;
                while i < n
                    invariant
                        i <= n,
                        n == self.tasks@.len(),
                        pre.len() == n,
                        forall|j: int| i <= j < n ==> self.tasks@[j] == pre[j],
                        forall|j: int|
                            0 <= j < i ==> self.tasks@[j] == (if pre[j] is Running {
                                TaskStatus::Aborted
                            } else {
                                pre[j]
                            }),
                    decreases n - i,
                {
                    if matches!(self.tasks[i], TaskStatus::Running) {
                        self.tasks.set(i, TaskStatus::Aborted);
                    }
                    i = i + 1;
                }
                self.phase = SchedulerPhase::Stopped;
                proof {
                    assert(self.tasks@ =~= pre.map_values(
                        |t: TaskStatus|
                            if t is Running {
                                TaskStatus::Aborted
                            } else {
                                t
                            },
                    ));
                }
                SchedulerStep { broadcast_cancel: false, abort_rest: true, log_panic: None }
            },
        }
    }

    /// True when some task has not yet ended.
    fn any_running(&self) -> (r: bool)
        ensures
            r == !all_ended(self@.tasks),
    {
        let n = self.tasks.len();
        let mut i: usize = 0;
        while i < n
            invariant
                i <= n,
                n == self@.tasks.len(),
                forall|j: int| 0 <= j < i ==> !(#[trigger] self@.tasks[j] is Running),
            decreases n - i,
        {
            if matches!(self.tasks[i], TaskStatus::Running) {
                return true;
            }
            i = i + 1;
        }
        false
    }
}

/// Materialize an automation set for one run: the flat list of its run-loop
/// tasks, and a scheduler holding exactly one running slot per task.
pub fn materialize<A>(set: AutomationSet<A>) -> (r: (Vec<A>, Scheduler))
    ensures
        r.0@ == set@,
        r.1@.tasks.len() == set@.len(),
        forall|i: int| 0 <= i < set@.len() ==> r.1@.tasks[i] is Running,
        r.1@.phase == (if set@.len() == 0 {
            SchedulerPhase::Stopped
        } else {
            SchedulerPhase::Dispatching
        }),
        sched_wf(r.1@),
{
    let mut tasks: Vec<A> = Vec::new();
    set.futures(&mut tasks);
    let sched = Scheduler::new(tasks.len());
    (tasks, sched)
}

/// One task's panic is isolated: it is caught and logged with that task's
/// identity, every other task's status is untouched, and the run goes on
/// unless nothing is left running.
pub proof fn lemma_panic_isolated(m: SchedulerModel, index: usize)
    requires
        sched_wf(m),
        sched_event_ok(m, SchedulerEvent::TaskEnded { index, panicked: true }),
    ensures
        ({
            let (m1, r) = spec_sched_step(m, SchedulerEvent::TaskEnded { index, panicked: true });
            &&& r.log_panic == Some(index)
            &&& forall|j: int|
                0 <= j < m.tasks.len() && j != index ==> m1.tasks[j] == m.tasks[j]
            &&& !all_ended(m1.tasks) ==> m1.phase == m.phase
        }),
{
}

/// Graceful shutdown is bounded: once the shutdown signal has fired and the
/// grace period has elapsed, the run is over; every task that resolved in
/// time has its own ending, and every task still unresolved at the deadline
/// is forcibly aborted.
pub proof fn lemma_shutdown_bounded(m: SchedulerModel)
    requires
        sched_wf(m),
        m.phase is Draining,
    ensures
        ({
            let (m1, r) = spec_sched_step(m, SchedulerEvent::GraceElapsed);
            &&& r.abort_rest
            &&& m1.phase is Stopped
            &&& all_ended(m1.tasks)
            &&& forall|j: int|
                0 <= j < m.tasks.len() && m.tasks[j] is Running ==> m1.tasks[j] is Aborted
            &&& forall|j: int|
                0 <= j < m.tasks.len() && !(m.tasks[j] is Running) ==> m1.tasks[j] == m.tasks[j]
        }),
{
}

/// The shutdown signal itself broadcasts cancellation at once and ends
/// nothing by force: tasks get the grace period to unwind.
pub proof fn lemma_shutdown_is_cooperative_first(m: SchedulerModel)
    requires
        sched_wf(m),
        m.phase is Dispatching,
    ensures
        spec_sched_step(m, SchedulerEvent::Shutdown).1.broadcast_cancel,
        !spec_sched_step(m, SchedulerEvent::Shutdown).1.abort_rest,
        spec_sched_step(m, SchedulerEvent::Shutdown).0.tasks == m.tasks,
        spec_sched_step(m, SchedulerEvent::Shutdown).0.phase is Draining,
{
}

/// A run without any shutdown ends only naturally: while dispatching, the
/// run is over exactly when every task ended on its own, and none was
/// aborted.
pub proof fn lemma_natural_completion(m: SchedulerModel, index: usize, panicked: bool)
    requires
        sched_wf(m),
        m.phase is Dispatching,
        sched_event_ok(m, SchedulerEvent::TaskEnded { index, panicked }),
    ensures
        ({
            let m1 = spec_sched_step(m, SchedulerEvent::TaskEnded { index, panicked }).0;
            &&& m1.phase is Stopped <==> all_ended(m1.tasks)
            &&& forall|j: int| 0 <= j < m1.tasks.len() ==> !(#[trigger] m1.tasks[j] is Aborted)
        }),
{
}

} // verus!
