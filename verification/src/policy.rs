//! The automation dispatch policies.
//!
//! One automation is a *run loop*: it watches a stream of triggers and runs an
//! action for each trigger it accepts, under one of four policies that decide
//! what happens when a trigger arrives while an earlier invocation of the
//! action is still in flight.
//!
//! The run loop here is an explicit state machine. A driver owns the actual
//! stream and the action futures; it feeds every observation to [`RunLoop::step`]
//! as an [`Event`] and obeys the returned [`StepResult`]: starting the
//! invocation it names, abandoning the invocation it cancels, and logging the
//! failures it reports. Every dispatch decision is made, and verified, here.

use vstd::prelude::*;

verus! {

/// How a run loop reacts to a trigger that arrives while it is busy.
#[derive(Debug, Clone, Copy, PartialEq, Eq, Structural)]
pub enum Policy {
    /// The new trigger is ignored entirely; triggers observed while an
    /// invocation is in flight are discarded as they arrive, and the loop
    /// returns to waiting as soon as the invocation finishes.
    Single,
    /// The new trigger is queued; queued triggers run one at a time, in
    /// arrival order, each starting only when the previous one has resolved.
    Queued,
    /// The in-flight invocation is abandoned at its next suspension point and
    /// a new invocation starts for the new trigger.
    Cancel,
    /// Up to `max` invocations run concurrently; beyond that, triggers wait
    /// in arrival order for a slot to free. None are dropped.
    Parallel {
        /// The greatest number of invocations allowed in flight at once.
        max: usize,
    },
}

/// The result an invocation resolved with.
#[derive(Debug, Clone, Copy, PartialEq, Eq, Structural)]
pub enum Outcome {
    /// The action returned successfully.
    Success,
    /// The action returned a failure description. It is logged and forgotten.
    Failure,
    /// The action panicked. Treated exactly like a returned failure.
    Panicked,
}

/// One invocation of the automation's action: run the action on `trigger`,
/// and hand the result back as [`Event::Done`] with the same `id`.
pub struct Invocation<T> {
    /// Identifies this invocation among all started by one run loop.
    pub id: u64,
    /// The trigger value the action is applied to.
    pub trigger: T,
}

/// One observation handed to [`RunLoop::step`] by the driver.
pub enum Event<T> {
    /// The trigger stream yielded a value.
    Trigger(T),
    /// The trigger stream is exhausted; no further triggers will arrive.
    StreamClosed,
    /// The in-flight invocation with this identifier resolved. An abandoned
    /// invocation is dropped before it can resolve, so no such event exists
    /// for a cancelled identifier.
    Done {
        /// The identifier the invocation was started under.
        id: u64,
        /// What the invocation resolved with.
        outcome: Outcome,
    },
}

/// What the driver must do after handing one event to the run loop.
pub struct StepResult<T> {
    /// Start this invocation, if any.
    pub start: Option<Invocation<T>>,
    /// Abandon the in-flight invocation with this identifier, if any: drop it
    /// at its next suspension point instead of running it to completion.
    pub cancel: Option<u64>,
    /// True when the event recorded a failed or panicked invocation; the
    /// driver should log it with the run loop's name and carry on.
    pub failure: bool,
}

/// The complete observable history of one run loop, kept as ghost state:
/// every trigger that arrived, every invocation that started, and how each
/// ended.
pub struct History<T> {
    /// All triggers the stream yielded, in arrival order.
    pub arrived: Seq<T>,
    /// All invocations started, in start order.
    pub started: Seq<Invocation<T>>,
    /// Identifiers of invocations that ran to completion, in that order.
    pub completed: Seq<u64>,
    /// Identifiers of invocations that were abandoned, in that order.
    pub cancelled: Seq<u64>,
    /// How many completions were failures or panics.
    pub failures: nat,
}

/// The mathematical state of a run loop.
pub struct StateModel<T> {
    /// The run loop's name, its identity in logs.
    pub name: Seq<char>,
    /// The dispatch policy.
    pub policy: Policy,
    /// Whether the trigger stream has signalled exhaustion.
    pub stream_closed: bool,
    /// Identifiers of the invocations currently in flight.
    pub running: Seq<u64>,
    /// Triggers accepted but not yet started, in arrival order.
    pub queue: Seq<T>,
    /// The identifier the next invocation will start under.
    pub next_id: u64,
    /// The observable history so far.
    pub hist: History<T>,
}

/// The long-lived state of one automation under one [`Policy`].
pub struct RunLoop<T> {
    name: String,
    policy: Policy,
    stream_closed: bool,
    running: Vec<u64>,
    queue: Vec<T>,
    next_id: u64,
    history: Ghost<History<T>>,
}

impl<T> View for RunLoop<T> {
    type V = StateModel<T>;

    closed spec fn view(&self) -> StateModel<T> {
        StateModel {
            name: self.name@,
            policy: self.policy,
            stream_closed: self.stream_closed,
            running: self.running@,
            queue: self.queue@,
            next_id: self.next_id,
            hist: self.history@,
        }
    }
}

/// The triggers of the started invocations, in start order.
pub open spec fn started_triggers<T>(m: StateModel<T>) -> Seq<T> {
    m.hist.started.map_values(|inv: Invocation<T>| inv.trigger)
}

/// The index of the first occurrence of `id` in `s` (meaningful only when
/// `s` contains `id`).
pub open spec fn first_index_of(s: Seq<u64>, id: u64) -> int
    decreases s.len(),
{
    if s.len() == 0 {
        0
    } else if s[0] == id {
        0
    } else {
        1 + first_index_of(s.drop_first(), id)
    }
}

/// The events a driver can hand to a run loop in state `m`: the stream yields
/// triggers and closure only before it has closed, and only an invocation
/// actually in flight can resolve. The bound on `next_id` is a machine limit
/// on how many invocations one run loop can ever start.
pub open spec fn event_ok<T>(m: StateModel<T>, e: Event<T>) -> bool {
    &&& m.next_id < u64::MAX
    &&& match e {
        Event::Trigger(_) => !m.stream_closed,
        Event::StreamClosed => !m.stream_closed,
        Event::Done { id, .. } => m.running.contains(id),
    }
}

/// A run loop is finished exactly when its stream is exhausted and all the
/// invocations it committed to have resolved.
pub open spec fn is_closed<T>(m: StateModel<T>) -> bool {
    m.stream_closed && m.running.len() == 0 && m.queue.len() == 0
}

/// Where a run loop stands in its life.
#[derive(Debug, Clone, Copy, PartialEq, Eq, Structural)]
pub enum RunLoopPhase {
    /// Nothing in flight; the next trigger starts an invocation.
    WaitingForTrigger,
    /// One or more invocations are in flight.
    Busy,
    /// Terminal: the stream is exhausted and all committed work has resolved.
    Closed,
}

/// The phase of a run loop state.
pub open spec fn phase_of<T>(m: StateModel<T>) -> RunLoopPhase {
    if is_closed(m) {
        RunLoopPhase::Closed
    } else if m.running.len() > 0 {
        RunLoopPhase::Busy
    } else {
        RunLoopPhase::WaitingForTrigger
    }
}

/// Structural well-formedness of a run loop state: identifier hygiene, the
/// policy's concurrency cap, and the accounting that ties accepted triggers
/// to started invocations.
pub open spec fn wf<T>(m: StateModel<T>) -> bool {
    &&& forall|i: int| 0 <= i < m.running.len() ==> #[trigger] m.running[i] < m.next_id
    &&& forall|i: int| 0 <= i < m.hist.completed.len() ==> #[trigger] m.hist.completed[i] < m.next_id
    &&& forall|i: int| 0 <= i < m.hist.cancelled.len() ==> #[trigger] m.hist.cancelled[i] < m.next_id
    &&& forall|i: int, j: int|
        0 <= i < j < m.running.len() ==> m.running[i] != m.running[j]
    &&& forall|i: int, j: int|
        0 <= i < m.running.len() && 0 <= j < m.hist.completed.len()
            ==> m.running[i] != m.hist.completed[j]
    &&& forall|i: int, j: int|
        0 <= i < m.running.len() && 0 <= j < m.hist.cancelled.len()
            ==> m.running[i] != m.hist.cancelled[j]
    &&& forall|i: int, j: int|
        0 <= i < m.hist.completed.len() && 0 <= j < m.hist.cancelled.len()
            ==> m.hist.completed[i] != m.hist.cancelled[j]
    &&& match m.policy {
        Policy::Single => m.running.len() <= 1 && m.queue.len() == 0,
        Policy::Cancel => m.running.len() <= 1 && m.queue.len() == 0,
        Policy::Queued => {
            &&& m.running.len() <= 1
            &&& (m.running.len() == 0 ==> m.queue.len() == 0)
            &&& started_triggers(m) + m.queue == m.hist.arrived
        },
        Policy::Parallel { max } => {
            &&& max >= 1
            &&& m.running.len() <= max
            &&& (m.queue.len() > 0 ==> m.running.len() == max)
            &&& started_triggers(m) + m.queue == m.hist.arrived
        },
    }
}

/// `m` after starting an invocation for `t` under the next fresh identifier.
pub open spec fn with_started<T>(m: StateModel<T>, t: T) -> StateModel<T> {
    StateModel {
        name: m.name,
        policy: m.policy,
        stream_closed: m.stream_closed,
        running: m.running.push(m.next_id),
        queue: m.queue,
        next_id: (m.next_id + 1) as u64,
        hist: History {
            arrived: m.hist.arrived,
            started: m.hist.started.push(Invocation { id: m.next_id, trigger: t }),
            completed: m.hist.completed,
            cancelled: m.hist.cancelled,
            failures: m.hist.failures,
        },
    }
}

/// A [`StepResult`] that asks the driver for nothing.
pub open spec fn quiet<T>() -> StepResult<T> {
    StepResult { start: None, cancel: None, failure: false }
}

/// The transition for a newly arrived trigger.
pub open spec fn spec_on_trigger<T>(m: StateModel<T>, t: T) -> (StateModel<T>, StepResult<T>) {
    let ma = StateModel {
        name: m.name,
        policy: m.policy,
        stream_closed: m.stream_closed,
        running: m.running,
        queue: m.queue,
        next_id: m.next_id,
        hist: History {
            arrived: m.hist.arrived.push(t),
            started: m.hist.started,
            completed: m.hist.completed,
            cancelled: m.hist.cancelled,
            failures: m.hist.failures,
        },
    };
    let start = StepResult {
        start: Some(Invocation { id: m.next_id, trigger: t }),
        cancel: None,
        failure: false,
    };
    match m.policy {
        Policy::Single => if m.running.len() == 0 {
            (with_started(ma, t), start)
        } else {
            (ma, quiet())
        },
        Policy::Queued => if m.running.len() == 0 {
            (with_started(ma, t), start)
        } else {
            (StateModel { queue: ma.queue.push(t), ..ma }, quiet())
        },
        Policy::Cancel => if m.running.len() == 0 {
            (with_started(ma, t), start)
        } else {
            let victim = m.running[0];
            let mc = StateModel {
                running: Seq::empty(),
                hist: History { cancelled: ma.hist.cancelled.push(victim), ..ma.hist },
                ..ma
            };
            (
                with_started(mc, t),
                StepResult {
                    start: Some(Invocation { id: m.next_id, trigger: t }),
                    cancel: Some(victim),
                    failure: false,
                },
            )
        },
        Policy::Parallel { max } => if m.running.len() < max {
            (with_started(ma, t), start)
        } else {
            (StateModel { queue: ma.queue.push(t), ..ma }, quiet())
        },
    }
}

/// The transition for a resolved invocation.
pub open spec fn spec_on_done<T>(m: StateModel<T>, id: u64, outcome: Outcome) -> (
    StateModel<T>,
    StepResult<T>,
) {
    let md = StateModel {
        name: m.name,
        policy: m.policy,
        stream_closed: m.stream_closed,
        running: m.running.remove(first_index_of(m.running, id)),
        queue: m.queue,
        next_id: m.next_id,
        hist: History {
            arrived: m.hist.arrived,
            started: m.hist.started,
            completed: m.hist.completed.push(id),
            cancelled: m.hist.cancelled,
            failures: if outcome is Success {
                m.hist.failures
            } else {
                m.hist.failures + 1
            },
        },
    };
    let failure = !(outcome is Success);
    let refill = match m.policy {
        Policy::Queued => md.running.len() == 0 && md.queue.len() > 0,
        Policy::Parallel { max } => md.queue.len() > 0 && md.running.len() < max,
        _ => false,
    };
    if refill {
        let t = md.queue[0];
        let popped = StateModel { queue: md.queue.remove(0), ..md };
        (
            with_started(popped, t),
            StepResult {
                start: Some(Invocation { id: md.next_id, trigger: t }),
                cancel: None,
                failure,
            },
        )
    } else {
        (md, StepResult { start: None, cancel: None, failure })
    }
}

/// The complete transition function of a run loop: from a state and one
/// observed event to the next state and the driver's obligations.
pub open spec fn spec_step<T>(m: StateModel<T>, e: Event<T>) -> (StateModel<T>, StepResult<T>) {
    match e {
        Event::Trigger(t) => spec_on_trigger(m, t),
        Event::StreamClosed => (
            StateModel { stream_closed: true, ..m },
            quiet(),
        ),
        Event::Done { id, outcome } => spec_on_done(m, id, outcome),
    }
}

/// The state every run loop starts in.
pub open spec fn initial<T>(name: Seq<char>, policy: Policy) -> StateModel<T> {
    StateModel {
        name: name,
        policy: policy,
        stream_closed: false,
        running: Seq::empty(),
        queue: Seq::empty(),
        next_id: 0,
        hist: History {
            arrived: Seq::empty(),
            started: Seq::empty(),
            completed: Seq::empty(),
            cancelled: Seq::empty(),
            failures: 0,
        },
    }
}

impl<T> RunLoop<T> {
    /// Create a run loop under the given policy.
    ///
    /// For `Policy::Parallel` the cap must be at least one, or no trigger
    /// could ever start.
    pub fn new(name: String, policy: Policy) -> (r: Self)
        requires
            policy matches Policy::Parallel { max } ==> max >= 1,
        ensures
            r@ == initial::<T>(name@, policy),
            wf(r@),
    {
        let r = RunLoop {
            name,
            policy,
            stream_closed: false,
            running: Vec::new(),
            queue: Vec::new(),
            next_id: 0,
            history: Ghost(
                History {
                    arrived: Seq::empty(),
                    started: Seq::empty(),
                    completed: Seq::empty(),
                    cancelled: Seq::empty(),
                    failures: 0,
                },
            ),
        };
        proof {
            assert(started_triggers(r@) + r@.queue =~= r@.hist.arrived);
        }
        r
    }

    /// The run loop's name, its identity in logs.
    pub fn name(&self) -> (r: &str)
        ensures
            r@ == self@.name,
    {
        self.name.as_str()
    }

    /// The policy this run loop dispatches under.
    pub fn policy(&self) -> (r: Policy)
        ensures
            r == self@.policy,
    {
        self.policy
    }

    /// True exactly when the run loop has finished: its stream is exhausted
    /// and every invocation it committed to has resolved.
    pub fn closed(&self) -> (r: bool)
        ensures
            r == is_closed(self@),
    {
        self.stream_closed && self.running.len() == 0 && self.queue.len() == 0
    }

    /// How many invocations are in flight right now.
    pub fn in_flight(&self) -> (r: usize)
        ensures
            r == self@.running.len(),
    {
        self.running.len()
    }

    /// Where this run loop stands: waiting, busy, or closed for good.
    pub fn phase(&self) -> (r: RunLoopPhase)
        ensures
            r == phase_of(self@),
    {
        if self.closed() {
            RunLoopPhase::Closed
        } else if self.running.len() > 0 {
            RunLoopPhase::Busy
        } else {
            RunLoopPhase::WaitingForTrigger
        }
    }

    /// Feed one observed event to the run loop and learn what to do next.
    ///
    /// The returned obligations are exactly those of [`spec_step`]; the new
    /// state is well-formed whenever the old one was.
    pub fn step(&mut self, event: Event<T>) -> (r: StepResult<T>)
        requires
            wf(old(self)@),
            event_ok(old(self)@, event),
        ensures
            final(self)@ == spec_step(old(self)@, event).0,
            r == spec_step(old(self)@, event).1,
            wf(final(self)@),
    {
        let ghost pre = self@;
        let r = match event {
            Event::Trigger(t) => self.on_trigger(t),
            Event::StreamClosed => {
                self.stream_closed = true;
                StepResult { start: None, cancel: None, failure: false }
            },
            Event::Done { id, outcome } => self.on_done(id, outcome),
        };
        proof {
            lemma_step_preserves_wf(pre, event);
        }
        r
    }

    fn on_trigger(&mut self, t: T) -> (r: StepResult<T>)
        requires
            wf(old(self)@),
            event_ok(old(self)@, Event::Trigger(t)),
        ensures
            final(self)@ == spec_on_trigger(old(self)@, t).0,
            r == spec_on_trigger(old(self)@, t).1,
    {
        self.history = Ghost(
            History { arrived: self.history@.arrived.push(t), ..self.history@ },
        );
        match self.policy {
            Policy::Single => {
                if self.running.len() == 0 {
                    self.start_invocation(t)
                } else {
                    StepResult { start: None, cancel: None, failure: false }
                }
            },
            Policy::Queued => {
                if self.running.len() == 0 {
                    self.start_invocation(t)
                } else {
                    self.queue.push(t);
                    StepResult { start: None, cancel: None, failure: false }
                }
            },
            Policy::Cancel => {
                if self.running.len() == 0 {
                    self.start_invocation(t)
                } else {
                    let victim = self.running[0];
                    self.running.clear();
                    self.history = Ghost(
                        History {
                            cancelled: self.history@.cancelled.push(victim),
                            ..self.history@
                        },
                    );
                    let mut r = self.start_invocation(t);
                    r.cancel = Some(victim);
                    r
                }
            },
            Policy::Parallel { max } => {
                if self.running.len() < max {
                    self.start_invocation(t)
                } else {
                    self.queue.push(t);
                    StepResult { start: None, cancel: None, failure: false }
                }
            },
        }
    }

    fn on_done(&mut self, id: u64, outcome: Outcome) -> (r: StepResult<T>)
        requires
            wf(old(self)@),
            event_ok(old(self)@, Event::Done { id, outcome }),
        ensures
            final(self)@ == spec_on_done(old(self)@, id, outcome).0,
            r == spec_on_done(old(self)@, id, outcome).1,
    {
        remove_first(&mut self.running, id);
        self.history = Ghost(
            History {
                completed: self.history@.completed.push(id),
                failures: if outcome is Success {
                    self.history@.failures
                } else {
                    self.history@.failures + 1
                },
                ..self.history@
            },
        );
        let failure = !matches!(outcome, Outcome::Success);
        let refill = match self.policy {
            Policy::Queued => self.running.len() == 0 && self.queue.len() > 0,
            Policy::Parallel { max } => self.queue.len() > 0 && self.running.len() < max,
            _ => false,
        };
        if refill {
            let t = self.queue.remove(0);
            let mut r = self.start_invocation(t);
            r.failure = failure;
            r
        } else {
            StepResult { start: None, cancel: None, failure }
        }
    }

    fn start_invocation(&mut self, t: T) -> (r: StepResult<T>)
        requires
            old(self)@.next_id < u64::MAX,
        ensures
            final(self)@ == with_started(old(self)@, t),
            r == (StepResult {
                start: Some(Invocation { id: old(self)@.next_id, trigger: t }),
                cancel: None,
                failure: false,
            }),
    {
        let id = self.next_id;
        self.next_id = id + 1;
        self.running.push(id);
        self.history = Ghost(
            History {
                started: self.history@.started.push(Invocation { id, trigger: t }),
                ..self.history@
            },
        );
        StepResult { start: Some(Invocation { id, trigger: t }), cancel: None, failure: false }
    }
}

/// Remove the first occurrence of `id` from `v`.
fn remove_first(v: &mut Vec<u64>, id: u64)
    requires
        old(v)@.contains(id),
    ensures
        final(v)@ == old(v)@.remove(first_index_of(old(v)@, id)),
{
    let j = find_first(v, id);
    v.remove(j);
}

/// The index of the first occurrence of `id` in `v`.
fn find_first(v: &Vec<u64>, id: u64) -> (j: usize)
    requires
        v@.contains(id),
    ensures
        0 <= j < v@.len(),
        j == first_index_of(v@, id),
{
    let n = v.len();
    let mut j: usize = 0;
    while j < n
        invariant
            n == v@.len(),
            j <= n,
            forall|k: int| 0 <= k < j ==> v@[k] != id,
        decreases n - j,
    {
        if v[j] == id {
            proof {
                lemma_first_index_unique(v@, id, j as int);
            }
            return j;
        }
        j = j + 1;
    }
    proof {
        let w = choose|w: int| 0 <= w < v@.len() && v@[w] == id;
        assert(v@[w] != id);
    }
    0
}

/// The first index found by a forward scan is `first_index_of`.
proof fn lemma_first_index_unique(s: Seq<u64>, id: u64, j: int)
    requires
        0 <= j < s.len(),
        s[j] == id,
        forall|k: int| 0 <= k < j ==> s[k] != id,
    ensures
        first_index_of(s, id) == j,
    decreases j,
{
    if j > 0 {
        assert(s[0] != id);
        assert(s.drop_first()[j - 1] == id);
        assert forall|k: int| 0 <= k < j - 1 implies s.drop_first()[k] != id by {
            assert(s.drop_first()[k] == s[k + 1]);
        }
        lemma_first_index_unique(s.drop_first(), id, j - 1);
    }
}

/// Basic facts about `first_index_of` when the identifier is present.
proof fn lemma_first_index_props(s: Seq<u64>, id: u64)
    requires
        s.contains(id),
    ensures
        0 <= first_index_of(s, id) < s.len(),
        s[first_index_of(s, id)] == id,
    decreases s.len(),
{
    if s.len() > 0 && s[0] != id {
        let w = choose|w: int| 0 <= w < s.len() && s[w] == id;
        assert(s.drop_first()[w - 1] == s[w]);
        assert(s.drop_first().contains(id));
        lemma_first_index_props(s.drop_first(), id);
        assert(s[first_index_of(s, id)] == s.drop_first()[first_index_of(s.drop_first(), id)]);
    }
}

/// A run loop of the `single` type: a trigger that occurs while the previous
/// run is ongoing is ignored entirely.
pub fn single<T>(name: String) -> (r: RunLoop<T>)
    ensures
        r@ == initial::<T>(name@, Policy::Single),
        wf(r@),
{
    RunLoop::new(name, Policy::Single)
}

/// A run loop of the `queued` type: a trigger that occurs while the previous
/// run is ongoing begins after the previous run completes, in arrival order.
pub fn queued<T>(name: String) -> (r: RunLoop<T>)
    ensures
        r@ == initial::<T>(name@, Policy::Queued),
        wf(r@),
{
    RunLoop::new(name, Policy::Queued)
}

/// A run loop of the `cancel` type: a trigger that occurs while the previous
/// run is ongoing abandons that run and starts a new one. Actions used with
/// this type must tolerate being dropped before completion.
pub fn cancel<T>(name: String) -> (r: RunLoop<T>)
    ensures
        r@ == initial::<T>(name@, Policy::Cancel),
        wf(r@),
{
    RunLoop::new(name, Policy::Cancel)
}

/// A run loop of the `parallel` type: a trigger that occurs while previous
/// runs are ongoing starts another run beside them, up to
/// `max_parallel_runs` at once.
pub fn parallel<T>(name: String, max_parallel_runs: usize) -> (r: RunLoop<T>)
    requires
        max_parallel_runs >= 1,
    ensures
        r@ == initial::<T>(name@, Policy::Parallel { max: max_parallel_runs }),
        wf(r@),
{
    RunLoop::new(name, Policy::Parallel { max: max_parallel_runs })
}

/// Single: a trigger that arrives while an invocation is in flight is never
/// passed to the action — nothing starts, and nothing is queued for later.
pub proof fn lemma_single_drops_busy_trigger<T>(m: StateModel<T>, t: T)
    requires
        wf(m),
        event_ok(m, Event::Trigger(t)),
        m.policy is Single,
        m.running.len() > 0,
    ensures
        spec_step(m, Event::Trigger(t)).1.start is None,
        spec_step(m, Event::Trigger(t)).0.hist.started == m.hist.started,
        spec_step(m, Event::Trigger(t)).0.queue == m.queue,
{
}

/// Single: a trigger that arrives while the loop is idle is passed to the
/// action at once.
pub proof fn lemma_single_starts_idle_trigger<T>(m: StateModel<T>, t: T)
    requires
        wf(m),
        event_ok(m, Event::Trigger(t)),
        m.policy is Single,
        m.running.len() == 0,
    ensures
        spec_step(m, Event::Trigger(t)).1.start == Some(
            Invocation { id: m.next_id, trigger: t },
        ),
        spec_step(m, Event::Trigger(t)).0.hist.started == m.hist.started.push(
            Invocation { id: m.next_id, trigger: t },
        ),
{
}

/// Queued: dispatch follows trigger arrival order exactly — the triggers
/// started so far are always a prefix of the triggers that arrived.
pub proof fn lemma_queued_fifo<T>(m: StateModel<T>)
    requires
        wf(m),
        m.policy is Queued,
    ensures
        started_triggers(m) == m.hist.arrived.take(started_triggers(m).len() as int),
{
    assert(started_triggers(m) =~= (started_triggers(m) + m.queue).take(
        started_triggers(m).len() as int,
    ));
}

/// Queued: invocations never overlap — whenever one starts, it is the only
/// one in flight, so invocation N + 1 cannot begin before invocation N has
/// resolved.
pub proof fn lemma_queued_serial<T>(m: StateModel<T>, e: Event<T>)
    requires
        wf(m),
        event_ok(m, e),
        m.policy is Queued,
    ensures
        spec_step(m, e).1.start is Some ==> spec_step(m, e).0.running.len() == 1,
        spec_step(m, e).0.running.len() <= 1,
{
    lemma_step_preserves_wf(m, e);
}

/// Cancel: a trigger that arrives while an invocation is in flight abandons
/// that invocation and starts a fresh one for the new trigger.
pub proof fn lemma_cancel_replaces<T>(m: StateModel<T>, t: T)
    requires
        wf(m),
        event_ok(m, Event::Trigger(t)),
        m.policy is Cancel,
        m.running.len() > 0,
    ensures
        spec_step(m, Event::Trigger(t)).1.cancel == Some(m.running[0]),
        spec_step(m, Event::Trigger(t)).1.start == Some(
            Invocation { id: m.next_id, trigger: t },
        ),
        spec_step(m, Event::Trigger(t)).0.hist.cancelled == m.hist.cancelled.push(m.running[0]),
        spec_step(m, Event::Trigger(t)).0.running =~= seq![m.next_id],
{
}

/// An abandoned invocation never completes: its side effects past the
/// abandon point — its completion among them — are never observed.
pub proof fn lemma_cancelled_never_completes<T>(m: StateModel<T>, id: u64)
    requires
        wf(m),
        m.hist.cancelled.contains(id),
    ensures
        !m.hist.completed.contains(id),
{
    let j = choose|j: int| 0 <= j < m.hist.cancelled.len() && m.hist.cancelled[j] == id;
    if m.hist.completed.contains(id) {
        let i = choose|i: int| 0 <= i < m.hist.completed.len() && m.hist.completed[i] == id;
        assert(m.hist.completed[i] != m.hist.cancelled[j]);
    }
}

/// Parallel: at most `max` invocations are ever in flight, a trigger is
/// admitted at once exactly when a slot is free, and a trigger that finds
/// every slot taken waits instead of being dropped.
pub proof fn lemma_parallel_cap<T>(m: StateModel<T>, t: T)
    requires
        wf(m),
        event_ok(m, Event::Trigger(t)),
        m.policy matches Policy::Parallel { max },
    ensures
        m.running.len() <= m.policy->max,
        spec_step(m, Event::Trigger(t)).0.running.len() <= m.policy->max,
        m.running.len() < m.policy->max ==> spec_step(m, Event::Trigger(t)).1.start == Some(
            Invocation { id: m.next_id, trigger: t },
        ),
        m.running.len() >= m.policy->max ==> spec_step(m, Event::Trigger(t)).1.start is None
            && spec_step(m, Event::Trigger(t)).0.queue == m.queue.push(t),
{
}

/// Parallel: no accepted trigger is ever lost — at every moment the arrived
/// triggers are exactly the started ones followed by the waiting ones.
pub proof fn lemma_parallel_no_loss<T>(m: StateModel<T>)
    requires
        wf(m),
        m.policy matches Policy::Parallel { max },
    ensures
        started_triggers(m) + m.queue == m.hist.arrived,
{
}

/// The closed phase is terminal: once a run loop is closed, there is no
/// event its driver could still observe.
pub proof fn lemma_closed_is_terminal<T>(m: StateModel<T>, e: Event<T>)
    requires
        is_closed(m),
    ensures
        !event_ok(m, e),
{
}

/// A panic inside an invocation is handled exactly like a returned failure:
/// the two events lead to the same state and the same driver obligations.
pub proof fn lemma_panic_is_failure<T>(m: StateModel<T>, id: u64)
    ensures
        spec_step(m, Event::Done { id, outcome: Outcome::Panicked }) == spec_step(
            m,
            Event::Done { id, outcome: Outcome::Failure },
        ),
{
}

/// How an invocation resolved steers nothing: success and failure lead to the
/// same dispatch state, differing only in the failure count kept for logs.
pub proof fn lemma_outcome_does_not_steer<T>(m: StateModel<T>, id: u64)
    ensures
        ({
            let ok = spec_step(m, Event::Done { id, outcome: Outcome::Success }).0;
            let bad = spec_step(m, Event::Done { id, outcome: Outcome::Failure }).0;
            &&& ok.running == bad.running
            &&& ok.queue == bad.queue
            &&& ok.stream_closed == bad.stream_closed
            &&& ok.next_id == bad.next_id
            &&& ok.hist.started == bad.hist.started
            &&& ok.hist.completed == bad.hist.completed
            &&& ok.hist.cancelled == bad.hist.cancelled
            &&& ok.hist.failures + 1 == bad.hist.failures
        }),
{
}

/// A failed or panicked invocation never terminates the run loop: while the
/// stream is open, the loop remains ready for further triggers.
pub proof fn lemma_failure_keeps_loop_open<T>(m: StateModel<T>, id: u64, outcome: Outcome)
    requires
        wf(m),
        event_ok(m, Event::Done { id, outcome }),
        !m.stream_closed,
    ensures
        !is_closed(spec_step(m, Event::Done { id, outcome }).0),
{
}

/// The state after an entire sequence of observed events.
pub open spec fn run_events<T>(m: StateModel<T>, events: Seq<Event<T>>) -> StateModel<T>
    decreases events.len(),
{
    if events.len() == 0 {
        m
    } else {
        run_events(spec_step(m, events[0]).0, events.drop_first())
    }
}

/// Each event of the sequence is one its driver could observe at that point.
pub open spec fn events_ok<T>(m: StateModel<T>, events: Seq<Event<T>>) -> bool
    decreases events.len(),
{
    events.len() == 0 || (event_ok(m, events[0]) && events_ok(
        spec_step(m, events[0]).0,
        events.drop_first(),
    ))
}

/// The state every run loop starts in is well-formed.
pub proof fn lemma_initial_wf<T>(name: Seq<char>, policy: Policy)
    requires
        policy matches Policy::Parallel { max } ==> max >= 1,
    ensures
        wf(initial::<T>(name, policy)),
{
    let m = initial::<T>(name, policy);
    assert(started_triggers(m) + m.queue =~= m.hist.arrived);
}

/// Well-formedness holds in every reachable state: whatever sequence of
/// events the driver observes, the policy's cap, the identifier hygiene and
/// the trigger accounting are never violated; and the policy never changes.
pub proof fn lemma_reachable_wf<T>(m: StateModel<T>, events: Seq<Event<T>>)
    requires
        wf(m),
        events_ok(m, events),
    ensures
        wf(run_events(m, events)),
        run_events(m, events).policy == m.policy,
    decreases events.len(),
{
    if events.len() > 0 {
        lemma_step_preserves_wf(m, events[0]);
        lemma_reachable_wf(spec_step(m, events[0]).0, events.drop_first());
    }
}

/// Queued, over a whole run: after any sequence of events from the start,
/// the triggers dispatched so far are exactly the first arrived ones, in
/// arrival order.
pub proof fn lemma_queued_fifo_trace<T>(name: Seq<char>, events: Seq<Event<T>>)
    requires
        events_ok(initial::<T>(name, Policy::Queued), events),
    ensures
        ({
            let m = run_events(initial::<T>(name, Policy::Queued), events);
            started_triggers(m) == m.hist.arrived.take(started_triggers(m).len() as int)
        }),
{
    lemma_initial_wf::<T>(name, Policy::Queued);
    lemma_reachable_wf(initial::<T>(name, Policy::Queued), events);
    lemma_queued_fifo(run_events(initial::<T>(name, Policy::Queued), events));
}

/// Parallel, over a whole run: after any sequence of events from the start,
/// no accepted trigger has been lost and the cap has never been exceeded.
pub proof fn lemma_parallel_no_loss_trace<T>(name: Seq<char>, max: usize, events: Seq<Event<T>>)
    requires
        max >= 1,
        events_ok(initial::<T>(name, Policy::Parallel { max }), events),
    ensures
        ({
            let m = run_events(initial::<T>(name, Policy::Parallel { max }), events);
            &&& started_triggers(m) + m.queue == m.hist.arrived
            &&& m.running.len() <= max
        }),
{
    lemma_initial_wf::<T>(name, Policy::Parallel { max });
    lemma_reachable_wf(initial::<T>(name, Policy::Parallel { max }), events);
    lemma_parallel_no_loss(run_events(initial::<T>(name, Policy::Parallel { max }), events));
}

/// Stepping preserves well-formedness: the policy's cap, identifier hygiene
/// and the trigger accounting hold in every reachable state.
pub proof fn lemma_step_preserves_wf<T>(m: StateModel<T>, e: Event<T>)
    requires
        wf(m),
        event_ok(m, e),
    ensures
        wf(spec_step(m, e).0),
{
    let m1 = spec_step(m, e).0;
    match e {
        Event::Trigger(t) => {
            match m.policy {
                Policy::Single => {
                    if m.running.len() == 0 {
                        assert(m1.running =~= seq![m.next_id]);
                    }
                },
                Policy::Queued => {
                    if m.running.len() == 0 {
                        assert(started_triggers(m1) =~= started_triggers(m).push(t));
                        assert(started_triggers(m1) + m1.queue =~= m1.hist.arrived);
                    } else {
                        assert(started_triggers(m1) + m1.queue =~= m1.hist.arrived);
                    }
                },
                Policy::Cancel => {
                    if m.running.len() > 0 {
                        assert(m1.running =~= Seq::<u64>::empty().push(m.next_id));
                    }
                },
                Policy::Parallel { max } => {
                    if m.running.len() < max {
                        assert(started_triggers(m1) =~= started_triggers(m).push(t));
                        assert(started_triggers(m1) + m1.queue =~= m1.hist.arrived);
                    } else {
                        assert(started_triggers(m1) + m1.queue =~= m1.hist.arrived);
                    }
                },
            }
        },
        Event::StreamClosed => {
            assert(m1.running == m.running);
        },
        Event::Done { id, outcome } => {
            lemma_first_index_props(m.running, id);
            let k = first_index_of(m.running, id);
            let r1 = m.running.remove(k);
            m.running.remove_ensures(k);
            assert(forall|i: int| 0 <= i < r1.len() ==> m.running.contains(#[trigger] r1[i]));
            let refill = match m.policy {
                Policy::Queued => r1.len() == 0 && m.queue.len() > 0,
                Policy::Parallel { max } => m.queue.len() > 0 && r1.len() < max,
                _ => false,
            };
            // the removed identifier no longer occurs: it was unique in `running`
            assert forall|i: int| 0 <= i < r1.len() implies r1[i] != id by {
                if i < k {
                    assert(r1[i] == m.running[i]);
                } else {
                    assert(r1[i] == m.running[i + 1]);
                }
            }
            if refill {
                let t = m.queue[0];
                assert(started_triggers(m1) =~= started_triggers(m).push(t));
                assert(m1.queue =~= m.queue.remove(0));
                assert(started_triggers(m1) + m1.queue =~= m1.hist.arrived) by {
                    assert(started_triggers(m) + m.queue =~= m.hist.arrived);
                }
            } else {
                match m.policy {
                    Policy::Queued => {
                        assert(started_triggers(m1) + m1.queue =~= m1.hist.arrived);
                    },
                    Policy::Parallel { max } => {
                        assert(started_triggers(m1) + m1.queue =~= m1.hist.arrived);
                    },
                    _ => {},
                }
            }
        },
    }
}

} // verus!
