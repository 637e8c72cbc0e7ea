//! A home-automation control core: automation dispatch policies, automation
//! set composition, and the scheduler state machine that runs a set of
//! automations to completion or cancellation.
//!
//! The asynchronous plumbing (trigger streams, action futures, executors)
//! lives outside this crate; here every dispatch decision is an explicit,
//! verified transition function over plain values.

use vstd::prelude::*;
use vstd::std_specs::cmp::PartialEqSpec;

pub mod automation;
pub mod automations;
pub mod button;
pub mod device;
pub mod devices;
pub mod manager;
pub mod policy;
pub mod scheduler;

verus! {

/// An event from a button or other button-like device.
#[derive(Debug, Clone, Copy, PartialEq, Eq, Structural)]
pub enum ButtonEvent {
    /// The button is pressed.
    Press,
    /// The button has been held for some time; not every device reports it.
    Hold,
    /// The button is released.
    Release,
}

/// A switch-like entity that is either on or off.
#[derive(Debug, Clone, Copy, PartialEq, Eq, Structural)]
pub enum SwitchState {
    /// on
    On,
    /// off
    Off,
}

impl SwitchState {
    /// The opposite state: `On` becomes `Off` and `Off` becomes `On`.
    pub fn not(self) -> (r: Self)
        ensures
            r == (match self {
                SwitchState::On => SwitchState::Off,
                SwitchState::Off => SwitchState::On,
            }),
    {
        match self {
            SwitchState::On => SwitchState::Off,
            SwitchState::Off => SwitchState::On,
        }
    }
}

/// This error indicates that an action failed because its input stream has
/// closed.
#[derive(Debug, Clone, Copy, PartialEq, Eq, Structural)]
pub struct InputStreamClosed;

impl InputStreamClosed {
    /// A human-readable description of this error.
    pub fn message(&self) -> (r: &'static str)
        ensures
            r@ == "The input stream has closed"@,
    {
        "The input stream has closed"
    }
}

/// Groups multiple writable values together, to write to each in a single
/// call. The writes themselves are the driver's I/O; the group holds the
/// members and combines their outcomes.
pub struct Group<T> {
    values: Vec<T>,
}

impl<T> View for Group<T> {
    type V = Seq<T>;

    closed spec fn view(&self) -> Seq<T> {
        self.values@
    }
}

impl<T> Group<T> {
    /// Create a new group of the given members, kept in order.
    pub fn new(values: Vec<T>) -> (g: Self)
        ensures
            g@ == values@,
    {
        Group { values }
    }

    /// How many members the group has.
    pub fn len(&self) -> (n: usize)
        ensures
            n == self@.len(),
    {
        self.values.len()
    }

    /// The member at `index`.
    pub fn get(&self, index: usize) -> (r: &T)
        requires
            index < self@.len(),
        ensures
            *r == self@[index as int],
    {
        &self.values[index]
    }
}

/// Filters out blocks of equal items, so that a stream of values yields one
/// only when it has changed since the last yield. The stream itself belongs
/// to the driver; the decision which items come through is made here.
pub struct Changes<T> {
    last: Option<T>,
}

impl<T> View for Changes<T> {
    type V = Option<T>;

    closed spec fn view(&self) -> Option<T> {
        self.last
    }
}

impl<T: PartialEq + Copy> Changes<T> {
    /// Start with nothing seen yet: the first item always comes through.
    pub fn new() -> (s: Self)
        ensures
            s@ is None,
    {
        Changes { last: None }
    }

    /// Decide one item: it comes through exactly when it differs from the
    /// last item that came through, and is remembered when it does.
    pub fn accept(&mut self, item: T) -> (r: Option<T>)
        ensures
            T::obeys_eq_spec() ==> match old(self)@ {
                None => r == Some(item) && final(self)@ == Some(item),
                Some(last) => {
                    &&& item.eq_spec(&last) ==> r is None && final(self)@ == old(self)@
                    &&& !item.eq_spec(&last) ==> r == Some(item) && final(self)@ == Some(item)
                },
            },
    {
        let changed = match &self.last {
            None => true,
            Some(last) => !(item == *last),
        };
        if changed {
            self.last = Some(item);
            Some(item)
        } else {
            None
        }
    }
}

/// The position of the first failure in a sequence of write outcomes
/// (meaningful only when one of them failed).
pub open spec fn first_failure(results: Seq<Result<(), String>>) -> int
    decreases results.len(),
{
    if results.len() == 0 {
        0
    } else if results[0] is Err {
        0
    } else {
        1 + first_failure(results.drop_first())
    }
}

/// The combined outcome of writing to every member of a group: success
/// exactly when every write succeeded, and otherwise the first failure.
#[verifier::loop_isolation(false)]
pub fn combine_results(results: Vec<Result<(), String>>) -> (r: Result<(), String>)
    ensures
        r is Ok <==> (forall|i: int| 0 <= i < results@.len() ==> results@[i] is Ok),
        r is Err ==> {
            &&& 0 <= first_failure(results@) < results@.len()
            &&& r == results@[first_failure(results@)]
        },
{
    let ghost orig = results@;
    let mut rs = results;
    let n = rs.len();
    let mut i: usize = 0;
    while i < n
        invariant
            rs@ == orig,
            i <= n,
            n == rs@.len(),
            forall|j: int| 0 <= j < i ==> rs@[j] is Ok,
        decreases n - i,
    {
        if rs[i].is_err() {
            proof {
                lemma_first_failure_at(rs@, i as int);
            }
            return rs.remove(i);
        }
        i = i + 1;
    }
    Ok(())
}

/// A forward scan that stops at the first failure finds `first_failure`.
proof fn lemma_first_failure_at(results: Seq<Result<(), String>>, j: int)
    requires
        0 <= j < results.len(),
        results[j] is Err,
        forall|k: int| 0 <= k < j ==> results[k] is Ok,
    ensures
        first_failure(results) == j,
    decreases j,
{
    if j > 0 {
        assert(results.drop_first()[j - 1] == results[j]);
        assert forall|k: int| 0 <= k < j - 1 implies results.drop_first()[k] is Ok by {
            assert(results.drop_first()[k] == results[k + 1]);
        }
        lemma_first_failure_at(results.drop_first(), j - 1);
    }
}

} // verus!

