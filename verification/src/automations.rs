//! Automation set composition.
//!
//! An automation set is a composable collection of schedulable run-loop
//! tasks. Heterogeneous automations are collected as a plain ordered sequence
//! of one minimal task abstraction, so sets of any arity nest freely:
//! a single automation is the base case, and a group concatenates its
//! children in child order. The one contract every set obeys: `size` counts
//! exactly the tasks that `futures` will yield.

use vstd::prelude::*;

verus! {

/// The task sequences of each child set, in child order.
pub open spec fn views_of<A>(children: Seq<AutomationSet<A>>) -> Seq<Seq<A>> {
    children.map_values(|c: AutomationSet<A>| c@)
}

/// The tasks of a sequence of task groups, concatenated in order.
pub open spec fn flat_tasks<A>(children: Seq<Seq<A>>) -> Seq<A>
    decreases children.len(),
{
    if children.len() == 0 {
        Seq::empty()
    } else {
        children[0] + flat_tasks(children.drop_first())
    }
}

/// The task counts of a sequence of task groups, summed.
pub open spec fn total_size<A>(children: Seq<Seq<A>>) -> nat
    decreases children.len(),
{
    if children.len() == 0 {
        0
    } else {
        children[0].len() + total_size(children.drop_first())
    }
}

/// A set of zero or more automations, held as the ordered sequence of their
/// run-loop tasks.
pub struct AutomationSet<A> {
    tasks: Vec<A>,
}

impl<A> View for AutomationSet<A> {
    type V = Seq<A>;

    closed spec fn view(&self) -> Seq<A> {
        self.tasks@
    }
}

impl<A> AutomationSet<A> {
    /// The base case: a set of exactly one automation.
    pub fn automation(task: A) -> (s: Self)
        ensures
            s@ =~= seq![task],
    {
        let mut tasks: Vec<A> = Vec::new();
        tasks.push(task);
        AutomationSet { tasks }
    }

    /// A set of no automations.
    pub fn empty() -> (s: Self)
        ensures
            s@ == Seq::<A>::empty(),
    {
        AutomationSet { tasks: Vec::new() }
    }

    /// Compose child sets, of any arity and nesting: the tasks of the group
    /// are exactly the tasks of its children, concatenated in child order.
    pub fn group(children: Vec<AutomationSet<A>>) -> (s: Self)
        ensures
            s@ == flat_tasks(views_of(children@)),
    {
        let ghost views = views_of(children@);
        let mut rest = children;
        let mut tasks: Vec<A> = Vec::new();
        while rest.len() > 0
            invariant
                rest@.len() <= views.len(),
                views_of(rest@) =~= views.subrange(
                    views.len() - rest@.len(),
                    views.len() as int,
                ),
                tasks@ =~= flat_tasks(views.take(views.len() - rest@.len())),
            decreases rest@.len(),
        {
            let ghost k = views.len() - rest@.len();
            let ghost rest_pre = rest@;
            let mut c = rest.remove(0);
            proof {
                assert(c@ == views_of(rest_pre)[0]);
                assert(c@ == views[k]);
            }
            tasks.append(&mut c.tasks);
            proof {
                lemma_flat_tasks_step(views, k);
                assert forall|idx: int| 0 <= idx < rest@.len() implies views_of(rest@)[idx]
                    == views[k + 1 + idx] by {
                    assert(rest@[idx] == rest_pre[idx + 1]);
                    assert(views_of(rest_pre)[idx + 1] == views.subrange(
                        k,
                        views.len() as int,
                    )[idx + 1]);
                }
                assert(views_of(rest@) =~= views.subrange(k + 1, views.len() as int));
            }
        }
        proof {
            assert(views.take(views.len() as int) =~= views);
        }
        AutomationSet { tasks }
    }

    /// The total number of independent run-loop tasks in this set.
    pub fn size(&self) -> (n: usize)
        ensures
            n == self@.len(),
    {
        self.tasks.len()
    }

    /// Append every task in this set to `futures`, in order: exactly
    /// `size()` of them.
    pub fn futures(self, futures: &mut Vec<A>)
        ensures
            final(futures)@ == old(futures)@ + self@,
    {
        let mut s = self;
        futures.append(&mut s.tasks);
    }
}

/// Taking one more child appends exactly that child's tasks.
proof fn lemma_flat_tasks_step<A>(s: Seq<Seq<A>>, i: int)
    requires
        0 <= i < s.len(),
    ensures
        flat_tasks(s.take(i + 1)) =~= flat_tasks(s.take(i)) + s[i],
    decreases i,
{
    if i == 0 {
        assert(flat_tasks(Seq::<Seq<A>>::empty()) =~= Seq::<A>::empty());
        assert(s.take(1).drop_first() =~= Seq::<Seq<A>>::empty());
        assert(flat_tasks(s.take(1)) == s.take(1)[0] + flat_tasks(s.take(1).drop_first()));
        assert(flat_tasks(s.take(1)) =~= s[0]);
        assert(flat_tasks(s.take(0)) =~= Seq::<A>::empty());
    } else {
        let u = s.take(i + 1);
        let v = s.take(i);
        assert(u.drop_first() =~= s.drop_first().take(i));
        assert(v.drop_first() =~= s.drop_first().take(i - 1));
        lemma_flat_tasks_step(s.drop_first(), i - 1);
        assert(flat_tasks(u) == u[0] + flat_tasks(s.drop_first().take(i)));
        assert(flat_tasks(v) == v[0] + flat_tasks(s.drop_first().take(i - 1)));
        assert(flat_tasks(u) =~= flat_tasks(v) + s[i]);
    }
}

/// Composition is additive: however sets are nested, a group holds exactly
/// as many tasks as its children hold together, in child order.
pub proof fn lemma_group_size_additive<A>(children: Seq<Seq<A>>)
    ensures
        flat_tasks(children).len() == total_size(children),
    decreases children.len(),
{
    if children.len() > 0 {
        lemma_group_size_additive(children.drop_first());
    }
}

} // verus!
