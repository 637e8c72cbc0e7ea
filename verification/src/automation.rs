//! A single automation definition: a named pairing of a trigger stream with
//! an action.
//!
//! The driver owns the stream and the action; [`JobStream`] is the verified
//! conversion between them: every trigger the stream yields becomes exactly
//! one numbered job for the action, in arrival order, and the stream's
//! closure yields no job at all.

use vstd::prelude::*;

verus! {

/// One unit of work for the automation's action: apply it to `trigger`.
pub struct Job<T> {
    /// The position of this job among all jobs of its stream, from zero.
    pub number: u64,
    /// The trigger value the action is applied to.
    pub trigger: T,
}

/// The mathematical state of a job stream.
pub struct JobStreamModel<T> {
    /// The automation's name, its identity in logs.
    pub name: Seq<char>,
    /// The number of jobs issued so far.
    pub issued: u64,
    /// Every trigger converted into a job so far, in arrival order.
    pub triggers: Seq<T>,
}

/// Jobs are one-to-one with triggers: the count issued is the count arrived.
pub open spec fn jobs_wf<T>(m: JobStreamModel<T>) -> bool {
    m.issued == m.triggers.len()
}

/// The job-producing half of one automation: turns each trigger into a job.
pub struct JobStream<T> {
    name: String,
    issued: u64,
    triggers: Ghost<Seq<T>>,
}

impl<T> View for JobStream<T> {
    type V = JobStreamModel<T>;

    closed spec fn view(&self) -> JobStreamModel<T> {
        JobStreamModel { name: self.name@, issued: self.issued, triggers: self.triggers@ }
    }
}

impl<T> JobStream<T> {
    /// Create the job stream for the automation called `name`.
    pub fn new(name: String) -> (s: Self)
        ensures
            s@.name == name@,
            s@.issued == 0,
            s@.triggers == Seq::<T>::empty(),
            jobs_wf(s@),
    {
        JobStream { name, issued: 0, triggers: Ghost(Seq::empty()) }
    }

    /// The automation's name, its identity in logs.
    pub fn name(&self) -> (r: &str)
        ensures
            r@ == self@.name,
    {
        self.name.as_str()
    }

    /// Convert the stream's next yield into work: a trigger becomes exactly
    /// one job, numbered in arrival order, and closure becomes nothing.
    pub fn next_job(&mut self, trigger: Option<T>) -> (r: Option<Job<T>>)
        requires
            jobs_wf(old(self)@),
            old(self)@.issued < u64::MAX,
        ensures
            final(self)@.name == old(self)@.name,
            jobs_wf(final(self)@),
            match trigger {
                Some(t) => {
                    &&& r == Some(Job { number: old(self)@.issued, trigger: t })
                    &&& final(self)@.triggers == old(self)@.triggers.push(t)
                },
                None => {
                    &&& r is None
                    &&& final(self)@ == old(self)@
                },
            },
    {
        match trigger {
            Some(t) => {
                let number = self.issued;
                self.issued = number + 1;
                self.triggers = Ghost(self.triggers@.push(t));
                Some(Job { number, trigger: t })
            },
            None => None,
        }
    }
}

} // verus!
