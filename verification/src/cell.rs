//! Resource cells, which share state under a ceiling, and local cells, which
//! keep the state of one task between its runs.

use vstd::prelude::*;
use crate::token::{Priority, TaskToken, Threshold};

verus! {

/// Why an access to a resource cell was refused.
#[derive(Clone, Copy, Debug, PartialEq, Eq, Structural)]
pub enum AccessError {
    /// The caller's threshold is below the cell's ceiling: a task that shares
    /// the cell could preempt the caller in the middle of the access.
    ThresholdBelowCeiling,
    /// The caller's priority is above the cell's ceiling: the caller could have
    /// preempted a task in the middle of its own access.
    PriorityAboveCeiling,
}

/// What an access under the given levels comes to: the threshold is tested
/// first, then the priority.
pub open spec fn access_verdict(ceiling: u8, priority: u8, threshold: u8) -> Option<AccessError> {
    if threshold < ceiling {
        Some(AccessError::ThresholdBelowCeiling)
    } else if priority > ceiling {
        Some(AccessError::PriorityAboveCeiling)
    } else {
        None
    }
}

/// One value shared between tasks, with a fixed ceiling.
#[derive(Debug)]
pub struct Resource<T> {
    ceiling: u8,
    value: T,
}

impl<T> Resource<T> {
    /// The ceiling of the cell.
    pub closed spec fn spec_ceiling(&self) -> u8 {
        self.ceiling
    }

    /// The value that the cell holds.
    pub closed spec fn value(&self) -> T {
        self.value
    }

    /// Whether a context with these levels may touch the cell.
    pub open spec fn admits(&self, priority: u8, threshold: u8) -> bool {
        priority <= self.ceiling() <= threshold
    }

    /// A cell that holds `value` under the ceiling `ceiling`.
    pub fn new(ceiling: u8, value: T) -> (r: Resource<T>)
        ensures
            r.ceiling() == ceiling,
            r.value() == value,
    {
        Resource { ceiling, value }
    }

    /// The ceiling of the cell.
    #[verifier::when_used_as_spec(spec_ceiling)]
    pub fn ceiling(&self) -> (c: u8)
        ensures
            c == self.ceiling(),
    {
        self.ceiling
    }

    /// The value, for the dispatcher to grant once it has tested the levels
    /// of the running context itself.
    pub(crate) fn value_mut(&mut self) -> (v: &mut T)
        ensures
            final(self).ceiling() == old(self).ceiling(),
            *v == old(self).value(),
            final(self).value() == *final(v),
    {
        &mut self.value
    }

    /// Tests the two levels against the ceiling, and changes nothing.
    pub fn check(&self, priority: &Priority, threshold: &Threshold) -> (r: Result<(), AccessError>)
        ensures
            r is Ok <==> self.admits(priority@, threshold@),
            r is Err ==> Some(r->Err_0) == access_verdict(self.ceiling(), priority@, threshold@),
    {
        if threshold.level() < self.ceiling {
            Err(AccessError::ThresholdBelowCeiling)
        } else if priority.level() > self.ceiling {
            Err(AccessError::PriorityAboveCeiling)
        } else {
            Ok(())
        }
    }

    /// Grants the value for reading, for as long as the tokens are held at
    /// most. It never waits: the answer is the value or a refusal.
    pub fn access<'a>(&'a self, priority: &'a Priority, threshold: &'a Threshold) -> (r: Result<
        &'a T,
        AccessError,
    >)
        ensures
            r is Ok <==> self.admits(priority@, threshold@),
            r is Ok ==> *r->Ok_0 == self.value(),
            r is Err ==> Some(r->Err_0) == access_verdict(self.ceiling(), priority@, threshold@),
    {
        match self.check(priority, threshold) {
            Ok(()) => Ok(&self.value),
            Err(e) => Err(e),
        }
    }

    /// Grants the value for reading and writing, for as long as the tokens
    /// are held at most. The cell holds afterwards what the borrower left in
    /// it; a refused access leaves it as it was.
    pub fn access_mut<'a>(
        &'a mut self,
        priority: &'a Priority,
        threshold: &'a Threshold,
    ) -> (r: Result<&'a mut T, AccessError>)
        ensures
            r is Ok <==> old(self).admits(priority@, threshold@),
            final(self).ceiling() == old(self).ceiling(),
            r is Ok ==> *r->Ok_0 == old(self).value(),
            r is Ok ==> final(self).value() == *final(r->Ok_0),
            r is Err ==> final(self).value() == old(self).value(),
            r is Err ==> Some(r->Err_0) == access_verdict(
                old(self).ceiling(),
                priority@,
                threshold@,
            ),
    {
        match self.check(priority, threshold) {
            Ok(()) => Ok(&mut self.value),
            Err(e) => Err(e),
        }
    }
}

/// The state of one task, kept from one run of its handler to the next.
#[derive(Debug)]
pub struct Local<T> {
    owner: usize,
    value: T,
}

impl<T> Local<T> {
    /// The source of the task that owns the cell.
    pub closed spec fn spec_owner(&self) -> usize {
        self.owner
    }

    /// The value that the cell holds.
    pub closed spec fn value(&self) -> T {
        self.value
    }

    /// A cell for the task bound to the source `owner`.
    pub fn new(owner: usize, value: T) -> (l: Local<T>)
        ensures
            l.owner() == owner,
            l.value() == value,
    {
        Local { owner, value }
    }

    /// The source of the task that owns the cell.
    #[verifier::when_used_as_spec(spec_owner)]
    pub fn owner(&self) -> (o: usize)
        ensures
            o == self.owner(),
    {
        self.owner
    }

    /// Grants the value for reading to the owner's handler, and to no other,
    /// for as long as the token is held at most.
    pub fn borrow<'a>(&'a self, task: &'a TaskToken) -> (r: Option<&'a T>)
        ensures
            r is Some <==> task@ == self.owner(),
            r is Some ==> *r->Some_0 == self.value(),
    {
        if task.source() == self.owner {
            Some(&self.value)
        } else {
            None
        }
    }

    /// Grants the value for reading and writing to the owner's handler, and to
    /// no other, for as long as the token is held at most. The borrow starts
    /// with the value that the last one ended with, and the cell keeps what
    /// this one ends with.
    pub fn borrow_mut<'a>(&'a mut self, task: &'a TaskToken) -> (r: Option<&'a mut T>)
        ensures
            r is Some <==> task@ == old(self).owner(),
            final(self).owner() == old(self).owner(),
            r is Some ==> *r->Some_0 == old(self).value(),
            r is Some ==> final(self).value() == *final(r->Some_0),
            r is None ==> final(self).value() == old(self).value(),
    {
        if task.source() == self.owner {
            Some(&mut self.value)
        } else {
            None
        }
    }
}

} // verus!
