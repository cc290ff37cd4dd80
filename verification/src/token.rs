//! Capability tokens: the priority and threshold of the running context, and
//! the proof that a given task's handler is running.
//!
//! A level is a small integer; a larger value is more urgent. Level zero is
//! the level of initialisation and of the idle context, tasks run above it.
//!
//! Tokens cannot be made outside this crate: the dispatcher hands them out,
//! and each borrows the dispatcher that gave it. While a token is held the
//! dispatcher cannot change, so a token never outlives the context that it
//! speaks of: not the end of initialisation, not a preemption, not a claim
//! or its release, not the return of the handler.

use vstd::prelude::*;
use core::marker::PhantomData;

verus! {

/// The level of the initialisation phase and of the idle context.
pub const IDLE_LEVEL: u8 = 0;

/// The highest level: the threshold under which initialisation runs.
pub const MAX_LEVEL: u8 = 255;

/// The priority at which the running context was entered.
#[derive(Clone, Copy, Debug)]
pub struct Priority<'d> {
    level: u8,
    context: PhantomData<&'d ()>,
}

/// The highest ceiling that the running context has claimed.
#[derive(Clone, Copy, Debug)]
pub struct Threshold<'d> {
    level: u8,
    context: PhantomData<&'d ()>,
}

/// Proof that the handler of one interrupt source is running.
#[derive(Debug)]
pub struct TaskToken<'d> {
    source: usize,
    context: PhantomData<&'d ()>,
}

impl<'d> Priority<'d> {
    /// The level that this token stands for.
    pub closed spec fn view(&self) -> u8 {
        self.level
    }

    /// The token of a context entered at `level`.
    pub(crate) fn new(level: u8) -> (p: Priority<'d>)
        ensures
            p@ == level,
    {
        Priority { level, context: PhantomData }
    }

    /// The level that this token stands for.
    pub fn level(&self) -> (l: u8)
        ensures
            l == self@,
    {
        self.level
    }
}

impl<'d> Threshold<'d> {
    /// The level that this token stands for.
    pub closed spec fn view(&self) -> u8 {
        self.level
    }

    /// The token of a context that holds the threshold at `level`.
    pub(crate) fn new(level: u8) -> (t: Threshold<'d>)
        ensures
            t@ == level,
    {
        Threshold { level, context: PhantomData }
    }

    /// The level that this token stands for.
    pub fn level(&self) -> (l: u8)
        ensures
            l == self@,
    {
        self.level
    }
}

impl<'d> TaskToken<'d> {
    /// The interrupt source whose handler holds this token.
    pub closed spec fn view(&self) -> usize {
        self.source
    }

    /// The token for one run of the handler of `source`.
    pub(crate) fn new(source: usize) -> (t: TaskToken<'d>)
        ensures
            t@ == source,
    {
        TaskToken { source, context: PhantomData }
    }

    /// The interrupt source whose handler holds this token.
    pub fn source(&self) -> (s: usize)
        ensures
            s == self@,
    {
        self.source
    }
}

} // verus!
