//! The dispatcher: which interrupt is served next, at which priority and
//! under which threshold, and what is restored when a handler returns.
//!
//! The running contexts form a stack of frames. The lowest frame is the base
//! context: initialisation, and after it idle. A task that preempts adds an
//! entry frame; a context that claims a ceiling adds a claim frame, and drops
//! it on release. The top frame gives the current priority and threshold.

use vstd::prelude::*;
use crate::cell::{AccessError, Resource};
use crate::registry::{table_wf, Registry, Task};
use crate::token::{Priority, TaskToken, Threshold, IDLE_LEVEL, MAX_LEVEL};

verus! {

/// One frame of the stack of running contexts.
#[derive(Clone, Copy, Debug)]
pub struct Frame {
    /// The source whose task runs in this context; none in the base context.
    pub source: Option<usize>,
    /// The priority at which the context was entered.
    pub priority: u8,
    /// The threshold in force while this frame is on top.
    pub threshold: u8,
    /// Whether the frame is a claim inside its context, not the entry to it.
    pub claim: bool,
}

/// Why the dispatcher refused a request.
#[derive(Clone, Copy, Debug, PartialEq, Eq, Structural)]
pub enum DispatchError {
    /// No handler is running.
    NoTask,
    /// The running context still holds a claim.
    ClaimHeld,
    /// The running context holds no claim.
    NoClaim,
    /// Initialisation is over.
    Started,
}

/// What the idle context does next.
#[derive(Clone, Copy, Debug, PartialEq, Eq, Structural)]
pub enum Idle {
    /// Nothing is ready: idle may do its own work, or wait for an interrupt.
    Wait,
    /// The task of this source is served first.
    Yield(usize),
    /// The running context is not the idle context.
    NotIdle,
}

/// The tokens that a handler runs with. They borrow the dispatcher: they are
/// given up before the dispatcher is asked for anything that changes it.
#[derive(Debug)]
pub struct Grant<'d> {
    pub task: TaskToken<'d>,
    pub priority: Priority<'d>,
    pub threshold: Threshold<'d>,
}

/// The higher of two levels.
pub open spec fn higher(a: u8, b: u8) -> u8 {
    if a >= b {
        a
    } else {
        b
    }
}

/// The base frame: before the start it is initialisation, under the highest
/// threshold; after it, idle, under the lowest.
pub open spec fn base_frame(started: bool) -> Frame {
    Frame {
        source: None,
        priority: IDLE_LEVEL,
        threshold: if started {
            IDLE_LEVEL
        } else {
            MAX_LEVEL
        },
        claim: false,
    }
}

/// The entry frame of the task `task`.
pub open spec fn entry_frame(task: Task) -> Frame {
    Frame {
        source: Some(task.source),
        priority: task.priority,
        threshold: task.priority,
        claim: false,
    }
}

/// The frame of a claim of `ceiling` on top of `below`.
pub open spec fn claim_frame(below: Frame, ceiling: u8) -> Frame {
    Frame { threshold: higher(below.threshold, ceiling), claim: true, ..below }
}

/// One step of the dispatcher.
pub enum Step {
    /// The interrupt of a source is signalled.
    Signal(int),
    /// A source is let through.
    Enable(int),
    /// A source is held back.
    Disable(int),
    /// Initialisation ends.
    Start,
    /// The task of a source preempts.
    Enter(int),
    /// The running handler returns.
    Leave,
    /// The running context claims a ceiling.
    Claim(u8),
    /// The running context gives up its last claim.
    Release,
}

/// The state of the dispatcher.
pub struct Model {
    /// The registry: the task of each source.
    pub tasks: Seq<Task>,
    /// Whether initialisation is over.
    pub started: bool,
    /// For each source, whether its interrupt is let through.
    pub unmasked: Seq<bool>,
    /// For each source, whether its interrupt was signalled and not yet served.
    pub pending: Seq<bool>,
    /// The running contexts, the current one last.
    pub frames: Seq<Frame>,
}

impl Model {
    /// The state before initialisation.
    pub open spec fn initial(tasks: Seq<Task>) -> Model {
        Model {
            tasks,
            started: false,
            unmasked: Seq::new(tasks.len(), |s: int| false),
            pending: Seq::new(tasks.len(), |s: int| false),
            frames: seq![base_frame(false)],
        }
    }

    /// The current frame.
    pub open spec fn top(self) -> Frame {
        self.frames.last()
    }

    /// The current priority.
    pub open spec fn priority(self) -> u8 {
        self.top().priority
    }

    /// The current threshold.
    pub open spec fn threshold(self) -> u8 {
        self.top().threshold
    }

    /// The source whose handler runs, if one does.
    pub open spec fn running(self) -> Option<usize> {
        self.top().source
    }

    /// The frame `i`, above the base, fits on the frame below it: a claim
    /// stays in its context and does not lower the threshold; an entry is
    /// that of a registered task whose priority is above the threshold below.
    pub open spec fn frame_wf(self, i: int) -> bool {
        let f = self.frames[i];
        let below = self.frames[i - 1];
        if f.claim {
            &&& f.source == below.source
            &&& f.priority == below.priority
            &&& f.threshold >= below.threshold
        } else {
            &&& f.source is Some
            &&& f.source->Some_0 < self.tasks.len()
            &&& f == entry_frame(self.tasks[f.source->Some_0 as int])
            &&& f.priority > below.threshold
        }
    }

    /// The state is one that the dispatcher can be in: nothing is let
    /// through before the start, the stack stands on the base frame, and
    /// each frame fits on the one below it.
    pub open spec fn wf(self) -> bool {
        &&& table_wf(self.tasks)
        &&& self.unmasked.len() == self.tasks.len()
        &&& self.pending.len() == self.tasks.len()
        &&& !self.started ==> forall|s: int| 0 <= s < self.unmasked.len() ==> !self.unmasked[s]
        &&& self.frames.len() >= 1
        &&& self.frames[0] == base_frame(self.started)
        &&& forall|i: int| 1 <= i < self.frames.len() ==> #[trigger] self.frame_wf(i)
    }

    /// The source `s` asks to be served: its interrupt is let through and
    /// pending.
    pub open spec fn ready(self, s: int) -> bool {
        &&& 0 <= s < self.tasks.len()
        &&& self.unmasked[s]
        &&& self.pending[s]
    }

    /// The source `s` is ready and not masked: its priority is above the
    /// current threshold.
    pub open spec fn eligible(self, s: int) -> bool {
        &&& self.ready(s)
        &&& self.tasks[s].priority > self.threshold()
    }

    /// The source `s` is the one to serve now: the most urgent of the
    /// eligible ones, and among equally urgent ones the lowest source.
    pub open spec fn chosen(self, s: int) -> bool {
        &&& self.eligible(s)
        &&& forall|t: int| #[trigger]
            self.eligible(t) ==> {
                ||| self.tasks[t].priority < self.tasks[s].priority
                ||| self.tasks[t].priority == self.tasks[s].priority && s <= t
            }
    }

    /// The device has the source `s`.
    pub open spec fn known(self, s: int) -> bool {
        0 <= s < self.tasks.len()
    }

    /// The interrupt of source `s` is signalled: it is pending from now on,
    /// let through or not. A source that the device does not have is ignored.
    pub open spec fn signal(self, s: int) -> Model {
        if self.known(s) {
            Model { pending: self.pending.update(s, true), ..self }
        } else {
            self
        }
    }

    /// Initialisation ends: the sources of the enabled tasks are let through,
    /// what was signalled so far is forgotten, and the base context becomes
    /// the idle context.
    pub open spec fn start(self) -> Model {
        Model {
            started: true,
            unmasked: Seq::new(self.tasks.len(), |s: int| self.tasks[s].enabled),
            pending: Seq::new(self.tasks.len(), |s: int| false),
            frames: seq![base_frame(true)],
            ..self
        }
    }

    /// The source `s` is let through from now on. What it signalled while it
    /// was held back is forgotten. Before the start, and for a source that is
    /// let through already, nothing changes.
    pub open spec fn enable(self, s: int) -> Model {
        if self.known(s) && self.started && !self.unmasked[s] {
            Model {
                unmasked: self.unmasked.update(s, true),
                pending: self.pending.update(s, false),
                ..self
            }
        } else {
            self
        }
    }

    /// The source `s` is held back from now on. A handler of its task that
    /// runs already goes on.
    pub open spec fn disable(self, s: int) -> Model {
        if self.known(s) {
            Model { unmasked: self.unmasked.update(s, false), ..self }
        } else {
            self
        }
    }

    /// The task of source `s` preempts: its interrupt is no longer pending,
    /// and its context is entered at its priority.
    pub open spec fn enter(self, s: int) -> Model {
        Model {
            pending: self.pending.update(s, false),
            frames: self.frames.push(entry_frame(self.tasks[s])),
            ..self
        }
    }

    /// The running handler returns: its context is gone, and priority and
    /// threshold are those of the context below.
    pub open spec fn leave(self) -> Model {
        Model { frames: self.frames.drop_last(), ..self }
    }

    /// The running context claims `ceiling`: the threshold rises to it,
    /// unless it is there already.
    pub open spec fn claim(self, ceiling: u8) -> Model {
        Model { frames: self.frames.push(claim_frame(self.top(), ceiling)), ..self }
    }

    /// The running context gives up its last claim: the threshold is what it
    /// was before that claim.
    pub open spec fn release(self) -> Model {
        Model { frames: self.frames.drop_last(), ..self }
    }

    /// Whether `step` can be taken in this state: the start ends an
    /// initialisation that holds no claim, a task is entered when its source
    /// is the chosen one, a handler returns when it holds no claim, and a
    /// release gives up a claim. The other steps can always be taken.
    pub open spec fn admits(self, step: Step) -> bool {
        match step {
            Step::Start => !self.started && self.frames.len() == 1,
            Step::Enter(s) => self.chosen(s),
            Step::Leave => self.running() is Some && !self.top().claim,
            Step::Release => self.top().claim,
            _ => true,
        }
    }

    /// The state after `step`.
    pub open spec fn step(self, step: Step) -> Model {
        match step {
            Step::Signal(s) => self.signal(s),
            Step::Enable(s) => self.enable(s),
            Step::Disable(s) => self.disable(s),
            Step::Start => self.start(),
            Step::Enter(s) => self.enter(s),
            Step::Leave => self.leave(),
            Step::Claim(ceiling) => self.claim(ceiling),
            Step::Release => self.release(),
        }
    }

    /// The most urgent eligible source below `k`, lowest source first among
    /// equally urgent ones.
    pub open spec fn leader(self, k: nat) -> Option<int>
        decreases k,
    {
        if k == 0 {
            None
        } else {
            let s = k - 1;
            match self.leader((k - 1) as nat) {
                None => if self.eligible(s) {
                    Some(s)
                } else {
                    None
                },
                Some(b) => if self.eligible(s) && self.tasks[s].priority > self.tasks[b].priority {
                    Some(s)
                } else {
                    Some(b)
                },
            }
        }
    }
}

/// The dispatcher.
#[derive(Debug)]
pub struct Dispatcher {
    registry: Registry,
    started: bool,
    unmasked: Vec<bool>,
    pending: Vec<bool>,
    frames: Vec<Frame>,
}

impl Dispatcher {
    /// The state of the dispatcher.
    pub closed spec fn view(&self) -> Model {
        Model {
            tasks: self.registry@,
            started: self.started,
            unmasked: self.unmasked@,
            pending: self.pending@,
            frames: self.frames@,
        }
    }

    /// The dispatcher is in a state that it can be in.
    pub open spec fn wf(&self) -> bool {
        self@.wf()
    }

    /// The dispatcher of a registry, before initialisation: nothing is
    /// pending, and the base context runs at the lowest priority under the
    /// highest threshold.
    pub fn new(registry: Registry) -> (d: Dispatcher)
        requires
            registry.wf(),
        ensures
            d.wf(),
            d@ == Model::initial(registry@),
    {
        let n = registry.len();
        let mut unmasked: Vec<bool> = Vec::new();
        let mut pending: Vec<bool> = Vec::new();
        let mut s: usize = 0;
        while s < n
            invariant
                s <= n,
                unmasked@ =~= Seq::new(s as nat, |i: int| false),
                pending@ =~= Seq::new(s as nat, |i: int| false),
            decreases n - s,
        {
            unmasked.push(false);
            pending.push(false);
            s = s + 1;
        }
        let mut frames: Vec<Frame> = Vec::new();
        frames.push(
            Frame { source: None, priority: IDLE_LEVEL, threshold: MAX_LEVEL, claim: false },
        );
        assert(frames@ =~= seq![base_frame(false)]);
        Dispatcher { registry, started: false, unmasked, pending, frames }
    }

    fn top(&self) -> (f: Frame)
        requires
            self.wf(),
        ensures
            f == self@.top(),
    {
        self.frames[self.frames.len() - 1]
    }

    /// The priority of the running context, as a token. The token holds the
    /// dispatcher as it is: nothing changes the context while it is held.
    pub fn priority<'d>(&'d self) -> (p: Priority<'d>)
        requires
            self.wf(),
        ensures
            p@ == self@.priority(),
    {
        Priority::new(self.top().priority)
    }

    /// The threshold of the running context, as a token. The token holds the
    /// dispatcher as it is: nothing changes the context while it is held.
    pub fn threshold<'d>(&'d self) -> (t: Threshold<'d>)
        requires
            self.wf(),
        ensures
            t@ == self@.threshold(),
    {
        Threshold::new(self.top().threshold)
    }

    /// The tokens for the handler that runs, if one does: the proof that it
    /// is the handler of its source, and the priority and threshold of its
    /// context as they are now.
    pub fn grant<'d>(&'d self) -> (r: Option<Grant<'d>>)
        requires
            self.wf(),
        ensures
            r is Some <==> self@.running() is Some,
            r is Some ==> {
                &&& Some(r->Some_0.task@) == self@.running()
                &&& r->Some_0.priority@ == self@.priority()
                &&& r->Some_0.threshold@ == self@.threshold()
            },
    {
        let top = self.top();
        match top.source {
            Some(source) => Some(
                Grant {
                    task: TaskToken::new(source),
                    priority: Priority::new(top.priority),
                    threshold: Threshold::new(top.threshold),
                },
            ),
            None => None,
        }
    }

    /// The source whose handler runs, if one does.
    pub fn running(&self) -> (r: Option<usize>)
        requires
            self.wf(),
        ensures
            r == self@.running(),
    {
        self.top().source
    }

    /// Whether initialisation is over.
    pub fn is_started(&self) -> (b: bool)
        ensures
            b == self@.started,
    {
        self.started
    }

    /// Whether the interrupt of `source` was signalled and not yet served.
    pub fn is_pending(&self, source: usize) -> (b: bool)
        requires
            self.wf(),
        ensures
            b <==> source < self@.tasks.len() && self@.pending[source as int],
    {
        source < self.pending.len() && self.pending[source]
    }

    /// The number of frames above the base: contexts entered and claims held.
    pub fn depth(&self) -> (n: usize)
        requires
            self.wf(),
        ensures
            n == self@.frames.len() - 1,
    {
        self.frames.len() - 1
    }

    /// Whether the interrupt of `source` is let through.
    pub fn is_enabled(&self, source: usize) -> (b: bool)
        requires
            self.wf(),
        ensures
            b <==> source < self@.tasks.len() && self@.unmasked[source as int],
    {
        source < self.unmasked.len() && self.unmasked[source]
    }

    /// Lets the interrupt of `source` through from now on, and forgets what
    /// it signalled while it was held back. Returns whether the device has
    /// that source and initialisation is over; if not, nothing changes.
    pub fn enable(&mut self, source: usize) -> (done: bool)
        requires
            old(self).wf(),
        ensures
            final(self).wf(),
            done == (old(self)@.known(source as int) && old(self)@.started),
            final(self)@ == old(self)@.enable(source as int),
    {
        if source < self.unmasked.len() && self.started {
            if !self.unmasked[source] {
                self.unmasked[source] = true;
                self.pending[source] = false;
                proof {
                    lemma_same_stack(old(self)@, self@);
                }
            }
            true
        } else {
            false
        }
    }

    /// Holds the interrupt of `source` back from now on. A handler that runs
    /// already is not cut short. Returns whether the device has that source.
    pub fn disable(&mut self, source: usize) -> (done: bool)
        requires
            old(self).wf(),
        ensures
            final(self).wf(),
            done == old(self)@.known(source as int),
            final(self)@ == old(self)@.disable(source as int),
    {
        if source < self.unmasked.len() {
            self.unmasked[source] = false;
            proof {
                lemma_same_stack(old(self)@, self@);
            }
            true
        } else {
            false
        }
    }

    /// Records that the interrupt of `source` was signalled. Nothing runs
    /// yet. Returns whether the device has that source; if not, the signal is
    /// ignored.
    pub fn signal(&mut self, source: usize) -> (known: bool)
        requires
            old(self).wf(),
        ensures
            final(self).wf(),
            known == old(self)@.known(source as int),
            final(self)@ == old(self)@.signal(source as int),
    {
        if source < self.pending.len() {
            self.pending[source] = true;
            proof {
                lemma_same_stack(old(self)@, self@);
            }
            true
        } else {
            false
        }
    }

    /// Ends initialisation: every signal seen so far is dropped, the sources
    /// of the enabled tasks are let through from now on, and the base context
    /// goes on as the idle context, under the lowest threshold.
    pub fn start(&mut self) -> (r: Result<(), DispatchError>)
        requires
            old(self).wf(),
        ensures
            final(self).wf(),
            old(self)@.started ==> r == Err::<(), DispatchError>(DispatchError::Started)
                && final(self)@ == old(self)@,
            !old(self)@.started && old(self)@.frames.len() > 1 ==> r == Err::<(), DispatchError>(
                DispatchError::ClaimHeld,
            ) && final(self)@ == old(self)@,
            !old(self)@.started && old(self)@.frames.len() == 1 ==> r is Ok && final(self)@
                == old(self)@.start(),
    {
        if self.started {
            return Err(DispatchError::Started);
        }
        if self.frames.len() > 1 {
            return Err(DispatchError::ClaimHeld);
        }
        let n = self.pending.len();
        let mut s: usize = 0;
        while s < n
            invariant
                s <= n,
                n == self.pending@.len(),
                n == self.unmasked@.len(),
                n == self.registry@.len(),
                forall|i: int| 0 <= i < s ==> !self.pending@[i],
                forall|i: int| 0 <= i < s ==> self.unmasked@[i] == self.registry@[i].enabled,
                self.registry == old(self).registry,
                self.started == old(self).started,
                self.frames == old(self).frames,
            decreases n - s,
        {
            self.pending[s] = false;
            self.unmasked[s] = self.registry.get(s).enabled;
            s = s + 1;
        }
        self.started = true;
        let mut frames: Vec<Frame> = Vec::new();
        frames.push(
            Frame { source: None, priority: IDLE_LEVEL, threshold: IDLE_LEVEL, claim: false },
        );
        self.frames = frames;
        proof {
            assert(self@.unmasked =~= old(self)@.start().unmasked);
            assert(self@.pending =~= old(self)@.start().pending);
            assert(self@.frames =~= old(self)@.start().frames);
        }
        Ok(())
    }

    /// The source to serve now, if any: the most urgent of those that are
    /// let through, pending and above the current threshold, and the lowest
    /// source among equally urgent ones.
    pub fn select(&self) -> (r: Option<usize>)
        requires
            self.wf(),
        ensures
            match r {
                Some(s) => self@.chosen(s as int),
                None => forall|s: int| !self@.eligible(s),
            },
    {
        let threshold = self.top().threshold;
        let n = self.registry.len();
        let mut best: Option<usize> = None;
        let mut level: u8 = threshold;
        let mut s: usize = 0;
        while s < n
            invariant
                self.wf(),
                n == self@.tasks.len(),
                threshold == self@.threshold(),
                s <= n,
                best is None ==> level == threshold && forall|t: int|
                    0 <= t < s ==> !#[trigger] self@.eligible(t),
                best is Some ==> {
                    &&& best->Some_0 < s
                    &&& self@.eligible(best->Some_0 as int)
                    &&& level == self@.tasks[best->Some_0 as int].priority
                    &&& forall|t: int|
                        0 <= t < s && #[trigger] self@.eligible(t) ==> {
                            ||| self@.tasks[t].priority < level
                            ||| self@.tasks[t].priority == level && best->Some_0 <= t
                        }
                },
            decreases n - s,
        {
            let task = self.registry.get(s);
            if self.unmasked[s] && self.pending[s] && task.priority > level {
                best = Some(s);
                level = task.priority;
            }
            s = s + 1;
        }
        best
    }

    /// Serves the most urgent eligible interrupt, if there is one: its
    /// context is entered at its task's priority, which masks every source of
    /// that priority or below, and its source is returned. The caller takes
    /// the tokens with `grant`, runs the handler, once, and then calls
    /// `complete`.
    pub fn dispatch(&mut self) -> (r: Option<usize>)
        requires
            old(self).wf(),
        ensures
            final(self).wf(),
            match r {
                Some(s) => {
                    &&& old(self)@.chosen(s as int)
                    &&& final(self)@ == old(self)@.enter(s as int)
                    &&& final(self)@.running() == Some(s)
                    &&& final(self)@.priority() == old(self)@.tasks[s as int].priority
                    &&& final(self)@.threshold() == old(self)@.tasks[s as int].priority
                },
                None => {
                    &&& forall|s: int| !old(self)@.eligible(s)
                    &&& final(self)@ == old(self)@
                },
            },
    {
        match self.select() {
            None => None,
            Some(s) => {
                let task = self.registry.get(s);
                self.pending[s] = false;
                self.frames.push(
                    Frame {
                        source: Some(s),
                        priority: task.priority,
                        threshold: task.priority,
                        claim: false,
                    },
                );
                proof {
                    assert(self@ =~= old(self)@.enter(s as int));
                    lemma_enter_wf(old(self)@, s as int);
                }
                Some(s)
            },
        }
    }

    /// The running handler has returned: its context is dropped, and the
    /// context below goes on under the threshold that it had.
    pub fn complete(&mut self) -> (r: Result<(), DispatchError>)
        requires
            old(self).wf(),
        ensures
            final(self).wf(),
            old(self)@.running() is None ==> r == Err::<(), DispatchError>(DispatchError::NoTask)
                && final(self)@ == old(self)@,
            old(self)@.running() is Some && old(self)@.top().claim ==> r == Err::<
                (),
                DispatchError,
            >(DispatchError::ClaimHeld) && final(self)@ == old(self)@,
            old(self)@.running() is Some && !old(self)@.top().claim ==> r is Ok && final(self)@
                == old(self)@.leave(),
    {
        let top = self.top();
        match top.source {
            None => Err(DispatchError::NoTask),
            Some(_) => {
                if top.claim {
                    Err(DispatchError::ClaimHeld)
                } else {
                    self.frames.pop();
                    proof {
                        assert(self@ =~= old(self)@.leave());
                        lemma_drop_wf(old(self)@);
                    }
                    Ok(())
                }
            },
        }
    }

    /// Raises the threshold of the running context to `ceiling`, unless it is
    /// there already, until the matching `release`. Returns the level of the
    /// threshold now in force; its token is had from `threshold`.
    pub fn claim(&mut self, ceiling: u8) -> (level: u8)
        requires
            old(self).wf(),
        ensures
            final(self).wf(),
            final(self)@ == old(self)@.claim(ceiling),
            level == final(self)@.threshold(),
    {
        let top = self.top();
        let threshold = if top.threshold >= ceiling {
            top.threshold
        } else {
            ceiling
        };
        self.frames.push(
            Frame { source: top.source, priority: top.priority, threshold, claim: true },
        );
        proof {
            assert(self@ =~= old(self)@.claim(ceiling));
            lemma_claim_wf(old(self)@, ceiling);
        }
        threshold
    }

    /// Claims the ceiling of `cell` for the running context and grants the
    /// cell: until the matching `release` no task that shares the cell can
    /// preempt, while more urgent ones still can. A context whose priority is
    /// above the ceiling is refused, and claims nothing. The value is held
    /// together with the dispatcher: it is given up before the release.
    pub fn lock<'a, T>(&'a mut self, cell: &'a mut Resource<T>) -> (r: Result<
        &'a mut T,
        AccessError,
    >)
        requires
            old(self).wf(),
        ensures
            final(self).wf(),
            final(cell).ceiling() == old(cell).ceiling(),
            r is Ok <==> old(self)@.priority() <= old(cell).ceiling(),
            r is Ok ==> final(self)@ == old(self)@.claim(old(cell).ceiling()),
            r is Ok ==> *r->Ok_0 == old(cell).value(),
            r is Ok ==> final(cell).value() == *final(r->Ok_0),
            r is Err ==> r->Err_0 == AccessError::PriorityAboveCeiling,
            r is Err ==> final(self)@ == old(self)@ && final(cell).value() == old(cell).value(),
    {
        let ceiling = cell.ceiling();
        if self.top().priority > ceiling {
            return Err(AccessError::PriorityAboveCeiling);
        }
        let threshold = self.claim(ceiling);
        assert(cell.admits(self@.priority(), threshold));
        Ok(cell.value_mut())
    }

    /// Gives up the last claim of the running context. Returns the level of
    /// the threshold now in force: the one from before that claim.
    pub fn release(&mut self) -> (r: Result<u8, DispatchError>)
        requires
            old(self).wf(),
        ensures
            final(self).wf(),
            !old(self)@.top().claim ==> r is Err && r->Err_0 == DispatchError::NoClaim
                && final(self)@ == old(self)@,
            old(self)@.top().claim ==> r is Ok && final(self)@ == old(self)@.release()
                && r->Ok_0 == final(self)@.threshold(),
    {
        if self.top().claim {
            self.frames.pop();
            proof {
                assert(self@ =~= old(self)@.release());
                lemma_drop_wf(old(self)@);
            }
            Ok(self.top().threshold)
        } else {
            Err(DispatchError::NoClaim)
        }
    }

    /// One round of the idle loop. Idle may work or wait only when no
    /// enabled interrupt is pending and unmasked; otherwise it yields to the
    /// source that is served first.
    pub fn idle(&self) -> (r: Idle)
        requires
            self.wf(),
        ensures
            match r {
                Idle::NotIdle => !self@.started || self@.running() is Some,
                Idle::Yield(s) => self@.started && self@.running() is None && self@.chosen(
                    s as int,
                ),
                Idle::Wait => self@.started && self@.running() is None && forall|s: int|
                    !self@.eligible(s),
            },
    {
        if !self.started {
            return Idle::NotIdle;
        }
        match self.top().source {
            Some(_) => Idle::NotIdle,
            None => match self.select() {
                Some(s) => Idle::Yield(s),
                None => Idle::Wait,
            },
        }
    }
}

/// A state with the registry and the stack of a well-formed one has a
/// well-formed stack.
pub proof fn lemma_same_stack(m: Model, n: Model)
    requires
        m.wf(),
        n.tasks == m.tasks,
        n.frames == m.frames,
    ensures
        forall|i: int| 1 <= i < n.frames.len() ==> #[trigger] n.frame_wf(i),
{
    assert forall|i: int| 1 <= i < n.frames.len() implies #[trigger] n.frame_wf(i) by {
        assert(m.frame_wf(i));
    }
}

/// Entering the context of an eligible source keeps the state well formed.
pub proof fn lemma_enter_wf(m: Model, s: int)
    requires
        m.wf(),
        m.eligible(s),
    ensures
        m.enter(s).wf(),
{
    let n = m.enter(s);
    assert forall|i: int| 1 <= i < n.frames.len() implies #[trigger] n.frame_wf(i) by {
        if i < m.frames.len() {
            assert(m.frame_wf(i));
        }
    }
}

/// A claim keeps the state well formed.
pub proof fn lemma_claim_wf(m: Model, ceiling: u8)
    requires
        m.wf(),
    ensures
        m.claim(ceiling).wf(),
{
    let n = m.claim(ceiling);
    assert forall|i: int| 1 <= i < n.frames.len() implies #[trigger] n.frame_wf(i) by {
        if i < m.frames.len() {
            assert(m.frame_wf(i));
        }
    }
}

/// Dropping the top frame, when it is not the base, keeps the state well
/// formed.
pub proof fn lemma_drop_wf(m: Model)
    requires
        m.wf(),
        m.frames.len() > 1,
    ensures
        m.leave().wf(),
        m.release().wf(),
{
    let n = m.leave();
    assert forall|i: int| 1 <= i < n.frames.len() implies #[trigger] n.frame_wf(i) by {
        assert(m.frame_wf(i));
    }
}

/// The leader below `k` is eligible and no eligible source below `k` comes
/// before it; there is none only where no source below `k` is eligible.
pub proof fn lemma_leader(m: Model, k: nat)
    ensures
        match m.leader(k) {
            None => forall|t: int| 0 <= t < k ==> !#[trigger] m.eligible(t),
            Some(b) => {
                &&& 0 <= b < k
                &&& m.eligible(b)
                &&& forall|t: int|
                    0 <= t < k && #[trigger] m.eligible(t) ==> {
                        ||| m.tasks[t].priority < m.tasks[b].priority
                        ||| m.tasks[t].priority == m.tasks[b].priority && b <= t
                    }
            },
        },
    decreases k,
{
    if k > 0 {
        lemma_leader(m, (k - 1) as nat);
    }
}

/// Along the stack levels only rise: a frame's priority is at most its
/// threshold, and neither is below that of a frame under it.
pub proof fn lemma_levels_rise(m: Model, i: int, j: int)
    requires
        m.wf(),
        0 <= i <= j < m.frames.len(),
    ensures
        m.frames[j].priority <= m.frames[j].threshold,
        m.frames[i].priority <= m.frames[j].priority,
        m.frames[i].threshold <= m.frames[j].threshold,
    decreases j,
{
    if j > 0 {
        assert(m.frame_wf(j));
        if i < j {
            lemma_levels_rise(m, i, j - 1);
        } else {
            lemma_levels_rise(m, j - 1, j - 1);
        }
    }
}

/// A context that was entered above a frame runs above that frame's
/// threshold, whatever it claims: for frames `i` below `j` at or below `k`,
/// where `j` is the entry to a context, the priority of `k` is above the
/// threshold of `i`.
pub proof fn lemma_entered_above(m: Model, i: int, j: int, k: int)
    requires
        m.wf(),
        0 <= i < j <= k < m.frames.len(),
        !m.frames[j].claim,
    ensures
        m.frames[k].priority > m.frames[i].threshold,
{
    assert(m.frame_wf(j));
    lemma_levels_rise(m, i, j - 1);
    lemma_levels_rise(m, j, k);
}

} // verus!
