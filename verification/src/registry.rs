//! The task registry: the fixed table that binds each interrupt source to one
//! task.

use vstd::prelude::*;

verus! {

/// A task: the interrupt source it is bound to, its priority, and whether its
/// source is enabled when initialisation ends. The handler is the caller's:
/// the dispatcher names the source, and the caller runs what belongs to it.
#[derive(Clone, Copy, Debug, PartialEq, Eq, Structural)]
pub struct Task {
    pub source: usize,
    pub priority: u8,
    pub enabled: bool,
}

/// Why a list of tasks is no registry.
#[derive(Clone, Copy, Debug, PartialEq, Eq, Structural)]
pub enum RegistryError {
    /// A task names a source that the device does not have.
    OutOfRange,
    /// A task has the priority of the idle context.
    ReservedPriority,
    /// Two tasks are bound to one source.
    Collision,
    /// A source has no task.
    Unbound,
}

/// Every task names a source below `sources`.
pub open spec fn in_range(sources: nat, tasks: Seq<Task>) -> bool {
    forall|k: int| 0 <= k < tasks.len() ==> (#[trigger] tasks[k]).source < sources
}

/// Every task runs above the idle context.
pub open spec fn above_idle(tasks: Seq<Task>) -> bool {
    forall|k: int| 0 <= k < tasks.len() ==> (#[trigger] tasks[k]).priority > 0
}

/// No two tasks name the same source.
pub open spec fn collision_free(tasks: Seq<Task>) -> bool {
    forall|j: int, k: int|
        0 <= j < k < tasks.len() ==> (#[trigger] tasks[j]).source != (#[trigger] tasks[k]).source
}

/// Whether some task names the source `s`.
pub open spec fn bound(tasks: Seq<Task>, s: int) -> bool {
    exists|k: int| 0 <= k < tasks.len() && (#[trigger] tasks[k]).source == s
}

/// Every source below `sources` has a task.
pub open spec fn exhaustive(sources: nat, tasks: Seq<Task>) -> bool {
    forall|s: int| 0 <= s < sources ==> #[trigger] bound(tasks, s)
}

/// What is wrong with a list of tasks for a device of `sources` sources, if
/// anything: the first of the four defects that it has, in this order.
pub open spec fn defect(sources: nat, tasks: Seq<Task>) -> Option<RegistryError> {
    if !in_range(sources, tasks) {
        Some(RegistryError::OutOfRange)
    } else if !above_idle(tasks) {
        Some(RegistryError::ReservedPriority)
    } else if !collision_free(tasks) {
        Some(RegistryError::Collision)
    } else if !exhaustive(sources, tasks) {
        Some(RegistryError::Unbound)
    } else {
        None
    }
}

/// A table of tasks by source: the task at index `s` is bound to source `s`
/// and runs above the idle context.
pub open spec fn table_wf(table: Seq<Task>) -> bool {
    forall|s: int|
        0 <= s < table.len() ==> (#[trigger] table[s]).source == s && table[s].priority > 0
}

/// The registry: one task for each source, by source.
#[derive(Debug)]
pub struct Registry {
    tasks: Vec<Task>,
}

impl Registry {
    /// The tasks, by source.
    pub closed spec fn view(&self) -> Seq<Task> {
        self.tasks@
    }

    /// The table is a table by source.
    pub open spec fn wf(&self) -> bool {
        table_wf(self@)
    }

    /// Makes the registry of a device with `sources` interrupt sources from a
    /// list of tasks in any order. The list must bind each source exactly
    /// once, and no task at the priority of the idle context.
    pub fn build(sources: usize, tasks: &Vec<Task>) -> (r: Result<Registry, RegistryError>)
        ensures
            match defect(sources as nat, tasks@) {
                Some(e) => r is Err && r->Err_0 == e,
                None => {
                    &&& r is Ok
                    &&& r->Ok_0.wf()
                    &&& r->Ok_0@.len() == sources
                    &&& forall|k: int|
                        0 <= k < tasks@.len() ==> r->Ok_0@[(#[trigger] tasks@[k]).source as int]
                            == tasks@[k]
                },
            },
    {
        let n = tasks.len();
        let mut k: usize = 0;
        while k < n
            invariant
                n == tasks@.len(),
                k <= n,
                in_range(sources as nat, tasks@.take(k as int)),
            decreases n - k,
        {
            if tasks[k].source >= sources {
                return Err(RegistryError::OutOfRange);
            }
            assert forall|j: int| 0 <= j < k + 1 implies (#[trigger] tasks@.take(k + 1)[j]).source
                < sources by {
                if j < k {
                    assert(tasks@.take(k as int)[j] == tasks@[j]);
                }
            }
            k = k + 1;
        }
        assert(tasks@.take(n as int) =~= tasks@);

        k = 0;
        while k < n
            invariant
                n == tasks@.len(),
                k <= n,
                in_range(sources as nat, tasks@),
                above_idle(tasks@.take(k as int)),
            decreases n - k,
        {
            if tasks[k].priority == 0 {
                return Err(RegistryError::ReservedPriority);
            }
            assert forall|j: int| 0 <= j < k + 1 implies (#[trigger] tasks@.take(k + 1)[j]).priority
                > 0 by {
                if j < k {
                    assert(tasks@.take(k as int)[j] == tasks@[j]);
                }
            }
            k = k + 1;
        }
        assert(tasks@.take(n as int) =~= tasks@);

        let mut slots: Vec<Option<Task>> = Vec::new();
        let mut s: usize = 0;
        while s < sources
            invariant
                s <= sources,
                slots@.len() == s,
                forall|i: int| 0 <= i < s ==> slots@[i] is None,
            decreases sources - s,
        {
            slots.push(None);
            s = s + 1;
        }

        k = 0;
        while k < n
            invariant
                n == tasks@.len(),
                k <= n,
                in_range(sources as nat, tasks@),
                above_idle(tasks@),
                slots@.len() == sources,
                collision_free(tasks@.take(k as int)),
                forall|i: int|
                    0 <= i < sources && slots@[i] is None ==> !bound(tasks@.take(k as int), i),
                forall|i: int|
                    0 <= i < sources && slots@[i] is Some ==> {
                        &&& (#[trigger] slots@[i])->Some_0.source == i
                        &&& exists|j: int| 0 <= j < k && tasks@[j] == slots@[i]->Some_0
                    },
            decreases n - k,
        {
            let task = tasks[k];
            let ghost before = tasks@.take(k as int);
            let ghost after = tasks@.take(k + 1);
            assert(after[k as int] == task);
            assert(forall|j: int| 0 <= j < k ==> after[j] == before[j]);
            match slots[task.source] {
                Some(other) => {
                    proof {
                        let j = choose|j: int| 0 <= j < k && tasks@[j] == other;
                        assert(tasks@[j].source == tasks@[k as int].source);
                    }
                    return Err(RegistryError::Collision);
                },
                None => {
                    assert forall|j: int, l: int| 0 <= j < l < after.len() implies (
                    #[trigger] after[j]).source != (#[trigger] after[l]).source by {
                        if l == k {
                            if before[j].source == task.source {
                                assert(bound(before, task.source as int));
                            }
                        }
                    }
                    slots[task.source] = Some(task);
                    assert forall|i: int| 0 <= i < sources && slots@[i] is None implies !bound(
                        after,
                        i,
                    ) by {
                        if bound(after, i) {
                            let j = choose|j: int|
                                0 <= j < after.len() && (#[trigger] after[j]).source == i;
                            if j < k {
                                assert(before[j].source == i);
                                assert(bound(before, i));
                            }
                        }
                    }
                },
            }
            k = k + 1;
        }
        assert(tasks@.take(n as int) =~= tasks@);

        let mut table: Vec<Task> = Vec::new();
        s = 0;
        while s < sources
            invariant
                s <= sources,
                n == tasks@.len(),
                slots@.len() == sources,
                table@.len() == s,
                in_range(sources as nat, tasks@),
                above_idle(tasks@),
                collision_free(tasks@),
                forall|i: int| 0 <= i < s ==> bound(tasks@, i),
                forall|i: int| 0 <= i < s ==> slots@[i] == Some(#[trigger] table@[i]),
                forall|i: int| 0 <= i < sources && slots@[i] is None ==> !bound(tasks@, i),
                forall|i: int|
                    0 <= i < sources && slots@[i] is Some ==> {
                        &&& (#[trigger] slots@[i])->Some_0.source == i
                        &&& exists|j: int| 0 <= j < n && tasks@[j] == slots@[i]->Some_0
                    },
            decreases sources - s,
        {
            match slots[s] {
                None => {
                    assert(!bound(tasks@, s as int));
                    return Err(RegistryError::Unbound);
                },
                Some(task) => {
                    proof {
                        let j = choose|j: int| 0 <= j < n && tasks@[j] == task;
                        assert(tasks@[j].source == s);
                        assert(bound(tasks@, s as int));
                    }
                    table.push(task);
                },
            }
            s = s + 1;
        }

        proof {
            assert forall|i: int| 0 <= i < table@.len() implies (#[trigger] table@[i]).source == i
                && table@[i].priority > 0 by {
                assert(slots@[i] == Some(table@[i]));
                let j = choose|j: int| 0 <= j < n && tasks@[j] == slots@[i]->Some_0;
                assert(tasks@[j].priority > 0);
            }
            assert forall|k: int| 0 <= k < tasks@.len() implies table@[(
            #[trigger] tasks@[k]).source as int] == tasks@[k] by {
                let i = tasks@[k].source as int;
                assert(slots@[i] == Some(table@[i]));
                let j = choose|j: int| 0 <= j < n && tasks@[j] == slots@[i]->Some_0;
                assert(tasks@[j].source == i);
                if j < k {
                    assert(tasks@[j].source != tasks@[k].source);
                } else if k < j {
                    assert(tasks@[k].source != tasks@[j].source);
                }
            }
        }
        Ok(Registry { tasks: table })
    }

    /// The number of interrupt sources.
    pub fn len(&self) -> (n: usize)
        ensures
            n == self@.len(),
    {
        self.tasks.len()
    }

    /// The task bound to `source`.
    pub(crate) fn get(&self, source: usize) -> (t: Task)
        requires
            source < self@.len(),
        ensures
            t == self@[source as int],
    {
        self.tasks[source]
    }

    /// The task bound to `source`, if the device has that source.
    pub fn task(&self, source: usize) -> (t: Option<Task>)
        ensures
            t == (if source < self@.len() {
                Some(self@[source as int])
            } else {
                None
            }),
    {
        if source < self.tasks.len() {
            Some(self.tasks[source])
        } else {
            None
        }
    }
}

} // verus!
