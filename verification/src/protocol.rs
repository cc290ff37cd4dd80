//! What the protocol guarantees, in every state that the dispatcher can be
//! in: who may preempt whom, that no task runs twice at once, and that no two
//! contexts are ever inside the same resource cell.

use vstd::prelude::*;
use crate::cell::{access_verdict, AccessError};
use crate::dispatch::{
    lemma_claim_wf, lemma_drop_wf, lemma_enter_wf, lemma_entered_above, lemma_leader,
    lemma_levels_rise, lemma_same_stack, Model, Step,
};
use crate::registry::{table_wf, Task};
use crate::token::{IDLE_LEVEL, MAX_LEVEL};

verus! {

/// Before initialisation the dispatcher of a registry is in order.
pub proof fn law_initial_state_is_well_formed(tasks: Seq<Task>)
    requires
        table_wf(tasks),
    ensures
        Model::initial(tasks).wf(),
{
}

/// Every step that can be taken leaves the dispatcher in order: whatever
/// holds of all well-formed states holds at every moment of a run.
pub proof fn law_every_step_keeps_order(m: Model, step: Step)
    requires
        m.wf(),
        m.admits(step),
    ensures
        m.step(step).wf(),
{
    match step {
        Step::Signal(s) => lemma_same_stack(m, m.signal(s)),
        Step::Enable(s) => lemma_same_stack(m, m.enable(s)),
        Step::Disable(s) => lemma_same_stack(m, m.disable(s)),
        Step::Start => {},
        Step::Enter(s) => lemma_enter_wf(m, s),
        Step::Leave => lemma_drop_wf(m),
        Step::Claim(ceiling) => lemma_claim_wf(m, ceiling),
        Step::Release => lemma_drop_wf(m),
    }
}

/// The tokens of the running context are in order: its priority is at most
/// its threshold.
pub proof fn law_priority_within_threshold(m: Model)
    requires
        m.wf(),
    ensures
        m.priority() <= m.threshold(),
{
    lemma_levels_rise(m, m.frames.len() - 1, m.frames.len() - 1);
}

/// Which source is served is settled by the state alone: at most one source
/// is the chosen one.
pub proof fn law_choice_is_unique(m: Model, s: int, t: int)
    requires
        m.chosen(s),
        m.chosen(t),
    ensures
        s == t,
{
    assert(m.eligible(s));
    assert(m.eligible(t));
}

/// Preemption goes by the threshold alone. A ready task whose priority is at
/// most the current threshold is not served, whoever raised the threshold. A
/// ready task whose priority is above it is served at once, unless one that
/// is at least as urgent is served in its place.
pub proof fn law_preemption_by_threshold(m: Model, a: int)
    requires
        m.wf(),
        m.ready(a),
    ensures
        m.tasks[a].priority <= m.threshold() ==> !m.chosen(a),
        m.tasks[a].priority > m.threshold() ==> exists|s: int| #[trigger]
            m.chosen(s) && m.tasks[s].priority >= m.tasks[a].priority,
{
    if m.tasks[a].priority > m.threshold() {
        assert(m.eligible(a));
        lemma_leader(m, m.tasks.len());
        let b = m.leader(m.tasks.len())->Some_0;
        assert(m.chosen(b));
    }
}

/// Some source is served exactly when some source is eligible.
pub proof fn law_served_when_eligible(m: Model)
    requires
        m.wf(),
    ensures
        (exists|s: int| m.chosen(s)) <==> (exists|a: int| m.eligible(a)),
{
    if exists|a: int| m.eligible(a) {
        let a = choose|a: int| m.eligible(a);
        lemma_leader(m, m.tasks.len());
        let b = m.leader(m.tasks.len())->Some_0;
        assert(m.chosen(b));
    }
    if exists|s: int| m.chosen(s) {
        let s = choose|s: int| m.chosen(s);
        assert(m.eligible(s));
    }
}

/// A claim masks what it covers, and no more: under a claim of `ceiling` a
/// source is eligible exactly if it was eligible before and its priority is
/// above the ceiling. The release brings back the state from before the
/// claim, and with it the eligibility of every source.
pub proof fn law_blocked_until_release(m: Model, ceiling: u8, a: int)
    requires
        m.wf(),
    ensures
        m.claim(ceiling).eligible(a) <==> m.eligible(a) && m.tasks[a].priority > ceiling,
        m.claim(ceiling).release() == m,
{
    assert(m.claim(ceiling).release().frames =~= m.frames);
}

/// A handler that returns leaves the dispatcher as it was when it was
/// entered, but for its own interrupt, which is no longer pending.
pub proof fn law_return_restores(m: Model, s: int)
    requires
        m.wf(),
        m.eligible(s),
    ensures
        m.enter(s).leave() == (Model { pending: m.pending.update(s, false), ..m }),
        m.enter(s).leave().threshold() == m.threshold(),
        m.enter(s).leave().priority() == m.priority(),
{
    assert(m.enter(s).leave().frames =~= m.frames);
}

/// Once a task's context is entered, every source at its priority or below
/// is masked; its own source with them.
pub proof fn law_entry_masks(m: Model, s: int, t: int)
    requires
        m.wf(),
        m.eligible(s),
        0 <= t < m.tasks.len(),
        m.tasks[t].priority <= m.tasks[s].priority,
    ensures
        !m.enter(s).eligible(t),
{
}

/// Each context above the base was entered above the threshold of all
/// below: of two entry frames the upper one has the higher priority, so no
/// two contexts run at one priority.
pub proof fn law_one_context_per_level(m: Model, i: int, j: int)
    requires
        m.wf(),
        0 <= i < j < m.frames.len(),
        !m.frames[j].claim,
    ensures
        m.frames[i].priority <= m.frames[i].threshold < m.frames[j].priority,
{
    lemma_entered_above(m, i, j, j);
    lemma_levels_rise(m, i, i);
}

/// A task runs to completion before it runs again: no two contexts on the
/// stack belong to the same source.
pub proof fn law_no_reentrancy(m: Model, i: int, j: int)
    requires
        m.wf(),
        0 <= i < j < m.frames.len(),
        !m.frames[i].claim,
        !m.frames[j].claim,
    ensures
        m.frames[i].source != m.frames[j].source,
{
    law_one_context_per_level(m, i, j);
    if i > 0 {
        assert(m.frame_wf(i));
    }
    assert(m.frame_wf(j));
}

/// Two contexts are never inside the same cell. If a cell of ceiling
/// `ceiling` admits the levels of a frame, it refuses those of every frame of
/// a context that was entered above that frame: such a context runs at a
/// priority above the ceiling.
pub proof fn law_mutual_exclusion(m: Model, i: int, j: int, k: int, ceiling: u8)
    requires
        m.wf(),
        0 <= i < j <= k < m.frames.len(),
        !m.frames[j].claim,
        access_verdict(ceiling, m.frames[i].priority, m.frames[i].threshold) is None,
    ensures
        access_verdict(ceiling, m.frames[k].priority, m.frames[k].threshold) == Some(
            AccessError::PriorityAboveCeiling,
        ),
{
    lemma_entered_above(m, i, j, k);
    lemma_levels_rise(m, k, k);
}

/// What holds a task back is one context. Of two frames in different
/// contexts the upper one cannot both run below a level and hold the
/// threshold at that level or above when the lower one holds it there: at
/// most one context of lower priority blocks a task at any time.
pub proof fn law_single_blocker(m: Model, i: int, j: int, k: int, level: u8)
    requires
        m.wf(),
        0 <= i < j <= k < m.frames.len(),
        !m.frames[j].claim,
        m.frames[i].threshold >= level,
    ensures
        m.frames[k].priority > level,
{
    lemma_entered_above(m, i, j, k);
}

/// An access under a threshold below the ceiling is refused, whatever the
/// priority.
pub proof fn law_low_threshold_refused(ceiling: u8, priority: u8, threshold: u8)
    requires
        threshold < ceiling,
    ensures
        access_verdict(ceiling, priority, threshold) == Some(AccessError::ThresholdBelowCeiling),
{
}

/// Initialisation reaches every cell: it runs at the lowest priority and
/// under the highest threshold, where no ceiling refuses.
pub proof fn law_initialisation_reaches_all(tasks: Seq<Task>, ceiling: u8)
    ensures
        Model::initial(tasks).priority() == IDLE_LEVEL,
        Model::initial(tasks).threshold() == MAX_LEVEL,
        access_verdict(ceiling, IDLE_LEVEL, MAX_LEVEL) is None,
{
}

/// During initialisation nothing preempts, whatever is signalled; and what
/// was signalled then is not served once initialisation is over.
pub proof fn law_start_forgets(m: Model, s: int)
    requires
        m.wf(),
        !m.started,
    ensures
        !m.eligible(s),
        !m.start().eligible(s),
        m.start().wf(),
{
}

/// A source that is held back is never served, whatever it signals; and a
/// task that is not enabled is held back when initialisation ends.
pub proof fn law_disabled_never_served(m: Model, s: int)
    requires
        m.wf(),
        m.known(s),
    ensures
        !m.unmasked[s] ==> !m.signal(s).chosen(s),
        !m.tasks[s].enabled ==> !m.start().unmasked[s],
        !m.disable(s).chosen(s),
{
}

/// A source that is let through again starts afresh: what it signalled
/// while it was held back is not served.
pub proof fn law_enable_forgets(m: Model, s: int)
    requires
        m.wf(),
        m.known(s),
        !m.unmasked[s],
    ensures
        !m.enable(s).eligible(s),
        m.enable(s).wf(),
{
    lemma_same_stack(m, m.enable(s));
}

/// Holding a source back does not cut a running handler short: the running
/// contexts stay as they are.
pub proof fn law_disable_spares_running(m: Model, s: int)
    ensures
        m.disable(s).frames == m.frames,
        m.enable(s).frames == m.frames,
        m.signal(s).frames == m.frames,
{
}

/// Idle yields to every enabled interrupt that is pending: with the idle
/// context on top and no claim held, a ready source is eligible.
pub proof fn law_idle_masks_nothing(m: Model, s: int)
    requires
        m.wf(),
        m.started,
        m.frames.len() == 1,
        m.ready(s),
    ensures
        m.eligible(s),
{
}

} // verus!
