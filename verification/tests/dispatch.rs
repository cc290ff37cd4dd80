use ceiling_rt::cell::{AccessError, Resource};
use ceiling_rt::dispatch::{DispatchError, Dispatcher, Idle};
use ceiling_rt::registry::{Registry, Task};

/// A dispatcher, not yet started, with the task of source `i` at
/// `tasks[i].0`, enabled if `tasks[i].1`.
fn dispatcher(tasks: &[(u8, bool)]) -> Dispatcher {
    let mut list: Vec<Task> = Vec::new();
    for (source, (priority, enabled)) in tasks.iter().enumerate() {
        list.push(Task { source, priority: *priority, enabled: *enabled });
    }
    Dispatcher::new(Registry::build(tasks.len(), &list).unwrap())
}

fn running(tasks: &[(u8, bool)]) -> Dispatcher {
    let mut d = dispatcher(tasks);
    d.start().unwrap();
    d
}

#[test]
fn a_new_dispatcher_is_in_initialisation() {
    let d = dispatcher(&[(1, true)]);
    assert!(!d.is_started());
    assert_eq!(d.priority().level(), 0);
    assert_eq!(d.threshold().level(), 255);
    assert_eq!(d.running(), None);
    assert_eq!(d.depth(), 0);
    assert!(!d.is_pending(0));
    assert_eq!(d.idle(), Idle::NotIdle);
}

#[test]
fn nothing_preempts_initialisation() {
    let mut d = dispatcher(&[(1, true), (255, true)]);
    assert!(d.signal(0));
    assert!(d.signal(1));
    assert!(d.is_pending(0));
    assert!(d.is_pending(1));
    assert_eq!(d.select(), None);
    assert!(d.dispatch().is_none());
}

#[test]
fn a_signal_from_before_the_start_is_not_served_after_it() {
    let mut d = dispatcher(&[(1, true), (2, true)]);
    d.signal(0);
    d.signal(1);
    d.start().unwrap();
    assert!(d.is_started());
    assert!(!d.is_pending(0));
    assert!(!d.is_pending(1));
    assert_eq!(d.threshold().level(), 0);
    assert_eq!(d.select(), None);
    assert!(d.dispatch().is_none());
    assert_eq!(d.idle(), Idle::Wait);
    // a signal after the start is served
    d.signal(0);
    assert_eq!(d.select(), Some(0));
}

#[test]
fn the_start_happens_once() {
    let mut d = dispatcher(&[(1, true)]);
    assert_eq!(d.start(), Ok(()));
    d.signal(0);
    assert_eq!(d.start(), Err(DispatchError::Started));
    assert!(d.is_pending(0));
}

#[test]
fn the_start_waits_for_claims_to_be_released() {
    let mut d = dispatcher(&[(1, true)]);
    d.claim(3);
    assert_eq!(d.start(), Err(DispatchError::ClaimHeld));
    assert!(!d.is_started());
    d.release().unwrap();
    assert_eq!(d.start(), Ok(()));
}

#[test]
fn an_unknown_source_is_ignored() {
    let mut d = running(&[(1, true)]);
    assert!(!d.signal(1));
    assert!(!d.signal(usize::MAX));
    assert!(!d.is_pending(1));
    assert_eq!(d.select(), None);
}

#[test]
fn a_disabled_task_never_runs() {
    let mut d = running(&[(5, false), (1, true)]);
    assert!(!d.is_enabled(0));
    assert!(d.is_enabled(1));
    assert!(d.signal(0));
    assert_eq!(d.select(), None);
    assert!(d.dispatch().is_none());
    assert_eq!(d.idle(), Idle::Wait);
    d.signal(1);
    assert_eq!(d.select(), Some(1));
}

#[test]
fn nothing_is_let_through_before_the_start() {
    let mut d = dispatcher(&[(5, false), (1, true)]);
    assert!(!d.is_enabled(0));
    assert!(!d.is_enabled(1));
    assert!(!d.is_enabled(2));
    // enabling is for after the start
    assert!(!d.enable(1));
    assert!(!d.is_enabled(1));
    d.start().unwrap();
    assert!(!d.is_enabled(0));
    assert!(d.is_enabled(1));
}

#[test]
fn a_source_that_is_held_back_waits() {
    let mut d = running(&[(1, true), (2, true)]);
    assert!(d.disable(1));
    assert!(!d.is_enabled(1));
    d.signal(1);
    d.signal(0);
    assert_eq!(d.select(), Some(0));
    assert_eq!(d.dispatch().unwrap(), 0);
    d.complete().unwrap();
    assert_eq!(d.idle(), Idle::Wait);
    assert!(!d.disable(2));
}

#[test]
fn a_source_that_is_let_through_again_starts_afresh() {
    let mut d = running(&[(1, false)]);
    d.signal(0);
    assert!(d.is_pending(0));
    assert!(d.enable(0));
    assert!(d.is_enabled(0));
    // what was signalled before is not served
    assert!(!d.is_pending(0));
    assert!(d.dispatch().is_none());
    d.signal(0);
    assert_eq!(d.dispatch().unwrap(), 0);
    assert!(!d.enable(1));
}

#[test]
fn enabling_twice_loses_no_signal() {
    let mut d = running(&[(1, true)]);
    d.signal(0);
    assert!(d.enable(0));
    assert!(d.is_pending(0));
    assert_eq!(d.select(), Some(0));
}

#[test]
fn holding_back_does_not_cut_a_handler_short() {
    let mut d = running(&[(1, true)]);
    d.signal(0);
    d.dispatch().unwrap();
    assert!(d.disable(0));
    assert_eq!(d.running(), Some(0));
    assert_eq!(d.threshold().level(), 1);
    assert_eq!(d.complete(), Ok(()));
    d.signal(0);
    assert!(d.dispatch().is_none());
}

#[test]
fn a_dispatch_enters_the_context_of_the_task() {
    let mut d = running(&[(1, true), (3, true)]);
    d.signal(1);
    assert_eq!(d.dispatch(), Some(1));
    {
        let grant = d.grant().unwrap();
        assert_eq!(grant.task.source(), 1);
        assert_eq!(grant.priority.level(), 3);
        assert_eq!(grant.threshold.level(), 3);
    }
    assert_eq!(d.priority().level(), 3);
    assert_eq!(d.threshold().level(), 3);
    assert_eq!(d.running(), Some(1));
    assert_eq!(d.depth(), 1);
    assert!(!d.is_pending(1));
    assert_eq!(d.complete(), Ok(()));
    assert_eq!(d.running(), None);
    assert_eq!(d.priority().level(), 0);
    assert_eq!(d.threshold().level(), 0);
    assert_eq!(d.depth(), 0);
}

#[test]
fn the_most_urgent_is_served_first() {
    let mut d = running(&[(1, true), (3, true), (2, true)]);
    d.signal(0);
    d.signal(1);
    d.signal(2);
    let mut order: Vec<usize> = Vec::new();
    while let Some(source) = d.dispatch() {
        order.push(source);
        d.complete().unwrap();
    }
    assert_eq!(order, vec![1, 2, 0]);
}

#[test]
fn equal_priorities_are_served_by_source() {
    let mut d = running(&[(2, true), (2, true), (2, true)]);
    d.signal(2);
    d.signal(1);
    assert_eq!(d.select(), Some(1));
    d.signal(0);
    assert_eq!(d.select(), Some(0));
    let mut order: Vec<usize> = Vec::new();
    while let Some(source) = d.dispatch() {
        order.push(source);
        d.complete().unwrap();
    }
    assert_eq!(order, vec![0, 1, 2]);
}

#[test]
fn the_same_state_gives_the_same_choice() {
    let mut a = running(&[(2, true), (2, true), (4, true), (4, true)]);
    let mut b = running(&[(2, true), (2, true), (4, true), (4, true)]);
    for s in [3usize, 1, 2, 0] {
        a.signal(s);
    }
    for s in [0usize, 2, 1, 3] {
        b.signal(s);
    }
    assert_eq!(a.select(), Some(2));
    assert_eq!(a.select(), b.select());
}

#[test]
fn a_higher_priority_preempts_at_once() {
    let mut d = running(&[(1, true), (2, true)]);
    d.signal(0);
    assert_eq!(d.dispatch(), Some(0));
    d.signal(1);
    assert_eq!(d.dispatch(), Some(1));
    assert_eq!(d.running(), Some(1));
    assert_eq!(d.depth(), 2);
    d.complete().unwrap();
    // the preempted context goes on as it was
    assert_eq!(d.running(), Some(0));
    assert_eq!(d.priority().level(), 1);
    assert_eq!(d.threshold().level(), 1);
    d.complete().unwrap();
    assert_eq!(d.running(), None);
}

#[test]
fn the_same_or_a_lower_priority_waits() {
    let mut d = running(&[(2, true), (2, true), (1, true)]);
    d.signal(0);
    d.dispatch().unwrap();
    d.signal(1);
    d.signal(2);
    assert_eq!(d.select(), None);
    assert!(d.dispatch().is_none());
    assert_eq!(d.running(), Some(0));
    d.complete().unwrap();
    assert_eq!(d.dispatch().unwrap(), 1);
    d.complete().unwrap();
    assert_eq!(d.dispatch().unwrap(), 2);
}

#[test]
fn a_task_does_not_preempt_itself() {
    let mut d = running(&[(3, true)]);
    d.signal(0);
    d.dispatch().unwrap();
    d.signal(0);
    assert!(d.is_pending(0));
    assert!(d.dispatch().is_none());
    assert_eq!(d.depth(), 1);
    d.complete().unwrap();
    // the second signal is served after the first run is over
    assert_eq!(d.dispatch().unwrap(), 0);
    assert!(!d.is_pending(0));
    d.complete().unwrap();
    assert!(d.dispatch().is_none());
}

#[test]
fn a_claim_blocks_up_to_its_ceiling_until_released() {
    let mut d = running(&[(1, true), (2, true), (3, true)]);
    d.signal(0);
    d.dispatch().unwrap();
    assert_eq!(d.grant().unwrap().threshold.level(), 1);
    assert_eq!(d.claim(2), 2);
    assert_eq!(d.grant().unwrap().threshold.level(), 2);
    assert_eq!(d.grant().unwrap().priority.level(), 1);
    assert_eq!(d.threshold().level(), 2);
    assert_eq!(d.priority().level(), 1);
    assert_eq!(d.running(), Some(0));
    // priority 2 is at the ceiling: it waits
    d.signal(1);
    assert_eq!(d.select(), None);
    // priority 3 is above it: it preempts
    d.signal(2);
    assert_eq!(d.dispatch().unwrap(), 2);
    d.complete().unwrap();
    assert_eq!(d.threshold().level(), 2);
    assert_eq!(d.select(), None);
    // after the release the waiting task preempts
    assert_eq!(d.release(), Ok(1));
    assert_eq!(d.select(), Some(1));
    assert_eq!(d.dispatch().unwrap(), 1);
}

#[test]
fn a_claim_below_the_threshold_changes_nothing() {
    let mut d = running(&[(5, true)]);
    d.signal(0);
    d.dispatch().unwrap();
    assert_eq!(d.claim(3), 5);
    assert_eq!(d.claim(7), 7);
    assert_eq!(d.claim(6), 7);
    assert_eq!(d.depth(), 4);
    assert_eq!(d.release(), Ok(7));
    assert_eq!(d.release(), Ok(5));
    assert_eq!(d.release(), Ok(5));
    assert_eq!(d.release(), Err(DispatchError::NoClaim));
    assert_eq!(d.depth(), 1);
}

#[test]
fn a_handler_releases_before_it_returns() {
    let mut d = running(&[(1, true)]);
    d.signal(0);
    d.dispatch().unwrap();
    d.claim(4);
    assert_eq!(d.complete(), Err(DispatchError::ClaimHeld));
    assert_eq!(d.running(), Some(0));
    d.release().unwrap();
    assert_eq!(d.complete(), Ok(()));
}

#[test]
fn nothing_completes_without_a_handler() {
    let mut d = running(&[(1, true)]);
    assert_eq!(d.complete(), Err(DispatchError::NoTask));
    d.claim(2);
    assert_eq!(d.complete(), Err(DispatchError::NoTask));
    assert_eq!(d.depth(), 1);
}

#[test]
fn idle_yields_to_what_is_pending() {
    let mut d = running(&[(1, true), (2, true)]);
    assert_eq!(d.idle(), Idle::Wait);
    d.signal(0);
    assert_eq!(d.idle(), Idle::Yield(0));
    d.signal(1);
    assert_eq!(d.idle(), Idle::Yield(1));
    d.dispatch().unwrap();
    assert_eq!(d.idle(), Idle::NotIdle);
    d.complete().unwrap();
    assert_eq!(d.idle(), Idle::Yield(0));
    d.dispatch().unwrap();
    d.complete().unwrap();
    assert_eq!(d.idle(), Idle::Wait);
}

#[test]
fn idle_polls_under_a_claim_without_waiting() {
    let mut d = running(&[(1, true)]);
    let mut cell = Resource::new(1, 0u32);
    // without a claim idle is refused at once
    assert_eq!(
        cell.access(&d.priority(), &d.threshold()),
        Err(AccessError::ThresholdBelowCeiling)
    );
    d.claim(1);
    *cell.access_mut(&d.priority(), &d.threshold()).unwrap() = 6;
    // what the claim masks waits for the release
    d.signal(0);
    assert_eq!(d.idle(), Idle::Wait);
    d.release().unwrap();
    assert_eq!(d.idle(), Idle::Yield(0));
    d.dispatch().unwrap();
    let grant = d.grant().unwrap();
    assert_eq!(cell.access(&grant.priority, &grant.threshold), Ok(&6));
}

#[test]
fn a_preempting_task_cannot_enter_a_held_cell() {
    let mut d = running(&[(1, true), (2, true)]);
    let cell = Resource::new(1, 0u32);
    d.signal(0);
    d.dispatch().unwrap();
    assert!(cell.access(&d.priority(), &d.threshold()).is_ok());
    d.signal(1);
    d.dispatch().unwrap();
    {
        let high = d.grant().unwrap();
        assert_eq!(high.task.source(), 1);
        assert_eq!(
            cell.access(&high.priority, &high.threshold),
            Err(AccessError::PriorityAboveCeiling)
        );
    }
    // back in the preempted context the cell opens again
    d.complete().unwrap();
    assert!(cell.access(&d.priority(), &d.threshold()).is_ok());
}

#[test]
fn a_lock_claims_the_ceiling_of_the_cell() {
    let mut d = running(&[(1, true), (2, true), (3, true)]);
    let mut cell = Resource::new(2, 10u32);
    d.signal(0);
    d.dispatch().unwrap();
    {
        let value = d.lock(&mut cell).unwrap();
        assert_eq!(*value, 10);
        *value = 11;
    }
    assert_eq!(d.threshold().level(), 2);
    assert_eq!(d.priority().level(), 1);
    assert_eq!(d.depth(), 2);
    // the task that shares the cell waits, the more urgent one does not
    d.signal(1);
    assert_eq!(d.select(), None);
    d.signal(2);
    assert_eq!(d.select(), Some(2));
    assert_eq!(d.release(), Ok(1));
    assert_eq!(d.select(), Some(2));
    d.claim(2);
    assert_eq!(cell.access(&d.priority(), &d.threshold()), Ok(&11));
}

#[test]
fn a_lock_from_above_the_ceiling_is_refused() {
    let mut d = running(&[(3, true)]);
    let mut cell = Resource::new(2, 10u32);
    d.signal(0);
    d.dispatch().unwrap();
    assert_eq!(d.lock(&mut cell), Err(AccessError::PriorityAboveCeiling));
    assert_eq!(d.depth(), 1);
    assert_eq!(d.threshold().level(), 3);
    assert_eq!(d.release(), Err(DispatchError::NoClaim));
}

#[test]
fn a_lock_under_a_higher_threshold_keeps_the_threshold() {
    let mut d = running(&[(1, true)]);
    let mut cell = Resource::new(2, 10u32);
    d.signal(0);
    d.dispatch().unwrap();
    d.claim(5);
    assert_eq!(d.lock(&mut cell), Ok(&mut 10));
    assert_eq!(d.threshold().level(), 5);
    assert_eq!(d.release(), Ok(5));
    assert_eq!(d.release(), Ok(1));
}

#[test]
fn idle_locks_what_the_tasks_share() {
    let mut d = running(&[(1, true)]);
    let mut cell = Resource::new(1, 0u8);
    *d.lock(&mut cell).unwrap() = 4;
    d.signal(0);
    assert_eq!(d.idle(), Idle::Wait);
    d.release().unwrap();
    assert_eq!(d.idle(), Idle::Yield(0));
}
