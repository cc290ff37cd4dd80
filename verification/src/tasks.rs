//! The application: initialisation, and the handlers of the two buttons and
//! of the timer. Each works on the resource table under the tokens that the
//! dispatcher gave it.

use vstd::prelude::*;
use crate::board::{
    Board, Dwt, Exti, Gpioa, Gpioc, Gpioe, Line, PinMode, Port, Rcc, Resources, Syscfg, Timer,
    TASK_CEILING, BACKGROUND_CEILING,
};
use crate::cell::{access_verdict, AccessError, Local};
use crate::dispatch::{Dispatcher, Grant, Model};
use crate::registry::{bound, defect, Registry, Task};
use crate::token::{Priority, TaskToken, Threshold};
use crate::wheel::{lemma_turned, Turn, Wheel};

verus! {

/// Turns of the wheel per second.
pub const FREQUENCY: u32 = 20;

/// The number of lights on the wheel.
pub const LIGHTS: usize = 8;

/// The interrupt source of the button on line 0.
pub const BUTTON: usize = 0;

/// The interrupt source of the button on line 13.
pub const BUTTON2: usize = 1;

/// The interrupt source of the timer.
pub const ROULETTE: usize = 2;

/// The number of interrupt sources.
pub const SOURCES: usize = 3;

/// The priority of all three tasks.
pub const TASK_PRIORITY: u8 = 1;

/// The three tasks, by source: all enabled, all at the same priority.
pub open spec fn task_table() -> Seq<Task> {
    seq![
        Task { source: BUTTON, priority: TASK_PRIORITY, enabled: true },
        Task { source: BUTTON2, priority: TASK_PRIORITY, enabled: true },
        Task { source: ROULETTE, priority: TASK_PRIORITY, enabled: true },
    ]
}

/// What a handler did.
#[derive(Clone, Copy, Debug, PartialEq, Eq, Structural)]
pub enum Outcome {
    /// A button toggled the timer, which now runs, or does not.
    Timer(bool),
    /// The timer turned the wheel, or found no update event and did not.
    Wheel(Option<Turn>),
}

/// One interrupt served: its source, and what its handler did.
#[derive(Clone, Copy, Debug, PartialEq, Eq, Structural)]
pub struct Served {
    pub source: usize,
    pub outcome: Outcome,
}

/// Why a handler gave up.
#[derive(Clone, Copy, Debug, PartialEq, Eq, Structural)]
pub enum TaskError {
    /// A resource cell refused the access.
    Access(AccessError),
    /// The local cell belongs to another task.
    NotOwner,
}

/// The board that initialisation leaves: the cycle counter counts, the ports
/// of the buttons and of the lights are powered, both button pins are inputs
/// and their lines raise an interrupt on a falling edge, line 13 listens to
/// port C, the light pins are outputs, and the timer is set up and paused.
/// No event from before is left: neither line is pending, and the timer
/// flags no update, so that nothing is served for what happened before the
/// board was up.
pub open spec fn brought_up(b: Board) -> Board {
    Board {
        dwt: Dwt { cycle_counter: true },
        rcc: Rcc { port_a: true, port_c: true, port_e: true, syscfg: true, tim7: true },
        gpioa: Gpioa { pin0: PinMode::Input },
        gpioc: Gpioc { pin13: PinMode::Input },
        gpioe: Gpioe { lights: PinMode::Output },
        syscfg: Syscfg { line13: Port::C },
        exti: Exti {
            line0: Line { unmasked: true, falling: true, pending: false },
            line13: Line { unmasked: true, falling: true, pending: false },
        },
        tim7: Timer { frequency: FREQUENCY, enabled: false, update: false },
        shared: b.shared,
    }
}

/// The timer with its counter switched the other way.
pub open spec fn toggled(t: Timer) -> Timer {
    Timer { enabled: !t.enabled, ..t }
}

/// The board after the press on line 0 was handled.
pub open spec fn pressed(b: Board) -> Board {
    Board {
        exti: Exti { line0: Line { pending: false, ..b.exti.line0 }, ..b.exti },
        tim7: toggled(b.tim7),
        ..b
    }
}

/// The board after the press on line 13 was handled.
pub open spec fn pressed2(b: Board) -> Board {
    Board {
        exti: Exti { line13: Line { pending: false, ..b.exti.line13 }, ..b.exti },
        tim7: toggled(b.tim7),
        ..b
    }
}

/// The board after the timer's update event was acknowledged.
pub open spec fn acknowledged(b: Board) -> Board {
    Board { tim7: Timer { update: false, ..b.tim7 }, ..b }
}

/// Two presses, one on each button, are two toggles in whatever order they
/// are served: none is lost, none counts twice, and the timer is back where
/// it was.
pub proof fn law_presses_commute(b: Board)
    ensures
        pressed(pressed2(b)) == pressed2(pressed(b)),
        pressed2(pressed(b)).tim7 == b.tim7,
        pressed(b).tim7.enabled != b.tim7.enabled,
        pressed2(b).tim7.enabled != b.tim7.enabled,
{
}

/// Brings the board up, and clears what was latched before: the pending
/// flags of both lines, before the lines are unmasked, and the update flag of
/// the timer. It runs before any task, at the lowest priority and under the
/// highest threshold, and so reaches every cell. Under other tokens
/// it stops at the first cell that refuses: at the first of all where the
/// priority is above the background's, and at the timer, with the cycle
/// counter already counting, where the threshold is below the tasks' ceiling.
pub fn init(priority: &Priority, threshold: &Threshold, res: &mut Resources) -> (r: Result<
    (),
    AccessError,
>)
    requires
        old(res).wf(),
    ensures
        final(res).wf(),
        priority@ > BACKGROUND_CEILING ==> r == Err::<(), AccessError>(
            AccessError::PriorityAboveCeiling,
        ) && final(res)@ == old(res)@,
        priority@ == BACKGROUND_CEILING && threshold@ < TASK_CEILING ==> r == Err::<
            (),
            AccessError,
        >(AccessError::ThresholdBelowCeiling) && final(res)@ == (Board {
            dwt: Dwt { cycle_counter: true },
            ..old(res)@
        }),
        priority@ == BACKGROUND_CEILING && threshold@ >= TASK_CEILING ==> r is Ok && final(res)@
            == brought_up(old(res)@),
{
    let dwt = match res.dwt.access_mut(priority, threshold) {
        Ok(dwt) => dwt,
        Err(e) => return Err(e),
    };
    dwt.cycle_counter = true;

    let gpioe = match res.gpioe.access_mut(priority, threshold) {
        Ok(gpioe) => gpioe,
        Err(e) => return Err(e),
    };
    let rcc = match res.rcc.access_mut(priority, threshold) {
        Ok(rcc) => rcc,
        Err(e) => return Err(e),
    };
    let tim7 = match res.tim7.access_mut(priority, threshold) {
        Ok(tim7) => tim7,
        Err(e) => return Err(e),
    };

    // Power up the ports of the two buttons, and the line routing
    rcc.port_a = true;
    rcc.port_c = true;
    rcc.syscfg = true;

    // The first button is on pin 0 of port A
    let gpioa = match res.gpioa.access_mut(priority, threshold) {
        Ok(gpioa) => gpioa,
        Err(e) => return Err(e),
    };
    gpioa.pin0 = PinMode::Input;

    // The second button is on pin 13 of port C
    let gpioc = match res.gpioc.access_mut(priority, threshold) {
        Ok(gpioc) => gpioc,
        Err(e) => return Err(e),
    };
    gpioc.pin13 = PinMode::Input;

    // Both lines trigger on the falling edge; an edge that was seen before
    // this is forgotten first
    let exti = match res.exti.access_mut(priority, threshold) {
        Ok(exti) => exti,
        Err(e) => return Err(e),
    };
    exti.line0.pending = false;
    exti.line13.pending = false;
    exti.line0.unmasked = true;
    exti.line0.falling = true;
    exti.line13.unmasked = true;
    exti.line13.falling = true;

    // Line 13 listens to port C
    let syscfg = match res.syscfg.access_mut(priority, threshold) {
        Ok(syscfg) => syscfg,
        Err(e) => return Err(e),
    };
    syscfg.line13 = Port::C;

    // The lights
    rcc.port_e = true;
    gpioe.lights = PinMode::Output;

    // The timer: set up, with no update event left over, and paused until a
    // button starts it
    rcc.tim7 = true;
    tim7.frequency = FREQUENCY;
    tim7.enabled = false;
    tim7.update = false;
    Ok(())
}

/// Starts the timer if it is paused, and pauses it if it runs. Returns
/// whether it runs now.
pub fn toggle_timer(timer: &mut Timer) -> (enabled: bool)
    ensures
        *final(timer) == toggled(*old(timer)),
        enabled == !old(timer).enabled,
{
    if timer.enabled {
        timer.enabled = false;
    } else {
        timer.enabled = true;
    }
    timer.enabled
}

/// The handler of the button on line 0: acknowledges the press and toggles
/// the timer. Returns whether the timer runs now. Under tokens that the
/// cells of the tasks refuse it changes nothing.
pub fn button(
    _task: &TaskToken,
    priority: &Priority,
    threshold: &Threshold,
    res: &mut Resources,
) -> (r: Result<bool, AccessError>)
    requires
        old(res).wf(),
    ensures
        final(res).wf(),
        match access_verdict(TASK_CEILING, priority@, threshold@) {
            Some(e) => r == Err::<bool, AccessError>(e) && final(res)@ == old(res)@,
            None => r == Ok::<bool, AccessError>(!old(res)@.tim7.enabled) && final(res)@ == pressed(
                old(res)@,
            ),
        },
{
    // Acknowledge the press
    match res.exti.access_mut(priority, threshold) {
        Ok(exti) => {
            exti.line0.pending = false;
        },
        Err(e) => return Err(e),
    }

    match res.tim7.access_mut(priority, threshold) {
        Ok(tim7) => Ok(toggle_timer(tim7)),
        Err(e) => Err(e),
    }
}

/// The handler of the button on line 13: acknowledges the press, looks at the
/// shared state and toggles the timer. Returns whether the timer runs now.
/// Under tokens that the cells of the tasks refuse it changes nothing.
pub fn button2(
    _task: &TaskToken,
    priority: &Priority,
    threshold: &Threshold,
    res: &mut Resources,
) -> (r: Result<bool, AccessError>)
    requires
        old(res).wf(),
    ensures
        final(res).wf(),
        match access_verdict(TASK_CEILING, priority@, threshold@) {
            Some(e) => r == Err::<bool, AccessError>(e) && final(res)@ == old(res)@,
            None => r == Ok::<bool, AccessError>(!old(res)@.tim7.enabled) && final(res)@
                == pressed2(old(res)@),
        },
{
    // Acknowledge the press
    match res.exti.access_mut(priority, threshold) {
        Ok(exti) => {
            exti.line13.pending = false;
        },
        Err(e) => return Err(e),
    }

    let _mode = match res.shared.access(priority, threshold) {
        Ok(shared) => shared.mode,
        Err(e) => return Err(e),
    };

    match res.tim7.access_mut(priority, threshold) {
        Ok(tim7) => Ok(toggle_timer(tim7)),
        Err(e) => Err(e),
    }
}

/// The handler of the timer: acknowledges the update event and turns the
/// wheel by one position. Without an update event to acknowledge it does
/// nothing, and reports no turn. Under tokens that the timer's cell refuses
/// it changes nothing; with the token of a task that does not own the wheel
/// it acknowledges the event and leaves the wheel alone.
pub fn roulette(
    task: &TaskToken,
    priority: &Priority,
    threshold: &Threshold,
    res: &mut Resources,
    state: &mut Local<Wheel>,
) -> (r: Result<Option<Turn>, TaskError>)
    requires
        old(res).wf(),
        old(state).value().wf(),
    ensures
        final(res).wf(),
        final(state).value().wf(),
        final(state).owner() == old(state).owner(),
        match access_verdict(TASK_CEILING, priority@, threshold@) {
            Some(e) => {
                &&& r == Err::<Option<Turn>, TaskError>(TaskError::Access(e))
                &&& final(res)@ == old(res)@
                &&& final(state).value() == old(state).value()
            },
            None => if !old(res)@.tim7.update {
                &&& r == Ok::<Option<Turn>, TaskError>(None)
                &&& final(res)@ == old(res)@
                &&& final(state).value() == old(state).value()
            } else if task@ != old(state).owner() {
                &&& r == Err::<Option<Turn>, TaskError>(TaskError::NotOwner)
                &&& final(res)@ == acknowledged(old(res)@)
                &&& final(state).value() == old(state).value()
            } else {
                &&& r == Ok::<Option<Turn>, TaskError>(Some(old(state).value().turn()))
                &&& final(res)@ == acknowledged(old(res)@)
                &&& final(state).value() == old(state).value().turned()
                &&& final(state).value().follows(&old(state).value())
            },
        },
{
    let tim7 = match res.tim7.access_mut(priority, threshold) {
        Ok(tim7) => tim7,
        Err(e) => return Err(TaskError::Access(e)),
    };

    if tim7.update {
        tim7.update = false;
        match state.borrow_mut(task) {
            Some(wheel) => Ok(Some(wheel.advance())),
            None => Err(TaskError::NotOwner),
        }
    } else {
        Ok(None)
    }
}

/// What the application holds between two steps: the board, and the wheel
/// in the cell of the timer's task.
pub struct Scene {
    pub board: Board,
    pub wheel: Wheel,
}

/// One step of the application: a run of one of the three handlers, with the
/// tokens of its task, or a round of the idle loop.
pub enum Move {
    Button,
    Button2,
    Roulette,
    Idle,
}

/// The step that serving `source` is.
pub open spec fn move_of(source: usize) -> Move {
    if source == BUTTON {
        Move::Button
    } else if source == BUTTON2 {
        Move::Button2
    } else {
        Move::Roulette
    }
}

/// The scene after one step. Only the timer's handler touches the wheel,
/// and only when it finds an update event.
pub open spec fn moved(scene: Scene, step: Move) -> Scene {
    match step {
        Move::Button => Scene { board: pressed(scene.board), ..scene },
        Move::Button2 => Scene { board: pressed2(scene.board), ..scene },
        Move::Roulette => if scene.board.tim7.update {
            Scene { board: acknowledged(scene.board), wheel: scene.wheel.turned() }
        } else {
            scene
        },
        Move::Idle => scene,
    }
}

/// What the handler of a step reports: a button whether the timer runs
/// now, the timer's handler the turn that it made, if it made one.
pub open spec fn report(scene: Scene, step: Move) -> Outcome {
    match step {
        Move::Roulette => Outcome::Wheel(
            if scene.board.tim7.update {
                Some(scene.wheel.turn())
            } else {
                None
            },
        ),
        _ => Outcome::Timer(!scene.board.tim7.enabled),
    }
}

/// The scene after a run of steps, the first step first.
pub open spec fn run(scene: Scene, steps: Seq<Move>) -> Scene
    decreases steps.len(),
{
    if steps.len() == 0 {
        scene
    } else {
        moved(run(scene, steps.drop_last()), steps.last())
    }
}

/// The wheel stays as the last firing of the timer left it, whatever runs
/// in between: after any number of button presses and idle rounds the wheel
/// is the same, and the next firing starts from it. It turns that wheel by
/// one if it finds an update event, and leaves it alone if not.
pub proof fn law_wheel_kept_between_firings(scene: Scene, steps: Seq<Move>)
    requires
        forall|i: int| 0 <= i < steps.len() ==> !(#[trigger] steps[i] is Roulette),
    ensures
        run(scene, steps).wheel == scene.wheel,
        run(scene, steps).board.tim7.update == scene.board.tim7.update,
        moved(run(scene, steps), Move::Roulette).wheel == (if scene.board.tim7.update {
            scene.wheel.turned()
        } else {
            scene.wheel
        }),
    decreases steps.len(),
{
    if steps.len() > 0 {
        let before = steps.drop_last();
        assert forall|i: int| 0 <= i < before.len() implies !(#[trigger] before[i] is Roulette) by {
            assert(before[i] == steps[i]);
        }
        law_wheel_kept_between_firings(scene, before);
        assert(!(steps[steps.len() - 1] is Roulette));
    }
}

/// A well-formed wheel stays well formed over every run of steps, so that
/// exactly one light is lit after each of them.
pub proof fn law_one_light_at_every_step(scene: Scene, steps: Seq<Move>)
    requires
        scene.wheel.wf(),
    ensures
        run(scene, steps).wheel.wf(),
    decreases steps.len(),
{
    if steps.len() > 0 {
        law_one_light_at_every_step(scene, steps.drop_last());
        lemma_turned(run(scene, steps.drop_last()).wheel);
    }
}

/// The three tasks, in the order in which they are declared.
pub fn tasks() -> (list: Vec<Task>)
    ensures
        list@ == task_table(),
{
    let mut list: Vec<Task> = Vec::new();
    list.push(Task { source: BUTTON, priority: TASK_PRIORITY, enabled: true });
    list.push(Task { source: BUTTON2, priority: TASK_PRIORITY, enabled: true });
    list.push(Task { source: ROULETTE, priority: TASK_PRIORITY, enabled: true });
    assert(list@ =~= task_table());
    list
}

/// The registry of the three tasks.
pub fn registry() -> (r: Registry)
    ensures
        r.wf(),
        r@ == task_table(),
{
    let list = tasks();
    proof {
        assert(list@[0].source == 0 && list@[1].source == 1 && list@[2].source == 2);
        assert(bound(list@, 0));
        assert(bound(list@, 1));
        assert(bound(list@, 2));
        assert(defect(SOURCES as nat, list@) is None);
    }
    let r = Registry::build(SOURCES, &list).unwrap();
    proof {
        assert(r@[list@[0].source as int] == list@[0]);
        assert(r@[list@[1].source as int] == list@[1]);
        assert(r@[list@[2].source as int] == list@[2]);
        assert(r@ =~= task_table());
    }
    r
}

/// The wheel of the timer's task, in its local cell: eight lights, at
/// position zero, with the light there lit.
pub fn wheel_cell() -> (cell: Local<Wheel>)
    ensures
        cell.owner() == ROULETTE,
        cell.value().wf(),
        cell.value().position() == 0,
        cell.value().lit() == Seq::new(LIGHTS as nat, |i: int| i == 0),
{
    Local::new(ROULETTE, Wheel::new(LIGHTS).unwrap())
}

/// Starts the program: initialisation runs with the tokens of the base
/// context, before any interrupt is served, and then the dispatcher is
/// started, which drops what was signalled meanwhile. What is left to the
/// caller is the idle loop.
pub fn boot(res: &mut Resources) -> (d: Dispatcher)
    requires
        old(res).wf(),
    ensures
        final(res).wf(),
        final(res)@ == brought_up(old(res)@),
        d.wf(),
        d@ == Model::initial(task_table()).start(),
{
    let mut d = Dispatcher::new(registry());
    let brought = init(&d.priority(), &d.threshold(), res);
    assert(brought is Ok);
    let started = d.start();
    assert(started is Ok);
    d
}

/// Serves the most urgent eligible interrupt, if there is one: enters its
/// task's context, runs its handler with the tokens of that context, and
/// leaves the context again. With the tokens that the dispatcher grants no
/// cell refuses its handler.
pub fn serve(d: &mut Dispatcher, res: &mut Resources, state: &mut Local<Wheel>) -> (r: Option<
    Served,
>)
    requires
        old(d).wf(),
        old(d)@.tasks == task_table(),
        old(res).wf(),
        old(state).value().wf(),
        old(state).owner() == ROULETTE,
    ensures
        final(d).wf(),
        final(res).wf(),
        final(state).value().wf(),
        final(state).owner() == ROULETTE,
        match r {
            None => {
                &&& forall|s: int| !old(d)@.eligible(s)
                &&& final(d)@ == old(d)@
                &&& final(res)@ == old(res)@
                &&& final(state).value() == old(state).value()
            },
            Some(done) => {
                &&& old(d)@.chosen(done.source as int)
                &&& final(d)@ == old(d)@.enter(done.source as int).leave()
                &&& (Scene { board: final(res)@, wheel: final(state).value() }) == moved(
                    Scene { board: old(res)@, wheel: old(state).value() },
                    move_of(done.source),
                )
                &&& done.outcome == report(
                    Scene { board: old(res)@, wheel: old(state).value() },
                    move_of(done.source),
                )
            },
        },
{
    let source = match d.dispatch() {
        Some(source) => source,
        None => return None,
    };
    let Grant { task, priority, threshold } = d.grant().unwrap();
    let outcome = if source == BUTTON {
        Outcome::Timer(button(&task, &priority, &threshold, res).unwrap())
    } else if source == BUTTON2 {
        Outcome::Timer(button2(&task, &priority, &threshold, res).unwrap())
    } else {
        Outcome::Wheel(roulette(&task, &priority, &threshold, res, state).unwrap())
    };
    let left = d.complete();
    assert(left is Ok);
    Some(Served { source, outcome })
}

/// The steps that a list of served interrupts were, in their order.
pub open spec fn moves_of(done: Seq<Served>) -> Seq<Move> {
    Seq::new(done.len(), |k: int| move_of(done[k].source))
}

/// The number of sources whose interrupt is pending.
pub open spec fn backlog(pending: Seq<bool>) -> nat
    decreases pending.len(),
{
    if pending.len() == 0 {
        0
    } else {
        backlog(pending.drop_last()) + if pending.last() {
            1nat
        } else {
            0nat
        }
    }
}

/// Serving a pending source takes one off the backlog.
pub proof fn lemma_backlog_served(pending: Seq<bool>, s: int)
    requires
        0 <= s < pending.len(),
        pending[s],
    ensures
        backlog(pending.update(s, false)) + 1 == backlog(pending),
    decreases pending.len(),
{
    let after = pending.update(s, false);
    if s == pending.len() - 1 {
        assert(after.drop_last() =~= pending.drop_last());
    } else {
        lemma_backlog_served(pending.drop_last(), s);
        assert(after.drop_last() =~= pending.drop_last().update(s, false));
    }
}

/// Serves interrupts for as long as one is eligible, the most urgent first,
/// and returns what was served, in order. However many they are, the board
/// and the wheel end as the run of their steps leaves them; each source that
/// was served is no longer pending, and the running contexts are as they
/// were.
pub fn serve_all(d: &mut Dispatcher, res: &mut Resources, state: &mut Local<Wheel>) -> (done: Vec<
    Served,
>)
    requires
        old(d).wf(),
        old(d)@.tasks == task_table(),
        old(res).wf(),
        old(state).value().wf(),
        old(state).owner() == ROULETTE,
    ensures
        final(d).wf(),
        final(res).wf(),
        final(state).value().wf(),
        final(state).owner() == ROULETTE,
        forall|s: int| !final(d)@.eligible(s),
        final(d)@ == (Model { pending: final(d)@.pending, ..old(d)@ }),
        forall|s: int|
            0 <= s < SOURCES ==> (#[trigger] final(d)@.pending[s] <==> old(d)@.pending[s] && !(
            exists|k: int| 0 <= k < done@.len() && (#[trigger] done@[k]).source == s)),
        (Scene { board: final(res)@, wheel: final(state).value() }) == run(
            Scene { board: old(res)@, wheel: old(state).value() },
            moves_of(done@),
        ),
{
    let mut done: Vec<Served> = Vec::new();
    let ghost start = Scene { board: res@, wheel: state.value() };
    assert(moves_of(done@) =~= Seq::<Move>::empty());
    loop
        invariant
            d.wf(),
            d@ == (Model { pending: d@.pending, ..old(d)@ }),
            d@.tasks == task_table(),
            res.wf(),
            state.value().wf(),
            state.owner() == ROULETTE,
            start == (Scene { board: old(res)@, wheel: old(state).value() }),
            forall|s: int|
                0 <= s < SOURCES ==> (#[trigger] d@.pending[s] <==> old(d)@.pending[s] && !(
                exists|k: int| 0 <= k < done@.len() && (#[trigger] done@[k]).source == s)),
            (Scene { board: res@, wheel: state.value() }) == run(start, moves_of(done@)),
        decreases backlog(d@.pending),
    {
        let ghost before = d@;
        let ghost steps = moves_of(done@);
        let ghost served = done@;
        match serve(d, res, state) {
            None => {
                return done;
            },
            Some(one) => {
                done.push(one);
                proof {
                    let s = one.source as int;
                    assert(before.eligible(s));
                    assert(d@.frames =~= before.frames);
                    lemma_backlog_served(before.pending, s);
                    let now = moves_of(done@);
                    assert(now.drop_last() =~= steps);
                    assert(now.last() == move_of(one.source));
                    assert(done@[served.len() as int].source == s);
                    assert forall|t: int| 0 <= t < SOURCES implies (#[trigger] d@.pending[t]
                        <==> old(d)@.pending[t] && !(exists|k: int|
                        0 <= k < done@.len() && (#[trigger] done@[k]).source == t)) by {
                        if t != s {
                            if exists|k: int|
                                0 <= k < done@.len() && (#[trigger] done@[k]).source == t {
                                let k = choose|k: int|
                                    0 <= k < done@.len() && (#[trigger] done@[k]).source == t;
                                assert(k < served.len());
                                assert(served[k].source == t);
                            }
                            if exists|k: int|
                                0 <= k < served.len() && (#[trigger] served[k]).source == t {
                                let k = choose|k: int|
                                    0 <= k < served.len() && (#[trigger] served[k]).source == t;
                                assert(done@[k].source == t);
                            }
                        }
                    }
                }
            },
        }
    }
}

} // verus!
