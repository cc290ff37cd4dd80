//! The board as the tasks see it: for each peripheral the settings that the
//! tasks read or write, as plain values, and the table of resource cells that
//! guards them.

use vstd::prelude::*;
use crate::cell::Resource;

verus! {

/// The ceiling of the cells that only initialisation and idle touch.
pub const BACKGROUND_CEILING: u8 = 0;

/// The ceiling of the cells that the tasks share.
pub const TASK_CEILING: u8 = 1;

/// How a pin, or a group of pins, is driven.
#[derive(Clone, Copy, Debug, PartialEq, Eq, Structural)]
pub enum PinMode {
    Unset,
    Input,
    Output,
}

/// A port of pins.
#[derive(Clone, Copy, Debug, PartialEq, Eq, Structural)]
pub enum Port {
    A,
    B,
    C,
    D,
    E,
    F,
}

/// The cycle counter of the debug unit.
#[derive(Clone, Copy, Debug, PartialEq, Eq, Structural)]
pub struct Dwt {
    pub cycle_counter: bool,
}

/// The clock control: which peripherals are powered.
#[derive(Clone, Copy, Debug, PartialEq, Eq, Structural)]
pub struct Rcc {
    pub port_a: bool,
    pub port_c: bool,
    pub port_e: bool,
    pub syscfg: bool,
    pub tim7: bool,
}

/// Port A: pin 0 carries the first button.
#[derive(Clone, Copy, Debug, PartialEq, Eq, Structural)]
pub struct Gpioa {
    pub pin0: PinMode,
}

/// Port C: pin 13 carries the second button.
#[derive(Clone, Copy, Debug, PartialEq, Eq, Structural)]
pub struct Gpioc {
    pub pin13: PinMode,
}

/// Port E: pins 8 to 15 drive the lights.
#[derive(Clone, Copy, Debug, PartialEq, Eq, Structural)]
pub struct Gpioe {
    pub lights: PinMode,
}

/// The system configuration: the port whose pin 13 drives line 13.
#[derive(Clone, Copy, Debug, PartialEq, Eq, Structural)]
pub struct Syscfg {
    pub line13: Port,
}

/// One line of the external interrupt controller.
#[derive(Clone, Copy, Debug, PartialEq, Eq, Structural)]
pub struct Line {
    /// Whether an edge on the line raises its interrupt.
    pub unmasked: bool,
    /// Whether a falling edge triggers the line.
    pub falling: bool,
    /// Whether an edge was seen and not yet acknowledged.
    pub pending: bool,
}

/// The external interrupt controller: the lines of the two buttons.
#[derive(Clone, Copy, Debug, PartialEq, Eq, Structural)]
pub struct Exti {
    pub line0: Line,
    pub line13: Line,
}

/// The periodic timer.
#[derive(Clone, Copy, Debug, PartialEq, Eq, Structural)]
pub struct Timer {
    /// Update events per second; zero until the timer is set up.
    pub frequency: u32,
    /// Whether the counter runs.
    pub enabled: bool,
    /// Whether an update event is flagged and not yet cleared.
    pub update: bool,
}

/// What the application is doing.
#[derive(Clone, Copy, Debug, PartialEq, Eq, Structural)]
pub enum Mode {
    Stopped,
    Running(i32),
}

/// The state that the tasks share.
#[derive(Clone, Copy, Debug, PartialEq, Eq, Structural)]
pub struct State {
    pub mode: Mode,
}

impl State {
    /// The state at start: stopped.
    pub fn new() -> (s: State)
        ensures
            s == (State { mode: Mode::Stopped }),
    {
        State { mode: Mode::Stopped }
    }
}

/// The values of all cells, without the cells.
pub struct Board {
    pub dwt: Dwt,
    pub rcc: Rcc,
    pub gpioa: Gpioa,
    pub gpioc: Gpioc,
    pub gpioe: Gpioe,
    pub syscfg: Syscfg,
    pub exti: Exti,
    pub tim7: Timer,
    pub shared: State,
}

/// The board after reset: nothing powered, nothing configured, no event seen.
pub open spec fn reset_board() -> Board {
    Board {
        dwt: Dwt { cycle_counter: false },
        rcc: Rcc { port_a: false, port_c: false, port_e: false, syscfg: false, tim7: false },
        gpioa: Gpioa { pin0: PinMode::Unset },
        gpioc: Gpioc { pin13: PinMode::Unset },
        gpioe: Gpioe { lights: PinMode::Unset },
        syscfg: Syscfg { line13: Port::A },
        exti: Exti {
            line0: Line { unmasked: false, falling: false, pending: false },
            line13: Line { unmasked: false, falling: false, pending: false },
        },
        tim7: Timer { frequency: 0, enabled: false, update: false },
        shared: State { mode: Mode::Stopped },
    }
}

/// The resource table: one cell for each peripheral and one for the shared
/// state. It is made once and handed to initialisation and to the handlers.
#[derive(Debug)]
pub struct Resources {
    pub dwt: Resource<Dwt>,
    pub rcc: Resource<Rcc>,
    pub gpioa: Resource<Gpioa>,
    pub gpioc: Resource<Gpioc>,
    pub gpioe: Resource<Gpioe>,
    pub syscfg: Resource<Syscfg>,
    pub exti: Resource<Exti>,
    pub tim7: Resource<Timer>,
    pub shared: Resource<State>,
}

impl Resources {
    /// The values that the cells hold.
    pub open spec fn view(&self) -> Board {
        Board {
            dwt: self.dwt.value(),
            rcc: self.rcc.value(),
            gpioa: self.gpioa.value(),
            gpioc: self.gpioc.value(),
            gpioe: self.gpioe.value(),
            syscfg: self.syscfg.value(),
            exti: self.exti.value(),
            tim7: self.tim7.value(),
            shared: self.shared.value(),
        }
    }

    /// Each cell has the ceiling that the table gives it: what the tasks share
    /// is at the tasks' ceiling, the rest at the background's.
    pub open spec fn wf(&self) -> bool {
        &&& self.dwt.ceiling() == BACKGROUND_CEILING
        &&& self.rcc.ceiling() == BACKGROUND_CEILING
        &&& self.gpioa.ceiling() == BACKGROUND_CEILING
        &&& self.gpioc.ceiling() == BACKGROUND_CEILING
        &&& self.gpioe.ceiling() == BACKGROUND_CEILING
        &&& self.syscfg.ceiling() == BACKGROUND_CEILING
        &&& self.exti.ceiling() == TASK_CEILING
        &&& self.tim7.ceiling() == TASK_CEILING
        &&& self.shared.ceiling() == TASK_CEILING
    }

    /// The table over a board that was just reset.
    pub fn new() -> (r: Resources)
        ensures
            r.wf(),
            r@ == reset_board(),
    {
        let line = Line { unmasked: false, falling: false, pending: false };
        Resources {
            dwt: Resource::new(BACKGROUND_CEILING, Dwt { cycle_counter: false }),
            rcc: Resource::new(
                BACKGROUND_CEILING,
                Rcc { port_a: false, port_c: false, port_e: false, syscfg: false, tim7: false },
            ),
            gpioa: Resource::new(BACKGROUND_CEILING, Gpioa { pin0: PinMode::Unset }),
            gpioc: Resource::new(BACKGROUND_CEILING, Gpioc { pin13: PinMode::Unset }),
            gpioe: Resource::new(BACKGROUND_CEILING, Gpioe { lights: PinMode::Unset }),
            syscfg: Resource::new(BACKGROUND_CEILING, Syscfg { line13: Port::A }),
            exti: Resource::new(TASK_CEILING, Exti { line0: line, line13: line }),
            tim7: Resource::new(
                TASK_CEILING,
                Timer { frequency: 0, enabled: false, update: false },
            ),
            shared: Resource::new(TASK_CEILING, State::new()),
        }
    }
}

} // verus!
