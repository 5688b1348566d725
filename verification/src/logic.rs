//! The vocabulary of the dispatcher: floors, events coming in from the world,
//! commands going out to it.

use vstd::prelude::*;

verus! {

/// Bottom of the served floor range.
pub const LOWEST_FLOOR: u8 = 1;

/// Top of the served floor range.
pub const HIGHEST_FLOOR: u8 = 5;

/// A floor the car can serve.
pub open spec fn in_floor_range(f: int) -> bool {
    LOWEST_FLOOR <= f <= HIGHEST_FLOOR
}

/// What the car is asked to do next. At most one command is emitted per event.
#[derive(Debug, PartialEq)]
pub enum Command {
    MoveUp,
    MoveDown,
    StopAndOpen { floor: u8, direction: Indicator },
    OpenDoor { floor: u8, direction: Indicator },
    ChangeIndicator { floor: u8, direction: Indicator },
    RejectEvent(Event),
}

/// The hall lamp shown while the doors stand open.
#[derive(Debug, PartialEq)]
pub enum Indicator {
    Up,
    Down,
    Off,
}

/// What the world reports: button presses, the position sensor, the door sensor.
#[derive(Debug, PartialEq)]
pub enum Event {
    Panel(u8),
    Up(u8),
    Down(u8),
    Arrived(u8),
    Closed(u8),
}

} // verus!
