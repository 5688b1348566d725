//! Scenario tests driving the dispatch machine through real event
//! sequences, checking commands, states, and bookkeeping.

use elevator::logic::{Command, Event, Indicator};
use elevator::states::{ElevatorAfterEvent, IdleElevator};

fn new_machine() -> ElevatorAfterEvent {
    ElevatorAfterEvent::Idle(IdleElevator::new())
}

/// Drive a sequence of events, ignoring the commands.
fn drive(mut elevator: ElevatorAfterEvent, events: Vec<Event>) -> ElevatorAfterEvent {
    for event in events {
        assert!(elevator.accepts(&event));
        let (_, next) = elevator.handle(event);
        elevator = next;
    }
    elevator
}

/// An idle machine parked at the given floor, reached by real events.
fn idle_at(floor: u8) -> ElevatorAfterEvent {
    let mut elevator = new_machine();
    if floor > 1 {
        let mut events = vec![Event::Panel(floor)];
        for f in 2..=floor {
            events.push(Event::Arrived(f));
        }
        events.push(Event::Closed(floor));
        elevator = drive(elevator, events);
    }
    assert!(matches!(elevator, ElevatorAfterEvent::Idle(_)));
    elevator
}

#[test]
fn idle_panel_current_opens() {
    let elevator = new_machine();
    let (command, next) = elevator.handle(Event::Panel(1));
    assert_eq!(
        command,
        Some(Command::OpenDoor { floor: 1, direction: Indicator::Off })
    );
    assert!(matches!(next, ElevatorAfterEvent::Open(_)));
}

#[test]
fn idle_up_current_opens_up() {
    let elevator = new_machine();
    let (command, next) = elevator.handle(Event::Up(1));
    assert_eq!(
        command,
        Some(Command::OpenDoor { floor: 1, direction: Indicator::Up })
    );
    assert!(matches!(next, ElevatorAfterEvent::OpenUp(_)));
}

#[test]
fn idle_down_current_opens_down() {
    let elevator = idle_at(3);
    let (command, next) = elevator.handle(Event::Down(3));
    assert_eq!(
        command,
        Some(Command::OpenDoor { floor: 3, direction: Indicator::Down })
    );
    assert!(matches!(next, ElevatorAfterEvent::OpenDown(_)));
}

#[test]
fn movement_dispatch() {
    let elevator = new_machine();
    let (command, next) = elevator.handle(Event::Panel(3));
    assert_eq!(command, Some(Command::MoveUp));
    assert!(matches!(next, ElevatorAfterEvent::MovingUp(_)));
    assert!(next.get_destination(3));
}

#[test]
fn continue_past_floor() {
    let elevator = new_machine();
    let elevator = drive(elevator, vec![Event::Panel(3)]);
    let (command, elevator) = elevator.handle(Event::Arrived(2));
    assert_eq!(command, None);
    assert!(matches!(elevator, ElevatorAfterEvent::MovingUp(_)));
    assert_eq!(elevator.highest_request(), 3);
    assert!(!elevator.get_up_request(3));
    let (command, next) = elevator.handle(Event::Arrived(3));
    assert_eq!(
        command,
        Some(Command::StopAndOpen { floor: 3, direction: Indicator::Down })
    );
    assert!(matches!(next, ElevatorAfterEvent::OpenDown(_)));
}

#[test]
fn drain_to_idle() {
    let elevator = new_machine();
    let elevator = drive(elevator, vec![Event::Panel(1)]);
    assert!(matches!(elevator, ElevatorAfterEvent::Open(_)));
    assert!(!elevator.have_requests());
    let (command, next) = elevator.handle(Event::Closed(1));
    assert_eq!(command, None);
    assert!(matches!(next, ElevatorAfterEvent::Idle(_)));
}

#[test]
fn direction_reversal() {
    let elevator = idle_at(3);
    let (command, elevator) = elevator.handle(Event::Up(1));
    assert_eq!(command, Some(Command::MoveDown));
    assert!(matches!(elevator, ElevatorAfterEvent::MovingDown(_)));
    let (command, elevator) = elevator.handle(Event::Arrived(2));
    assert_eq!(command, None);
    assert!(!elevator.get_down_request(1));
    assert!(elevator.get_up_request(1));
    assert_eq!(elevator.lowest_request(), 1);
    let (command, next) = elevator.handle(Event::Arrived(1));
    assert_eq!(
        command,
        Some(Command::StopAndOpen { floor: 1, direction: Indicator::Up })
    );
    assert!(matches!(next, ElevatorAfterEvent::OpenUp(_)));
}

#[test]
fn open_rejects_same_floor_panel_without_mutation() {
    let elevator = new_machine();
    let elevator = drive(elevator, vec![Event::Panel(1)]);
    assert!(matches!(elevator, ElevatorAfterEvent::Open(_)));
    let (command, next) = elevator.handle(Event::Panel(1));
    assert_eq!(command, Some(Command::RejectEvent(Event::Panel(1))));
    assert!(matches!(next, ElevatorAfterEvent::Open(_)));
    assert!(!next.have_requests());
}

#[test]
fn open_up_rejects_same_floor_presses_without_mutation() {
    let elevator = new_machine();
    let elevator = drive(elevator, vec![Event::Up(1)]);
    assert!(matches!(elevator, ElevatorAfterEvent::OpenUp(_)));
    let (command, elevator) = elevator.handle(Event::Panel(1));
    assert_eq!(command, Some(Command::RejectEvent(Event::Panel(1))));
    assert!(!elevator.have_requests());
    let (command, elevator) = elevator.handle(Event::Up(1));
    assert_eq!(command, Some(Command::RejectEvent(Event::Up(1))));
    assert!(!elevator.have_requests());
    assert!(matches!(elevator, ElevatorAfterEvent::OpenUp(_)));
}

#[test]
fn open_down_queues_opposite_call_same_floor() {
    let elevator = idle_at(2);
    let elevator = drive(elevator, vec![Event::Down(2)]);
    assert!(matches!(elevator, ElevatorAfterEvent::OpenDown(_)));
    // An up call for this very floor is always queued, never rejected.
    let (command, next) = elevator.handle(Event::Up(2));
    assert_eq!(command, None);
    assert!(next.get_up_request(2));
}

#[test]
fn moving_up_serves_top_up_call_with_down_indicator() {
    let elevator = new_machine();
    let (command, elevator) = elevator.handle(Event::Up(3));
    assert_eq!(command, Some(Command::MoveUp));
    let elevator = drive(elevator, vec![Event::Arrived(2)]);
    let (command, next) = elevator.handle(Event::Arrived(3));
    assert_eq!(
        command,
        Some(Command::StopAndOpen { floor: 3, direction: Indicator::Down })
    );
    assert!(matches!(next, ElevatorAfterEvent::OpenDown(_)));
}

#[test]
fn open_up_closed_same_floor_reopens_toward_down() {
    let elevator = idle_at(2);
    let elevator = drive(elevator, vec![Event::Up(2), Event::Down(2)]);
    assert!(matches!(elevator, ElevatorAfterEvent::OpenUp(_)));
    let (command, next) = elevator.handle(Event::Closed(2));
    assert_eq!(
        command,
        Some(Command::OpenDoor { floor: 2, direction: Indicator::Up })
    );
    assert!(matches!(next, ElevatorAfterEvent::OpenDown(_)));
}

#[test]
fn open_down_closed_same_floor_changes_indicator_only() {
    let elevator = idle_at(2);
    let elevator = drive(elevator, vec![Event::Down(2), Event::Up(2)]);
    assert!(matches!(elevator, ElevatorAfterEvent::OpenDown(_)));
    let (command, next) = elevator.handle(Event::Closed(2));
    assert_eq!(
        command,
        Some(Command::ChangeIndicator { floor: 2, direction: Indicator::Up })
    );
    assert!(matches!(next, ElevatorAfterEvent::OpenUp(_)));
}

#[test]
fn moving_down_reclears_current_destination() {
    let elevator = idle_at(3);
    let elevator = drive(elevator, vec![Event::Panel(1)]);
    assert!(matches!(elevator, ElevatorAfterEvent::MovingDown(_)));
    // A press for the current floor is recorded ...
    let (command, elevator) = elevator.handle(Event::Panel(3));
    assert_eq!(command, None);
    assert!(elevator.get_destination(3));
    // ... and lost again on the next event, by the defensive re-clear.
    let (_, elevator) = elevator.handle(Event::Arrived(2));
    assert!(!elevator.get_destination(3));
}

#[test]
fn future_events_per_state() {
    let elevator = new_machine();
    assert_eq!(elevator.produce_future_event(), None);
    let (_, moving_up) = elevator.handle(Event::Panel(3));
    assert_eq!(moving_up.produce_future_event(), Some(Event::Arrived(2)));
    let open = drive(new_machine(), vec![Event::Panel(1)]);
    assert_eq!(open.produce_future_event(), Some(Event::Closed(1)));
    let open_up = drive(new_machine(), vec![Event::Up(1)]);
    assert_eq!(open_up.produce_future_event(), Some(Event::Closed(1)));
    let open_down = drive(idle_at(3), vec![Event::Down(3)]);
    assert_eq!(open_down.produce_future_event(), Some(Event::Closed(3)));
    let moving_down = drive(idle_at(3), vec![Event::Panel(1)]);
    assert_eq!(moving_down.produce_future_event(), Some(Event::Arrived(2)));
}

#[test]
fn accepts_guards_the_contract() {
    let elevator = new_machine();
    assert!(elevator.accepts(&Event::Panel(1)));
    assert!(elevator.accepts(&Event::Panel(5)));
    assert!(!elevator.accepts(&Event::Panel(0)));
    assert!(!elevator.accepts(&Event::Panel(6)));
    assert!(!elevator.accepts(&Event::Arrived(2)));
    assert!(!elevator.accepts(&Event::Closed(1)));
    let open = drive(new_machine(), vec![Event::Panel(1)]);
    assert!(open.accepts(&Event::Closed(1)));
    let moving = drive(new_machine(), vec![Event::Panel(3)]);
    assert!(moving.accepts(&Event::Arrived(2)));
    assert!(!moving.accepts(&Event::Closed(3)));
}

#[test]
fn accepts_refuses_closing_on_unservable_requests() {
    // Force a hall call onto the current floor of an Open state; closing the
    // doors there would strand that request, which the machine refuses.
    let mut open = drive(new_machine(), vec![Event::Panel(1)]);
    assert!(open.accepts(&Event::Closed(1)));
    open.set_up_request(1, true);
    assert!(!open.accepts(&Event::Closed(1)));
    assert!(!open.check_invariants());
    // A request above makes movement possible again.
    open.set_destination(4, true);
    assert!(open.accepts(&Event::Closed(1)));
}

#[test]
fn check_invariants_along_a_trip() {
    let mut elevator = new_machine();
    assert!(elevator.check_invariants());
    for event in [
        Event::Panel(4),
        Event::Arrived(2),
        Event::Down(2),
        Event::Arrived(3),
        Event::Arrived(4),
        Event::Closed(4),
        Event::Arrived(3),
        Event::Arrived(2),
        Event::Closed(2),
    ] {
        assert!(elevator.accepts(&event));
        let (_, next) = elevator.handle(event);
        elevator = next;
        assert!(elevator.check_invariants());
    }
    assert!(matches!(elevator, ElevatorAfterEvent::Idle(_)));
    assert!(!elevator.have_requests());
}

#[test]
fn board_accessors_on_the_machine() {
    let mut elevator = new_machine();
    elevator.set_destination(2, true);
    elevator.set_up_request(3, true);
    elevator.set_down_request(4, true);
    assert!(elevator.get_destination(2));
    assert!(elevator.get_up_request(3));
    assert!(elevator.get_down_request(4));
    assert!(!elevator.get_destination(3));
    assert!(elevator.have_requests());
    assert_eq!(elevator.highest_request(), 4);
    assert_eq!(elevator.lowest_request(), 2);
    elevator.set_destination(2, false);
    elevator.set_up_request(3, false);
    elevator.set_down_request(4, false);
    assert!(!elevator.have_requests());
}
