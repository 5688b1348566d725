//! Tests of the wire boundary: command rendering, token parsing, and the
//! stop-acknowledgment machine.

use elevator::logic::{Command, Event, Indicator};
use elevator::wire::{adapter_step, encode_command, note_sent, parse_token, AdapterState, InboundToken};

fn tokens(command: Command) -> Vec<Vec<u8>> {
    encode_command(&command)
}

fn bytes(strings: &[&str]) -> Vec<Vec<u8>> {
    strings.iter().map(|s| s.as_bytes().to_vec()).collect()
}

#[test]
fn encode_moves() {
    assert_eq!(tokens(Command::MoveUp), bytes(&["MU"]));
    assert_eq!(tokens(Command::MoveDown), bytes(&["MD"]));
}

#[test]
fn encode_stop_and_open() {
    assert_eq!(
        tokens(Command::StopAndOpen { floor: 3, direction: Indicator::Up }),
        bytes(&["S", "CP3", "IU3", "CU3"])
    );
    assert_eq!(
        tokens(Command::StopAndOpen { floor: 2, direction: Indicator::Down }),
        bytes(&["S", "CP2", "ID2", "CD2"])
    );
    assert_eq!(
        tokens(Command::StopAndOpen { floor: 4, direction: Indicator::Off }),
        bytes(&["S", "CP4"])
    );
}

#[test]
fn encode_open_door() {
    assert_eq!(
        tokens(Command::OpenDoor { floor: 1, direction: Indicator::Off }),
        bytes(&["DO", "CP1"])
    );
    assert_eq!(
        tokens(Command::OpenDoor { floor: 5, direction: Indicator::Up }),
        bytes(&["DO", "CP5", "IU5", "CU5"])
    );
}

#[test]
fn encode_change_indicator() {
    assert_eq!(
        tokens(Command::ChangeIndicator { floor: 2, direction: Indicator::Down }),
        bytes(&["ID2", "CD2"])
    );
    assert_eq!(
        tokens(Command::ChangeIndicator { floor: 2, direction: Indicator::Up }),
        bytes(&["IU2", "CU2"])
    );
    assert_eq!(
        tokens(Command::ChangeIndicator { floor: 2, direction: Indicator::Off }),
        bytes(&[])
    );
}

#[test]
fn encode_rejects() {
    assert_eq!(tokens(Command::RejectEvent(Event::Panel(3))), bytes(&["CP3"]));
    assert_eq!(tokens(Command::RejectEvent(Event::Up(2))), bytes(&["CU2"]));
    assert_eq!(tokens(Command::RejectEvent(Event::Down(4))), bytes(&["CD4"]));
    assert_eq!(tokens(Command::RejectEvent(Event::Arrived(1))), bytes(&[]));
    assert_eq!(tokens(Command::RejectEvent(Event::Closed(1))), bytes(&[]));
}

#[test]
fn parse_known_tokens() {
    assert_eq!(parse_token(b"P3"), Some(InboundToken::Panel(3)));
    assert_eq!(parse_token(b"U1"), Some(InboundToken::Up(1)));
    assert_eq!(parse_token(b"D4"), Some(InboundToken::Down(4)));
    assert_eq!(parse_token(b"C2"), Some(InboundToken::DoorClosed(2)));
    assert_eq!(parse_token(b"A5"), Some(InboundToken::Arrived(5)));
    assert_eq!(parse_token(b"S0"), Some(InboundToken::StopAck(0)));
    assert_eq!(parse_token(b"O0"), Some(InboundToken::OpenAck(0)));
}

#[test]
fn parse_protocol_errors() {
    assert_eq!(parse_token(b"X3"), None);
    assert_eq!(parse_token(b"P"), None);
    assert_eq!(parse_token(b"PA"), None);
    assert_eq!(parse_token(b"CP3"), None);
    assert_eq!(parse_token(b""), None);
}

#[test]
fn adapter_surfaces_events() {
    let step = adapter_step(AdapterState::Idle, &InboundToken::Panel(3));
    assert_eq!(step.deliver, Some(Event::Panel(3)));
    assert_eq!(step.reply, None);
    assert_eq!(step.next, AdapterState::Idle);
    let step = adapter_step(AdapterState::Idle, &InboundToken::Arrived(2));
    assert_eq!(step.deliver, Some(Event::Arrived(2)));
    assert_eq!(step.reply, None);
}

#[test]
fn adapter_acknowledges_closed_doors() {
    let step = adapter_step(AdapterState::Idle, &InboundToken::DoorClosed(2));
    assert_eq!(step.deliver, Some(Event::Closed(2)));
    assert_eq!(step.reply, Some(b"CI2".to_vec()));
    assert_eq!(step.next, AdapterState::Idle);
}

#[test]
fn adapter_two_phase_stop_acknowledgment() {
    let st = note_sent(
        AdapterState::Idle,
        &Command::StopAndOpen { floor: 3, direction: Indicator::Up },
    );
    assert_eq!(st, AdapterState::AwaitingStopAck);
    // The first stop acknowledgment triggers the door-open reply, once.
    let step = adapter_step(st, &InboundToken::StopAck(0));
    assert_eq!(step.deliver, None);
    assert_eq!(step.reply, Some(b"DO".to_vec()));
    assert_eq!(step.next, AdapterState::Idle);
    let step = adapter_step(step.next, &InboundToken::StopAck(0));
    assert_eq!(step.deliver, None);
    assert_eq!(step.reply, None);
    assert_eq!(step.next, AdapterState::Idle);
}

#[test]
fn adapter_arrival_clears_outstanding_stop() {
    let step = adapter_step(AdapterState::AwaitingStopAck, &InboundToken::Arrived(3));
    assert_eq!(step.deliver, Some(Event::Arrived(3)));
    assert_eq!(step.next, AdapterState::Idle);
}

#[test]
fn note_sent_only_tracks_stops() {
    assert_eq!(note_sent(AdapterState::Idle, &Command::MoveUp), AdapterState::Idle);
    assert_eq!(
        note_sent(
            AdapterState::AwaitingStopAck,
            &Command::OpenDoor { floor: 1, direction: Indicator::Off },
        ),
        AdapterState::AwaitingStopAck
    );
}

#[test]
fn adapter_ignores_open_acknowledgment() {
    let step = adapter_step(AdapterState::AwaitingStopAck, &InboundToken::OpenAck(0));
    assert_eq!(step.deliver, None);
    assert_eq!(step.reply, None);
    assert_eq!(step.next, AdapterState::AwaitingStopAck);
}
