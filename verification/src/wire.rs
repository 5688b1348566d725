//! The datagram boundary with the simulator, kept apart from the machine:
//! rendering commands as token sequences, parsing inbound tokens, and the
//! two-phase stop acknowledgment, stated as a two-state machine instead of
//! the bare flag it once was. Everything here is computation on bytes; the
//! socket work stays with the host.

use vstd::prelude::*;
use crate::logic::{Command, Event, Indicator};

verus! {

/// ASCII bytes of the protocol's token letters.
pub const A_UPPER: u8 = 65;
pub const C_UPPER: u8 = 67;
pub const D_UPPER: u8 = 68;
pub const I_UPPER: u8 = 73;
pub const M_UPPER: u8 = 77;
pub const O_UPPER: u8 = 79;
pub const P_UPPER: u8 = 80;
pub const S_UPPER: u8 = 83;
pub const U_UPPER: u8 = 85;

/// The single ASCII digit a floor is written as on the wire.
pub open spec fn spec_floor_digit(f: u8) -> u8
    recommends
        f <= 9,
{
    (f + 48) as u8
}

fn floor_digit(f: u8) -> (d: u8)
    requires
        f <= 9,
    ensures
        d == spec_floor_digit(f),
{
    f + 48
}

/// The indicator pair sent while doors open toward a direction: lamp token,
/// then call-clear token; nothing when no lamp is shown.
pub open spec fn spec_indicator_tokens(direction: Indicator, f: u8) -> Seq<Seq<u8>> {
    match direction {
        Indicator::Up => seq![
            seq![I_UPPER, U_UPPER, spec_floor_digit(f)],
            seq![C_UPPER, U_UPPER, spec_floor_digit(f)],
        ],
        Indicator::Down => seq![
            seq![I_UPPER, D_UPPER, spec_floor_digit(f)],
            seq![C_UPPER, D_UPPER, spec_floor_digit(f)],
        ],
        Indicator::Off => seq![],
    }
}

/// The token sequence a command is rendered as.
pub open spec fn spec_command_tokens(command: Command) -> Seq<Seq<u8>> {
    match command {
        Command::MoveUp => seq![seq![M_UPPER, U_UPPER]],
        Command::MoveDown => seq![seq![M_UPPER, D_UPPER]],
        Command::StopAndOpen { floor, direction } => seq![
            seq![S_UPPER],
            seq![C_UPPER, P_UPPER, spec_floor_digit(floor)],
        ] + spec_indicator_tokens(direction, floor),
        Command::OpenDoor { floor, direction } => seq![
            seq![D_UPPER, O_UPPER],
            seq![C_UPPER, P_UPPER, spec_floor_digit(floor)],
        ] + spec_indicator_tokens(direction, floor),
        Command::ChangeIndicator { floor, direction } =>
            spec_indicator_tokens(direction, floor),
        Command::RejectEvent(event) => match event {
            Event::Panel(f) => seq![seq![C_UPPER, P_UPPER, spec_floor_digit(f)]],
            Event::Up(f) => seq![seq![C_UPPER, U_UPPER, spec_floor_digit(f)]],
            Event::Down(f) => seq![seq![C_UPPER, D_UPPER, spec_floor_digit(f)]],
            _ => seq![],
        },
    }
}

/// Every floor a command names fits in the one wire digit.
pub open spec fn command_floors_fit(command: Command) -> bool {
    match command {
        Command::MoveUp => true,
        Command::MoveDown => true,
        Command::StopAndOpen { floor, .. } => floor <= 9,
        Command::OpenDoor { floor, .. } => floor <= 9,
        Command::ChangeIndicator { floor, .. } => floor <= 9,
        Command::RejectEvent(event) => match event {
            Event::Panel(f) => f <= 9,
            Event::Up(f) => f <= 9,
            Event::Down(f) => f <= 9,
            _ => true,
        },
    }
}

fn tok1(a: u8) -> (t: Vec<u8>)
    ensures
        t@ == seq![a],
{
    let mut t: Vec<u8> = Vec::new();
    t.push(a);
    proof {
        assert(t@ =~= seq![a]);
    }
    t
}

fn tok2(a: u8, b: u8) -> (t: Vec<u8>)
    ensures
        t@ == seq![a, b],
{
    let mut t: Vec<u8> = Vec::new();
    t.push(a);
    t.push(b);
    proof {
        assert(t@ =~= seq![a, b]);
    }
    t
}

fn tok3(a: u8, b: u8, c: u8) -> (t: Vec<u8>)
    ensures
        t@ == seq![a, b, c],
{
    let mut t: Vec<u8> = Vec::new();
    t.push(a);
    t.push(b);
    t.push(c);
    proof {
        assert(t@ =~= seq![a, b, c]);
    }
    t
}

fn push_indicator_tokens(out: &mut Vec<Vec<u8>>, direction: &Indicator, floor: u8)
    requires
        floor <= 9,
    ensures
        ({
            let tail = spec_indicator_tokens(*direction, floor);
            &&& final(out)@.len() == old(out)@.len() + tail.len()
            &&& forall|i: int|
                0 <= i < old(out)@.len() ==> final(out)@[i] == old(out)@[i]
            &&& forall|i: int|
                0 <= i < tail.len() ==> final(out)@[old(out)@.len() + i]@ == tail[i]
        }),
{
    let d = floor_digit(floor);
    match direction {
        Indicator::Up => {
            out.push(tok3(I_UPPER, U_UPPER, d));
            out.push(tok3(C_UPPER, U_UPPER, d));
        },
        Indicator::Down => {
            out.push(tok3(I_UPPER, D_UPPER, d));
            out.push(tok3(C_UPPER, D_UPPER, d));
        },
        Indicator::Off => {},
    }
}

/// Render a command as the exact token sequence the simulator expects.
pub fn encode_command(command: &Command) -> (r: Vec<Vec<u8>>)
    requires
        command_floors_fit(*command),
    ensures
        r@.len() == spec_command_tokens(*command).len(),
        forall|i: int|
            0 <= i < r@.len() ==> r@[i]@ == spec_command_tokens(*command)[i],
{
    let mut out: Vec<Vec<u8>> = Vec::new();
    match command {
        Command::MoveUp => {
            out.push(tok2(M_UPPER, U_UPPER));
        },
        Command::MoveDown => {
            out.push(tok2(M_UPPER, D_UPPER));
        },
        Command::StopAndOpen { floor, direction } => {
            out.push(tok1(S_UPPER));
            out.push(tok3(C_UPPER, P_UPPER, floor_digit(*floor)));
            push_indicator_tokens(&mut out, direction, *floor);
        },
        Command::OpenDoor { floor, direction } => {
            out.push(tok2(D_UPPER, O_UPPER));
            out.push(tok3(C_UPPER, P_UPPER, floor_digit(*floor)));
            push_indicator_tokens(&mut out, direction, *floor);
        },
        Command::ChangeIndicator { floor, direction } => {
            push_indicator_tokens(&mut out, direction, *floor);
        },
        Command::RejectEvent(event) => {
            match event {
                Event::Panel(f) => {
                    out.push(tok3(C_UPPER, P_UPPER, floor_digit(*f)));
                },
                Event::Up(f) => {
                    out.push(tok3(C_UPPER, U_UPPER, floor_digit(*f)));
                },
                Event::Down(f) => {
                    out.push(tok3(C_UPPER, D_UPPER, floor_digit(*f)));
                },
                Event::Arrived(_) => {},
                Event::Closed(_) => {},
            }
        },
    }
    out
}

/// One token read off the wire, classified by its prefix letter. The stop
/// and open acknowledgments never reach the dispatch machine.
#[derive(Debug, PartialEq)]
pub enum InboundToken {
    Panel(u8),
    Up(u8),
    Down(u8),
    DoorClosed(u8),
    Arrived(u8),
    StopAck(u8),
    OpenAck(u8),
}

pub open spec fn is_ascii_digit(c: u8) -> bool {
    48 <= c <= 57
}

/// What a raw token means: one prefix letter, then the floor digit.
/// Anything else is the protocol error the adapter treats as fatal.
pub open spec fn spec_parse_token(t: Seq<u8>) -> Option<InboundToken> {
    if t.len() == 2 && is_ascii_digit(t[1]) {
        let f = (t[1] - 48) as u8;
        if t[0] == P_UPPER {
            Some(InboundToken::Panel(f))
        } else if t[0] == U_UPPER {
            Some(InboundToken::Up(f))
        } else if t[0] == D_UPPER {
            Some(InboundToken::Down(f))
        } else if t[0] == C_UPPER {
            Some(InboundToken::DoorClosed(f))
        } else if t[0] == A_UPPER {
            Some(InboundToken::Arrived(f))
        } else if t[0] == S_UPPER {
            Some(InboundToken::StopAck(f))
        } else if t[0] == O_UPPER {
            Some(InboundToken::OpenAck(f))
        } else {
            None
        }
    } else {
        None
    }
}

/// Classify a raw token; `None` is a protocol error.
pub fn parse_token(t: &[u8]) -> (r: Option<InboundToken>)
    ensures
        r == spec_parse_token(t@),
{
    if t.len() != 2 {
        return None;
    }
    let c = t[1];
    if c < 48 || c > 57 {
        return None;
    }
    let f = c - 48;
    match t[0] {
        P_UPPER => Some(InboundToken::Panel(f)),
        U_UPPER => Some(InboundToken::Up(f)),
        D_UPPER => Some(InboundToken::Down(f)),
        C_UPPER => Some(InboundToken::DoorClosed(f)),
        A_UPPER => Some(InboundToken::Arrived(f)),
        S_UPPER => Some(InboundToken::StopAck(f)),
        O_UPPER => Some(InboundToken::OpenAck(f)),
        _ => None,
    }
}

/// The adapter between two tokens: either nothing is outstanding, or a stop
/// command was sent and its acknowledgment is still owed a door-open reply.
#[derive(Debug, PartialEq, Eq, Clone, Copy)]
pub enum AdapterState {
    Idle,
    AwaitingStopAck,
}

/// What the adapter does with one classified token: the event it surfaces
/// to the machine, the raw reply it owes the wire, and its next state.
pub struct AdapterStep {
    pub deliver: Option<Event>,
    pub reply: Option<Vec<u8>>,
    pub next: AdapterState,
}

pub open spec fn spec_deliver(token: InboundToken) -> Option<Event> {
    match token {
        InboundToken::Panel(f) => Some(Event::Panel(f)),
        InboundToken::Up(f) => Some(Event::Up(f)),
        InboundToken::Down(f) => Some(Event::Down(f)),
        InboundToken::DoorClosed(f) => Some(Event::Closed(f)),
        InboundToken::Arrived(f) => Some(Event::Arrived(f)),
        InboundToken::StopAck(_) => None,
        InboundToken::OpenAck(_) => None,
    }
}

pub open spec fn spec_reply(st: AdapterState, token: InboundToken) -> Option<Seq<u8>> {
    match token {
        InboundToken::DoorClosed(f) => Some(seq![C_UPPER, I_UPPER, spec_floor_digit(f)]),
        InboundToken::StopAck(_) => if st is AwaitingStopAck {
            Some(seq![D_UPPER, O_UPPER])
        } else {
            None
        },
        _ => None,
    }
}

pub open spec fn spec_next(st: AdapterState, token: InboundToken) -> AdapterState {
    match token {
        InboundToken::Arrived(_) => AdapterState::Idle,
        InboundToken::StopAck(_) => AdapterState::Idle,
        _ => st,
    }
}

pub open spec fn opt_bytes(o: Option<Vec<u8>>) -> Option<Seq<u8>> {
    match o {
        Some(v) => Some(v@),
        None => None,
    }
}

/// The adapter state after a command went out: a stop command leaves its
/// acknowledgment outstanding.
pub fn note_sent(st: AdapterState, command: &Command) -> (r: AdapterState)
    ensures
        r == (if command is StopAndOpen {
            AdapterState::AwaitingStopAck
        } else {
            st
        }),
{
    match command {
        Command::StopAndOpen { .. } => AdapterState::AwaitingStopAck,
        _ => st,
    }
}

/// Decide what one inbound token means for the machine and for the wire:
/// calls and sensors surface as events, a closed door is acknowledged with
/// an indicator-clear reply, and the outstanding stop acknowledgment turns
/// into the door-open reply exactly once.
pub fn adapter_step(st: AdapterState, token: &InboundToken) -> (r: AdapterStep)
    requires
        token matches InboundToken::DoorClosed(f) ==> f <= 9,
    ensures
        r.deliver == spec_deliver(*token),
        opt_bytes(r.reply) == spec_reply(st, *token),
        r.next == spec_next(st, *token),
{
    match token {
        InboundToken::Panel(f) => AdapterStep {
            deliver: Some(Event::Panel(*f)),
            reply: None,
            next: st,
        },
        InboundToken::Up(f) => AdapterStep {
            deliver: Some(Event::Up(*f)),
            reply: None,
            next: st,
        },
        InboundToken::Down(f) => AdapterStep {
            deliver: Some(Event::Down(*f)),
            reply: None,
            next: st,
        },
        InboundToken::DoorClosed(f) => AdapterStep {
            deliver: Some(Event::Closed(*f)),
            reply: Some(tok3(C_UPPER, I_UPPER, floor_digit(*f))),
            next: st,
        },
        InboundToken::Arrived(f) => AdapterStep {
            deliver: Some(Event::Arrived(*f)),
            reply: None,
            next: AdapterState::Idle,
        },
        InboundToken::StopAck(_) => match st {
            AdapterState::AwaitingStopAck => AdapterStep {
                deliver: None,
                reply: Some(tok2(D_UPPER, O_UPPER)),
                next: AdapterState::Idle,
            },
            AdapterState::Idle => AdapterStep {
                deliver: None,
                reply: None,
                next: st,
            },
        },
        InboundToken::OpenAck(_) => AdapterStep {
            deliver: None,
            reply: None,
            next: st,
        },
    }
}

} // verus!
