//! The elevator proper: per-floor request bookkeeping and the six-state
//! dispatch machine, modelled as one struct per state inside a closed sum
//! type whose transitions consume the old state.

use vstd::prelude::*;
use crate::logic::{in_floor_range, Command, Event, Indicator, HIGHEST_FLOOR, LOWEST_FLOOR};

verus! {

/// How many floors the board keeps bits for.
pub open spec fn num_floors() -> int {
    HIGHEST_FLOOR - LOWEST_FLOOR + 1
}

/// Mathematical view of the request board together with the car's position:
/// one flag per floor for car destinations, up hall calls and down hall calls.
/// Index `f - LOWEST_FLOOR` holds floor `f`.
pub struct BoardModel {
    pub floor: int,
    pub dest: Seq<bool>,
    pub up: Seq<bool>,
    pub down: Seq<bool>,
}

impl BoardModel {
    /// The three flag rows cover exactly the floor range, and the car stands
    /// on a floor of that range.
    pub open spec fn wf(self) -> bool {
        &&& self.dest.len() == num_floors()
        &&& self.up.len() == num_floors()
        &&& self.down.len() == num_floors()
        &&& in_floor_range(self.floor)
    }

    pub open spec fn dest_at(self, f: int) -> bool {
        self.dest[f - LOWEST_FLOOR]
    }

    pub open spec fn up_at(self, f: int) -> bool {
        self.up[f - LOWEST_FLOOR]
    }

    pub open spec fn down_at(self, f: int) -> bool {
        self.down[f - LOWEST_FLOOR]
    }

    /// Some request of any kind targets floor `f`.
    pub open spec fn pending_at(self, f: int) -> bool {
        self.dest_at(f) || self.up_at(f) || self.down_at(f)
    }

    /// Some request is pending somewhere.
    pub open spec fn has_any(self) -> bool {
        exists|f: int| in_floor_range(f) && #[trigger] self.pending_at(f)
    }

    /// Scan the top `k` floors of the range downward for a pending request;
    /// fall back to the car's floor when none is found.
    pub open spec fn highest_scan(self, k: nat) -> int
        decreases k,
    {
        if k == 0 {
            self.floor
        } else if self.pending_at(LOWEST_FLOOR + k - 1) {
            LOWEST_FLOOR + k - 1
        } else {
            self.highest_scan((k - 1) as nat)
        }
    }

    /// The topmost floor with any pending request, or the car's floor when
    /// the board is empty.
    pub open spec fn highest(self) -> int {
        self.highest_scan(num_floors() as nat)
    }

    /// Scan the bottom `k` floors of the range upward for a pending request;
    /// fall back to the car's floor when none is found.
    pub open spec fn lowest_scan(self, k: nat) -> int
        decreases k,
    {
        if k == 0 {
            self.floor
        } else if self.pending_at(HIGHEST_FLOOR - k + 1) {
            HIGHEST_FLOOR - k + 1
        } else {
            self.lowest_scan((k - 1) as nat)
        }
    }

    /// The bottommost floor with any pending request, or the car's floor when
    /// the board is empty.
    pub open spec fn lowest(self) -> int {
        self.lowest_scan(num_floors() as nat)
    }

    /// The board with the destination bit of floor `f` set to `v`.
    pub open spec fn with_dest(self, f: int, v: bool) -> BoardModel {
        BoardModel { dest: self.dest.update(f - LOWEST_FLOOR, v), ..self }
    }

    /// The board with the up-call bit of floor `f` set to `v`.
    pub open spec fn with_up(self, f: int, v: bool) -> BoardModel {
        BoardModel { up: self.up.update(f - LOWEST_FLOOR, v), ..self }
    }

    /// The board with the down-call bit of floor `f` set to `v`.
    pub open spec fn with_down(self, f: int, v: bool) -> BoardModel {
        BoardModel { down: self.down.update(f - LOWEST_FLOOR, v), ..self }
    }

    /// The board with the car moved to floor `f`.
    pub open spec fn at_floor(self, f: int) -> BoardModel {
        BoardModel { floor: f, ..self }
    }
}

proof fn lemma_highest_scan_props(b: BoardModel, k: nat)
    requires
        b.wf(),
        k <= num_floors(),
    ensures
        forall|g: int|
            b.highest_scan(k) < g < LOWEST_FLOOR + k ==> !(#[trigger] b.pending_at(g)),
        (exists|g: int| LOWEST_FLOOR <= g < LOWEST_FLOOR + k && #[trigger] b.pending_at(g))
            ==> LOWEST_FLOOR <= b.highest_scan(k) < LOWEST_FLOOR + k
                && b.pending_at(b.highest_scan(k)),
        !(exists|g: int| LOWEST_FLOOR <= g < LOWEST_FLOOR + k && #[trigger] b.pending_at(g))
            ==> b.highest_scan(k) == b.floor,
    decreases k,
{
    if k > 0 {
        lemma_highest_scan_props(b, (k - 1) as nat);
    }
}

proof fn lemma_lowest_scan_props(b: BoardModel, k: nat)
    requires
        b.wf(),
        k <= num_floors(),
    ensures
        forall|g: int|
            HIGHEST_FLOOR - k < g < b.lowest_scan(k) ==> !(#[trigger] b.pending_at(g)),
        (exists|g: int| HIGHEST_FLOOR - k < g <= HIGHEST_FLOOR && #[trigger] b.pending_at(g))
            ==> HIGHEST_FLOOR - k < b.lowest_scan(k) <= HIGHEST_FLOOR
                && b.pending_at(b.lowest_scan(k)),
        !(exists|g: int| HIGHEST_FLOOR - k < g <= HIGHEST_FLOOR && #[trigger] b.pending_at(g))
            ==> b.lowest_scan(k) == b.floor,
    decreases k,
{
    if k > 0 {
        lemma_lowest_scan_props(b, (k - 1) as nat);
    }
}

/// What `highest` means: on a non-empty board it is the topmost pending
/// floor; on an empty board it is the car's floor.
pub proof fn lemma_highest_props(b: BoardModel)
    requires
        b.wf(),
    ensures
        b.has_any() ==> in_floor_range(b.highest()) && b.pending_at(b.highest()),
        forall|g: int|
            in_floor_range(g) && #[trigger] b.pending_at(g) ==> g <= b.highest(),
        !b.has_any() ==> b.highest() == b.floor,
{
    lemma_highest_scan_props(b, num_floors() as nat);
}

/// What `lowest` means: on a non-empty board it is the bottommost pending
/// floor; on an empty board it is the car's floor.
pub proof fn lemma_lowest_props(b: BoardModel)
    requires
        b.wf(),
    ensures
        b.has_any() ==> in_floor_range(b.lowest()) && b.pending_at(b.lowest()),
        forall|g: int|
            in_floor_range(g) && #[trigger] b.pending_at(g) ==> g >= b.lowest(),
        !b.has_any() ==> b.lowest() == b.floor,
{
    lemma_lowest_scan_props(b, num_floors() as nat);
}

/// The six states of the machine, each over its view of the shared data.
pub enum StateModel {
    Idle(BoardModel),
    MovingUp(BoardModel),
    MovingDown(BoardModel),
    Open(BoardModel),
    OpenUp(BoardModel),
    OpenDown(BoardModel),
}

impl StateModel {
    pub open spec fn board(self) -> BoardModel {
        match self {
            StateModel::Idle(b) => b,
            StateModel::MovingUp(b) => b,
            StateModel::MovingDown(b) => b,
            StateModel::Open(b) => b,
            StateModel::OpenUp(b) => b,
            StateModel::OpenDown(b) => b,
        }
    }

    /// The same state variant over another board.
    pub open spec fn with_board(self, b: BoardModel) -> StateModel {
        match self {
            StateModel::Idle(_) => StateModel::Idle(b),
            StateModel::MovingUp(_) => StateModel::MovingUp(b),
            StateModel::MovingDown(_) => StateModel::MovingDown(b),
            StateModel::Open(_) => StateModel::Open(b),
            StateModel::OpenUp(_) => StateModel::OpenUp(b),
            StateModel::OpenDown(_) => StateModel::OpenDown(b),
        }
    }
}

/// What an idle car does: the first request starts a trip, or opens the
/// doors right here.
pub open spec fn step_idle(b: BoardModel, event: Event) -> (Option<Command>, StateModel) {
    match event {
        Event::Panel(f) => if f as int != b.floor {
            let b2 = b.with_dest(f as int, true);
            if f as int > b.floor {
                (Some(Command::MoveUp), StateModel::MovingUp(b2))
            } else {
                (Some(Command::MoveDown), StateModel::MovingDown(b2))
            }
        } else {
            (
                Some(Command::OpenDoor { floor: f, direction: Indicator::Off }),
                StateModel::Open(b),
            )
        },
        Event::Up(f) => if f as int != b.floor {
            let b2 = b.with_up(f as int, true);
            if f as int > b.floor {
                (Some(Command::MoveUp), StateModel::MovingUp(b2))
            } else {
                (Some(Command::MoveDown), StateModel::MovingDown(b2))
            }
        } else {
            (
                Some(Command::OpenDoor { floor: f, direction: Indicator::Up }),
                StateModel::OpenUp(b),
            )
        },
        Event::Down(f) => if f as int != b.floor {
            let b2 = b.with_down(f as int, true);
            if f as int > b.floor {
                (Some(Command::MoveUp), StateModel::MovingUp(b2))
            } else {
                (Some(Command::MoveDown), StateModel::MovingDown(b2))
            }
        } else {
            (
                Some(Command::OpenDoor { floor: f, direction: Indicator::Down }),
                StateModel::OpenDown(b),
            )
        },
        _ => arbitrary(),
    }
}

/// What a rising car does: record buttons silently; on the position sensor,
/// stop for a destination or for a topmost up call, else keep rising.
pub open spec fn step_moving_up(b: BoardModel, event: Event) -> (Option<Command>, StateModel) {
    match event {
        Event::Panel(f) => (None, StateModel::MovingUp(b.with_dest(f as int, true))),
        Event::Up(f) => (None, StateModel::MovingUp(b.with_up(f as int, true))),
        Event::Down(f) => (None, StateModel::MovingUp(b.with_down(f as int, true))),
        Event::Arrived(f) => {
            let b1 = b.at_floor(f as int);
            if b1.dest_at(f as int) {
                if b1.highest() > f as int || b1.up_at(f as int) {
                    (
                        Some(Command::StopAndOpen { floor: f, direction: Indicator::Up }),
                        StateModel::OpenUp(b1),
                    )
                } else if b1.has_any() && b1.highest() <= f as int {
                    (
                        Some(Command::StopAndOpen { floor: f, direction: Indicator::Down }),
                        StateModel::OpenDown(b1),
                    )
                } else {
                    (
                        Some(Command::StopAndOpen { floor: f, direction: Indicator::Off }),
                        StateModel::Open(b1),
                    )
                }
            } else if b1.up_at(f as int) && b1.highest() == f as int {
                (
                    Some(Command::StopAndOpen { floor: f, direction: Indicator::Down }),
                    StateModel::OpenDown(b1),
                )
            } else {
                (None, StateModel::MovingUp(b1))
            }
        },
        _ => arbitrary(),
    }
}

/// What a sinking car does. Every event first re-clears the destination bit
/// of the current floor; on the position sensor the car stops for a
/// destination, for any down call, or for a bottommost up call.
pub open spec fn step_moving_down(b: BoardModel, event: Event) -> (Option<Command>, StateModel) {
    let b0 = b.with_dest(b.floor, false);
    match event {
        Event::Panel(f) => (None, StateModel::MovingDown(b0.with_dest(f as int, true))),
        Event::Up(f) => (None, StateModel::MovingDown(b0.with_up(f as int, true))),
        Event::Down(f) => (None, StateModel::MovingDown(b0.with_down(f as int, true))),
        Event::Arrived(f) => {
            let b1 = b0.at_floor(f as int);
            if b1.dest_at(f as int) {
                if b1.lowest() < f as int || b1.down_at(f as int) {
                    (
                        Some(Command::StopAndOpen { floor: f, direction: Indicator::Down }),
                        StateModel::OpenDown(b1),
                    )
                } else if b1.has_any() && b1.lowest() >= f as int {
                    (
                        Some(Command::StopAndOpen { floor: f, direction: Indicator::Up }),
                        StateModel::OpenUp(b1),
                    )
                } else {
                    (
                        Some(Command::StopAndOpen { floor: f, direction: Indicator::Off }),
                        StateModel::Open(b1),
                    )
                }
            } else if b1.down_at(f as int) {
                (
                    Some(Command::StopAndOpen { floor: f, direction: Indicator::Down }),
                    StateModel::OpenDown(b1),
                )
            } else if b1.up_at(f as int) && b1.lowest() == f as int {
                (
                    Some(Command::StopAndOpen { floor: f, direction: Indicator::Up }),
                    StateModel::OpenUp(b1),
                )
            } else {
                (None, StateModel::MovingDown(b1))
            }
        },
        _ => arbitrary(),
    }
}

/// What a car with open doors and no direction shown does. Every event first
/// re-clears the destination bit of the current floor.
pub open spec fn step_open(b: BoardModel, event: Event) -> (Option<Command>, StateModel) {
    let b0 = b.with_dest(b.floor, false);
    match event {
        Event::Panel(f) => if f as int != b0.floor {
            let b2 = b0.with_dest(f as int, true);
            if f as int > b0.floor {
                (
                    Some(Command::ChangeIndicator { floor: f, direction: Indicator::Up }),
                    StateModel::OpenUp(b2),
                )
            } else {
                (
                    Some(Command::ChangeIndicator { floor: f, direction: Indicator::Down }),
                    StateModel::OpenDown(b2),
                )
            }
        } else {
            (Some(Command::RejectEvent(Event::Panel(f))), StateModel::Open(b0))
        },
        Event::Up(f) => if f as int != b0.floor {
            (None, StateModel::Open(b0.with_up(f as int, true)))
        } else {
            (
                Some(Command::ChangeIndicator { floor: f, direction: Indicator::Up }),
                StateModel::OpenUp(b0),
            )
        },
        Event::Down(f) => if f as int != b0.floor {
            (None, StateModel::Open(b0.with_down(f as int, true)))
        } else {
            (
                Some(Command::ChangeIndicator { floor: f, direction: Indicator::Down }),
                StateModel::OpenDown(b0),
            )
        },
        Event::Closed(_) => if !b0.has_any() {
            (None, StateModel::Idle(b0))
        } else if b0.highest() > b0.floor {
            (Some(Command::MoveUp), StateModel::MovingUp(b0))
        } else if b0.highest() < b0.floor {
            (Some(Command::MoveDown), StateModel::MovingDown(b0))
        } else {
            arbitrary()
        },
        _ => arbitrary(),
    }
}

/// What a car with open doors and the up lamp does. Every event first
/// re-clears the destination and up-call bits of the current floor; an
/// opposite-direction call is always queued, even for this very floor.
/// The door sensor compares against the floor the event names.
pub open spec fn step_open_up(b: BoardModel, event: Event) -> (Option<Command>, StateModel) {
    let b0 = b.with_dest(b.floor, false).with_up(b.floor, false);
    match event {
        Event::Panel(f) => if f as int != b0.floor {
            (None, StateModel::OpenUp(b0.with_dest(f as int, true)))
        } else {
            (Some(Command::RejectEvent(Event::Panel(f))), StateModel::OpenUp(b0))
        },
        Event::Up(f) => if f as int != b0.floor {
            (None, StateModel::OpenUp(b0.with_up(f as int, true)))
        } else {
            (Some(Command::RejectEvent(Event::Up(f))), StateModel::OpenUp(b0))
        },
        Event::Down(f) => (None, StateModel::OpenUp(b0.with_down(f as int, true))),
        Event::Closed(f) => if !b0.has_any() {
            (None, StateModel::Idle(b0))
        } else if b0.highest() > f as int {
            (Some(Command::MoveUp), StateModel::MovingUp(b0))
        } else if b0.highest() < f as int {
            (Some(Command::MoveDown), StateModel::MovingDown(b0))
        } else {
            (
                Some(Command::OpenDoor { floor: f, direction: Indicator::Up }),
                StateModel::OpenDown(b0),
            )
        },
        _ => arbitrary(),
    }
}

/// Mirror of the up-lamp state, with one deliberate asymmetry: when the
/// doors close on a board whose bottommost request is this floor, only the
/// indicator changes.
pub open spec fn step_open_down(b: BoardModel, event: Event) -> (Option<Command>, StateModel) {
    let b0 = b.with_dest(b.floor, false).with_down(b.floor, false);
    match event {
        Event::Panel(f) => if f as int != b0.floor {
            (None, StateModel::OpenDown(b0.with_dest(f as int, true)))
        } else {
            (Some(Command::RejectEvent(Event::Panel(f))), StateModel::OpenDown(b0))
        },
        Event::Up(f) => (None, StateModel::OpenDown(b0.with_up(f as int, true))),
        Event::Down(f) => if f as int != b0.floor {
            (None, StateModel::OpenDown(b0.with_down(f as int, true)))
        } else {
            (Some(Command::RejectEvent(Event::Down(f))), StateModel::OpenDown(b0))
        },
        Event::Closed(f) => if !b0.has_any() {
            (None, StateModel::Idle(b0))
        } else if b0.lowest() < f as int {
            (Some(Command::MoveDown), StateModel::MovingDown(b0))
        } else if b0.lowest() > f as int {
            (Some(Command::MoveUp), StateModel::MovingUp(b0))
        } else {
            (
                Some(Command::ChangeIndicator { floor: b0.floor as u8, direction: Indicator::Up }),
                StateModel::OpenUp(b0),
            )
        },
        _ => arbitrary(),
    }
}

/// One transition of the machine: the command it emits, if any, and the
/// state it moves to.
pub open spec fn step(s: StateModel, event: Event) -> (Option<Command>, StateModel) {
    match s {
        StateModel::Idle(b) => step_idle(b, event),
        StateModel::MovingUp(b) => step_moving_up(b, event),
        StateModel::MovingDown(b) => step_moving_down(b, event),
        StateModel::Open(b) => step_open(b, event),
        StateModel::OpenUp(b) => step_open_up(b, event),
        StateModel::OpenDown(b) => step_open_down(b, event),
    }
}

/// After the re-clear of the current floor's destination bit, a board that
/// still holds requests must hold one off the current floor: otherwise the
/// doors would close on requests no movement can serve, which the machine
/// treats as a contract violation.
pub open spec fn can_leave_open(b: BoardModel) -> bool {
    let c = b.with_dest(b.floor, false);
    c.has_any() ==> c.highest() != b.floor
}

/// The events a state accepts at all. Anything else is a contract violation
/// of the caller: a fatal fault of the host, which the verified transitions
/// exclude it instead.
pub open spec fn allowed(s: StateModel, event: Event) -> bool {
    match event {
        Event::Panel(f) => in_floor_range(f as int),
        Event::Up(f) => in_floor_range(f as int),
        Event::Down(f) => in_floor_range(f as int),
        Event::Arrived(f) => (s is MovingUp || s is MovingDown) && in_floor_range(f as int),
        Event::Closed(_) => (s is Open || s is OpenUp || s is OpenDown)
            && (s is Open ==> can_leave_open(s.board())),
    }
}

/// The events the physical installation can actually produce in a state:
/// hall buttons exist only where the direction can be served, the position
/// sensor fires at the adjacent floor, and the door sensor names the floor
/// the car stands on.
pub open spec fn applicable(s: StateModel, event: Event) -> bool {
    allowed(s, event) && match event {
        Event::Up(f) => f < HIGHEST_FLOOR,
        Event::Down(f) => f > LOWEST_FLOOR,
        Event::Arrived(f) => (s is MovingUp ==> f as int == s.board().floor + 1)
            && (s is MovingDown ==> f as int == s.board().floor - 1),
        Event::Closed(f) => f as int == s.board().floor,
        _ => true,
    }
}

/// The topmost pending floor is marked by a destination or an up call, so an
/// upward sweep has a stop at its far end. A board whose topmost mark is a
/// lone down call sends a rising car past every floor.
pub open spec fn up_target_marked(b: BoardModel) -> bool {
    b.dest_at(b.highest()) || b.up_at(b.highest())
}

/// Conditions every reachable board satisfies: well-formed rows, and no hall
/// call pointing out of the served range.
pub open spec fn board_inv(b: BoardModel) -> bool {
    b.wf() && !b.up_at(HIGHEST_FLOOR as int) && !b.down_at(LOWEST_FLOOR as int)
}

/// The per-state invariant the transitions maintain. For the open-door
/// states with a lamp, the serviced bits of the current floor may linger
/// until the state's next event re-clears them, so only the floor bounds are
/// claimed there.
pub open spec fn inv(s: StateModel) -> bool {
    board_inv(s.board()) && match s {
        StateModel::Idle(b) => !b.has_any(),
        StateModel::MovingUp(b) => b.floor < HIGHEST_FLOOR && b.has_any()
            && b.highest() > b.floor && up_target_marked(b),
        StateModel::MovingDown(b) => b.floor > LOWEST_FLOOR && b.has_any()
            && b.lowest() < b.floor,
        StateModel::Open(b) => !b.up_at(b.floor) && !b.down_at(b.floor)
            && forall|f: int| in_floor_range(f) ==> !(#[trigger] b.dest_at(f)),
        StateModel::OpenUp(b) => b.floor < HIGHEST_FLOOR,
        StateModel::OpenDown(b) => b.floor > LOWEST_FLOOR,
    }
}

/// The event whose arrival is a foregone conclusion in a state, if any.
pub open spec fn future_event(s: StateModel) -> Option<Event> {
    match s {
        StateModel::Idle(_) => None,
        StateModel::MovingUp(b) => Some(Event::Arrived((b.floor + 1) as u8)),
        StateModel::MovingDown(b) => Some(Event::Arrived((b.floor - 1) as u8)),
        StateModel::Open(b) => Some(Event::Closed(b.floor as u8)),
        StateModel::OpenUp(b) => Some(Event::Closed(b.floor as u8)),
        StateModel::OpenDown(b) => Some(Event::Closed(b.floor as u8)),
    }
}

/// The car's position and the request board, shared by every state of the
/// machine.
#[derive(Debug, Clone)]
pub struct ElevatorData {
    pub floor: u8,
    destinations: Vec<bool>,
    up_requests: Vec<bool>,
    down_requests: Vec<bool>,
}

impl View for ElevatorData {
    type V = BoardModel;

    closed spec fn view(&self) -> BoardModel {
        BoardModel {
            floor: self.floor as int,
            dest: self.destinations@,
            up: self.up_requests@,
            down: self.down_requests@,
        }
    }
}

/// A row of one flag per floor, all clear.
fn empty_flags() -> (v: Vec<bool>)
    ensures
        v@.len() == num_floors(),
        forall|i: int| 0 <= i < v@.len() ==> !v@[i],
{
    let mut v: Vec<bool> = Vec::new();
    let mut i: u8 = 0;
    while i < HIGHEST_FLOOR - LOWEST_FLOOR + 1
        invariant
            v@.len() == i,
            i <= HIGHEST_FLOOR - LOWEST_FLOOR + 1,
            forall|j: int| 0 <= j < v@.len() ==> !v@[j],
        decreases HIGHEST_FLOOR - LOWEST_FLOOR + 1 - i,
    {
        v.push(false);
        i = i + 1;
    }
    v
}

impl ElevatorData {
    pub open spec fn wf(self) -> bool {
        self@.wf()
    }

    /// An empty board with the car at the bottom floor.
    pub fn new() -> (r: ElevatorData)
        ensures
            r.wf(),
            r@.floor == LOWEST_FLOOR,
            forall|f: int| in_floor_range(f) ==> !(#[trigger] r@.pending_at(f)),
            !r@.has_any(),
    {
        let r = ElevatorData {
            floor: LOWEST_FLOOR,
            destinations: empty_flags(),
            up_requests: empty_flags(),
            down_requests: empty_flags(),
        };
        r
    }

    pub fn set_destination(&mut self, floor: usize, value: bool)
        requires
            old(self).wf(),
            LOWEST_FLOOR <= floor <= HIGHEST_FLOOR,
        ensures
            final(self).wf(),
            final(self)@ == old(self)@.with_dest(floor as int, value),
    {
        let i = floor - LOWEST_FLOOR as usize;
        self.destinations.set(i, value);
    }

    pub fn get_destination(&self, floor: usize) -> (r: bool)
        requires
            self.wf(),
            LOWEST_FLOOR <= floor <= HIGHEST_FLOOR,
        ensures
            r == self@.dest_at(floor as int),
    {
        self.destinations[floor - LOWEST_FLOOR as usize]
    }

    pub fn set_up_request(&mut self, floor: usize, value: bool)
        requires
            old(self).wf(),
            LOWEST_FLOOR <= floor <= HIGHEST_FLOOR,
        ensures
            final(self).wf(),
            final(self)@ == old(self)@.with_up(floor as int, value),
    {
        let i = floor - LOWEST_FLOOR as usize;
        self.up_requests.set(i, value);
    }

    pub fn get_up_request(&self, floor: usize) -> (r: bool)
        requires
            self.wf(),
            LOWEST_FLOOR <= floor <= HIGHEST_FLOOR,
        ensures
            r == self@.up_at(floor as int),
    {
        self.up_requests[floor - LOWEST_FLOOR as usize]
    }

    pub fn set_down_request(&mut self, floor: usize, value: bool)
        requires
            old(self).wf(),
            LOWEST_FLOOR <= floor <= HIGHEST_FLOOR,
        ensures
            final(self).wf(),
            final(self)@ == old(self)@.with_down(floor as int, value),
    {
        let i = floor - LOWEST_FLOOR as usize;
        self.down_requests.set(i, value);
    }

    pub fn get_down_request(&self, floor: usize) -> (r: bool)
        requires
            self.wf(),
            LOWEST_FLOOR <= floor <= HIGHEST_FLOOR,
        ensures
            r == self@.down_at(floor as int),
    {
        self.down_requests[floor - LOWEST_FLOOR as usize]
    }

    /// Whether no floor holds a destination bit.
    fn all_destinations_clear(&self) -> (r: bool)
        requires
            self.wf(),
        ensures
            r == forall|f: int| in_floor_range(f) ==> !(#[trigger] self@.dest_at(f)),
    {
        let mut f: u8 = LOWEST_FLOOR;
        while f <= HIGHEST_FLOOR
            invariant
                self.wf(),
                LOWEST_FLOOR <= f <= HIGHEST_FLOOR + 1,
                forall|g: int| LOWEST_FLOOR <= g < f ==> !(#[trigger] self@.dest_at(g)),
            decreases HIGHEST_FLOOR + 1 - f,
        {
            if self.get_destination(f as usize) {
                return false;
            }
            f = f + 1;
        }
        true
    }

    /// Whether any request of any kind is pending on any floor.
    pub fn have_requests(&self) -> (r: bool)
        requires
            self.wf(),
        ensures
            r == self@.has_any(),
    {
        let mut f: u8 = LOWEST_FLOOR;
        while f <= HIGHEST_FLOOR
            invariant
                self.wf(),
                LOWEST_FLOOR <= f <= HIGHEST_FLOOR + 1,
                forall|g: int|
                    LOWEST_FLOOR <= g < f ==> !(#[trigger] self@.pending_at(g)),
            decreases HIGHEST_FLOOR + 1 - f,
        {
            if self.get_destination(f as usize)
                || self.get_up_request(f as usize)
                || self.get_down_request(f as usize)
            {
                assert(self@.pending_at(f as int));
                return true;
            }
            f = f + 1;
        }
        false
    }

    /// The topmost floor with a pending request, or the car's floor when the
    /// board is empty.
    pub fn highest_request(&self) -> (r: u8)
        requires
            self.wf(),
        ensures
            r == self@.highest(),
            LOWEST_FLOOR <= r <= HIGHEST_FLOOR,
    {
        proof {
            lemma_highest_props(self@);
        }
        let mut f: u8 = HIGHEST_FLOOR;
        while f >= LOWEST_FLOOR
            invariant
                self.wf(),
                LOWEST_FLOOR - 1 <= f <= HIGHEST_FLOOR,
                forall|g: int|
                    f < g <= HIGHEST_FLOOR ==> !(#[trigger] self@.pending_at(g)),
            decreases f,
        {
            if self.get_destination(f as usize)
                || self.get_up_request(f as usize)
                || self.get_down_request(f as usize)
            {
                proof {
                    lemma_highest_props(self@);
                    assert(self@.pending_at(f as int));
                }
                return f;
            }
            f = f - 1;
        }
        proof {
            assert(!self@.has_any());
        }
        self.floor
    }

    /// The bottommost floor with a pending request, or the car's floor when
    /// the board is empty.
    pub fn lowest_request(&self) -> (r: u8)
        requires
            self.wf(),
        ensures
            r == self@.lowest(),
            LOWEST_FLOOR <= r <= HIGHEST_FLOOR,
    {
        proof {
            lemma_lowest_props(self@);
        }
        let mut f: u8 = LOWEST_FLOOR;
        while f <= HIGHEST_FLOOR
            invariant
                self.wf(),
                LOWEST_FLOOR <= f <= HIGHEST_FLOOR + 1,
                forall|g: int|
                    LOWEST_FLOOR <= g < f ==> !(#[trigger] self@.pending_at(g)),
            decreases HIGHEST_FLOOR + 1 - f,
        {
            if self.get_destination(f as usize)
                || self.get_up_request(f as usize)
                || self.get_down_request(f as usize)
            {
                proof {
                    lemma_lowest_props(self@);
                    assert(self@.pending_at(f as int));
                }
                return f;
            }
            f = f + 1;
        }
        proof {
            assert(!self@.has_any());
        }
        self.floor
    }
}

/// The car at rest with nothing to do.
#[derive(Debug)]
pub struct IdleElevator {
    data: ElevatorData,
}

/// The car travelling upward.
#[derive(Debug)]
pub struct MovingUpElevator {
    data: ElevatorData,
}

/// The car travelling downward.
#[derive(Debug)]
pub struct MovingDownElevator {
    data: ElevatorData,
}

/// The car standing with open doors and no direction shown.
#[derive(Debug)]
pub struct OpenElevator {
    data: ElevatorData,
}

/// The car standing with open doors, showing the up lamp.
#[derive(Debug)]
pub struct OpenUpElevator {
    data: ElevatorData,
}

/// The car standing with open doors, showing the down lamp.
#[derive(Debug)]
pub struct OpenDownElevator {
    data: ElevatorData,
}

impl View for IdleElevator {
    type V = BoardModel;

    closed spec fn view(&self) -> BoardModel {
        self.data@
    }
}

impl View for MovingUpElevator {
    type V = BoardModel;

    closed spec fn view(&self) -> BoardModel {
        self.data@
    }
}

impl View for MovingDownElevator {
    type V = BoardModel;

    closed spec fn view(&self) -> BoardModel {
        self.data@
    }
}

impl View for OpenElevator {
    type V = BoardModel;

    closed spec fn view(&self) -> BoardModel {
        self.data@
    }
}

impl View for OpenUpElevator {
    type V = BoardModel;

    closed spec fn view(&self) -> BoardModel {
        self.data@
    }
}

impl View for OpenDownElevator {
    type V = BoardModel;

    closed spec fn view(&self) -> BoardModel {
        self.data@
    }
}

/// The machine between two events: exactly one state is live, and handling
/// an event consumes it, so a stale state cannot be reused.
#[derive(Debug)]
pub enum ElevatorAfterEvent {
    Idle(IdleElevator),
    MovingUp(MovingUpElevator),
    MovingDown(MovingDownElevator),
    Open(OpenElevator),
    OpenUp(OpenUpElevator),
    OpenDown(OpenDownElevator),
}

impl View for ElevatorAfterEvent {
    type V = StateModel;

    open spec fn view(&self) -> StateModel {
        match self {
            ElevatorAfterEvent::Idle(e) => StateModel::Idle(e@),
            ElevatorAfterEvent::MovingUp(e) => StateModel::MovingUp(e@),
            ElevatorAfterEvent::MovingDown(e) => StateModel::MovingDown(e@),
            ElevatorAfterEvent::Open(e) => StateModel::Open(e@),
            ElevatorAfterEvent::OpenUp(e) => StateModel::OpenUp(e@),
            ElevatorAfterEvent::OpenDown(e) => StateModel::OpenDown(e@),
        }
    }
}

impl IdleElevator {
    pub open spec fn wf(self) -> bool {
        self@.wf()
    }

    /// The machine as it starts: idle at the bottom floor with an empty
    /// board, which establishes the invariant.
    pub fn new() -> (r: IdleElevator)
        ensures
            r.wf(),
            inv(StateModel::Idle(r@)),
            r@.floor == LOWEST_FLOOR,
            !r@.has_any(),
    {
        let r = IdleElevator { data: ElevatorData::new() };
        proof {
            assert(!r@.pending_at(LOWEST_FLOOR as int));
            assert(!r@.pending_at(HIGHEST_FLOOR as int));
        }
        r
    }

    /// A request for another floor starts a trip toward it; a request for
    /// this floor opens the doors, with the lamp matching the request kind.
    pub fn handle(self, event: Event) -> (r: (Option<Command>, ElevatorAfterEvent))
        requires
            self.wf(),
            allowed(StateModel::Idle(self@), event),
        ensures
            r.1.wf(),
            r.0 == step(StateModel::Idle(self@), event).0,
            r.1@ == step(StateModel::Idle(self@), event).1,
    {
        let mut data = self.data;
        match event {
            Event::Panel(floor) => {
                if floor != data.floor {
                    data.set_destination(floor as usize, true);
                    if floor > data.floor {
                        (
                            Some(Command::MoveUp),
                            ElevatorAfterEvent::MovingUp(MovingUpElevator { data }),
                        )
                    } else {
                        (
                            Some(Command::MoveDown),
                            ElevatorAfterEvent::MovingDown(MovingDownElevator { data }),
                        )
                    }
                } else {
                    (
                        Some(Command::OpenDoor { floor, direction: Indicator::Off }),
                        ElevatorAfterEvent::Open(OpenElevator { data }),
                    )
                }
            },
            Event::Up(floor) => {
                if floor != data.floor {
                    data.set_up_request(floor as usize, true);
                    if floor > data.floor {
                        (
                            Some(Command::MoveUp),
                            ElevatorAfterEvent::MovingUp(MovingUpElevator { data }),
                        )
                    } else {
                        (
                            Some(Command::MoveDown),
                            ElevatorAfterEvent::MovingDown(MovingDownElevator { data }),
                        )
                    }
                } else {
                    (
                        Some(Command::OpenDoor { floor, direction: Indicator::Up }),
                        ElevatorAfterEvent::OpenUp(OpenUpElevator { data }),
                    )
                }
            },
            Event::Down(floor) => {
                if floor != data.floor {
                    data.set_down_request(floor as usize, true);
                    if floor > data.floor {
                        (
                            Some(Command::MoveUp),
                            ElevatorAfterEvent::MovingUp(MovingUpElevator { data }),
                        )
                    } else {
                        (
                            Some(Command::MoveDown),
                            ElevatorAfterEvent::MovingDown(MovingDownElevator { data }),
                        )
                    }
                } else {
                    (
                        Some(Command::OpenDoor { floor, direction: Indicator::Down }),
                        ElevatorAfterEvent::OpenDown(OpenDownElevator { data }),
                    )
                }
            },
            Event::Arrived(_) => unreached(),
            Event::Closed(_) => unreached(),
        }
    }

    /// An idle car expects nothing: only a real request can wake it.
    pub fn produce_future_event(&self) -> (r: Option<Event>)
        ensures
            r == future_event(StateModel::Idle(self@)),
    {
        None
    }
}

impl MovingUpElevator {
    pub open spec fn wf(self) -> bool {
        self@.wf()
    }

    /// Buttons are recorded silently. The position sensor either stops the
    /// car — for a destination, or for an up call at the topmost pending
    /// floor — or lets it keep rising.
    pub fn handle(self, event: Event) -> (r: (Option<Command>, ElevatorAfterEvent))
        requires
            self.wf(),
            allowed(StateModel::MovingUp(self@), event),
        ensures
            r.1.wf(),
            r.0 == step(StateModel::MovingUp(self@), event).0,
            r.1@ == step(StateModel::MovingUp(self@), event).1,
    {
        let mut data = self.data;
        match event {
            Event::Panel(floor) => {
                data.set_destination(floor as usize, true);
                (None, ElevatorAfterEvent::MovingUp(MovingUpElevator { data }))
            },
            Event::Up(floor) => {
                data.set_up_request(floor as usize, true);
                (None, ElevatorAfterEvent::MovingUp(MovingUpElevator { data }))
            },
            Event::Down(floor) => {
                data.set_down_request(floor as usize, true);
                (None, ElevatorAfterEvent::MovingUp(MovingUpElevator { data }))
            },
            Event::Arrived(floor) => {
                data.floor = floor;
                if data.get_destination(floor as usize) {
                    if data.highest_request() > floor || data.get_up_request(floor as usize) {
                        (
                            Some(Command::StopAndOpen { floor, direction: Indicator::Up }),
                            ElevatorAfterEvent::OpenUp(OpenUpElevator { data }),
                        )
                    } else if data.have_requests() && data.highest_request() <= floor {
                        (
                            Some(Command::StopAndOpen { floor, direction: Indicator::Down }),
                            ElevatorAfterEvent::OpenDown(OpenDownElevator { data }),
                        )
                    } else {
                        (
                            Some(Command::StopAndOpen { floor, direction: Indicator::Off }),
                            ElevatorAfterEvent::Open(OpenElevator { data }),
                        )
                    }
                } else if data.get_up_request(floor as usize) && data.highest_request() == floor {
                    (
                        Some(Command::StopAndOpen { floor, direction: Indicator::Down }),
                        ElevatorAfterEvent::OpenDown(OpenDownElevator { data }),
                    )
                } else {
                    (None, ElevatorAfterEvent::MovingUp(MovingUpElevator { data }))
                }
            },
            Event::Closed(_) => unreached(),
        }
    }

    /// A rising car will next report the floor above.
    pub fn produce_future_event(&self) -> (r: Option<Event>)
        requires
            self.wf(),
        ensures
            r == future_event(StateModel::MovingUp(self@)),
    {
        Some(Event::Arrived(self.data.floor + 1))
    }
}

impl MovingDownElevator {
    pub open spec fn wf(self) -> bool {
        self@.wf()
    }

    /// As the rising car, but the car also stops for any down call, or for
    /// an up call at the bottommost pending floor; and every event first
    /// re-clears the destination bit of the current floor (a defensive
    /// re-clear the policy keeps).
    pub fn handle(self, event: Event) -> (r: (Option<Command>, ElevatorAfterEvent))
        requires
            self.wf(),
            allowed(StateModel::MovingDown(self@), event),
        ensures
            r.1.wf(),
            r.0 == step(StateModel::MovingDown(self@), event).0,
            r.1@ == step(StateModel::MovingDown(self@), event).1,
    {
        let mut data = self.data;
        let here = data.floor;
        data.set_destination(here as usize, false);
        match event {
            Event::Panel(floor) => {
                data.set_destination(floor as usize, true);
                (None, ElevatorAfterEvent::MovingDown(MovingDownElevator { data }))
            },
            Event::Up(floor) => {
                data.set_up_request(floor as usize, true);
                (None, ElevatorAfterEvent::MovingDown(MovingDownElevator { data }))
            },
            Event::Down(floor) => {
                data.set_down_request(floor as usize, true);
                (None, ElevatorAfterEvent::MovingDown(MovingDownElevator { data }))
            },
            Event::Arrived(floor) => {
                data.floor = floor;
                if data.get_destination(floor as usize) {
                    if data.lowest_request() < floor || data.get_down_request(floor as usize) {
                        (
                            Some(Command::StopAndOpen { floor, direction: Indicator::Down }),
                            ElevatorAfterEvent::OpenDown(OpenDownElevator { data }),
                        )
                    } else if data.have_requests() && data.lowest_request() >= floor {
                        (
                            Some(Command::StopAndOpen { floor, direction: Indicator::Up }),
                            ElevatorAfterEvent::OpenUp(OpenUpElevator { data }),
                        )
                    } else {
                        (
                            Some(Command::StopAndOpen { floor, direction: Indicator::Off }),
                            ElevatorAfterEvent::Open(OpenElevator { data }),
                        )
                    }
                } else if data.get_down_request(floor as usize) {
                    (
                        Some(Command::StopAndOpen { floor, direction: Indicator::Down }),
                        ElevatorAfterEvent::OpenDown(OpenDownElevator { data }),
                    )
                } else if data.get_up_request(floor as usize) && data.lowest_request() == floor {
                    (
                        Some(Command::StopAndOpen { floor, direction: Indicator::Up }),
                        ElevatorAfterEvent::OpenUp(OpenUpElevator { data }),
                    )
                } else {
                    (None, ElevatorAfterEvent::MovingDown(MovingDownElevator { data }))
                }
            },
            Event::Closed(_) => unreached(),
        }
    }

    /// A sinking car will next report the floor below.
    pub fn produce_future_event(&self) -> (r: Option<Event>)
        requires
            self.wf(),
        ensures
            r == future_event(StateModel::MovingDown(self@)),
    {
        Some(Event::Arrived(self.data.floor - 1))
    }
}

impl OpenElevator {
    pub open spec fn wf(self) -> bool {
        self@.wf()
    }

    /// A request for another floor picks the lamp by its direction; one for
    /// this floor is rejected. The door sensor either puts the car to rest
    /// or starts a trip toward the topmost pending floor.
    pub fn handle(self, event: Event) -> (r: (Option<Command>, ElevatorAfterEvent))
        requires
            self.wf(),
            allowed(StateModel::Open(self@), event),
        ensures
            r.1.wf(),
            r.0 == step(StateModel::Open(self@), event).0,
            r.1@ == step(StateModel::Open(self@), event).1,
    {
        let mut data = self.data;
        let here = data.floor;
        data.set_destination(here as usize, false);
        match event {
            Event::Panel(floor) => {
                if floor != data.floor {
                    data.set_destination(floor as usize, true);
                    if floor > data.floor {
                        (
                            Some(Command::ChangeIndicator { floor, direction: Indicator::Up }),
                            ElevatorAfterEvent::OpenUp(OpenUpElevator { data }),
                        )
                    } else {
                        (
                            Some(Command::ChangeIndicator { floor, direction: Indicator::Down }),
                            ElevatorAfterEvent::OpenDown(OpenDownElevator { data }),
                        )
                    }
                } else {
                    (
                        Some(Command::RejectEvent(Event::Panel(floor))),
                        ElevatorAfterEvent::Open(OpenElevator { data }),
                    )
                }
            },
            Event::Up(floor) => {
                if floor != data.floor {
                    data.set_up_request(floor as usize, true);
                    (None, ElevatorAfterEvent::Open(OpenElevator { data }))
                } else {
                    (
                        Some(Command::ChangeIndicator { floor, direction: Indicator::Up }),
                        ElevatorAfterEvent::OpenUp(OpenUpElevator { data }),
                    )
                }
            },
            Event::Down(floor) => {
                if floor != data.floor {
                    data.set_down_request(floor as usize, true);
                    (None, ElevatorAfterEvent::Open(OpenElevator { data }))
                } else {
                    (
                        Some(Command::ChangeIndicator { floor, direction: Indicator::Down }),
                        ElevatorAfterEvent::OpenDown(OpenDownElevator { data }),
                    )
                }
            },
            Event::Closed(_) => {
                if !data.have_requests() {
                    (None, ElevatorAfterEvent::Idle(IdleElevator { data }))
                } else {
                    let next = data.highest_request();
                    if next > data.floor {
                        (
                            Some(Command::MoveUp),
                            ElevatorAfterEvent::MovingUp(MovingUpElevator { data }),
                        )
                    } else if next < data.floor {
                        (
                            Some(Command::MoveDown),
                            ElevatorAfterEvent::MovingDown(MovingDownElevator { data }),
                        )
                    } else {
                        unreached()
                    }
                }
            },
            Event::Arrived(_) => unreached(),
        }
    }

    /// Open doors will close.
    pub fn produce_future_event(&self) -> (r: Option<Event>)
        ensures
            r == future_event(StateModel::Open(self@)),
    {
        Some(Event::Closed(self.data.floor))
    }
}

impl OpenUpElevator {
    pub open spec fn wf(self) -> bool {
        self@.wf()
    }

    /// Same-floor requests are rejected, down calls are always queued, and
    /// the door sensor picks the next trip by the topmost pending floor —
    /// reopening toward the down lamp when that floor is this one.
    pub fn handle(self, event: Event) -> (r: (Option<Command>, ElevatorAfterEvent))
        requires
            self.wf(),
            allowed(StateModel::OpenUp(self@), event),
        ensures
            r.1.wf(),
            r.0 == step(StateModel::OpenUp(self@), event).0,
            r.1@ == step(StateModel::OpenUp(self@), event).1,
    {
        let mut data = self.data;
        let here = data.floor;
        data.set_destination(here as usize, false);
        data.set_up_request(here as usize, false);
        match event {
            Event::Panel(floor) => {
                if floor != data.floor {
                    data.set_destination(floor as usize, true);
                    (None, ElevatorAfterEvent::OpenUp(OpenUpElevator { data }))
                } else {
                    (
                        Some(Command::RejectEvent(Event::Panel(floor))),
                        ElevatorAfterEvent::OpenUp(OpenUpElevator { data }),
                    )
                }
            },
            Event::Up(floor) => {
                if floor != data.floor {
                    data.set_up_request(floor as usize, true);
                    (None, ElevatorAfterEvent::OpenUp(OpenUpElevator { data }))
                } else {
                    (
                        Some(Command::RejectEvent(Event::Up(floor))),
                        ElevatorAfterEvent::OpenUp(OpenUpElevator { data }),
                    )
                }
            },
            Event::Down(floor) => {
                data.set_down_request(floor as usize, true);
                (None, ElevatorAfterEvent::OpenUp(OpenUpElevator { data }))
            },
            Event::Closed(floor) => {
                if !data.have_requests() {
                    (None, ElevatorAfterEvent::Idle(IdleElevator { data }))
                } else if data.highest_request() > floor {
                    (
                        Some(Command::MoveUp),
                        ElevatorAfterEvent::MovingUp(MovingUpElevator { data }),
                    )
                } else if data.highest_request() < floor {
                    (
                        Some(Command::MoveDown),
                        ElevatorAfterEvent::MovingDown(MovingDownElevator { data }),
                    )
                } else {
                    (
                        Some(Command::OpenDoor { floor, direction: Indicator::Up }),
                        ElevatorAfterEvent::OpenDown(OpenDownElevator { data }),
                    )
                }
            },
            Event::Arrived(_) => unreached(),
        }
    }

    /// Open doors will close.
    pub fn produce_future_event(&self) -> (r: Option<Event>)
        ensures
            r == future_event(StateModel::OpenUp(self@)),
    {
        Some(Event::Closed(self.data.floor))
    }
}

impl OpenDownElevator {
    pub open spec fn wf(self) -> bool {
        self@.wf()
    }

    /// Mirror of the up-lamp state; when the doors close on a board whose
    /// bottommost pending floor is this one, only the indicator changes.
    pub fn handle(self, event: Event) -> (r: (Option<Command>, ElevatorAfterEvent))
        requires
            self.wf(),
            allowed(StateModel::OpenDown(self@), event),
        ensures
            r.1.wf(),
            r.0 == step(StateModel::OpenDown(self@), event).0,
            r.1@ == step(StateModel::OpenDown(self@), event).1,
    {
        let mut data = self.data;
        let here = data.floor;
        data.set_destination(here as usize, false);
        data.set_down_request(here as usize, false);
        match event {
            Event::Panel(floor) => {
                if floor != data.floor {
                    data.set_destination(floor as usize, true);
                    (None, ElevatorAfterEvent::OpenDown(OpenDownElevator { data }))
                } else {
                    (
                        Some(Command::RejectEvent(Event::Panel(floor))),
                        ElevatorAfterEvent::OpenDown(OpenDownElevator { data }),
                    )
                }
            },
            Event::Up(floor) => {
                data.set_up_request(floor as usize, true);
                (None, ElevatorAfterEvent::OpenDown(OpenDownElevator { data }))
            },
            Event::Down(floor) => {
                if floor != data.floor {
                    data.set_down_request(floor as usize, true);
                    (None, ElevatorAfterEvent::OpenDown(OpenDownElevator { data }))
                } else {
                    (
                        Some(Command::RejectEvent(Event::Down(floor))),
                        ElevatorAfterEvent::OpenDown(OpenDownElevator { data }),
                    )
                }
            },
            Event::Closed(floor) => {
                if !data.have_requests() {
                    (None, ElevatorAfterEvent::Idle(IdleElevator { data }))
                } else if data.lowest_request() < floor {
                    (
                        Some(Command::MoveDown),
                        ElevatorAfterEvent::MovingDown(MovingDownElevator { data }),
                    )
                } else if data.lowest_request() > floor {
                    (
                        Some(Command::MoveUp),
                        ElevatorAfterEvent::MovingUp(MovingUpElevator { data }),
                    )
                } else {
                    (
                        Some(Command::ChangeIndicator {
                            floor: data.floor,
                            direction: Indicator::Up,
                        }),
                        ElevatorAfterEvent::OpenUp(OpenUpElevator { data }),
                    )
                }
            },
            Event::Arrived(_) => unreached(),
        }
    }

    /// Open doors will close.
    pub fn produce_future_event(&self) -> (r: Option<Event>)
        ensures
            r == future_event(StateModel::OpenDown(self@)),
    {
        Some(Event::Closed(self.data.floor))
    }
}

impl ElevatorAfterEvent {
    pub open spec fn wf(self) -> bool {
        match self {
            ElevatorAfterEvent::Idle(e) => e.wf(),
            ElevatorAfterEvent::MovingUp(e) => e.wf(),
            ElevatorAfterEvent::MovingDown(e) => e.wf(),
            ElevatorAfterEvent::Open(e) => e.wf(),
            ElevatorAfterEvent::OpenUp(e) => e.wf(),
            ElevatorAfterEvent::OpenDown(e) => e.wf(),
        }
    }

    /// Feed one event to whichever state is live. The machine emits at most
    /// one command and moves to the next state, exactly as `step` says.
    pub fn handle(self, event: Event) -> (r: (Option<Command>, ElevatorAfterEvent))
        requires
            self.wf(),
            allowed(self@, event),
        ensures
            r.1.wf(),
            r.0 == step(self@, event).0,
            r.1@ == step(self@, event).1,
    {
        match self {
            ElevatorAfterEvent::Idle(elevator) => elevator.handle(event),
            ElevatorAfterEvent::MovingUp(elevator) => elevator.handle(event),
            ElevatorAfterEvent::MovingDown(elevator) => elevator.handle(event),
            ElevatorAfterEvent::Open(elevator) => elevator.handle(event),
            ElevatorAfterEvent::OpenUp(elevator) => elevator.handle(event),
            ElevatorAfterEvent::OpenDown(elevator) => elevator.handle(event),
        }
    }

    /// The live state's bookkeeping, whichever state that is.
    fn request_data(&self) -> (r: &ElevatorData)
        ensures
            r@ == self@.board(),
            self.wf() ==> r.wf(),
    {
        match self {
            ElevatorAfterEvent::Idle(e) => &e.data,
            ElevatorAfterEvent::MovingUp(e) => &e.data,
            ElevatorAfterEvent::MovingDown(e) => &e.data,
            ElevatorAfterEvent::Open(e) => &e.data,
            ElevatorAfterEvent::OpenUp(e) => &e.data,
            ElevatorAfterEvent::OpenDown(e) => &e.data,
        }
    }

    pub fn set_destination(&mut self, floor: usize, value: bool)
        requires
            old(self).wf(),
            LOWEST_FLOOR <= floor <= HIGHEST_FLOOR,
        ensures
            final(self).wf(),
            final(self)@ == old(self)@.with_board(
                old(self)@.board().with_dest(floor as int, value),
            ),
    {
        match self {
            ElevatorAfterEvent::Idle(e) => e.data.set_destination(floor, value),
            ElevatorAfterEvent::MovingUp(e) => e.data.set_destination(floor, value),
            ElevatorAfterEvent::MovingDown(e) => e.data.set_destination(floor, value),
            ElevatorAfterEvent::Open(e) => e.data.set_destination(floor, value),
            ElevatorAfterEvent::OpenUp(e) => e.data.set_destination(floor, value),
            ElevatorAfterEvent::OpenDown(e) => e.data.set_destination(floor, value),
        }
    }

    pub fn get_destination(&self, floor: usize) -> (r: bool)
        requires
            self.wf(),
            LOWEST_FLOOR <= floor <= HIGHEST_FLOOR,
        ensures
            r == self@.board().dest_at(floor as int),
    {
        self.request_data().get_destination(floor)
    }

    pub fn set_up_request(&mut self, floor: usize, value: bool)
        requires
            old(self).wf(),
            LOWEST_FLOOR <= floor <= HIGHEST_FLOOR,
        ensures
            final(self).wf(),
            final(self)@ == old(self)@.with_board(
                old(self)@.board().with_up(floor as int, value),
            ),
    {
        match self {
            ElevatorAfterEvent::Idle(e) => e.data.set_up_request(floor, value),
            ElevatorAfterEvent::MovingUp(e) => e.data.set_up_request(floor, value),
            ElevatorAfterEvent::MovingDown(e) => e.data.set_up_request(floor, value),
            ElevatorAfterEvent::Open(e) => e.data.set_up_request(floor, value),
            ElevatorAfterEvent::OpenUp(e) => e.data.set_up_request(floor, value),
            ElevatorAfterEvent::OpenDown(e) => e.data.set_up_request(floor, value),
        }
    }

    pub fn get_up_request(&self, floor: usize) -> (r: bool)
        requires
            self.wf(),
            LOWEST_FLOOR <= floor <= HIGHEST_FLOOR,
        ensures
            r == self@.board().up_at(floor as int),
    {
        self.request_data().get_up_request(floor)
    }

    pub fn set_down_request(&mut self, floor: usize, value: bool)
        requires
            old(self).wf(),
            LOWEST_FLOOR <= floor <= HIGHEST_FLOOR,
        ensures
            final(self).wf(),
            final(self)@ == old(self)@.with_board(
                old(self)@.board().with_down(floor as int, value),
            ),
    {
        match self {
            ElevatorAfterEvent::Idle(e) => e.data.set_down_request(floor, value),
            ElevatorAfterEvent::MovingUp(e) => e.data.set_down_request(floor, value),
            ElevatorAfterEvent::MovingDown(e) => e.data.set_down_request(floor, value),
            ElevatorAfterEvent::Open(e) => e.data.set_down_request(floor, value),
            ElevatorAfterEvent::OpenUp(e) => e.data.set_down_request(floor, value),
            ElevatorAfterEvent::OpenDown(e) => e.data.set_down_request(floor, value),
        }
    }

    pub fn get_down_request(&self, floor: usize) -> (r: bool)
        requires
            self.wf(),
            LOWEST_FLOOR <= floor <= HIGHEST_FLOOR,
        ensures
            r == self@.board().down_at(floor as int),
    {
        self.request_data().get_down_request(floor)
    }

    /// Whether any request of any kind is pending on any floor.
    pub fn have_requests(&self) -> (r: bool)
        requires
            self.wf(),
        ensures
            r == self@.board().has_any(),
    {
        self.request_data().have_requests()
    }

    /// The topmost floor with a pending request, or the car's floor when
    /// the board is empty.
    pub fn highest_request(&self) -> (r: u8)
        requires
            self.wf(),
        ensures
            r == self@.board().highest(),
            LOWEST_FLOOR <= r <= HIGHEST_FLOOR,
    {
        self.request_data().highest_request()
    }

    /// The bottommost floor with a pending request, or the car's floor when
    /// the board is empty.
    pub fn lowest_request(&self) -> (r: u8)
        requires
            self.wf(),
        ensures
            r == self@.board().lowest(),
            LOWEST_FLOOR <= r <= HIGHEST_FLOOR,
    {
        self.request_data().lowest_request()
    }

    /// Whether the live state lists this event at all. Feeding the machine
    /// an event this refuses is a contract violation of the caller, and
    /// fatal to the host.
    pub fn accepts(&self, event: &Event) -> (r: bool)
        requires
            self.wf(),
        ensures
            r == allowed(self@, *event),
    {
        match event {
            Event::Panel(f) => LOWEST_FLOOR <= *f && *f <= HIGHEST_FLOOR,
            Event::Up(f) => LOWEST_FLOOR <= *f && *f <= HIGHEST_FLOOR,
            Event::Down(f) => LOWEST_FLOOR <= *f && *f <= HIGHEST_FLOOR,
            Event::Arrived(f) => matches!(
                self,
                ElevatorAfterEvent::MovingUp(_) | ElevatorAfterEvent::MovingDown(_)
            ) && LOWEST_FLOOR <= *f && *f <= HIGHEST_FLOOR,
            Event::Closed(_) => match self {
                ElevatorAfterEvent::Open(e) => {
                    let d = &e.data;
                    let here = d.floor;
                    let stuck_here = d.get_up_request(here as usize)
                        || d.get_down_request(here as usize);
                    let mut above = false;
                    let mut f: u8 = here;
                    while f < HIGHEST_FLOOR
                        invariant
                            d.wf(),
                            here == d@.floor,
                            here <= f <= HIGHEST_FLOOR,
                            above == exists|g: int|
                                here < g <= f && #[trigger] d@.pending_at(g),
                        decreases HIGHEST_FLOOR - f,
                    {
                        f = f + 1;
                        let p = d.get_destination(f as usize) || d.get_up_request(f as usize)
                            || d.get_down_request(f as usize);
                        proof {
                            assert(p == d@.pending_at(f as int));
                        }
                        if p {
                            above = true;
                        }
                    }
                    proof {
                        let b = d@;
                        let c = b.with_dest(b.floor, false);
                        lemma_highest_props(c);
                        assert forall|g: int| in_floor_range(g) implies
                            #[trigger] c.pending_at(g) == (
                                if g == b.floor { b.up_at(g) || b.down_at(g) }
                                else { b.pending_at(g) }
                            ) by {}
                        if stuck_here && !above {
                            assert(c.pending_at(b.floor));
                            assert(c.has_any());
                            if c.highest() > b.floor {
                                assert(b.pending_at(c.highest()));
                            }
                            assert(c.highest() == b.floor);
                        }
                        if c.has_any() && c.highest() == b.floor {
                            assert(c.pending_at(b.floor));
                            assert(stuck_here);
                            if above {
                                let g = choose|g: int|
                                    b.floor < g <= HIGHEST_FLOOR
                                        && #[trigger] b.pending_at(g);
                                assert(c.pending_at(g));
                            }
                        }
                    }
                    !(stuck_here && !above)
                },
                ElevatorAfterEvent::OpenUp(_) => true,
                ElevatorAfterEvent::OpenDown(_) => true,
                _ => false,
            },
        }
    }

    /// The post-transition validator: whether the live state satisfies its
    /// invariant. Decoupled from the transitions themselves, so a test or a
    /// debug build can run it after every event and the host can decide what
    /// a failure is worth.
    pub fn check_invariants(&self) -> (r: bool)
        requires
            self.wf(),
        ensures
            r == inv(self@),
    {
        let d = self.request_data();
        let edges_clear = !d.get_up_request(HIGHEST_FLOOR as usize)
            && !d.get_down_request(LOWEST_FLOOR as usize);
        let state_ok = match self {
            ElevatorAfterEvent::Idle(e) => !d.have_requests(),
            ElevatorAfterEvent::MovingUp(e) => {
                let h = d.highest_request();
                d.floor < HIGHEST_FLOOR && d.have_requests() && h > d.floor
                    && (d.get_destination(h as usize) || d.get_up_request(h as usize))
            },
            ElevatorAfterEvent::MovingDown(e) => {
                d.floor > LOWEST_FLOOR && d.have_requests() && d.lowest_request() < d.floor
            },
            ElevatorAfterEvent::Open(e) => {
                !d.get_up_request(d.floor as usize) && !d.get_down_request(d.floor as usize)
                    && d.all_destinations_clear()
            },
            ElevatorAfterEvent::OpenUp(e) => d.floor < HIGHEST_FLOOR,
            ElevatorAfterEvent::OpenDown(e) => d.floor > LOWEST_FLOOR,
        };
        edges_clear && state_ok
    }

    /// The next event the machine can count on without waiting on the
    /// world, if there is one.
    pub fn produce_future_event(&self) -> (r: Option<Event>)
        requires
            self.wf(),
        ensures
            r == future_event(self@),
    {
        match self {
            ElevatorAfterEvent::Idle(elevator) => elevator.produce_future_event(),
            ElevatorAfterEvent::MovingUp(elevator) => elevator.produce_future_event(),
            ElevatorAfterEvent::MovingDown(elevator) => elevator.produce_future_event(),
            ElevatorAfterEvent::Open(elevator) => elevator.produce_future_event(),
            ElevatorAfterEvent::OpenUp(elevator) => elevator.produce_future_event(),
            ElevatorAfterEvent::OpenDown(elevator) => elevator.produce_future_event(),
        }
    }
}

} // verus!
