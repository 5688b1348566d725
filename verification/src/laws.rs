//! Laws of the dispatch machine, proved over the transition relation
//! `step`: the per-state invariant is preserved, rejected events change
//! nothing, a same-floor press while idle just opens the doors, and an
//! empty board drains the machine to rest.

use vstd::prelude::*;
use crate::logic::{in_floor_range, Command, Event, Indicator};
use crate::states::{
    allowed, applicable, inv, lemma_highest_props, lemma_lowest_props, step, step_idle,
    step_moving_down, step_moving_up, step_open, step_open_down, step_open_up,
    future_event, up_target_marked, BoardModel, StateModel,
};

verus! {

/// Two boards with the same pending requests on every floor agree on
/// emptiness and, when requests exist, on their topmost and bottommost
/// pending floors.
proof fn lemma_same_requests_same_extremes(a: BoardModel, c: BoardModel)
    requires
        a.wf(),
        c.wf(),
        forall|g: int|
            in_floor_range(g) ==> (#[trigger] a.pending_at(g)) == c.pending_at(g),
        a.has_any(),
    ensures
        c.has_any(),
        a.highest() == c.highest(),
        a.lowest() == c.lowest(),
{
    lemma_highest_props(a);
    lemma_highest_props(c);
    lemma_lowest_props(a);
    lemma_lowest_props(c);
    let w = choose|g: int| in_floor_range(g) && #[trigger] a.pending_at(g);
    assert(c.pending_at(w));
    assert(c.has_any());
    assert(a.pending_at(a.highest()) && c.pending_at(c.highest()));
    assert(c.pending_at(a.highest()) && a.pending_at(c.highest()));
    assert(a.pending_at(a.lowest()) && c.pending_at(c.lowest()));
    assert(c.pending_at(a.lowest()) && a.pending_at(c.lowest()));
}

proof fn lemma_step_idle_preserves(b: BoardModel, event: Event)
    requires
        inv(StateModel::Idle(b)),
        applicable(StateModel::Idle(b), event),
        (step_idle(b, event).1 matches StateModel::MovingUp(m) ==> up_target_marked(m)),
    ensures
        inv(step_idle(b, event).1),
{
    match event {
        Event::Panel(f) => {
            if f as int != b.floor {
                let b2 = b.with_dest(f as int, true);
                assert(b2.pending_at(f as int));
                lemma_highest_props(b2);
                lemma_lowest_props(b2);
            } else {
                assert forall|g: int| in_floor_range(g) implies !(#[trigger] b.dest_at(g)) by {
                    assert(!b.pending_at(g));
                }
                assert(!b.pending_at(b.floor));
            }
        },
        Event::Up(f) => {
            if f as int != b.floor {
                let b2 = b.with_up(f as int, true);
                assert(b2.pending_at(f as int));
                lemma_highest_props(b2);
                lemma_lowest_props(b2);
            }
        },
        Event::Down(f) => {
            if f as int != b.floor {
                let b2 = b.with_down(f as int, true);
                assert(b2.pending_at(f as int));
                lemma_highest_props(b2);
                lemma_lowest_props(b2);
            }
        },
        _ => {
            assert(false);
        },
    }
}

proof fn lemma_step_moving_up_preserves(b: BoardModel, event: Event)
    requires
        inv(StateModel::MovingUp(b)),
        applicable(StateModel::MovingUp(b), event),
        (step_moving_up(b, event).1 matches StateModel::MovingUp(m) ==> up_target_marked(m)),
    ensures
        inv(step_moving_up(b, event).1),
{
    lemma_highest_props(b);
    match event {
        Event::Panel(f) => {
            let b2 = b.with_dest(f as int, true);
            lemma_highest_props(b2);
            assert(b2.pending_at(b.highest()));
        },
        Event::Up(f) => {
            let b2 = b.with_up(f as int, true);
            lemma_highest_props(b2);
            assert(b2.pending_at(b.highest()));
        },
        Event::Down(f) => {
            let b2 = b.with_down(f as int, true);
            lemma_highest_props(b2);
            assert(b2.pending_at(b.highest()));
        },
        Event::Arrived(f) => {
            let b1 = b.at_floor(f as int);
            assert forall|g: int| in_floor_range(g) implies
                (#[trigger] b.pending_at(g)) == b1.pending_at(g) by {}
            lemma_same_requests_same_extremes(b, b1);
            lemma_highest_props(b1);
            lemma_lowest_props(b1);
            if b1.dest_at(f as int) {
                assert(b1.pending_at(f as int));
            } else if b1.up_at(f as int) && b1.highest() == f as int {
                assert(b1.pending_at(f as int));
            } else {
                // The car keeps rising: its target still lies above, since a
                // topmost floor reached here would have carried a destination
                // or an up call and stopped the car.
                assert(b1.highest() >= f as int);
                if b1.highest() == f as int {
                    assert(b.dest_at(b.highest()) || b.up_at(b.highest()));
                    assert(false);
                }
            }
        },
        _ => {
            assert(false);
        },
    }
}

proof fn lemma_step_moving_down_preserves(b: BoardModel, event: Event)
    requires
        inv(StateModel::MovingDown(b)),
        applicable(StateModel::MovingDown(b), event),
        (step_moving_down(b, event).1 matches StateModel::MovingUp(m) ==> up_target_marked(m)),
    ensures
        inv(step_moving_down(b, event).1),
{
    lemma_lowest_props(b);
    let b0 = b.with_dest(b.floor, false);
    assert forall|g: int| in_floor_range(g) && g != b.floor implies
        (#[trigger] b.pending_at(g)) == b0.pending_at(g) by {}
    assert(b0.pending_at(b.lowest()));
    lemma_lowest_props(b0);
    lemma_highest_props(b0);
    match event {
        Event::Panel(f) => {
            let b2 = b0.with_dest(f as int, true);
            lemma_lowest_props(b2);
            assert(b2.pending_at(b.lowest()));
        },
        Event::Up(f) => {
            let b2 = b0.with_up(f as int, true);
            lemma_lowest_props(b2);
            assert(b2.pending_at(b.lowest()));
        },
        Event::Down(f) => {
            let b2 = b0.with_down(f as int, true);
            lemma_lowest_props(b2);
            assert(b2.pending_at(b.lowest()));
        },
        Event::Arrived(f) => {
            let b1 = b0.at_floor(f as int);
            assert forall|g: int| in_floor_range(g) implies
                (#[trigger] b0.pending_at(g)) == b1.pending_at(g) by {}
            lemma_same_requests_same_extremes(b0, b1);
            lemma_lowest_props(b1);
            lemma_highest_props(b1);
            if b1.dest_at(f as int) {
                assert(b1.pending_at(f as int));
            } else if b1.down_at(f as int) {
            } else if b1.up_at(f as int) && b1.lowest() == f as int {
            } else {
                // The car keeps sinking: a bottommost floor reached here
                // would have carried some request and stopped the car.
                assert(b1.lowest() <= f as int);
                if b1.lowest() == f as int {
                    assert(b1.pending_at(f as int));
                    assert(false);
                }
            }
        },
        _ => {
            assert(false);
        },
    }
}

proof fn lemma_step_open_preserves(b: BoardModel, event: Event)
    requires
        inv(StateModel::Open(b)),
        applicable(StateModel::Open(b), event),
        (step_open(b, event).1 matches StateModel::MovingUp(m) ==> up_target_marked(m)),
    ensures
        inv(step_open(b, event).1),
{
    let b0 = b.with_dest(b.floor, false);
    assert forall|g: int| in_floor_range(g) implies
        (#[trigger] b.pending_at(g)) == b0.pending_at(g) by {
        assert(!b.dest_at(b.floor));
    }
    assert forall|g: int| in_floor_range(g) implies !(#[trigger] b0.dest_at(g)) by {
        assert(!b.dest_at(g));
    }
    match event {
        Event::Panel(f) => {
            if f as int == b.floor {
                assert(inv(StateModel::Open(b0)));
            }
        },
        Event::Up(f) => {
            if f as int != b.floor {
                let b2 = b0.with_up(f as int, true);
                assert forall|g: int| in_floor_range(g) implies
                    !(#[trigger] b2.dest_at(g)) by {
                    assert(!b0.dest_at(g));
                }
                assert(inv(StateModel::Open(b2)));
            }
        },
        Event::Down(f) => {
            if f as int != b.floor {
                let b2 = b0.with_down(f as int, true);
                assert forall|g: int| in_floor_range(g) implies
                    !(#[trigger] b2.dest_at(g)) by {
                    assert(!b0.dest_at(g));
                }
                assert(inv(StateModel::Open(b2)));
            }
        },
        Event::Closed(_) => {
            lemma_highest_props(b0);
            lemma_lowest_props(b0);
            if b0.has_any() {
                assert(b0.pending_at(b0.highest()));
                assert(b0.pending_at(b0.lowest()));
                if b0.highest() == b.floor {
                    // Excluded by `can_leave_open`: the doors never close on
                    // requests no movement can serve.
                    assert(false);
                }
            }
        },
        _ => {
            assert(false);
        },
    }
}

proof fn lemma_step_open_up_preserves(b: BoardModel, event: Event)
    requires
        inv(StateModel::OpenUp(b)),
        applicable(StateModel::OpenUp(b), event),
        (step_open_up(b, event).1 matches StateModel::MovingUp(m) ==> up_target_marked(m)),
    ensures
        inv(step_open_up(b, event).1),
{
    let b0 = b.with_dest(b.floor, false).with_up(b.floor, false);
    match event {
        Event::Panel(_) => {},
        Event::Up(_) => {},
        Event::Down(_) => {},
        Event::Closed(f) => {
            lemma_highest_props(b0);
            lemma_lowest_props(b0);
            if b0.has_any() {
                assert(b0.pending_at(b0.highest()));
                assert(b0.pending_at(b0.lowest()));
                if b0.highest() == f as int {
                    // Only an opposite-direction call can remain here, so the
                    // reopening toward the down lamp stays inside the range.
                    assert(b0.down_at(f as int));
                }
            }
        },
        _ => {
            assert(false);
        },
    }
}

proof fn lemma_step_open_down_preserves(b: BoardModel, event: Event)
    requires
        inv(StateModel::OpenDown(b)),
        applicable(StateModel::OpenDown(b), event),
        (step_open_down(b, event).1 matches StateModel::MovingUp(m) ==> up_target_marked(m)),
    ensures
        inv(step_open_down(b, event).1),
{
    let b0 = b.with_dest(b.floor, false).with_down(b.floor, false);
    match event {
        Event::Panel(_) => {},
        Event::Up(_) => {},
        Event::Down(_) => {},
        Event::Closed(f) => {
            lemma_highest_props(b0);
            lemma_lowest_props(b0);
            if b0.has_any() {
                assert(b0.pending_at(b0.highest()));
                assert(b0.pending_at(b0.lowest()));
                if b0.lowest() == f as int {
                    assert(b0.up_at(f as int));
                }
            }
        },
        _ => {
            assert(false);
        },
    }
}

/// Invariant preservation: from any state satisfying its invariant, any
/// event the installation can produce there leads to a state satisfying its
/// invariant again — provided a step that starts or continues an upward
/// sweep leaves the sweep's target marked by a destination or an up call.
///
/// The proviso cannot be dropped: the dispatch policy never stops a
/// rising car for a down hall call, so from an idle car at the bottom floor
/// a single `Down` press for a higher floor starts a sweep that passes every
/// floor without stopping.
pub proof fn lemma_step_preserves_inv(s: StateModel, event: Event)
    requires
        inv(s),
        applicable(s, event),
        (step(s, event).1 matches StateModel::MovingUp(m) ==> up_target_marked(m)),
    ensures
        inv(step(s, event).1),
{
    match s {
        StateModel::Idle(b) => lemma_step_idle_preserves(b, event),
        StateModel::MovingUp(b) => lemma_step_moving_up_preserves(b, event),
        StateModel::MovingDown(b) => lemma_step_moving_down_preserves(b, event),
        StateModel::Open(b) => lemma_step_open_preserves(b, event),
        StateModel::OpenUp(b) => lemma_step_open_up_preserves(b, event),
        StateModel::OpenDown(b) => lemma_step_open_down_preserves(b, event),
    }
}

/// The bits an open-door state re-clears at its current floor are already
/// clear, so the re-clear changes nothing.
pub open spec fn serviced_bits_clear(s: StateModel) -> bool {
    match s {
        StateModel::Open(b) => !b.dest_at(b.floor),
        StateModel::OpenUp(b) => !b.dest_at(b.floor) && !b.up_at(b.floor),
        StateModel::OpenDown(b) => !b.dest_at(b.floor) && !b.down_at(b.floor),
        _ => true,
    }
}

/// A rejected event changes nothing: whenever a step answers with
/// `RejectEvent`, the machine keeps its state and its whole request board —
/// provided the serviced bits of the current floor were already re-cleared.
/// Right after a stop they may still linger, and the state's defensive
/// re-clear then removes them even on a rejected event.
pub proof fn lemma_reject_is_noop(s: StateModel, event: Event)
    requires
        s.board().wf(),
        allowed(s, event),
        serviced_bits_clear(s),
        step(s, event).0 matches Some(Command::RejectEvent(_)),
    ensures
        step(s, event).1 == s,
{
    let b = s.board();
    match s {
        StateModel::Open(_) => {
            let b0 = b.with_dest(b.floor, false);
            assert(b0.dest =~= b.dest);
            assert(b0 == b);
        },
        StateModel::OpenUp(_) => {
            let b0 = b.with_dest(b.floor, false).with_up(b.floor, false);
            assert(b0.dest =~= b.dest);
            assert(b0.up =~= b.up);
            assert(b0 == b);
        },
        StateModel::OpenDown(_) => {
            let b0 = b.with_dest(b.floor, false).with_down(b.floor, false);
            assert(b0.dest =~= b.dest);
            assert(b0.down =~= b.down);
            assert(b0 == b);
        },
        _ => {},
    }
}

/// The up-lamp state's re-clear does its job: whatever event it handles,
/// if it stays in that state, the current floor afterwards carries neither
/// a destination nor an up call. The serviced bits linger only from the
/// stop itself until the state's first event.
pub proof fn lemma_open_up_reclears(b: BoardModel, event: Event)
    requires
        b.wf(),
        allowed(StateModel::OpenUp(b), event),
    ensures
        step_open_up(b, event).1 matches StateModel::OpenUp(m)
            ==> !m.dest_at(m.floor) && !m.up_at(m.floor),
{
}

/// Mirror of the re-clear law for the down-lamp state.
pub proof fn lemma_open_down_reclears(b: BoardModel, event: Event)
    requires
        b.wf(),
        allowed(StateModel::OpenDown(b), event),
    ensures
        step_open_down(b, event).1 matches StateModel::OpenDown(m)
            ==> !m.dest_at(m.floor) && !m.down_at(m.floor),
{
}

/// The event a state projects for itself is one the state accepts, and one
/// the installation can produce there: once a motion or door command is
/// out, its completion can be fed back to the machine without violating any
/// contract.
pub proof fn lemma_future_event_applicable(s: StateModel)
    requires
        inv(s),
    ensures
        future_event(s) matches Some(e) ==> applicable(s, e),
{
    if s is Open {
        let b = s.board();
        let c = b.with_dest(b.floor, false);
        if c.has_any() {
            lemma_highest_props(c);
            assert(c.pending_at(c.highest()));
            assert(!c.pending_at(b.floor));
        }
    }
}

/// From Idle, a panel press for the very floor the car stands on answers
/// with an open-door command showing no lamp, and parks the machine in the
/// Open state over the unchanged board.
pub proof fn lemma_idle_panel_here_opens(b: BoardModel, f: u8)
    requires
        in_floor_range(f as int),
        f as int == b.floor,
    ensures
        step(StateModel::Idle(b), Event::Panel(f)) == (
            Some(Command::OpenDoor { floor: f, direction: Indicator::Off }),
            StateModel::Open(b),
        ),
{
}

/// Closing the doors on an empty board drains the machine to rest: no
/// command, state Idle, board untouched.
pub proof fn lemma_open_drains_to_idle(b: BoardModel, f: u8)
    requires
        b.wf(),
        !b.has_any(),
        f as int == b.floor,
    ensures
        step(StateModel::Open(b), Event::Closed(f)).0 is None,
        step(StateModel::Open(b), Event::Closed(f)).1 == StateModel::Idle(b),
{
    let b0 = b.with_dest(b.floor, false);
    assert(!b.pending_at(b.floor));
    assert(b0.dest =~= b.dest);
    assert(b0 == b);
    assert(!b0.has_any());
}

} // verus!
