use vstd::prelude::*;

use crate::presence::{reconcile, KeyboardRecord};
use crate::udev::{is_keyboard_event, keyboard_event, HotplugEvent, UdevKeyboardInfo};
use crate::xinput::XInputCandidate;

verus! {

/// What the hotplug monitor hands the reconciliation loop.
pub enum MonitorSignal {
    Event(HotplugEvent),
    ReadError,
    Ended,
}

/// What the reconciliation loop does next.
#[derive(Clone, Copy, Debug, PartialEq, Eq, Structural)]
pub enum LoopAction {
    /// Run one reconciliation pass, then dispatch the keyboards it added.
    Reconcile,
    /// Wait for the next signal.
    Wait,
}

/// A keyboard coming or going wakes the loop, and so does the end of the
/// stream, after which the loop goes on; a read error and any other
/// notification are passed over.
pub open spec fn action_for(signal: MonitorSignal) -> LoopAction {
    match signal {
        MonitorSignal::Event(e) => if keyboard_event(e) {
            LoopAction::Reconcile
        } else {
            LoopAction::Wait
        },
        MonitorSignal::ReadError => LoopAction::Wait,
        MonitorSignal::Ended => LoopAction::Reconcile,
    }
}

/// Decides what the loop does on a signal of the monitor.
pub fn next_action(signal: &MonitorSignal) -> (r: LoopAction)
    ensures
        r == action_for(*signal),
{
    match signal {
        MonitorSignal::Event(e) => if is_keyboard_event(e) {
            LoopAction::Reconcile
        } else {
            LoopAction::Wait
        },
        MonitorSignal::ReadError => LoopAction::Wait,
        MonitorSignal::Ended => LoopAction::Reconcile,
    }
}

/// A hotplug event asks for exactly one pass when it is a keyboard coming or
/// going, and for none otherwise. The event carries nothing into the pass: a
/// record is added only for a node that both enumerations report and that was
/// not known.
pub proof fn lemma_event_wakes_without_adding(
    event: HotplugEvent,
    known: Map<Seq<char>, KeyboardRecord>,
    x: Map<Seq<char>, XInputCandidate>,
    d: Map<Seq<char>, UdevKeyboardInfo>,
    node: Seq<char>,
)
    ensures
        action_for(MonitorSignal::Event(event)) == LoopAction::Reconcile <==> keyboard_event(event),
        action_for(MonitorSignal::Event(event)) == LoopAction::Wait <==> !keyboard_event(event),
        reconcile(known, x, d).0.contains_key(node) ==> x.contains_key(node) && d.contains_key(node)
            && !known.contains_key(node),
{
}

} // verus!
