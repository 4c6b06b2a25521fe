//! Requests to the application, and the decisions of its event loop.

use vstd::prelude::*;

verus! {

/// A request that systems send to the application loop.
#[derive(PartialEq, Eq, Structural)]
pub enum Command {
    CloseApp,
}

/// An event of the window's event loop, as the loop decides on it.
#[derive(Clone, Copy, Debug, PartialEq, Eq, Structural)]
pub enum LoopEvent {
    /// A window is asked to close; `own_window` when it is the application's.
    CloseRequested { own_window: bool },
    /// The window is to be drawn again.
    RedrawRequested,
    /// The pending events have been handled.
    MainEventsCleared,
    /// Any other event.
    Other,
}

/// What the loop does for an event.
#[derive(Clone, Copy, Debug, PartialEq, Eq, Structural)]
pub enum LoopAction {
    /// Leave the loop.
    Exit,
    /// Run the systems, drop the events they were given, then exit if one of
    /// them asked to close the application.
    RunSystems,
    /// Ask the window to be drawn again.
    RequestRedraw,
    /// Nothing.
    Wait,
}

/// The loop exits when its own window is asked to close, runs the systems on a
/// redraw, and asks for a redraw once the pending events are handled.
pub open spec fn action_for(event: LoopEvent) -> LoopAction {
    match event {
        LoopEvent::CloseRequested { own_window } => if own_window {
            LoopAction::Exit
        } else {
            LoopAction::Wait
        },
        LoopEvent::RedrawRequested => LoopAction::RunSystems,
        LoopEvent::MainEventsCleared => LoopAction::RequestRedraw,
        LoopEvent::Other => LoopAction::Wait,
    }
}

/// What the loop does for `event`.
pub fn loop_action(event: &LoopEvent) -> (r: LoopAction)
    ensures
        r == action_for(*event),
{
    match event {
        LoopEvent::CloseRequested { own_window } => if *own_window {
            LoopAction::Exit
        } else {
            LoopAction::Wait
        },
        LoopEvent::RedrawRequested => LoopAction::RunSystems,
        LoopEvent::MainEventsCleared => LoopAction::RequestRedraw,
        LoopEvent::Other => LoopAction::Wait,
    }
}

/// After the systems ran: `true` when one of them asked to close the application.
pub fn closes_app(commands: &Vec<Command>) -> (r: bool)
    ensures
        r == commands@.contains(Command::CloseApp),
{
    let mut found = false;
    let mut i: usize = 0;
    while i < commands.len()
        invariant
            i <= commands@.len(),
            found <==> exists|j: int| 0 <= j < i && commands@[j] == Command::CloseApp,
        decreases commands@.len() - i,
    {
        if matches!(commands[i], Command::CloseApp) {
            found = true;
        }
        i = i + 1;
    }
    proof {
        if found {
            let j = choose|j: int| 0 <= j < i && commands@[j] == Command::CloseApp;
            assert(commands@.contains(commands@[j]));
        }
    }
    found
}

} // verus!
