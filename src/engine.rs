//! The frame engine's lifecycle: which work each host event calls for.

use vstd::prelude::*;

verus! {

/// Where the engine is in its lifecycle.
#[derive(Clone, Copy, Debug, PartialEq, Eq, Structural)]
pub enum Phase {
    /// Started; no surface yet.
    Uninitialized,
    /// A surface and the resources bound to it exist; frames run.
    Resumed,
    /// The surface and its resources were dropped.
    Suspended,
    /// Shutdown was requested; nothing more runs.
    Terminated,
}

/// An event from the host's event loop.
#[derive(Clone, Copy, Debug, PartialEq, Eq, Structural)]
pub enum HostEvent {
    Resumed,
    Suspended,
    /// The loop is about to wait for more events.
    AboutToWait,
    RedrawRequested,
    Resized(u32, u32),
    CloseRequested,
    /// Any other window or input event.
    Other,
}

/// What the engine does in response to an event.
#[derive(Clone, Copy, Debug, PartialEq, Eq, Structural)]
pub enum Action {
    /// (Re)create the surface, renderers and font atlas.
    CreateContext,
    /// Drop everything bound to the surface.
    DestroyContext,
    /// Ask the host for a redraw.
    RequestRedraw,
    /// Run one frame: timing, input aging, layer updates, drawing, overlay,
    /// present.
    Frame,
    /// Resize the surface, record the viewport, then offer the event to the
    /// layers.
    Resize(u32, u32),
    /// Offer the event to the overlay, then to the layers in order until one
    /// consumes it.
    Dispatch,
    /// Leave the event loop without drawing the pending batches.
    Exit,
    /// Nothing to do.
    Ignore,
}

/// The phase and action that `event` leads to from `phase`.
pub open spec fn step_spec(phase: Phase, event: HostEvent) -> (Phase, Action) {
    if phase == Phase::Terminated {
        (phase, Action::Ignore)
    } else {
        match event {
            HostEvent::Resumed => (Phase::Resumed, Action::CreateContext),
            HostEvent::Suspended => (Phase::Suspended, Action::DestroyContext),
            HostEvent::CloseRequested => (Phase::Terminated, Action::Exit),
            HostEvent::AboutToWait => (
                phase,
                if phase == Phase::Resumed {
                    Action::RequestRedraw
                } else {
                    Action::Ignore
                },
            ),
            HostEvent::RedrawRequested => (
                phase,
                if phase == Phase::Resumed {
                    Action::Frame
                } else {
                    Action::Ignore
                },
            ),
            HostEvent::Resized(w, h) => (
                phase,
                if phase == Phase::Resumed {
                    Action::Resize(w, h)
                } else {
                    Action::Ignore
                },
            ),
            HostEvent::Other => (
                phase,
                if phase == Phase::Resumed {
                    Action::Dispatch
                } else {
                    Action::Ignore
                },
            ),
        }
    }
}

/// Decides what `event` calls for in `phase`: surface-bound resources are
/// created on every resume and dropped on suspend, frames and event
/// dispatch run only while resumed, and a close request ends the loop.
pub fn step(phase: Phase, event: HostEvent) -> (r: (Phase, Action))
    ensures
        r == step_spec(phase, event),
{
    if phase == Phase::Terminated {
        return (phase, Action::Ignore);
    }
    let resumed = phase == Phase::Resumed;
    match event {
        HostEvent::Resumed => (Phase::Resumed, Action::CreateContext),
        HostEvent::Suspended => (Phase::Suspended, Action::DestroyContext),
        HostEvent::CloseRequested => (Phase::Terminated, Action::Exit),
        HostEvent::AboutToWait => (
            phase,
            if resumed {
                Action::RequestRedraw
            } else {
                Action::Ignore
            },
        ),
        HostEvent::RedrawRequested => (
            phase,
            if resumed {
                Action::Frame
            } else {
                Action::Ignore
            },
        ),
        HostEvent::Resized(w, h) => (
            phase,
            if resumed {
                Action::Resize(w, h)
            } else {
                Action::Ignore
            },
        ),
        HostEvent::Other => (
            phase,
            if resumed {
                Action::Dispatch
            } else {
                Action::Ignore
            },
        ),
    }
}

/// Frames run only while the surface exists: whatever happened before, an
/// event leads to drawing only in the resumed phase, and a suspend always
/// drops the surface-bound resources.
pub proof fn lemma_frames_need_surface(phase: Phase, event: HostEvent)
    ensures
        step_spec(phase, event).1 == Action::Frame ==> phase == Phase::Resumed,
        phase != Phase::Terminated && event == HostEvent::Suspended ==> step_spec(phase, event)
            == (Phase::Suspended, Action::DestroyContext),
        phase == Phase::Terminated ==> step_spec(phase, event) == (phase, Action::Ignore),
{
}

} // verus!
