//! The decisions of the application's event loop: how a window event is
//! handled given the loop's state. The loop itself, the window and the
//! renderer are driven by the caller.

use vstd::prelude::*;

verus! {

/// The window events the loop tells apart.
#[derive(Clone, Copy, PartialEq, Eq, Structural, Debug)]
pub enum WindowEventKind {
    RedrawRequested,
    CloseRequested,
    Resized,
    Other,
}

/// What the loop does with a window event.
#[derive(Clone, Copy, PartialEq, Eq, Structural, Debug)]
pub enum WindowAction {
    /// Nothing: the loop is exiting, or the event is for another window.
    Ignore,
    /// Report that there is no renderer yet.
    MissingRenderer,
    /// Stop the loop: the world asked to shut down.
    Exit,
    /// Feed the event to the input manager, then update the state hook and
    /// the world and render a frame.
    InputThenRedraw,
    /// Feed the event to the input manager, then stop the loop.
    InputThenClose,
    /// Feed the event to the input manager, then resize the renderer and the
    /// active camera.
    InputThenResize,
    /// Feed the event to the input manager only.
    Input,
}

/// How the loop handles a window event: an exiting loop ignores it; without
/// a renderer it is reported; a world shutting down ends the loop; events of
/// other windows are ignored; all others go to the input manager and then
/// by kind.
pub open spec fn window_action_spec(
    exiting: bool,
    has_renderer: bool,
    shutting_down: bool,
    own_window: bool,
    kind: WindowEventKind,
) -> WindowAction {
    if exiting {
        WindowAction::Ignore
    } else if !has_renderer {
        WindowAction::MissingRenderer
    } else if shutting_down {
        WindowAction::Exit
    } else if !own_window {
        WindowAction::Ignore
    } else {
        match kind {
            WindowEventKind::RedrawRequested => WindowAction::InputThenRedraw,
            WindowEventKind::CloseRequested => WindowAction::InputThenClose,
            WindowEventKind::Resized => WindowAction::InputThenResize,
            WindowEventKind::Other => WindowAction::Input,
        }
    }
}

/// How the loop handles a window event.
pub fn window_event_action(
    exiting: bool,
    has_renderer: bool,
    shutting_down: bool,
    own_window: bool,
    kind: WindowEventKind,
) -> (r: WindowAction)
    ensures
        r == window_action_spec(exiting, has_renderer, shutting_down, own_window, kind),
{
    if exiting {
        return WindowAction::Ignore;
    }
    if !has_renderer {
        return WindowAction::MissingRenderer;
    }
    if shutting_down {
        return WindowAction::Exit;
    }
    if !own_window {
        return WindowAction::Ignore;
    }
    match kind {
        WindowEventKind::RedrawRequested => WindowAction::InputThenRedraw,
        WindowEventKind::CloseRequested => WindowAction::InputThenClose,
        WindowEventKind::Resized => WindowAction::InputThenResize,
        WindowEventKind::Other => WindowAction::Input,
    }
}

/// Whether the loop stops after a redraw: when the frame could not be
/// rendered.
pub fn exit_after_redraw(rendered: bool) -> (r: bool)
    ensures
        r == !rendered,
{
    !rendered
}

/// A world that asked to shut down ends a running loop that has a
/// renderer, whatever the event and window; and only input of the loop's
/// own window reaches the input manager.
pub proof fn law_shutdown_ends_loop(own_window: bool, kind: WindowEventKind, exiting: bool, has_renderer: bool, shutting_down: bool)
    ensures
        window_action_spec(false, true, true, own_window, kind) == WindowAction::Exit,
        window_action_spec(exiting, has_renderer, shutting_down, false, kind) != WindowAction::Input,
        window_action_spec(exiting, has_renderer, shutting_down, false, kind) != WindowAction::InputThenRedraw,
{
}

/// The action stops the event loop.
pub open spec fn action_stops_loop(a: WindowAction) -> bool {
    a is Exit || a is InputThenClose
}

/// The action hands the event to the input manager.
pub open spec fn action_feeds_input(a: WindowAction) -> bool {
    a is Input || a is InputThenRedraw || a is InputThenClose || a is InputThenResize
}

/// For a running loop with a renderer, a world that keeps running and an
/// event of the loop's own window: every event reaches the input manager;
/// the loop stops exactly on a close request, renders a frame exactly on a
/// redraw request and resizes exactly on a resize.
pub proof fn law_own_window_events(kind: WindowEventKind)
    ensures
        action_feeds_input(window_action_spec(false, true, false, true, kind)),
        action_stops_loop(window_action_spec(false, true, false, true, kind)) <==> kind is CloseRequested,
        (window_action_spec(false, true, false, true, kind) is InputThenRedraw) <==> kind is RedrawRequested,
        (window_action_spec(false, true, false, true, kind) is InputThenResize) <==> kind is Resized,
{
}

} // verus!
