//! What the application does with each window event: the decision table
//! between the window system's events and the work that answers them.

use vstd::prelude::*;

verus! {

/// The keys the application reacts to; every other key is `Other`.
#[derive(Clone, Copy, Debug, PartialEq, Eq, Structural)]
pub enum Key {
    Escape,
    R,
    Other,
}

/// The kinds of window event the application tells apart.
#[derive(Clone, Copy, Debug, PartialEq, Eq, Structural)]
pub enum WindowEventKind {
    CloseRequested,
    Resized { width: u32, height: u32 },
    RedrawRequested,
    Keyboard { key: Key, pressed: bool },
    CursorMoved,
    Other,
}

/// The work that answers an event.
#[derive(Clone, Copy, Debug, PartialEq, Eq, Structural)]
pub enum Action {
    /// Nothing to do.
    Ignore,
    /// Close the window, and leave the event loop if it was the last one.
    CloseWindow,
    /// Resize the window's surface.
    Resize { width: u32, height: u32 },
    /// Draw a frame in the window.
    Redraw,
    /// Leave the event loop.
    Exit,
    /// Reload the shader, the render pipeline and the model.
    Reload,
    /// Remember the cursor position for the clear colour.
    RecordCursor,
}

/// The answer to a key: Escape pressed leaves, R pressed reloads, anything
/// else (a release, another key) does nothing.
pub open spec fn key_action_spec(key: Key, pressed: bool) -> Action {
    if pressed && key == Key::Escape {
        Action::Exit
    } else if pressed && key == Key::R {
        Action::Reload
    } else {
        Action::Ignore
    }
}

/// The answer to a window event. Before the views exist, or for a window
/// that is not open, nothing is done.
pub open spec fn window_event_action_spec(
    has_view: bool,
    window_known: bool,
    event: WindowEventKind,
) -> Action {
    if !has_view || !window_known {
        Action::Ignore
    } else {
        match event {
            WindowEventKind::CloseRequested => Action::CloseWindow,
            WindowEventKind::Resized { width, height } => Action::Resize { width, height },
            WindowEventKind::RedrawRequested => Action::Redraw,
            WindowEventKind::Keyboard { key, pressed } => key_action_spec(key, pressed),
            WindowEventKind::CursorMoved => Action::RecordCursor,
            WindowEventKind::Other => Action::Ignore,
        }
    }
}

/// The answer to a key in a window's own key handler.
pub fn key_action(key: Key, pressed: bool) -> (a: Action)
    ensures
        a == key_action_spec(key, pressed),
{
    match (key, pressed) {
        (Key::Escape, true) => Action::Exit,
        (Key::R, true) => Action::Reload,
        _ => Action::Ignore,
    }
}

/// Whether a key ends the application in a window's own key handler: only
/// Escape pressed does.
pub fn handle_key_exits(key: Key, pressed: bool) -> (exit: bool)
    ensures
        exit == (key == Key::Escape && pressed),
{
    match (key, pressed) {
        (Key::Escape, true) => true,
        _ => false,
    }
}

/// Decides what answers `event`, given whether the views have been created
/// and whether the event's window is open.
pub fn window_event_action(has_view: bool, window_known: bool, event: WindowEventKind) -> (a: Action)
    ensures
        a == window_event_action_spec(has_view, window_known, event),
{
    if !has_view || !window_known {
        return Action::Ignore;
    }
    match event {
        WindowEventKind::CloseRequested => Action::CloseWindow,
        WindowEventKind::Resized { width, height } => Action::Resize { width, height },
        WindowEventKind::RedrawRequested => Action::Redraw,
        WindowEventKind::Keyboard { key, pressed } => key_action(key, pressed),
        WindowEventKind::CursorMoved => Action::RecordCursor,
        WindowEventKind::Other => Action::Ignore,
    }
}

/// A released key never does anything; the application is only left by
/// Escape or by closing its last window; it only reloads on R.
pub proof fn lemma_event_laws(has_view: bool, window_known: bool, event: WindowEventKind)
    ensures
        forall|k: Key| #[trigger] key_action_spec(k, false) == Action::Ignore,
        window_event_action_spec(has_view, window_known, event) == Action::Exit ==> event
            == (WindowEventKind::Keyboard { key: Key::Escape, pressed: true }),
        window_event_action_spec(has_view, window_known, event) == Action::Reload ==> event
            == (WindowEventKind::Keyboard { key: Key::R, pressed: true }),
        window_event_action_spec(has_view, window_known, event) == Action::CloseWindow ==> event
            == WindowEventKind::CloseRequested,
        !(has_view && window_known) ==> window_event_action_spec(has_view, window_known, event)
            == Action::Ignore,
{
}


/// For an open window once the views exist, every event gets its own
/// answer, carrying the event's data unchanged: a close request closes the
/// window, a resize resizes the surface to exactly the new size (whatever
/// its shape, zero sides included), a redraw request draws, a cursor move
/// is recorded, Escape pressed exits, R pressed reloads, and any other key
/// or event does nothing.
pub proof fn lemma_every_event_answered()
    ensures
        window_event_action_spec(true, true, WindowEventKind::CloseRequested) == Action::CloseWindow,
        forall|w: u32, h: u32|
            #[trigger] window_event_action_spec(true, true, WindowEventKind::Resized { width: w, height: h })
                == (Action::Resize { width: w, height: h }),
        window_event_action_spec(true, true, WindowEventKind::RedrawRequested) == Action::Redraw,
        window_event_action_spec(true, true, WindowEventKind::CursorMoved) == Action::RecordCursor,
        window_event_action_spec(true, true, WindowEventKind::Other) == Action::Ignore,
        forall|k: Key, p: bool|
            #[trigger] window_event_action_spec(true, true, WindowEventKind::Keyboard { key: k, pressed: p })
                == (if p && k == Key::Escape {
                Action::Exit
            } else if p && k == Key::R {
                Action::Reload
            } else {
                Action::Ignore
            }),
        forall|k: Key, p: bool|
            #[trigger] key_action_spec(k, p) == window_event_action_spec(
                true,
                true,
                WindowEventKind::Keyboard { key: k, pressed: p },
            ),
{
}

/// Different resize events answer different resizes: the answer keeps the
/// asked size, so two resize events get the same answer only when they ask
/// for the same size.
pub proof fn lemma_resize_answer_keeps_size(w1: u32, h1: u32, w2: u32, h2: u32)
    ensures
        window_event_action_spec(true, true, WindowEventKind::Resized { width: w1, height: h1 })
            == window_event_action_spec(true, true, WindowEventKind::Resized { width: w2, height: h2 })
            <==> (w1 == w2 && h1 == h2),
{
}

} // verus!
