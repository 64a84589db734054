use wgpu_app::events::{handle_key_exits, key_action, window_event_action, Action, Key, WindowEventKind};

#[test]
fn escape_exits_and_r_reloads() {
    assert_eq!(key_action(Key::Escape, true), Action::Exit);
    assert_eq!(key_action(Key::R, true), Action::Reload);
    assert_eq!(key_action(Key::Other, true), Action::Ignore);
}

#[test]
fn released_keys_do_nothing() {
    assert_eq!(key_action(Key::Escape, false), Action::Ignore);
    assert_eq!(key_action(Key::R, false), Action::Ignore);
    assert_eq!(key_action(Key::Other, false), Action::Ignore);
}

#[test]
fn window_key_handler_only_exits_on_escape() {
    assert!(handle_key_exits(Key::Escape, true));
    assert!(!handle_key_exits(Key::Escape, false));
    assert!(!handle_key_exits(Key::R, true));
    assert!(!handle_key_exits(Key::Other, true));
}

#[test]
fn each_event_has_its_answer() {
    let act = |e| window_event_action(true, true, e);
    assert_eq!(act(WindowEventKind::CloseRequested), Action::CloseWindow);
    assert_eq!(
        act(WindowEventKind::Resized { width: 640, height: 0 }),
        Action::Resize { width: 640, height: 0 }
    );
    assert_eq!(act(WindowEventKind::RedrawRequested), Action::Redraw);
    assert_eq!(act(WindowEventKind::Keyboard { key: Key::Escape, pressed: true }), Action::Exit);
    assert_eq!(act(WindowEventKind::Keyboard { key: Key::R, pressed: true }), Action::Reload);
    assert_eq!(act(WindowEventKind::Keyboard { key: Key::R, pressed: false }), Action::Ignore);
    assert_eq!(act(WindowEventKind::CursorMoved), Action::RecordCursor);
    assert_eq!(act(WindowEventKind::Other), Action::Ignore);
}

#[test]
fn nothing_happens_before_the_views_or_for_unknown_windows() {
    for e in [
        WindowEventKind::CloseRequested,
        WindowEventKind::RedrawRequested,
        WindowEventKind::Keyboard { key: Key::Escape, pressed: true },
        WindowEventKind::CursorMoved,
    ] {
        assert_eq!(window_event_action(false, true, e), Action::Ignore);
        assert_eq!(window_event_action(true, false, e), Action::Ignore);
        assert_eq!(window_event_action(false, false, e), Action::Ignore);
    }
}
