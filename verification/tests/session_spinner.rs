use sharp_tui::keys::{KeyCode, KeyEvent, KeyModifiers, MouseEvent, MouseEventKind};
use sharp_tui::session::{initial_state, on_event, painted, poll_speed_ms, LoopAction, LoopState, Props, TermEvent};
use sharp_tui::spinner::SpinnerCharset;

#[test]
fn props_default_values() {
    let p = Props::default();
    assert_eq!(p.event_poll_speed_ms, 50);
    assert_eq!(p.unfocused_event_poll_speed_ms, 500);
    assert!(!p.ctrl_c);
    assert!(!p.support_mouse);
    assert!(p.throttle_while_unfocused);
}

#[test]
fn poll_speed_throttles_when_unfocused() {
    let p = Props::default();
    let mut s = initial_state(80, 24);
    assert_eq!(poll_speed_ms(&p, &s), 50);
    s.focused = false;
    assert_eq!(poll_speed_ms(&p, &s), 500);
    let q = Props { throttle_while_unfocused: false, ..p };
    assert_eq!(poll_speed_ms(&q, &s), 50);
}

#[test]
fn ctrl_c_quits_only_when_enabled() {
    let ctrl_c = KeyEvent::new(KeyCode::Char('c'), KeyModifiers::control());
    let s = initial_state(10, 10);
    let on = Props { ctrl_c: true, ..Props::default() };
    assert_eq!(on_event(&on, s, TermEvent::Key(ctrl_c)).1, LoopAction::Quit);
    assert_eq!(on_event(&Props::default(), s, TermEvent::Key(ctrl_c)).1, LoopAction::DispatchKey(ctrl_c));
    let plain = KeyEvent::new(KeyCode::Char('c'), KeyModifiers::none());
    assert_eq!(on_event(&on, s, TermEvent::Key(plain)).1, LoopAction::DispatchKey(plain));
}

#[test]
fn resize_and_focus_events() {
    let p = Props::default();
    let s = painted(initial_state(10, 10));
    assert!(!s.redraw);
    let (r, a) = on_event(&p, s, TermEvent::Resize(20, 5));
    assert_eq!(r, LoopState { width: 20, height: 5, focused: true, redraw: true });
    assert_eq!(a, LoopAction::Nothing);
    let (lost, _) = on_event(&p, s, TermEvent::FocusLost);
    assert_eq!(lost, LoopState { focused: false, ..s });
    let (gained, _) = on_event(&p, lost, TermEvent::FocusGained);
    assert_eq!(gained, LoopState { focused: true, redraw: true, ..s });
    let m = MouseEvent { kind: MouseEventKind::Moved, column: 1, row: 2, modifiers: KeyModifiers::none() };
    assert_eq!(on_event(&p, s, TermEvent::Mouse(m)).1, LoopAction::DispatchMouse(m));
}

#[test]
fn spinner_charsets() {
    let d = SpinnerCharset::dots();
    assert_eq!(d.interval_ms, 80);
    assert_eq!(d.frames.len(), 10);
    assert_eq!(d.frames[0], "⠋");
    let big = SpinnerCharset::dots8bit();
    assert_eq!(big.frames.len(), 256);
    assert_eq!(big.frames[255], "⣿");
    let df = SpinnerCharset::dwarf_fortress();
    assert_eq!(df.frames[0], " ██████£££  ");
    assert!(df.frames.len() > 64);
    assert_eq!(SpinnerCharset::line().frames.len(), 4);
}
