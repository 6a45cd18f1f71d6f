use vstd::prelude::*;
use crate::keys::{KeyCode, KeyEvent, MouseEvent, is_ctrl_c};
use crate::keys::holds_control;

verus! {

/// How the terminal session runs: how often to poll for input (in milliseconds, focused and
/// unfocused), whether Ctrl+C quits, whether mouse events are captured, and whether to poll
/// less often while the terminal is not focused.
#[derive(PartialEq, Eq, Structural, Clone, Copy, Debug)]
pub struct Props {
    pub event_poll_speed_ms: u64,
    pub ctrl_c: bool,
    pub support_mouse: bool,
    pub throttle_while_unfocused: bool,
    pub unfocused_event_poll_speed_ms: u64,
}

impl Default for Props {
    fn default() -> (p: Props)
        ensures
            p == (Props {
                event_poll_speed_ms: 50,
                ctrl_c: false,
                support_mouse: false,
                throttle_while_unfocused: true,
                unfocused_event_poll_speed_ms: 500,
            }),
    {
        Props {
            event_poll_speed_ms: 50,
            ctrl_c: false,
            support_mouse: false,
            throttle_while_unfocused: true,
            unfocused_event_poll_speed_ms: 500,
        }
    }
}

/// What the input loop tracks between events: the terminal size, whether it has focus, and
/// whether the next frame must be painted even if nothing in the tree changed.
#[derive(PartialEq, Eq, Structural, Clone, Copy, Debug)]
pub struct LoopState {
    pub width: u16,
    pub height: u16,
    pub focused: bool,
    pub redraw: bool,
}

/// A terminal event, as the input loop sees it.
#[derive(PartialEq, Eq, Structural, Clone, Copy, Debug)]
pub enum TermEvent {
    Key(KeyEvent),
    Mouse(MouseEvent),
    Resize(u16, u16),
    FocusGained,
    FocusLost,
    Other,
}

/// What the loop does next with an event.
#[derive(PartialEq, Eq, Structural, Clone, Copy, Debug)]
pub enum LoopAction {
    /// Leave the loop.
    Quit,
    /// Run the key handlers.
    DispatchKey(KeyEvent),
    /// Hit-test the mouse position and dispatch the event to the block found there.
    DispatchMouse(MouseEvent),
    /// Nothing to hand on.
    Nothing,
}

/// The state at the start of a session of `width` by `height` cells: focused, first frame due.
pub fn initial_state(width: u16, height: u16) -> (s: LoopState)
    ensures
        s == (LoopState { width, height, focused: true, redraw: true }),
{
    LoopState { width, height, focused: true, redraw: true }
}

/// How long to wait for input: the unfocused interval while unfocused (when throttling),
/// the normal one otherwise.
pub fn poll_speed_ms(props: &Props, state: &LoopState) -> (ms: u64)
    ensures
        ms == if props.throttle_while_unfocused && !state.focused {
            props.unfocused_event_poll_speed_ms
        } else {
            props.event_poll_speed_ms
        },
{
    if props.throttle_while_unfocused && !state.focused {
        props.unfocused_event_poll_speed_ms
    } else {
        props.event_poll_speed_ms
    }
}

/// The decision for one event: Ctrl+C quits when enabled; other keys go to the key handlers,
/// mouse events to hit-testing; a resize records the new size and forces a repaint; gaining
/// focus forces a repaint, losing it only records that.
pub open spec fn event_step(props: Props, state: LoopState, event: TermEvent) -> (LoopState, LoopAction) {
    match event {
        TermEvent::Key(k) => if props.ctrl_c && holds_control(k.modifiers) && k.code == KeyCode::Char('c') {
            (state, LoopAction::Quit)
        } else {
            (state, LoopAction::DispatchKey(k))
        },
        TermEvent::Mouse(m) => (state, LoopAction::DispatchMouse(m)),
        TermEvent::Resize(w, h) => (LoopState { width: w, height: h, redraw: true, ..state }, LoopAction::Nothing),
        TermEvent::FocusGained => (LoopState { focused: true, redraw: true, ..state }, LoopAction::Nothing),
        TermEvent::FocusLost => (LoopState { focused: false, ..state }, LoopAction::Nothing),
        TermEvent::Other => (state, LoopAction::Nothing),
    }
}

/// Applies one terminal event to the loop state.
pub fn on_event(props: &Props, state: LoopState, event: TermEvent) -> (r: (LoopState, LoopAction))
    ensures
        r == event_step(*props, state, event),
{
    match event {
        TermEvent::Key(k) => if props.ctrl_c && is_ctrl_c(&k) {
            (state, LoopAction::Quit)
        } else {
            (state, LoopAction::DispatchKey(k))
        },
        TermEvent::Mouse(m) => (state, LoopAction::DispatchMouse(m)),
        TermEvent::Resize(w, h) => (LoopState { width: w, height: h, focused: state.focused, redraw: true }, LoopAction::Nothing),
        TermEvent::FocusGained => (LoopState { width: state.width, height: state.height, focused: true, redraw: true }, LoopAction::Nothing),
        TermEvent::FocusLost => (LoopState { width: state.width, height: state.height, focused: false, redraw: state.redraw }, LoopAction::Nothing),
        TermEvent::Other => (state, LoopAction::Nothing),
    }
}

/// The state once a frame has been painted: no repaint owed any more.
pub fn painted(state: LoopState) -> (s: LoopState)
    ensures
        s == (LoopState { redraw: false, ..state }),
{
    LoopState { width: state.width, height: state.height, focused: state.focused, redraw: false }
}

/// Whether `event` is Ctrl+C.
pub open spec fn quits(event: TermEvent) -> bool {
    match event {
        TermEvent::Key(k) => holds_control(k.modifiers) && k.code == KeyCode::Char('c'),
        _ => false,
    }
}

/// Whatever the event, the loop quits only on Ctrl+C with quitting enabled.
pub proof fn lemma_quit_only_on_ctrl_c(props: Props, state: LoopState, event: TermEvent)
    ensures
        event_step(props, state, event).1 == LoopAction::Quit <==> props.ctrl_c && quits(event),
{
}

} // verus!
