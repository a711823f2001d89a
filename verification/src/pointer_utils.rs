use vstd::prelude::*;

verus! {

/// A pointer button as the UI toolkit names it.
#[derive(Clone, Copy, Debug, PartialEq, Eq, Structural)]
pub enum PointerEventButton {
    Left,
    Right,
    Middle,
    Forward,
    Back,
    Other,
}

/// The button that a Linux input event code (as `wl_pointer.button` sends
/// it) stands for: BTN_LEFT 0x110, BTN_RIGHT 0x111, BTN_MIDDLE 0x112,
/// BTN_FORWARD 0x115, BTN_BACK 0x116; any other code is `Other`.
pub open spec fn spec_button(button: u32) -> PointerEventButton {
    if button == 0x110 {
        PointerEventButton::Left
    } else if button == 0x111 {
        PointerEventButton::Right
    } else if button == 0x112 {
        PointerEventButton::Middle
    } else if button == 0x115 {
        PointerEventButton::Forward
    } else if button == 0x116 {
        PointerEventButton::Back
    } else {
        PointerEventButton::Other
    }
}

pub fn wayland_button_to_slint(button: u32) -> (b: PointerEventButton)
    ensures
        b == spec_button(button),
{
    match button {
        0x110 => PointerEventButton::Left,
        0x111 => PointerEventButton::Right,
        0x112 => PointerEventButton::Middle,
        0x115 => PointerEventButton::Forward,
        0x116 => PointerEventButton::Back,
        _ => PointerEventButton::Other,
    }
}

/// Whether a button or key went down or up.
#[derive(Clone, Copy, Debug, PartialEq, Eq, Structural)]
pub enum Transition {
    Pressed,
    Released,
}

/// The transition that a `wl_pointer.button_state` or `wl_keyboard.key_state`
/// wire value reports: 1 pressed, 0 released. Any other value (a key repeat,
/// or a value this protocol version does not know) reports none, and no event
/// is sent for it.
pub open spec fn spec_transition(state: u32) -> Option<Transition> {
    if state == 1 {
        Some(Transition::Pressed)
    } else if state == 0 {
        Some(Transition::Released)
    } else {
        None
    }
}

pub fn transition_from_wire(state: u32) -> (t: Option<Transition>)
    ensures
        t == spec_transition(state),
{
    match state {
        1 => Some(Transition::Pressed),
        0 => Some(Transition::Released),
        _ => None,
    }
}

/// A button event on a layer surface: pressed when the wire state says
/// pressed, released for any other state (the surface reports it as the left
/// button either way).
pub fn layer_surface_button_transition(state: u32) -> (t: Transition)
    ensures
        t == if state == 1 {
            Transition::Pressed
        } else {
            Transition::Released
        },
{
    if state == 1 {
        Transition::Pressed
    } else {
        Transition::Released
    }
}

} // verus!
