use vstd::prelude::*;

verus! {

/// Which surface (by wl_surface protocol id) has the keyboard focus.
pub struct KeyboardInputState {
    focused_surface_id: Option<u32>,
}

impl KeyboardInputState {
    pub closed spec fn focus(&self) -> Option<u32> {
        self.focused_surface_id
    }

    pub fn new() -> (s: Self)
        ensures
            s.focus() is None,
    {
        KeyboardInputState { focused_surface_id: None }
    }

    pub fn focused_surface_id(&self) -> (r: Option<u32>)
        ensures
            r == self.focus(),
    {
        self.focused_surface_id
    }

    pub fn set_focused_surface(&mut self, surface_id: Option<u32>)
        ensures
            final(self).focus() == surface_id,
    {
        self.focused_surface_id = surface_id;
    }

    pub fn reset(&mut self)
        ensures
            final(self).focus() is None,
    {
        self.focused_surface_id = None;
    }

    /// Drops the focus when it rests on `surface_id` (a surface going away).
    pub fn clear_surface_if_matches(&mut self, surface_id: u32)
        ensures
            final(self).focus() == if old(self).focus() == Some(surface_id) {
                None
            } else {
                old(self).focus()
            },
    {
        if self.focused_surface_id == Some(surface_id) {
            self.focused_surface_id = None;
        }
    }

    pub fn has_focused_surface(&self) -> (b: bool)
        ensures
            b == (self.focus() is Some),
    {
        self.focused_surface_id.is_some()
    }
}

impl Default for KeyboardInputState {
    fn default() -> (s: Self)
        ensures
            s.focus() is None,
    {
        Self::new()
    }
}

/// The xkb keycode of the evdev key code that `wl_keyboard.key` sends: xkb
/// numbers keys 8 above evdev.
pub fn xkb_keycode(key: u32) -> (k: u32)
    requires
        key <= u32::MAX - 8,
    ensures
        k == key + 8,
{
    key + 8
}

} // verus!
