use vstd::prelude::*;
use crate::domain::PopupHandle;

verus! {

/// Whether a window has content that still has to be drawn.
#[derive(Clone, Copy, Debug, PartialEq, Eq, Structural)]
pub enum RenderState {
    Clean,
    Dirty,
}

/// The rendering bookkeeping of a popup window: its dirty flag, whether the
/// compositor configured it, whether it is being repositioned, and whether a
/// finished repositioning still owes one more frame.
#[derive(Clone, Copy, Debug, PartialEq, Eq, Structural)]
pub struct PopupRenderState {
    pub render_state: RenderState,
    pub configured: bool,
    pub repositioning: bool,
    pub needs_relayout: bool,
}

/// Whether a frame is drawn when a render pass starts in state `s`, and the
/// state after that start: only a configured popup that is not being
/// repositioned draws, and only when it is dirty; a start that may draw clears
/// the dirty flag.
pub open spec fn begin_render_step(s: PopupRenderState) -> (bool, PopupRenderState) {
    if !s.configured || s.repositioning {
        (false, s)
    } else {
        (s.render_state is Dirty, PopupRenderState { render_state: RenderState::Clean, ..s })
    }
}

/// The state after a frame was drawn: a pending relayout is consumed by asking
/// for exactly one more frame.
pub open spec fn finish_render_step(s: PopupRenderState) -> PopupRenderState {
    if s.needs_relayout {
        PopupRenderState { needs_relayout: false, render_state: RenderState::Dirty, ..s }
    } else {
        s
    }
}

impl PopupRenderState {
    /// A new popup: clean, not configured, not repositioning.
    pub fn new() -> (s: Self)
        ensures
            s.render_state == RenderState::Clean,
            !s.configured,
            !s.repositioning,
            !s.needs_relayout,
    {
        PopupRenderState {
            render_state: RenderState::Clean,
            configured: false,
            repositioning: false,
            needs_relayout: false,
        }
    }

    /// Asks for a new frame.
    pub fn request_redraw(&mut self)
        ensures
            *final(self) == (PopupRenderState { render_state: RenderState::Dirty, ..*old(self) }),
    {
        self.render_state = RenderState::Dirty;
    }

    /// The compositor configured the popup: from now on it may draw.
    pub fn mark_configured(&mut self)
        ensures
            *final(self) == (PopupRenderState { configured: true, ..*old(self) }),
    {
        self.configured = true;
    }

    pub fn is_configured(&self) -> (b: bool)
        ensures
            b == self.configured,
    {
        self.configured
    }

    /// A reposition started: drawing is suspended until it ends.
    pub fn begin_repositioning(&mut self)
        ensures
            *final(self) == (PopupRenderState { repositioning: true, ..*old(self) }),
    {
        self.repositioning = true;
    }

    /// A reposition ended: drawing resumes and one relayout frame is owed.
    pub fn end_repositioning(&mut self)
        ensures
            *final(self) == (PopupRenderState {
                repositioning: false,
                needs_relayout: true,
                ..*old(self)
            }),
    {
        self.repositioning = false;
        self.needs_relayout = true;
    }

    /// Starts a render pass: returns whether a frame must be drawn now.
    pub fn begin_render(&mut self) -> (draw: bool)
        ensures
            (draw, *final(self)) == begin_render_step(*old(self)),
    {
        if !self.configured {
            return false;
        }
        if self.repositioning {
            return false;
        }
        let was_dirty = self.render_state == RenderState::Dirty;
        self.render_state = RenderState::Clean;
        was_dirty
    }

    /// Ends a render pass in which a frame was drawn.
    pub fn finish_render(&mut self)
        ensures
            *final(self) == finish_render_step(*old(self)),
    {
        if self.needs_relayout {
            self.needs_relayout = false;
            self.render_state = RenderState::Dirty;
        }
    }
}

/// A frame is drawn only for a configured popup that is not being repositioned
/// and that is dirty.
pub proof fn lemma_draws_only_when_ready(s: PopupRenderState)
    ensures
        begin_render_step(s).0 <==> (s.configured && !s.repositioning && s.render_state is Dirty),
{
}

/// After a drawn frame, a pending relayout makes the next pass draw exactly one
/// more frame; after that frame, nothing more is drawn until a redraw is asked
/// for again.
pub proof fn lemma_relayout_costs_one_frame(s: PopupRenderState)
    requires
        begin_render_step(s).0,
    ensures
        ({
            let s1 = finish_render_step(begin_render_step(s).1);
            &&& begin_render_step(s1).0 == s.needs_relayout
            &&& !begin_render_step(finish_render_step(begin_render_step(s1).1)).0
        }),
{
}

/// What a popup window tracks for closing: the handle under which its manager
/// knows it.
pub struct PopupWindowHandle {
    popup_handle: Option<PopupHandle>,
}

impl PopupWindowHandle {
    pub closed spec fn handle(&self) -> Option<PopupHandle> {
        self.popup_handle
    }

    pub fn new() -> (w: Self)
        ensures
            w.handle() is None,
    {
        PopupWindowHandle { popup_handle: None }
    }

    pub fn set_popup_id(&mut self, handle: PopupHandle)
        ensures
            final(self).handle() == Some(handle),
    {
        self.popup_handle = Some(handle);
    }

    /// The key of the popup, while it has a handle.
    pub fn popup_key(&self) -> (k: Option<usize>)
        ensures
            k == match self.handle() {
                Some(h) => Some(h.key),
                None => None,
            },
    {
        match self.popup_handle {
            Some(h) => Some(h.key()),
            None => None,
        }
    }

    /// Closing the window: the handle to report to the close callback (if the
    /// window had one) is handed out, and the window forgets it.
    pub fn close_popup(&mut self) -> (r: Option<PopupHandle>)
        ensures
            r == old(self).handle(),
            final(self).handle() is None,
    {
        let r = self.popup_handle;
        self.popup_handle = None;
        r
    }
}

} // verus!
