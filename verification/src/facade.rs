use vstd::prelude::*;
use crate::domain::{LayerShikaError, LockState};

verus! {

/// What a Wayland shell system offers: running its event loop, removing a
/// surface by name, and driving the session lock. Implemented by the system
/// that owns the connection.
pub trait WaylandSystemOps: Sized {
    /// The outcome `r` of one run of the event loop, which took the system from
    /// `before` to `after`. What it is depends on the compositor; each system
    /// gives it its own meaning.
    spec fn run_outcome(before: Self, after: Self, r: Result<(), LayerShikaError>) -> bool;

    fn run(&mut self) -> (r: Result<(), LayerShikaError>)
        ensures
            Self::run_outcome(*old(self), *final(self), r),
    ;

    fn despawn_surface(&mut self, name: &str) -> Result<(), LayerShikaError>;

    fn deactivate_session_lock(&mut self) -> Result<(), LayerShikaError>;

    fn is_session_lock_available(&self) -> bool;

    fn session_lock_state(&self) -> Option<LockState>;
}

/// Something that can draw every window that has a pending frame.
pub trait RenderableSet {
    fn render_all_dirty(&self) -> Result<(), LayerShikaError>;
}

/// A thin front of a shell system.
pub struct ShellSystemFacade<S> {
    inner: S,
}

impl<S: WaylandSystemOps> ShellSystemFacade<S> {
    pub closed spec fn inner_view(&self) -> S {
        self.inner
    }

    pub fn new(inner: S) -> (f: Self)
        ensures
            f.inner_view() == inner,
    {
        ShellSystemFacade { inner }
    }

    pub fn inner_ref(&self) -> (r: &S)
        ensures
            *r == self.inner_view(),
    {
        &self.inner
    }

    pub fn inner_mut(&mut self) -> (r: &mut S)
        ensures
            *r == old(self).inner_view(),
            final(self).inner_view() == *final(r),
    {
        &mut self.inner
    }

    /// Runs the system's event loop once, passing its outcome on unchanged.
    pub fn run(&mut self) -> (r: Result<(), LayerShikaError>)
        ensures
            S::run_outcome(old(self).inner_view(), final(self).inner_view(), r),
    {
        self.inner.run()
    }
}

} // verus!
