use vstd::prelude::*;
use crate::domain::{LayerShikaError, PopupHandle};
use crate::popup_manager::{dirtied, first_key_with, PopupManager, PopupObject};
use crate::popup_slab::PopupEntry;
use crate::popup_window::PopupRenderState;

verus! {

/// The window that a surface belongs to: the main window, one of the popups
/// (by key), or none that this service knows.
#[derive(Clone, Copy, Debug, PartialEq, Eq, Structural)]
pub enum ActiveWindow {
    Main,
    Popup(usize),
    NoWindow,
}

/// Optional key as an optional handle key.
pub open spec fn handle_key(h: Option<PopupHandle>) -> Option<usize> {
    match h {
        Some(h) => Some(h.key),
        None => None,
    }
}

/// The popup side of a layer surface: popup requests, lookups by protocol id
/// and the routing of input to the main window or a popup.
pub struct PopupService<P> {
    manager: PopupManager<P>,
}

impl<P> PopupService<P> {
    pub closed spec fn manager_view(&self) -> PopupManager<P> {
        self.manager
    }

    pub fn new(manager: PopupManager<P>) -> (s: Self)
        requires
            manager.wf(),
        ensures
            s.manager_view().wf(),
            s.manager_view() == manager,
    {
        PopupService { manager }
    }

    pub fn manager(&self) -> (m: &PopupManager<P>)
        ensures
            *m == self.manager_view(),
    {
        &self.manager
    }

    /// Queues a popup request; the window is created when the windowing
    /// system asks for it.
    pub fn show(&mut self, request: P)
        requires
            old(self).manager_view().wf(),
        ensures
            final(self).manager_view().wf(),
            final(self).manager_view().requests() == old(self).manager_view().requests(),
            final(self).manager_view().pending() == Some(request),
            final(self).manager_view().popups() == old(self).manager_view().popups(),
            final(self).manager_view().current_key() == old(self).manager_view().current_key(),
    {
        self.manager.set_pending_popup(request);
    }

    /// Closes the popup `handle` (a no-op when it is gone already).
    pub fn close(&mut self, handle: PopupHandle) -> (r: Result<Option<PopupEntry>, LayerShikaError>)
        requires
            old(self).manager_view().wf(),
        ensures
            final(self).manager_view().wf(),
            r == Ok::<Option<PopupEntry>, LayerShikaError>(
                if old(self).manager_view().popups().dom().contains(handle.key) {
                    Some(old(self).manager_view().popups()[handle.key])
                } else {
                    None
                },
            ),
            final(self).manager_view().popups() == old(self).manager_view().popups().remove(
                handle.key,
            ),
            final(self).manager_view().request_of(handle.key) is None,
            forall|k: usize|
                k != handle.key ==> #[trigger] final(self).manager_view().request_of(k) == old(
                    self,
                ).manager_view().request_of(k),
            final(self).manager_view().current_key() == old(self).manager_view().current_key(),
            final(self).manager_view().pending() == old(self).manager_view().pending(),
    {
        let removed = self.manager.destroy_popup(handle.key());
        Ok(removed)
    }

    /// Closes the current popup.
    pub fn close_current(&mut self) -> (r: Option<PopupEntry>)
        requires
            old(self).manager_view().wf(),
        ensures
            final(self).manager_view().wf(),
            final(self).manager_view().current_key() is None,
            final(self).manager_view().pending() == old(self).manager_view().pending(),
            match old(self).manager_view().current_key() {
                Some(k) => {
                    &&& final(self).manager_view().popups() == old(
                        self,
                    ).manager_view().popups().remove(k)
                    &&& r == (if old(self).manager_view().popups().dom().contains(k) {
                        Some(old(self).manager_view().popups()[k])
                    } else {
                        None
                    })
                    &&& final(self).manager_view().request_of(k) is None
                    &&& forall|j: usize|
                        j != k ==> #[trigger] final(self).manager_view().request_of(j) == old(
                            self,
                        ).manager_view().request_of(j)
                },
                None => r is None && final(self).manager_view().popups() == old(
                    self,
                ).manager_view().popups() && final(self).manager_view().requests() == old(
                    self,
                ).manager_view().requests(),
            },
    {
        self.manager.close_current_popup()
    }

    pub fn find_by_surface(&self, surface_id: u32) -> (r: Option<PopupHandle>)
        ensures
            first_key_with(
                self.manager_view().popups(),
                PopupObject::Surface,
                surface_id,
                handle_key(r),
            ),
    {
        self.manager.find_by_surface(surface_id)
    }

    pub fn find_by_fractional_scale(&self, fractional_scale_id: u32) -> (r: Option<PopupHandle>)
        ensures
            first_key_with(
                self.manager_view().popups(),
                PopupObject::FractionalScale,
                fractional_scale_id,
                handle_key(r),
            ),
    {
        match self.manager.find_popup_key_by_fractional_scale_id(fractional_scale_id) {
            Some(k) => Some(PopupHandle::new(k)),
            None => None,
        }
    }

    pub fn find_by_xdg_popup(&self, xdg_popup_id: u32) -> (r: Option<PopupHandle>)
        ensures
            first_key_with(
                self.manager_view().popups(),
                PopupObject::XdgPopup,
                xdg_popup_id,
                handle_key(r),
            ),
    {
        self.manager.find_by_xdg_popup(xdg_popup_id)
    }

    pub fn find_by_xdg_surface(&self, xdg_surface_id: u32) -> (r: Option<PopupHandle>)
        ensures
            first_key_with(
                self.manager_view().popups(),
                PopupObject::XdgSurface,
                xdg_surface_id,
                handle_key(r),
            ),
    {
        self.manager.find_by_xdg_surface(xdg_surface_id)
    }

    /// The window that input on surface `surface_id` goes to: the main window
    /// when it is the main surface, else the first popup (by key) with that
    /// surface, else none.
    pub fn get_active_window(&self, surface_id: u32, main_surface_id: u32) -> (w: ActiveWindow)
        ensures
            surface_id == main_surface_id ==> w == ActiveWindow::Main,
            surface_id != main_surface_id ==> match w {
                ActiveWindow::Popup(k) => first_key_with(
                    self.manager_view().popups(),
                    PopupObject::Surface,
                    surface_id,
                    Some(k),
                ),
                ActiveWindow::NoWindow => first_key_with(
                    self.manager_view().popups(),
                    PopupObject::Surface,
                    surface_id,
                    None,
                ),
                ActiveWindow::Main => false,
            },
    {
        if main_surface_id == surface_id {
            return ActiveWindow::Main;
        }
        match self.manager.find_popup_key_by_surface_id(surface_id) {
            Some(k) => ActiveWindow::Popup(k),
            None => ActiveWindow::NoWindow,
        }
    }

    /// A new preferred scale arrived for the fractional-scale object
    /// `fractional_scale_id`: the popup it belongs to (the first by key) is
    /// asked to redraw and its key returned, so that its scale can be applied.
    pub fn update_scale_for_fractional_scale_object(&mut self, fractional_scale_id: u32) -> (r:
        Option<usize>)
        requires
            old(self).manager_view().wf(),
        ensures
            final(self).manager_view().wf(),
            final(self).manager_view().requests() == old(self).manager_view().requests(),
            first_key_with(
                old(self).manager_view().popups(),
                PopupObject::FractionalScale,
                fractional_scale_id,
                r,
            ),
            match r {
                Some(k) => final(self).manager_view().popups() == old(
                    self,
                ).manager_view().popups().insert(k, dirtied(old(self).manager_view().popups()[k])),
                None => final(self).manager_view().popups() == old(self).manager_view().popups(),
            },
            final(self).manager_view().current_key() == old(self).manager_view().current_key(),
            final(self).manager_view().pending() == old(self).manager_view().pending(),
    {
        let r = self.manager.find_popup_key_by_fractional_scale_id(fractional_scale_id);
        match r {
            Some(k) => {
                self.manager.request_popup_redraw(k);
            },
            None => {},
        }
        r
    }

    pub fn mark_popup_configured(&mut self, handle: PopupHandle)
        requires
            old(self).manager_view().wf(),
        ensures
            final(self).manager_view().wf(),
            final(self).manager_view().requests() == old(self).manager_view().requests(),
            final(self).manager_view().popups() == if old(self).manager_view().popups().dom().contains(
                handle.key,
            ) {
                old(self).manager_view().popups().insert(
                    handle.key,
                    PopupEntry {
                        render: PopupRenderState {
                            configured: true,
                            ..old(self).manager_view().popups()[handle.key].render
                        },
                        ..old(self).manager_view().popups()[handle.key]
                    },
                )
            } else {
                old(self).manager_view().popups()
            },
            final(self).manager_view().current_key() == old(self).manager_view().current_key(),
            final(self).manager_view().pending() == old(self).manager_view().pending(),
    {
        self.manager.mark_popup_configured(handle.key());
    }

    /// The request that the popup `handle` was opened from, with the pointer
    /// serial it was opened with.
    pub fn get_popup_info(&self, handle: PopupHandle) -> (r: Option<(&P, u32)>)
        requires
            self.manager_view().wf(),
        ensures
            match r {
                Some((request, serial)) => {
                    &&& self.manager_view().popups().dom().contains(handle.key)
                    &&& self.manager_view().request_of(handle.key) == Some(*request)
                    &&& serial == self.manager_view().popups()[handle.key].last_serial
                },
                None => !self.manager_view().popups().dom().contains(handle.key),
            },
    {
        self.manager.get_popup_info(handle.key())
    }

    /// What the manager records of the popup `handle`.
    pub fn popup_entry(&self, handle: PopupHandle) -> (r: Option<PopupEntry>)
        ensures
            r == (if self.manager_view().popups().dom().contains(handle.key) {
                Some(self.manager_view().popups()[handle.key])
            } else {
                None
            }),
    {
        self.manager.popup_entry(handle.key())
    }

    pub fn has_xdg_shell(&self) -> (b: bool)
        ensures
            b == self.manager_view().xdg_shell_available(),
    {
        self.manager.has_xdg_shell()
    }

    pub fn current_popup_key(&self) -> (k: Option<usize>)
        ensures
            k == self.manager_view().current_key(),
    {
        self.manager.current_popup_key()
    }

    pub fn take_pending_popup(&mut self) -> (r: Option<P>)
        requires
            old(self).manager_view().wf(),
        ensures
            final(self).manager_view().wf(),
            final(self).manager_view().requests() == old(self).manager_view().requests(),
            r == old(self).manager_view().pending(),
            final(self).manager_view().pending() is None,
            final(self).manager_view().popups() == old(self).manager_view().popups(),
            final(self).manager_view().current_key() == old(self).manager_view().current_key(),
    {
        self.manager.take_pending_popup()
    }
}

} // verus!
