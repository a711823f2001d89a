use vstd::prelude::*;

verus! {

/// Where the window adapter that the UI toolkit asks for comes from.
#[derive(Clone, Copy, Debug, PartialEq, Eq, Structural)]
pub enum WindowAdapterSource {
    /// The first request gets the main window.
    MainWindow,
    /// Later requests are popups, made by the popup creator.
    PopupCreator,
    /// No popup creator is installed: the request fails.
    NoPlatform,
}

/// The state of the UI platform: whether the main window was handed out yet,
/// whether a popup creator is installed, the popup window `W` opened last and
/// the configuration `C` of the popup to open next.
pub struct CustomSlintPlatform<C, W> {
    first_call: bool,
    has_popup_creator: bool,
    last_popup: Option<W>,
    popup_config: Option<C>,
}

impl<C, W> CustomSlintPlatform<C, W> {
    pub closed spec fn main_window_pending(&self) -> bool {
        self.first_call
    }

    pub closed spec fn creator_installed(&self) -> bool {
        self.has_popup_creator
    }

    pub closed spec fn last_popup_view(&self) -> Option<W> {
        self.last_popup
    }

    pub closed spec fn config(&self) -> Option<C> {
        self.popup_config
    }

    pub fn new() -> (p: Self)
        ensures
            p.main_window_pending(),
            !p.creator_installed(),
            p.last_popup_view() is None,
            p.config() is None,
    {
        CustomSlintPlatform {
            first_call: true,
            has_popup_creator: false,
            last_popup: None,
            popup_config: None,
        }
    }

    /// Records that a popup creator is installed.
    pub fn set_popup_creator(&mut self)
        ensures
            final(self).creator_installed(),
            final(self).main_window_pending() == old(self).main_window_pending(),
            final(self).last_popup_view() == old(self).last_popup_view(),
            final(self).config() == old(self).config(),
    {
        self.has_popup_creator = true;
    }

    /// Decides where a requested window adapter comes from: the main window on
    /// the first request, the popup creator afterwards (when installed).
    pub fn create_window_adapter(&mut self) -> (r: WindowAdapterSource)
        ensures
            r == if old(self).main_window_pending() {
                WindowAdapterSource::MainWindow
            } else if old(self).creator_installed() {
                WindowAdapterSource::PopupCreator
            } else {
                WindowAdapterSource::NoPlatform
            },
            !final(self).main_window_pending(),
            final(self).creator_installed() == old(self).creator_installed(),
            final(self).last_popup_view() == old(self).last_popup_view(),
            final(self).config() == old(self).config(),
    {
        if self.first_call {
            self.first_call = false;
            WindowAdapterSource::MainWindow
        } else if self.has_popup_creator {
            WindowAdapterSource::PopupCreator
        } else {
            WindowAdapterSource::NoPlatform
        }
    }

    /// Remembers the popup window opened last.
    pub fn set_last_popup(&mut self, popup: W)
        ensures
            final(self).last_popup_view() == Some(popup),
            final(self).main_window_pending() == old(self).main_window_pending(),
            final(self).creator_installed() == old(self).creator_installed(),
            final(self).config() == old(self).config(),
    {
        self.last_popup = Some(popup);
    }

    /// Forgets the popup opened last and hands it back, so that it is closed.
    pub fn close_current_popup(&mut self) -> (r: Option<W>)
        ensures
            r == old(self).last_popup_view(),
            final(self).last_popup_view() is None,
            final(self).main_window_pending() == old(self).main_window_pending(),
            final(self).creator_installed() == old(self).creator_installed(),
            final(self).config() == old(self).config(),
    {
        let mut r: Option<W> = None;
        std::mem::swap(&mut r, &mut self.last_popup);
        r
    }

    /// Sets the configuration of the popup to open next.
    pub fn set_popup_config(&mut self, config: C)
        ensures
            final(self).config() == Some(config),
            final(self).main_window_pending() == old(self).main_window_pending(),
            final(self).creator_installed() == old(self).creator_installed(),
            final(self).last_popup_view() == old(self).last_popup_view(),
    {
        self.popup_config = Some(config);
    }

    /// The configuration of the popup to open next.
    pub fn get_popup_config(&self) -> (r: Option<C>)
        where
            C: Copy,
        ensures
            r == self.config(),
    {
        self.popup_config
    }

    pub fn clear_popup_config(&mut self)
        ensures
            final(self).config() is None,
            final(self).main_window_pending() == old(self).main_window_pending(),
            final(self).creator_installed() == old(self).creator_installed(),
            final(self).last_popup_view() == old(self).last_popup_view(),
    {
        self.popup_config = None;
    }
}

/// Closes the popup opened last on the current platform (if a platform is
/// current): the popup is handed back to be closed and forgotten.
pub fn close_current_popup<C, W>(current: &mut Option<CustomSlintPlatform<C, W>>) -> (r: Option<W>)
    ensures
        match *old(current) {
            Some(p) => {
                &&& r == p.last_popup_view()
                &&& *final(current) matches Some(q) && q.last_popup_view() is None && q.config()
                    == p.config() && q.main_window_pending() == p.main_window_pending()
                    && q.creator_installed() == p.creator_installed()
            },
            None => r is None && *final(current) is None,
        },
{
    match current {
        Some(p) => p.close_current_popup(),
        None => None,
    }
}

/// Sets the configuration of the next popup on the current platform.
pub fn set_popup_config<C, W>(current: &mut Option<CustomSlintPlatform<C, W>>, config: C)
    ensures
        match *old(current) {
            Some(p) => *final(current) matches Some(q) && q.config() == Some(config)
                && q.last_popup_view() == p.last_popup_view() && q.main_window_pending()
                == p.main_window_pending() && q.creator_installed() == p.creator_installed(),
            None => *final(current) is None,
        },
{
    match current {
        Some(p) => p.set_popup_config(config),
        None => {},
    }
}

/// The configuration of the next popup on the current platform.
pub fn get_popup_config<C: Copy, W>(current: &Option<CustomSlintPlatform<C, W>>) -> (r: Option<C>)
    ensures
        r == match *current {
            Some(p) => p.config(),
            None => None,
        },
{
    match current {
        Some(p) => p.get_popup_config(),
        None => None,
    }
}

/// Clears the configuration of the next popup on the current platform.
pub fn clear_popup_config<C, W>(current: &mut Option<CustomSlintPlatform<C, W>>)
    ensures
        match *old(current) {
            Some(p) => *final(current) matches Some(q) && q.config() is None
                && q.last_popup_view() == p.last_popup_view() && q.main_window_pending()
                == p.main_window_pending() && q.creator_installed() == p.creator_installed(),
            None => *final(current) is None,
        },
{
    match current {
        Some(p) => p.clear_popup_config(),
        None => {},
    }
}

} // verus!
