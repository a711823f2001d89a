use vstd::prelude::*;
use crate::domain::PopupPositioningMode;
use vstd::string::StrSliceExecFns;

verus! {

/// What a popup resize request leads to.
#[derive(Clone, Copy, Debug, PartialEq, Eq, Structural)]
pub enum PopupResizeAction {
    /// The popup is closed and opened again at the new size, because it is
    /// centered on its reference point and a new size moves it.
    Recreate,
    /// The popup window is resized where it is.
    ResizeInPlace,
    /// The size did not change: nothing is done.
    Unchanged,
}

/// A popup centered along some axis has to be repositioned when its size
/// changes, which means opening it again; other popups are resized in place.
pub open spec fn spec_resize_action(size_changed: bool, mode: PopupPositioningMode) -> PopupResizeAction {
    if size_changed && (mode.spec_center_x() || mode.spec_center_y()) {
        PopupResizeAction::Recreate
    } else if size_changed {
        PopupResizeAction::ResizeInPlace
    } else {
        PopupResizeAction::Unchanged
    }
}

/// Decides how a popup with positioning `mode` follows a resize request;
/// `size_changed` tells whether the requested size differs from the current
/// one (or the popup had no fixed size).
pub fn resize_action(size_changed: bool, mode: PopupPositioningMode) -> (a: PopupResizeAction)
    ensures
        a == spec_resize_action(size_changed, mode),
{
    let needs_repositioning = mode.center_x() || mode.center_y();
    if needs_repositioning && size_changed {
        PopupResizeAction::Recreate
    } else if size_changed {
        PopupResizeAction::ResizeInPlace
    } else {
        PopupResizeAction::Unchanged
    }
}

/// A `show_popup` request names the component to show; without a name it is
/// ignored.
pub fn popup_request_accepted(component_name: &str) -> (b: bool)
    ensures
        b == (component_name@.len() > 0),
{
    component_name.unicode_len() != 0
}

} // verus!
