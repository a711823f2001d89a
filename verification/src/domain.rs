use vstd::prelude::*;

verus! {

/// The layer-shell layer a surface is placed on, from the bottom up.
#[derive(Clone, Copy, Debug, PartialEq, Eq, Structural)]
pub enum Layer {
    Background,
    Bottom,
    Top,
    Overlay,
}

/// How a layer surface takes keyboard focus.
#[derive(Clone, Copy, Debug, PartialEq, Eq, Structural)]
pub enum KeyboardInteractivity {
    NoFocus,
    Exclusive,
    OnDemand,
}

/// The edges of the output a layer surface is anchored to.
#[derive(Clone, Copy, Debug, PartialEq, Eq, Structural)]
pub struct AnchorEdges {
    pub top: bool,
    pub bottom: bool,
    pub left: bool,
    pub right: bool,
}

impl AnchorEdges {
    pub fn new(top: bool, bottom: bool, left: bool, right: bool) -> (a: Self)
        ensures
            a.top == top,
            a.bottom == bottom,
            a.left == left,
            a.right == right,
    {
        AnchorEdges { top, bottom, left, right }
    }

    pub fn has_top(&self) -> (b: bool)
        ensures
            b == self.top,
    {
        self.top
    }

    pub fn has_bottom(&self) -> (b: bool)
        ensures
            b == self.bottom,
    {
        self.bottom
    }

    pub fn has_left(&self) -> (b: bool)
        ensures
            b == self.left,
    {
        self.left
    }

    pub fn has_right(&self) -> (b: bool)
        ensures
            b == self.right,
    {
        self.right
    }
}

/// Margins of a layer surface, in logical pixels.
#[derive(Clone, Copy, Debug, PartialEq, Eq, Structural)]
pub struct Margins {
    pub top: i32,
    pub right: i32,
    pub bottom: i32,
    pub left: i32,
}

/// The life cycle of a session lock.
#[derive(Clone, Copy, Debug, PartialEq, Eq, Structural)]
pub enum LockState {
    Inactive,
    Locking,
    Locked,
    Unlocking,
}

impl LockState {
    /// A lock can only be requested when no lock is in progress.
    pub open spec fn spec_can_activate(self) -> bool {
        self is Inactive
    }

    /// A lock can be released once it was requested and not yet released.
    pub open spec fn spec_can_deactivate(self) -> bool {
        self is Locking || self is Locked
    }

    pub fn can_activate(&self) -> (b: bool)
        ensures
            b == self.spec_can_activate(),
    {
        matches!(self, LockState::Inactive)
    }

    pub fn can_deactivate(&self) -> (b: bool)
        ensures
            b == self.spec_can_deactivate(),
    {
        matches!(self, LockState::Locking | LockState::Locked)
    }

    /// The variant's name, as `Debug` prints it.
    pub open spec fn debug_name_spec(self) -> Seq<char> {
        match self {
            LockState::Inactive => "Inactive"@,
            LockState::Locking => "Locking"@,
            LockState::Locked => "Locked"@,
            LockState::Unlocking => "Unlocking"@,
        }
    }

    pub fn debug_name(&self) -> (n: &'static str)
        ensures
            n@ == self.debug_name_spec(),
    {
        match self {
            LockState::Inactive => "Inactive",
            LockState::Locking => "Locking",
            LockState::Locked => "Locked",
            LockState::Unlocking => "Unlocking",
        }
    }

    pub fn is_active(&self) -> (b: bool)
        ensures
            b == (*self is Locking || *self is Locked),
    {
        matches!(self, LockState::Locking | LockState::Locked)
    }
}

/// Where a popup is placed relative to its reference point.
#[derive(Clone, Copy, Debug, PartialEq, Eq, Structural)]
pub enum PopupPositioningMode {
    TopLeft,
    TopCenter,
    CenterLeft,
    Center,
}

impl PopupPositioningMode {
    /// Centered horizontally on the reference point.
    pub open spec fn spec_center_x(self) -> bool {
        self is TopCenter || self is Center
    }

    /// Centered vertically on the reference point.
    pub open spec fn spec_center_y(self) -> bool {
        self is CenterLeft || self is Center
    }

    pub fn from_flags(center_x: bool, center_y: bool) -> (m: Self)
        ensures
            m.spec_center_x() == center_x,
            m.spec_center_y() == center_y,
    {
        match (center_x, center_y) {
            (false, false) => PopupPositioningMode::TopLeft,
            (true, false) => PopupPositioningMode::TopCenter,
            (false, true) => PopupPositioningMode::CenterLeft,
            (true, true) => PopupPositioningMode::Center,
        }
    }

    pub fn center_x(&self) -> (b: bool)
        ensures
            b == self.spec_center_x(),
    {
        matches!(self, PopupPositioningMode::TopCenter | PopupPositioningMode::Center)
    }

    pub fn center_y(&self) -> (b: bool)
        ensures
            b == self.spec_center_y(),
    {
        matches!(self, PopupPositioningMode::CenterLeft | PopupPositioningMode::Center)
    }
}

/// Identifies one output (monitor) for the lifetime of the process.
#[derive(Clone, Copy, Debug, PartialEq, Eq, Structural, Hash)]
pub struct OutputHandle {
    pub id: u64,
}

/// Identifies one configured shell surface (the same on every output).
#[derive(Clone, Copy, Debug, PartialEq, Eq, Structural, Hash)]
pub struct SurfaceHandle {
    pub id: u64,
}

/// Identifies one popup of a popup manager by its slot key.
#[derive(Clone, Copy, Debug, PartialEq, Eq, Structural, Hash)]
pub struct PopupHandle {
    pub key: usize,
}

impl PopupHandle {
    pub fn new(key: usize) -> (h: Self)
        ensures
            h.key == key,
    {
        PopupHandle { key }
    }

    pub fn key(&self) -> (k: usize)
        ensures
            k == self.key,
    {
        self.key
    }
}

/// The errors that the verified logic reports.
#[derive(Clone, Debug, PartialEq, Eq)]
pub enum LayerShikaError {
    InvalidInput { message: String },
    WindowConfiguration { message: String },
}

} // verus!
