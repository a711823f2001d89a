use vstd::prelude::*;
use crate::domain::{LayerShikaError, LockState};
use vstd::string::StringExecFns;

verus! {

/// How a lock surface is scaled: with a fractional scale and a viewport, with a
/// fractional scale alone, or with an integer buffer scale.
#[derive(Clone, Copy, Debug, PartialEq, Eq, Structural)]
pub enum LockScalingMode {
    FractionalWithViewport,
    FractionalOnly,
    Integer,
}

impl LockScalingMode {
    /// The scaling mode that a surface with these protocol objects uses.
    pub open spec fn spec_select(has_fractional_scale: bool, has_viewport: bool) -> Self {
        if has_fractional_scale && has_viewport {
            LockScalingMode::FractionalWithViewport
        } else if has_fractional_scale {
            LockScalingMode::FractionalOnly
        } else {
            LockScalingMode::Integer
        }
    }

    pub fn select(has_fractional_scale: bool, has_viewport: bool) -> (m: Self)
        ensures
            m == Self::spec_select(has_fractional_scale, has_viewport),
            !has_fractional_scale ==> m == LockScalingMode::Integer,
            has_fractional_scale && has_viewport ==> m == LockScalingMode::FractionalWithViewport,
            has_fractional_scale && !has_viewport ==> m == LockScalingMode::FractionalOnly,
    {
        if has_fractional_scale && has_viewport {
            LockScalingMode::FractionalWithViewport
        } else if has_fractional_scale {
            LockScalingMode::FractionalOnly
        } else {
            LockScalingMode::Integer
        }
    }

    /// The window is sized in logical units (fractional modes) rather than in
    /// physical pixels (integer mode).
    pub fn sizes_window_logically(&self) -> (b: bool)
        ensures
            b == !(*self is Integer),
    {
        !matches!(self, LockScalingMode::Integer)
    }

    /// The surface gets a viewport destination (only with a viewport), else a
    /// buffer scale.
    pub fn uses_viewport(&self) -> (b: bool)
        ensures
            b == (*self is FractionalWithViewport),
    {
        matches!(self, LockScalingMode::FractionalWithViewport)
    }
}

/// A lock surface is scaled fractionally exactly when it has a fractional-scale
/// object, and through a viewport exactly when it also has a viewport; without
/// a fractional-scale object it is scaled by an integer buffer scale, viewport
/// or not.
pub proof fn lemma_scaling_mode_follows_objects(has_fractional_scale: bool, has_viewport: bool)
    ensures
        (LockScalingMode::spec_select(has_fractional_scale, has_viewport) is Integer)
            == !has_fractional_scale,
        (LockScalingMode::spec_select(has_fractional_scale, has_viewport) is FractionalWithViewport)
            == (has_fractional_scale && has_viewport),
        (LockScalingMode::spec_select(has_fractional_scale, has_viewport) is FractionalOnly) == (
        has_fractional_scale && !has_viewport),
{
}

/// What the lock manager knows of the lock surface it created on one output:
/// the protocol ids of its objects, its last configured size and whether its
/// component exists yet.
#[derive(Clone, Copy, Debug, PartialEq, Eq, Structural)]
pub struct LockSurfaceEntry {
    pub output_id: u32,
    pub surface_id: u32,
    pub lock_surface_id: u32,
    pub fractional_scale_id: Option<u32>,
    pub has_viewport: bool,
    pub width: u32,
    pub height: u32,
    pub has_component: bool,
}

impl LockSurfaceEntry {
    /// A surface just created on `output_id`, not yet configured.
    pub fn new(
        output_id: u32,
        surface_id: u32,
        lock_surface_id: u32,
        fractional_scale_id: Option<u32>,
        has_viewport: bool,
    ) -> (e: Self)
        ensures
            e.output_id == output_id,
            e.surface_id == surface_id,
            e.lock_surface_id == lock_surface_id,
            e.fractional_scale_id == fractional_scale_id,
            e.has_viewport == has_viewport,
            e.width == 0,
            e.height == 0,
            !e.has_component,
    {
        LockSurfaceEntry {
            output_id,
            surface_id,
            lock_surface_id,
            fractional_scale_id,
            has_viewport,
            width: 0,
            height: 0,
            has_component: false,
        }
    }

    pub fn scaling_mode(&self) -> (m: LockScalingMode)
        ensures
            m == LockScalingMode::spec_select(self.fractional_scale_id is Some, self.has_viewport),
    {
        LockScalingMode::select(self.fractional_scale_id.is_some(), self.has_viewport)
    }
}

/// Some entry of `s` is the lock surface of output `output_id`.
pub open spec fn has_output_in(s: Seq<LockSurfaceEntry>, output_id: u32) -> bool {
    exists|i: int| 0 <= i < s.len() && #[trigger] s[i].output_id == output_id
}

/// Some entry of `s` has `surface_id` as its wl_surface.
pub open spec fn has_surface_in(s: Seq<LockSurfaceEntry>, surface_id: u32) -> bool {
    exists|i: int| 0 <= i < s.len() && #[trigger] s[i].surface_id == surface_id
}

/// No two entries of `s` belong to the same output.
pub open spec fn outputs_distinct(s: Seq<LockSurfaceEntry>) -> bool {
    forall|i: int, j: int|
        0 <= i < s.len() && 0 <= j < s.len() && i != j ==> #[trigger] s[i].output_id
            != #[trigger] s[j].output_id
}

/// A focus refers to a surface of `s`, or is absent.
pub open spec fn focus_valid(s: Seq<LockSurfaceEntry>, focus: Option<u32>) -> bool {
    match focus {
        Some(id) => has_surface_in(s, id),
        None => true,
    }
}

/// The first lock surface of `s` with lock-surface id `id` exists and still
/// lacks its component.
pub open spec fn component_needed(s: Seq<LockSurfaceEntry>, id: u32) -> bool {
    exists|i: int|
        0 <= i < s.len() && #[trigger] s[i].lock_surface_id == id && !s[i].has_component && (
        forall|j: int| 0 <= j < i ==> #[trigger] s[j].lock_surface_id != id)
}

/// Two tables of lock surfaces that agree, position by position, on the
/// lock-surface ids and on which surfaces have their component.
pub open spec fn same_components(s: Seq<LockSurfaceEntry>, t: Seq<LockSurfaceEntry>) -> bool {
    &&& s.len() == t.len()
    &&& forall|j: int|
        0 <= j < s.len() ==> #[trigger] s[j].lock_surface_id == t[j].lock_surface_id
            && s[j].has_component == t[j].has_component
}

proof fn lemma_same_components_needed(s: Seq<LockSurfaceEntry>, t: Seq<LockSurfaceEntry>, id: u32)
    requires
        same_components(s, t),
    ensures
        component_needed(s, id) == component_needed(t, id),
{
    if component_needed(s, id) {
        let i = choose|i: int|
            0 <= i < s.len() && #[trigger] s[i].lock_surface_id == id && !s[i].has_component && (
            forall|j: int| 0 <= j < i ==> #[trigger] s[j].lock_surface_id != id);
        assert(t[i].lock_surface_id == id);
        assert forall|j: int| 0 <= j < i implies #[trigger] t[j].lock_surface_id != id by {
            assert(s[j].lock_surface_id != id);
        }
    }
    if component_needed(t, id) {
        let i = choose|i: int|
            0 <= i < t.len() && #[trigger] t[i].lock_surface_id == id && !t[i].has_component && (
            forall|j: int| 0 <= j < i ==> #[trigger] t[j].lock_surface_id != id);
        assert(s[i].lock_surface_id == id);
        assert forall|j: int| 0 <= j < i implies #[trigger] s[j].lock_surface_id != id by {
            assert(t[j].lock_surface_id != id);
        }
    }
}

/// A lock surface gets its component once. Configuring never changes which
/// surfaces still need their component, so once the component of `id` exists
/// (the first table of `runs`, right after it was created), no configure that
/// follows (each next table, as `handle_configure` leaves it) asks for it
/// again.
pub proof fn lemma_component_created_once(runs: Seq<Seq<LockSurfaceEntry>>, id: u32)
    requires
        runs.len() > 0,
        !component_needed(runs[0], id),
        forall|k: int| 0 <= k < runs.len() - 1 ==> same_components(#[trigger] runs[k], runs[k + 1]),
    ensures
        forall|k: int| 0 <= k < runs.len() ==> !component_needed(#[trigger] runs[k], id),
    decreases runs.len(),
{
    if runs.len() > 1 {
        let prefix = runs.drop_last();
        assert forall|k: int| 0 <= k < prefix.len() - 1 implies same_components(
            #[trigger] prefix[k],
            prefix[k + 1],
        ) by {
            assert(prefix[k] == runs[k] && prefix[k + 1] == runs[k + 1]);
            assert(same_components(runs[k], runs[k + 1]));
        }
        assert(prefix[0] == runs[0]);
        lemma_component_created_once(prefix, id);
        let n = runs.len() - 1;
        assert(same_components(runs[n - 1], runs[n]));
        assert(prefix[n - 1] == runs[n - 1]);
        lemma_same_components_needed(runs[n - 1], runs[n], id);
        assert forall|k: int| 0 <= k < runs.len() implies !component_needed(#[trigger] runs[k], id) by {
            if k < n {
                assert(prefix[k] == runs[k]);
            }
        }
    }
}

/// The state reached when an activation is requested in state `s`, or `None`
/// when the request is refused.
pub open spec fn activate_step(s: LockState) -> Option<LockState> {
    if s.spec_can_activate() {
        Some(LockState::Locking)
    } else {
        None
    }
}

/// The state reached when the compositor confirms the lock.
pub open spec fn locked_step(s: LockState) -> LockState {
    if s is Locking {
        LockState::Locked
    } else {
        s
    }
}

/// The state reached when a release is requested, or `None` when refused.
pub open spec fn deactivate_step(s: LockState) -> Option<LockState> {
    if s.spec_can_deactivate() {
        Some(LockState::Unlocking)
    } else {
        None
    }
}

/// The state reached when the compositor reports the lock as finished.
pub open spec fn finished_step(s: LockState) -> LockState {
    LockState::Inactive
}

/// No lock state admits both a new lock request and a release.
pub proof fn lemma_activate_and_deactivate_exclusive(s: LockState)
    ensures
        !(activate_step(s) is Some && deactivate_step(s) is Some),
{
}

/// A lock that was just requested can be released, and a released lock cannot
/// be released again.
pub proof fn lemma_release_after_request(s: LockState)
    ensures
        activate_step(s) matches Some(t) ==> deactivate_step(t) is Some,
        deactivate_step(s) matches Some(t) ==> deactivate_step(t) is None,
        deactivate_step(s) matches Some(t) ==> activate_step(t) is None,
{
}

/// Once the compositor reports the lock finished, a new lock can be requested;
/// a confirmation of the lock changes nothing when repeated.
pub proof fn lemma_finished_allows_new_lock(s: LockState)
    ensures
        activate_step(finished_step(s)) == Some(LockState::Locking),
        locked_step(locked_step(s)) == locked_step(s),
{
}

/// The session-lock bookkeeping: the lock's life cycle, the lock surfaces (one
/// per output) and which of them hold pointer and keyboard focus.
pub struct SessionLockManager {
    has_session_lock: bool,
    lock_surfaces: Vec<LockSurfaceEntry>,
    state: LockState,
    active_pointer_surface_id: Option<u32>,
    keyboard_focus_surface_id: Option<u32>,
}

impl SessionLockManager {
    pub closed spec fn surfaces(&self) -> Seq<LockSurfaceEntry> {
        self.lock_surfaces@
    }

    pub closed spec fn lock_state(&self) -> LockState {
        self.state
    }

    /// The lock object of the compositor is held.
    pub closed spec fn holds_lock(&self) -> bool {
        self.has_session_lock
    }

    pub closed spec fn pointer_focus(&self) -> Option<u32> {
        self.active_pointer_surface_id
    }

    pub closed spec fn keyboard_focus(&self) -> Option<u32> {
        self.keyboard_focus_surface_id
    }

    /// The manager's invariant: one lock surface per output; the lock object is
    /// held exactly while the lock is requested or held; outside that window
    /// there are no lock surfaces and no focus; and a focus always rests on one
    /// of the lock surfaces.
    pub open spec fn wf(&self) -> bool {
        &&& outputs_distinct(self.surfaces())
        &&& self.holds_lock() == (self.lock_state() is Locking || self.lock_state() is Locked)
        &&& (self.lock_state() is Inactive || self.lock_state() is Unlocking) ==> {
            &&& self.surfaces().len() == 0
            &&& self.pointer_focus() is None
            &&& self.keyboard_focus() is None
        }
        &&& focus_valid(self.surfaces(), self.pointer_focus())
        &&& focus_valid(self.surfaces(), self.keyboard_focus())
    }

    /// A new manager: no lock, no surfaces, no focus.
    pub fn new() -> (m: Self)
        ensures
            m.wf(),
            m.lock_state() == LockState::Inactive,
            m.surfaces().len() == 0,
            m.pointer_focus() is None,
            m.keyboard_focus() is None,
            !m.holds_lock(),
    {
        SessionLockManager {
            has_session_lock: false,
            lock_surfaces: Vec::new(),
            state: LockState::Inactive,
            active_pointer_surface_id: None,
            keyboard_focus_surface_id: None,
        }
    }

    pub fn state(&self) -> (s: LockState)
        ensures
            s == self.lock_state(),
    {
        self.state
    }

    pub fn has_active_pointer(&self) -> (b: bool)
        ensures
            b == (self.pointer_focus() is Some),
    {
        self.active_pointer_surface_id.is_some()
    }

    pub fn has_keyboard_focus(&self) -> (b: bool)
        ensures
            b == (self.keyboard_focus() is Some),
    {
        self.keyboard_focus_surface_id.is_some()
    }

    pub fn active_pointer_surface_id(&self) -> (r: Option<u32>)
        ensures
            r == self.pointer_focus(),
    {
        self.active_pointer_surface_id
    }

    pub fn keyboard_focus_surface_id(&self) -> (r: Option<u32>)
        ensures
            r == self.keyboard_focus(),
    {
        self.keyboard_focus_surface_id
    }

    pub fn lock_surface_count(&self) -> (n: usize)
        ensures
            n == self.surfaces().len(),
    {
        self.lock_surfaces.len()
    }

    /// The index of the first lock surface whose wl_surface is `surface_id`.
    fn index_of_surface(&self, surface_id: u32) -> (r: Option<usize>)
        ensures
            match r {
                Some(i) => i < self.surfaces().len() && self.surfaces()[i as int].surface_id
                    == surface_id && forall|j: int|
                    0 <= j < i ==> #[trigger] self.surfaces()[j].surface_id != surface_id,
                None => !has_surface_in(self.surfaces(), surface_id),
            },
    {
        let mut i: usize = 0;
        while i < self.lock_surfaces.len()
            invariant
                i <= self.lock_surfaces@.len(),
                forall|j: int| 0 <= j < i ==> #[trigger] self.lock_surfaces@[j].surface_id != surface_id,
            decreases self.lock_surfaces@.len() - i,
        {
            if self.lock_surfaces[i].surface_id == surface_id {
                return Some(i);
            }
            i = i + 1;
        }
        None
    }

    /// The index of the lock surface of output `output_id`.
    fn index_of_output(&self, output_id: u32) -> (r: Option<usize>)
        ensures
            match r {
                Some(i) => i < self.surfaces().len() && self.surfaces()[i as int].output_id
                    == output_id && forall|j: int|
                    0 <= j < i ==> #[trigger] self.surfaces()[j].output_id != output_id,
                None => !has_output_in(self.surfaces(), output_id),
            },
    {
        let mut i: usize = 0;
        while i < self.lock_surfaces.len()
            invariant
                i <= self.lock_surfaces@.len(),
                forall|j: int| 0 <= j < i ==> #[trigger] self.lock_surfaces@[j].output_id != output_id,
            decreases self.lock_surfaces@.len() - i,
        {
            if self.lock_surfaces[i].output_id == output_id {
                return Some(i);
            }
            i = i + 1;
        }
        None
    }

    /// The index of the first lock surface whose lock-surface object is
    /// `lock_surface_id`.
    fn index_of_lock_surface(&self, lock_surface_id: u32) -> (r: Option<usize>)
        ensures
            match r {
                Some(i) => i < self.surfaces().len() && self.surfaces()[i as int].lock_surface_id
                    == lock_surface_id && forall|j: int|
                    0 <= j < i ==> #[trigger] self.surfaces()[j].lock_surface_id
                        != lock_surface_id,
                None => forall|j: int|
                    0 <= j < self.surfaces().len() ==> #[trigger] self.surfaces()[j].lock_surface_id
                        != lock_surface_id,
            },
    {
        let mut i: usize = 0;
        while i < self.lock_surfaces.len()
            invariant
                i <= self.lock_surfaces@.len(),
                forall|j: int|
                    0 <= j < i ==> #[trigger] self.lock_surfaces@[j].lock_surface_id
                        != lock_surface_id,
            decreases self.lock_surfaces@.len() - i,
        {
            if self.lock_surfaces[i].lock_surface_id == lock_surface_id {
                return Some(i);
            }
            i = i + 1;
        }
        None
    }

    /// `surface_id` is the wl_surface of one of the lock surfaces.
    pub fn is_lock_surface(&self, surface_id: u32) -> (b: bool)
        ensures
            b == has_surface_in(self.surfaces(), surface_id),
    {
        self.index_of_surface(surface_id).is_some()
    }

    /// The lock surface of output `output_id`, if there is one.
    pub fn surface_for_output(&self, output_id: u32) -> (r: Option<LockSurfaceEntry>)
        ensures
            match r {
                Some(e) => e.output_id == output_id && self.surfaces().contains(e),
                None => !has_output_in(self.surfaces(), output_id),
            },
    {
        match self.index_of_output(output_id) {
            Some(i) => Some(self.lock_surfaces[i]),
            None => None,
        }
    }

    /// The first lock surface whose wl_surface is `surface_id`.
    pub fn find_surface_by_surface_id(&self, surface_id: u32) -> (r: Option<LockSurfaceEntry>)
        ensures
            match r {
                Some(e) => e.surface_id == surface_id && self.surfaces().contains(e),
                None => !has_surface_in(self.surfaces(), surface_id),
            },
    {
        match self.index_of_surface(surface_id) {
            Some(i) => Some(self.lock_surfaces[i]),
            None => None,
        }
    }

    /// The first lock surface whose lock-surface object is `lock_surface_id`.
    pub fn find_surface_by_lock_surface_id(&self, lock_surface_id: u32) -> (r: Option<
        LockSurfaceEntry,
    >)
        ensures
            match r {
                Some(e) => e.lock_surface_id == lock_surface_id && self.surfaces().contains(e),
                None => forall|j: int|
                    0 <= j < self.surfaces().len() ==> #[trigger] self.surfaces()[j].lock_surface_id
                        != lock_surface_id,
            },
    {
        match self.index_of_lock_surface(lock_surface_id) {
            Some(i) => Some(self.lock_surfaces[i]),
            None => None,
        }
    }

    /// Starts a lock: refused unless the lock is inactive; otherwise the lock
    /// object is taken and the state becomes `Locking`. The lock surfaces are
    /// then added one by one with `insert_lock_surface`.
    pub fn begin_activate(&mut self) -> (r: Result<(), LayerShikaError>)
        requires
            old(self).wf(),
        ensures
            final(self).wf(),
            activate_step(old(self).lock_state()) matches Some(s) ==> r is Ok
                && final(self).lock_state() == s && final(self).holds_lock()
                && final(self).surfaces() == old(self).surfaces()
                && final(self).pointer_focus() == old(self).pointer_focus()
                && final(self).keyboard_focus() == old(self).keyboard_focus(),
            activate_step(old(self).lock_state()) is None ==> *final(self) == *old(self) && (
            r matches Err(LayerShikaError::InvalidInput { message }) && message@
                == "Session lock cannot activate in state "@ + old(self).lock_state().debug_name_spec()),
    {
        if !self.state.can_activate() {
            let mut message = String::from_str("Session lock cannot activate in state ");
            message.append(self.state.debug_name());
            return Err(LayerShikaError::InvalidInput { message });
        }
        self.has_session_lock = true;
        self.state = LockState::Locking;
        Ok(())
    }

    /// Records the lock surface created for an output, replacing the one the
    /// output had. A replacement only happens while no surface holds focus.
    pub fn insert_lock_surface(&mut self, entry: LockSurfaceEntry)
        requires
            old(self).wf(),
            old(self).lock_state() is Locking || old(self).lock_state() is Locked,
            has_output_in(old(self).surfaces(), entry.output_id) ==> old(
                self,
            ).pointer_focus() is None && old(self).keyboard_focus() is None,
        ensures
            final(self).wf(),
            final(self).lock_state() == old(self).lock_state(),
            final(self).holds_lock() == old(self).holds_lock(),
            final(self).pointer_focus() == old(self).pointer_focus(),
            final(self).keyboard_focus() == old(self).keyboard_focus(),
            final(self).surfaces().contains(entry),
            final(self).surfaces().len() == old(self).surfaces().len() + if has_output_in(
                old(self).surfaces(),
                entry.output_id,
            ) {
                0int
            } else {
                1int
            },
            forall|e: LockSurfaceEntry|
                e.output_id != entry.output_id ==> (final(self).surfaces().contains(e) <==> old(
                    self,
                ).surfaces().contains(e)),
            forall|e: LockSurfaceEntry|
                #[trigger] final(self).surfaces().contains(e) && e.output_id == entry.output_id
                    ==> e == entry,
    {
        let ghost old_s = self.lock_surfaces@;
        match self.index_of_output(entry.output_id) {
            Some(i) => {
                self.lock_surfaces.set(i, entry);
                proof {
                    let s = self.lock_surfaces@;
                    assert(s[i as int] == entry);
                    assert forall|e: LockSurfaceEntry|
                        e.output_id != entry.output_id implies (s.contains(e) <==> old_s.contains(
                            e,
                        )) by {
                        if s.contains(e) {
                            let k = choose|k: int| 0 <= k < s.len() && s[k] == e;
                            assert(old_s[k] == e);
                        }
                        if old_s.contains(e) {
                            let k = choose|k: int| 0 <= k < old_s.len() && old_s[k] == e;
                            assert(k != i);
                            assert(s[k] == e);
                        }
                    }
                    assert forall|e: LockSurfaceEntry|
                        #[trigger] s.contains(e) && e.output_id == entry.output_id implies e
                        == entry by {
                        let k = choose|k: int| 0 <= k < s.len() && s[k] == e;
                        if k != i {
                            assert(old_s[k].output_id == old_s[i as int].output_id);
                        }
                    }
                }
            },
            None => {
                self.lock_surfaces.push(entry);
                proof {
                    let s = self.lock_surfaces@;
                    assert(s[old_s.len() as int] == entry);
                    assert forall|e: LockSurfaceEntry|
                        e.output_id != entry.output_id implies (s.contains(e) <==> old_s.contains(
                            e,
                        )) by {
                        if s.contains(e) {
                            let k = choose|k: int| 0 <= k < s.len() && s[k] == e;
                            assert(old_s[k] == e);
                        }
                        if old_s.contains(e) {
                            let k = choose|k: int| 0 <= k < old_s.len() && old_s[k] == e;
                            assert(s[k] == e);
                        }
                    }
                    assert forall|e: LockSurfaceEntry|
                        #[trigger] s.contains(e) && e.output_id == entry.output_id implies e
                        == entry by {
                        let k = choose|k: int| 0 <= k < s.len() && s[k] == e;
                        if k != old_s.len() {
                            assert(has_output_in(old_s, entry.output_id));
                        }
                    }
                    assert forall|x: u32| #[trigger] has_surface_in(old_s, x) implies has_surface_in(
                        s,
                        x,
                    ) by {
                        let k = choose|k: int| 0 <= k < old_s.len() && old_s[k].surface_id == x;
                        assert(s[k].surface_id == x);
                    }
                }
            },
        }
    }

    /// The compositor confirmed the lock: `Locking` becomes `Locked`; any other
    /// state is left as it is.
    pub fn handle_locked(&mut self)
        requires
            old(self).wf(),
        ensures
            final(self).wf(),
            final(self).lock_state() == locked_step(old(self).lock_state()),
            final(self).surfaces() == old(self).surfaces(),
            final(self).holds_lock() == old(self).holds_lock(),
            final(self).pointer_focus() == old(self).pointer_focus(),
            final(self).keyboard_focus() == old(self).keyboard_focus(),
    {
        if self.state == LockState::Locking {
            self.state = LockState::Locked;
        }
    }

    /// Releases the lock: refused unless the lock is requested or held (or,
    /// which the invariant rules out, when the lock object is missing). On
    /// success every lock surface is dropped and handed back so that its
    /// protocol objects can be destroyed, focus is cleared and the state
    /// becomes `Unlocking`.
    pub fn deactivate(&mut self) -> (r: Result<Vec<LockSurfaceEntry>, LayerShikaError>)
        requires
            old(self).wf(),
        ensures
            final(self).wf(),
            deactivate_step(old(self).lock_state()) matches Some(s) ==> r matches Ok(removed)
                && removed@ == old(self).surfaces() && final(self).lock_state() == s
                && final(self).surfaces().len() == 0 && !final(self).holds_lock()
                && final(self).pointer_focus() is None && final(self).keyboard_focus() is None,
            deactivate_step(old(self).lock_state()) is None ==> *final(self) == *old(self) && (
            r matches Err(LayerShikaError::InvalidInput { message }) && message@
                == "Session lock cannot deactivate in state "@ + old(self).lock_state().debug_name_spec()),
    {
        if !self.state.can_deactivate() {
            let mut message = String::from_str("Session lock cannot deactivate in state ");
            message.append(self.state.debug_name());
            return Err(LayerShikaError::InvalidInput { message });
        }
        if !self.has_session_lock {
            return Err(
                LayerShikaError::InvalidInput {
                    message: "Session lock object missing during deactivate".to_string(),
                },
            );
        }
        self.has_session_lock = false;
        let mut removed: Vec<LockSurfaceEntry> = Vec::new();
        std::mem::swap(&mut removed, &mut self.lock_surfaces);
        self.active_pointer_surface_id = None;
        self.keyboard_focus_surface_id = None;
        self.state = LockState::Unlocking;
        Ok(removed)
    }

    /// The compositor finished the lock (released or refused it): everything is
    /// dropped and the lock becomes inactive.
    pub fn handle_finished(&mut self) -> (removed: Vec<LockSurfaceEntry>)
        requires
            old(self).wf(),
        ensures
            final(self).wf(),
            removed@ == old(self).surfaces(),
            final(self).lock_state() == finished_step(old(self).lock_state()),
            final(self).surfaces().len() == 0,
            !final(self).holds_lock(),
            final(self).pointer_focus() is None,
            final(self).keyboard_focus() is None,
    {
        let mut removed: Vec<LockSurfaceEntry> = Vec::new();
        std::mem::swap(&mut removed, &mut self.lock_surfaces);
        self.has_session_lock = false;
        self.state = LockState::Inactive;
        self.active_pointer_surface_id = None;
        self.keyboard_focus_surface_id = None;
        removed
    }

    /// Decides what a hot-plugged output gets: `Ok(true)` when a lock surface
    /// must be created for it (the lock is held and the output has none yet),
    /// `Ok(false)` when nothing is to be done, and an error when the lock object
    /// is missing although the lock is held (which the invariant rules out).
    pub fn prepare_add_output(&self, output_id: u32) -> (r: Result<bool, LayerShikaError>)
        requires
            self.wf(),
        ensures
            r matches Ok(b) && b == (self.lock_state() is Locked && !has_output_in(
                self.surfaces(),
                output_id,
            )),
    {
        if self.state != LockState::Locked {
            return Ok(false);
        }
        if self.index_of_output(output_id).is_some() {
            return Ok(false);
        }
        if !self.has_session_lock {
            return Err(
                LayerShikaError::InvalidInput {
                    message: "Session lock object missing during output hotplug".to_string(),
                },
            );
        }
        Ok(true)
    }

    /// An output went away: its lock surface is removed and handed back, and a
    /// pointer or keyboard focus resting on that surface is cleared.
    pub fn remove_output(&mut self, output_id: u32) -> (r: Option<LockSurfaceEntry>)
        requires
            old(self).wf(),
        ensures
            final(self).wf(),
            final(self).lock_state() == old(self).lock_state(),
            final(self).holds_lock() == old(self).holds_lock(),
            !has_output_in(final(self).surfaces(), output_id),
            forall|e: LockSurfaceEntry|
                e.output_id != output_id ==> (final(self).surfaces().contains(e) <==> old(
                    self,
                ).surfaces().contains(e)),
            match r {
                Some(e) => {
                    &&& e.output_id == output_id
                    &&& old(self).surfaces().contains(e)
                    &&& final(self).surfaces().len() == old(self).surfaces().len() - 1
                    &&& final(self).pointer_focus() == if old(self).pointer_focus() == Some(
                        e.surface_id,
                    ) {
                        None
                    } else {
                        old(self).pointer_focus()
                    }
                    &&& final(self).keyboard_focus() == if old(self).keyboard_focus() == Some(
                        e.surface_id,
                    ) {
                        None
                    } else {
                        old(self).keyboard_focus()
                    }
                },
                None => {
                    &&& !has_output_in(old(self).surfaces(), output_id)
                    &&& *final(self) == *old(self)
                },
            },
    {
        match self.index_of_output(output_id) {
            None => None,
            Some(i) => {
                let ghost old_s = self.lock_surfaces@;
                let ghost old_pf = self.active_pointer_surface_id;
                let ghost old_kf = self.keyboard_focus_surface_id;
                let entry = self.lock_surfaces.remove(i);
                let surface_id = entry.surface_id;
                if self.active_pointer_surface_id == Some(surface_id) {
                    self.active_pointer_surface_id = None;
                }
                if self.keyboard_focus_surface_id == Some(surface_id) {
                    self.keyboard_focus_surface_id = None;
                }
                proof {
                    let s = self.lock_surfaces@;
                    assert(s == old_s.remove(i as int));
                    assert forall|e: LockSurfaceEntry|
                        e.output_id != output_id implies (s.contains(e) <==> old_s.contains(
                            e,
                        )) by {
                        if s.contains(e) {
                            let k = choose|k: int| 0 <= k < s.len() && s[k] == e;
                            if k < i {
                                assert(old_s[k] == e);
                            } else {
                                assert(old_s[k + 1] == e);
                            }
                        }
                        if old_s.contains(e) {
                            let k = choose|k: int| 0 <= k < old_s.len() && old_s[k] == e;
                            if k < i {
                                assert(s[k] == e);
                            } else {
                                assert(k != i);
                                assert(s[k - 1] == e);
                            }
                        }
                    }
                    assert(!has_output_in(s, output_id)) by {
                        if has_output_in(s, output_id) {
                            let k = choose|k: int| 0 <= k < s.len() && s[k].output_id == output_id;
                            if k < i {
                                assert(old_s[k].output_id == output_id);
                            } else {
                                assert(old_s[k + 1].output_id == old_s[i as int].output_id);
                            }
                        }
                    }
                    assert(old_s.contains(entry)) by {
                        assert(old_s[i as int] == entry);
                    }
                    assert forall|x: u32|
                        #[trigger] has_surface_in(old_s, x) && x != surface_id implies has_surface_in(
                        s,
                        x,
                    ) by {
                        let k = choose|k: int| 0 <= k < old_s.len() && old_s[k].surface_id == x;
                        if k < i {
                            assert(s[k].surface_id == x);
                        } else {
                            assert(k != i);
                            assert(s[k - 1].surface_id == x);
                        }
                    }
                    assert(outputs_distinct(s)) by {
                        assert forall|a: int, b: int|
                            0 <= a < s.len() && 0 <= b < s.len() && a != b implies #[trigger] s[a].output_id
                            != #[trigger] s[b].output_id by {
                            let a2 = if a < i { a } else { a + 1 };
                            let b2 = if b < i { b } else { b + 1 };
                            assert(s[a] == old_s[a2]);
                            assert(s[b] == old_s[b2]);
                        }
                    }
                }
                Some(entry)
            },
        }
    }

    /// Records a configure of the lock surface `lock_surface_id`: its size is
    /// stored and its scaling mode returned. `None` when no lock surface has
    /// that object.
    pub fn handle_configure(&mut self, lock_surface_id: u32, width: u32, height: u32) -> (r:
        Option<LockScalingMode>)
        requires
            old(self).wf(),
        ensures
            final(self).wf(),
            final(self).lock_state() == old(self).lock_state(),
            final(self).holds_lock() == old(self).holds_lock(),
            final(self).pointer_focus() == old(self).pointer_focus(),
            final(self).keyboard_focus() == old(self).keyboard_focus(),
            final(self).surfaces().len() == old(self).surfaces().len(),
            same_components(old(self).surfaces(), final(self).surfaces()),
            match r {
                Some(m) => exists|i: int|
                    0 <= i < old(self).surfaces().len() && #[trigger] old(
                        self,
                    ).surfaces()[i].lock_surface_id == lock_surface_id && (forall|j: int|
                        0 <= j < i ==> #[trigger] old(self).surfaces()[j].lock_surface_id
                            != lock_surface_id) && final(self).surfaces() == old(
                        self,
                    ).surfaces().update(
                        i,
                        LockSurfaceEntry {
                            width: width,
                            height: height,
                            ..old(self).surfaces()[i]
                        },
                    ) && m == LockScalingMode::spec_select(
                        old(self).surfaces()[i].fractional_scale_id is Some,
                        old(self).surfaces()[i].has_viewport,
                    ),
                None => (forall|j: int|
                    0 <= j < old(self).surfaces().len() ==> #[trigger] old(
                        self,
                    ).surfaces()[j].lock_surface_id != lock_surface_id) && *final(self) == *old(
                    self,
                ),
            },
    {
        match self.index_of_lock_surface(lock_surface_id) {
            None => None,
            Some(i) => {
                let ghost old_s = self.lock_surfaces@;
                let mut e = self.lock_surfaces[i];
                e.width = width;
                e.height = height;
                let mode = e.scaling_mode();
                self.lock_surfaces.set(i, e);
                proof {
                    let s = self.lock_surfaces@;
                    assert(outputs_distinct(s)) by {
                        assert forall|a: int, b: int|
                            0 <= a < s.len() && 0 <= b < s.len() && a != b implies #[trigger] s[a].output_id
                            != #[trigger] s[b].output_id by {
                            assert(s[a].output_id == old_s[a].output_id);
                            assert(s[b].output_id == old_s[b].output_id);
                        }
                    }
                    assert forall|x: u32| #[trigger] has_surface_in(old_s, x) implies has_surface_in(
                        s,
                        x,
                    ) by {
                        let k = choose|k: int| 0 <= k < old_s.len() && old_s[k].surface_id == x;
                        assert(s[k].surface_id == x);
                    }
                }
                Some(mode)
            },
        }
    }

    /// Whether the lock surface `lock_surface_id` still needs its component.
    pub fn needs_component(&self, lock_surface_id: u32) -> (b: bool)
        ensures
            b == component_needed(self.surfaces(), lock_surface_id),
    {
        match self.index_of_lock_surface(lock_surface_id) {
            None => false,
            Some(i) => !self.lock_surfaces[i].has_component,
        }
    }

    /// Records that the component of the lock surface `lock_surface_id` exists.
    pub fn mark_component_created(&mut self, lock_surface_id: u32)
        requires
            old(self).wf(),
        ensures
            final(self).wf(),
            final(self).lock_state() == old(self).lock_state(),
            final(self).holds_lock() == old(self).holds_lock(),
            final(self).pointer_focus() == old(self).pointer_focus(),
            final(self).keyboard_focus() == old(self).keyboard_focus(),
            final(self).surfaces().len() == old(self).surfaces().len(),
            forall|i: int|
                0 <= i < old(self).surfaces().len() ==> {
                    let o = old(self).surfaces()[i];
                    let n = #[trigger] final(self).surfaces()[i];
                    n == (if o.lock_surface_id == lock_surface_id && (forall|j: int|
                        0 <= j < i ==> #[trigger] old(self).surfaces()[j].lock_surface_id
                            != lock_surface_id) {
                        LockSurfaceEntry { has_component: true, ..o }
                    } else {
                        o
                    })
                },
            !component_needed(final(self).surfaces(), lock_surface_id),
    {
        match self.index_of_lock_surface(lock_surface_id) {
            None => {
                proof {
                    let s = self.lock_surfaces@;
                    if component_needed(s, lock_surface_id) {
                        let k = choose|k: int|
                            0 <= k < s.len() && #[trigger] s[k].lock_surface_id == lock_surface_id
                                && !s[k].has_component && (forall|j: int|
                                0 <= j < k ==> #[trigger] s[j].lock_surface_id != lock_surface_id);
                        assert(s[k].lock_surface_id != lock_surface_id);
                    }
                }
            },
            Some(i) => {
                let ghost old_s = self.lock_surfaces@;
                let mut e = self.lock_surfaces[i];
                e.has_component = true;
                self.lock_surfaces.set(i, e);
                proof {
                    let s = self.lock_surfaces@;
                    if component_needed(s, lock_surface_id) {
                        let k = choose|k: int|
                            0 <= k < s.len() && #[trigger] s[k].lock_surface_id == lock_surface_id
                                && !s[k].has_component && (forall|j: int|
                                0 <= j < k ==> #[trigger] s[j].lock_surface_id != lock_surface_id);
                        if k < i {
                            assert(old_s[k].lock_surface_id == lock_surface_id);
                        } else if k > i {
                            assert(s[i as int].lock_surface_id == lock_surface_id);
                        }
                    }
                    assert(outputs_distinct(s)) by {
                        assert forall|a: int, b: int|
                            0 <= a < s.len() && 0 <= b < s.len() && a != b implies #[trigger] s[a].output_id
                            != #[trigger] s[b].output_id by {
                            assert(s[a].output_id == old_s[a].output_id);
                            assert(s[b].output_id == old_s[b].output_id);
                        }
                    }
                    assert forall|x: u32| #[trigger] has_surface_in(old_s, x) implies has_surface_in(
                        s,
                        x,
                    ) by {
                        let k = choose|k: int| 0 <= k < old_s.len() && old_s[k].surface_id == x;
                        assert(s[k].surface_id == x);
                    }
                }
            },
        }
    }

    /// The lock surfaces whose fractional-scale object is `fractional_scale_id`
    /// and whose size is known, so that they can be laid out again at the new
    /// scale (in the order of the lock surfaces).
    pub fn handle_fractional_scale(&self, fractional_scale_id: u32) -> (r: Vec<LockSurfaceEntry>)
        ensures
            r@ == self.surfaces().filter(
                |e: LockSurfaceEntry|
                    e.fractional_scale_id == Some(fractional_scale_id) && e.width != 0 && e.height
                        != 0,
            ),
    {
        let ghost pred = |e: LockSurfaceEntry|
            e.fractional_scale_id == Some(fractional_scale_id) && e.width != 0 && e.height != 0;
        let mut out: Vec<LockSurfaceEntry> = Vec::new();
        let mut i: usize = 0;
        while i < self.lock_surfaces.len()
            invariant
                i <= self.lock_surfaces@.len(),
                out@ == self.lock_surfaces@.take(i as int).filter(pred),
                forall|x: LockSurfaceEntry|
                    #[trigger] pred(x) == (x.fractional_scale_id == Some(fractional_scale_id)
                        && x.width != 0 && x.height != 0),
            decreases self.lock_surfaces@.len() - i,
        {
            let e = self.lock_surfaces[i];
            if e.fractional_scale_id == Some(fractional_scale_id) && e.width != 0 && e.height != 0 {
                out.push(e);
            }
            proof {
                reveal(Seq::filter);
                let t = self.lock_surfaces@.take(i + 1);
                assert(t.drop_last() == self.lock_surfaces@.take(i as int));
                assert(t.last() == e);
                assert(pred(e) == (e.fractional_scale_id == Some(fractional_scale_id) && e.width
                    != 0 && e.height != 0));
                assert(t.filter(pred) == if pred(e) {
                    self.lock_surfaces@.take(i as int).filter(pred).push(e)
                } else {
                    self.lock_surfaces@.take(i as int).filter(pred)
                });
            }
            i = i + 1;
        }
        proof {
            assert(self.lock_surfaces@.take(self.lock_surfaces@.len() as int)
                == self.lock_surfaces@);
        }
        out
    }

    /// The pointer entered `surface_id`: when it is a lock surface it takes the
    /// pointer focus and `true` is returned; otherwise nothing changes.
    pub fn handle_pointer_enter(&mut self, surface_id: u32) -> (b: bool)
        requires
            old(self).wf(),
        ensures
            final(self).wf(),
            b == has_surface_in(old(self).surfaces(), surface_id),
            final(self).pointer_focus() == if b {
                Some(surface_id)
            } else {
                old(self).pointer_focus()
            },
            final(self).surfaces() == old(self).surfaces(),
            final(self).lock_state() == old(self).lock_state(),
            final(self).holds_lock() == old(self).holds_lock(),
            final(self).keyboard_focus() == old(self).keyboard_focus(),
    {
        if self.index_of_surface(surface_id).is_some() {
            self.active_pointer_surface_id = Some(surface_id);
            true
        } else {
            false
        }
    }

    /// The lock surface that pointer motion, buttons and scroll frames go to:
    /// the one holding pointer focus, when it still exists.
    pub fn pointer_target(&self) -> (r: Option<LockSurfaceEntry>)
        ensures
            match r {
                Some(e) => self.pointer_focus() == Some(e.surface_id) && self.surfaces().contains(
                    e,
                ),
                None => match self.pointer_focus() {
                    Some(id) => !has_surface_in(self.surfaces(), id),
                    None => true,
                },
            },
    {
        match self.active_pointer_surface_id {
            None => None,
            Some(id) => self.find_surface_by_surface_id(id),
        }
    }

    /// The pointer left: the focus is dropped and the surface that held it is
    /// returned (so that it is told the pointer exited).
    pub fn handle_pointer_leave(&mut self) -> (r: Option<u32>)
        requires
            old(self).wf(),
        ensures
            final(self).wf(),
            r == old(self).pointer_focus(),
            final(self).pointer_focus() is None,
            final(self).surfaces() == old(self).surfaces(),
            final(self).lock_state() == old(self).lock_state(),
            final(self).holds_lock() == old(self).holds_lock(),
            final(self).keyboard_focus() == old(self).keyboard_focus(),
    {
        let r = self.active_pointer_surface_id;
        self.active_pointer_surface_id = None;
        r
    }

    /// Scroll events are only taken while a lock surface holds the pointer.
    pub fn handle_axis_source(&self) -> (b: bool)
        ensures
            b == (self.pointer_focus() is Some),
    {
        self.active_pointer_surface_id.is_some()
    }

    /// An axis stop is only taken while a lock surface holds the pointer.
    pub fn handle_axis_stop(&self) -> (b: bool)
        ensures
            b == (self.pointer_focus() is Some),
    {
        self.active_pointer_surface_id.is_some()
    }

    /// The keyboard entered `surface_id`: when it is a lock surface it takes
    /// the keyboard focus and `true` is returned; otherwise nothing changes.
    pub fn handle_keyboard_enter(&mut self, surface_id: u32) -> (b: bool)
        requires
            old(self).wf(),
        ensures
            final(self).wf(),
            b == has_surface_in(old(self).surfaces(), surface_id),
            final(self).keyboard_focus() == if b {
                Some(surface_id)
            } else {
                old(self).keyboard_focus()
            },
            final(self).surfaces() == old(self).surfaces(),
            final(self).lock_state() == old(self).lock_state(),
            final(self).holds_lock() == old(self).holds_lock(),
            final(self).pointer_focus() == old(self).pointer_focus(),
    {
        if self.index_of_surface(surface_id).is_some() {
            self.keyboard_focus_surface_id = Some(surface_id);
            true
        } else {
            false
        }
    }

    /// The keyboard left `surface_id`: when that surface held the keyboard
    /// focus it is dropped and `true` is returned.
    pub fn handle_keyboard_leave(&mut self, surface_id: u32) -> (b: bool)
        requires
            old(self).wf(),
        ensures
            final(self).wf(),
            b == (old(self).keyboard_focus() == Some(surface_id)),
            final(self).keyboard_focus() == if b {
                None
            } else {
                old(self).keyboard_focus()
            },
            final(self).surfaces() == old(self).surfaces(),
            final(self).lock_state() == old(self).lock_state(),
            final(self).holds_lock() == old(self).holds_lock(),
            final(self).pointer_focus() == old(self).pointer_focus(),
    {
        if self.keyboard_focus_surface_id == Some(surface_id) {
            self.keyboard_focus_surface_id = None;
            true
        } else {
            false
        }
    }

    /// The lock surface that key events go to: the one holding keyboard focus,
    /// when it still exists.
    pub fn keyboard_target(&self) -> (r: Option<LockSurfaceEntry>)
        ensures
            match r {
                Some(e) => self.keyboard_focus() == Some(e.surface_id) && self.surfaces().contains(
                    e,
                ),
                None => match self.keyboard_focus() {
                    Some(id) => !has_surface_in(self.surfaces(), id),
                    None => true,
                },
            },
    {
        match self.keyboard_focus_surface_id {
            None => None,
            Some(id) => self.find_surface_by_surface_id(id),
        }
    }
}

} // verus!
