use vstd::prelude::*;
use std::collections::HashMap;
use crate::domain::OutputHandle;
use crate::text::str_eq;

verus! {

broadcast use vstd::std_specs::hash::group_hash_axioms;

/// Maps the protocol id of each wl_output to the handle the library gave it;
/// handles are numbered in the order in which outputs are first seen.
pub struct OutputMapping {
    object_to_handle: HashMap<u32, OutputHandle>,
    next_handle: u64,
}

impl OutputMapping {
    pub closed spec fn handles(&self) -> Map<u32, OutputHandle> {
        self.object_to_handle@
    }

    /// The id the next handle gets.
    pub closed spec fn next_id(&self) -> u64 {
        self.next_handle
    }

    /// Every handle given out so far is below the next one.
    pub open spec fn wf(&self) -> bool {
        forall|o: u32| #[trigger] self.handles().contains_key(o) ==> self.handles()[o].id < self.next_id()
    }

    pub fn new() -> (m: Self)
        ensures
            m.wf(),
            m.handles() == Map::<u32, OutputHandle>::empty(),
            m.next_id() == 0,
    {
        OutputMapping { object_to_handle: HashMap::new(), next_handle: 0 }
    }

    /// Gives the output `object_id` a fresh handle, different from every handle
    /// given out before.
    pub fn insert(&mut self, object_id: u32) -> (h: OutputHandle)
        requires
            old(self).wf(),
            old(self).next_id() < u64::MAX,
        ensures
            final(self).wf(),
            h.id == old(self).next_id(),
            final(self).next_id() == old(self).next_id() + 1,
            final(self).handles() == old(self).handles().insert(object_id, h),
            forall|o: u32| #[trigger] old(self).handles().contains_key(o) ==> old(self).handles()[o] != h,
    {
        let handle = OutputHandle { id: self.next_handle };
        self.next_handle = self.next_handle + 1;
        self.object_to_handle.insert(object_id, handle);
        proof {
            assert forall|o: u32| #[trigger] self.handles().contains_key(o) implies self.handles()[o].id
                < self.next_id() by {
                if o != object_id {
                    assert(old(self).handles().contains_key(o));
                }
            }
        }
        handle
    }

    pub fn get(&self, object_id: u32) -> (r: Option<OutputHandle>)
        ensures
            r == (if self.handles().contains_key(object_id) {
                Some(self.handles()[object_id])
            } else {
                None
            }),
    {
        match self.object_to_handle.get(&object_id) {
            Some(h) => Some(*h),
            None => None,
        }
    }

    pub fn remove(&mut self, object_id: u32) -> (r: Option<OutputHandle>)
        requires
            old(self).wf(),
        ensures
            final(self).wf(),
            final(self).next_id() == old(self).next_id(),
            final(self).handles() == old(self).handles().remove(object_id),
            r == (if old(self).handles().contains_key(object_id) {
                Some(old(self).handles()[object_id])
            } else {
                None
            }),
    {
        let r = self.object_to_handle.remove(&object_id);
        proof {
            assert forall|o: u32| #[trigger] self.handles().contains_key(o) implies self.handles()[o].id
                < self.next_id() by {
                assert(old(self).handles().contains_key(o));
            }
        }
        r
    }
}

/// The position and physical size of an output, and its make and model when
/// the compositor reported them.
pub struct OutputGeometry {
    pub x: i32,
    pub y: i32,
    pub physical_width: i32,
    pub physical_height: i32,
    pub make: Option<String>,
    pub model: Option<String>,
}

impl OutputGeometry {
    pub fn new(x: i32, y: i32, physical_width: i32, physical_height: i32) -> (g: Self)
        ensures
            g.x == x && g.y == y && g.physical_width == physical_width && g.physical_height
                == physical_height,
            g.make is None && g.model is None,
    {
        OutputGeometry { x, y, physical_width, physical_height, make: None, model: None }
    }

    pub fn with_make(self, make: String) -> (g: Self)
        ensures
            g == (OutputGeometry { make: Some(make), ..self }),
    {
        OutputGeometry { make: Some(make), ..self }
    }

    pub fn with_model(self, model: String) -> (g: Self)
        ensures
            g == (OutputGeometry { model: Some(model), ..self }),
    {
        OutputGeometry { model: Some(model), ..self }
    }
}

/// The geometry that a `wl_output.geometry` event describes. The compositor
/// sends an empty make or model when it does not know it; those are not
/// recorded.
pub fn geometry_from_event(
    x: i32,
    y: i32,
    physical_width: i32,
    physical_height: i32,
    make: String,
    model: String,
) -> (g: OutputGeometry)
    ensures
        g.x == x && g.y == y && g.physical_width == physical_width && g.physical_height
            == physical_height,
        g.make == if make@.len() > 0 {
            Some(make)
        } else {
            None::<String>
        },
        g.model == if model@.len() > 0 {
            Some(model)
        } else {
            None::<String>
        },
{
    let mut geometry = OutputGeometry::new(x, y, physical_width, physical_height);
    if !make.as_str().is_empty() {
        geometry = geometry.with_make(make);
    }
    if !model.as_str().is_empty() {
        geometry = geometry.with_model(model);
    }
    geometry
}

/// The `current` bit (0x1) of the flags of a `wl_output.mode` event: only the
/// current mode resizes the surfaces of the output.
pub fn mode_is_current(flags: u32) -> (b: bool)
    ensures
        b == (flags & 1 != 0),
{
    flags & 1 != 0
}

/// A global announced under `interface` is an output.
pub fn is_output_global(interface: &str) -> (b: bool)
    ensures
        b == (interface@ == "wl_output"@),
{
    str_eq(interface, "wl_output")
}

/// The `wl_output` version bound for a hot-plugged output: the one the
/// compositor offers, at most 4.
pub fn output_bind_version(offered: u32) -> (v: u32)
    ensures
        v == if offered < 4 {
            offered
        } else {
            4
        },
{
    if offered < 4 {
        offered
    } else {
        4
    }
}

/// What is known of one output.
pub struct OutputInfo {
    pub handle: OutputHandle,
    pub primary: bool,
    pub name: Option<String>,
    pub description: Option<String>,
    pub scale: Option<i32>,
    pub geometry: Option<OutputGeometry>,
}

impl OutputInfo {
    /// An output of which nothing but its handle is known yet.
    pub fn new(handle: OutputHandle) -> (i: Self)
        ensures
            i.handle == handle,
            !i.primary,
            i.name is None && i.description is None && i.scale is None && i.geometry is None,
    {
        OutputInfo {
            handle,
            primary: false,
            name: None,
            description: None,
            scale: None,
            geometry: None,
        }
    }

    pub fn handle(&self) -> (h: OutputHandle)
        ensures
            h == self.handle,
    {
        self.handle
    }

    pub fn is_primary(&self) -> (b: bool)
        ensures
            b == self.primary,
    {
        self.primary
    }

    pub fn set_primary(&mut self, primary: bool)
        ensures
            *final(self) == (OutputInfo { primary: primary, ..*old(self) }),
    {
        self.primary = primary;
    }

    pub fn set_name(&mut self, name: String)
        ensures
            *final(self) == (OutputInfo { name: Some(name), ..*old(self) }),
    {
        self.name = Some(name);
    }

    pub fn set_description(&mut self, description: String)
        ensures
            *final(self) == (OutputInfo { description: Some(description), ..*old(self) }),
    {
        self.description = Some(description);
    }

    pub fn set_scale(&mut self, scale: i32)
        ensures
            *final(self) == (OutputInfo { scale: Some(scale), ..*old(self) }),
    {
        self.scale = Some(scale);
    }

    pub fn set_geometry(&mut self, geometry: OutputGeometry)
        ensures
            *final(self) == (OutputInfo { geometry: Some(geometry), ..*old(self) }),
    {
        self.geometry = Some(geometry);
    }
}

/// Which outputs a surface is shown on: all of them, only the primary one, or
/// the outputs with the given handles.
pub enum OutputPolicy {
    AllOutputs,
    PrimaryOnly,
    Specific(Vec<OutputHandle>),
}

/// `v` holds the handle `h`.
fn output_handles_contain(v: &Vec<OutputHandle>, h: OutputHandle) -> (b: bool)
    ensures
        b == v@.contains(h),
{
    let mut i: usize = 0;
    while i < v.len()
        invariant
            i <= v@.len(),
            forall|j: int| 0 <= j < i ==> v@[j] != h,
        decreases v@.len() - i,
    {
        if v[i] == h {
            assert(v@[i as int] == h);
            return true;
        }
        i = i + 1;
    }
    false
}

impl OutputPolicy {
    /// An output with handle `handle`, primary or not, gets a surface.
    pub open spec fn spec_should_render(&self, primary: bool, handle: OutputHandle) -> bool {
        match self {
            OutputPolicy::AllOutputs => true,
            OutputPolicy::PrimaryOnly => primary,
            OutputPolicy::Specific(handles) => handles@.contains(handle),
        }
    }

    pub fn should_render(&self, info: &OutputInfo) -> (b: bool)
        ensures
            b == self.spec_should_render(info.primary, info.handle),
            *self is AllOutputs ==> b,
            *self is PrimaryOnly ==> b == info.primary,
            *self matches OutputPolicy::Specific(hs) ==> b == hs@.contains(info.handle),
    {
        match self {
            OutputPolicy::AllOutputs => true,
            OutputPolicy::PrimaryOnly => info.primary,
            OutputPolicy::Specific(handles) => output_handles_contain(handles, info.handle),
        }
    }
}

/// Every output gets a surface under `AllOutputs`, only the primary one under
/// `PrimaryOnly`, and under `Specific` exactly the outputs whose handles are
/// listed, whatever the handle and whether or not the output is primary.
pub proof fn lemma_policy_selects(policy: OutputPolicy, primary: bool, handle: OutputHandle)
    ensures
        policy is AllOutputs ==> policy.spec_should_render(primary, handle),
        policy is PrimaryOnly ==> policy.spec_should_render(primary, handle) == primary,
        policy matches OutputPolicy::Specific(hs) ==> policy.spec_should_render(primary, handle)
            == hs@.contains(handle),
{
}

/// The indices of the outputs (as the compositor listed them, the first one
/// being the primary output, with the handles they were given) that get a
/// surface under `policy`.
pub fn outputs_to_render(handles: &Vec<OutputHandle>, policy: &OutputPolicy) -> (r: Vec<usize>)
    ensures
        forall|i: int, j: int| 0 <= i < j < r@.len() ==> r@[i] < r@[j],
        forall|k: usize|
            r@.contains(k) <==> (k < handles@.len() && policy.spec_should_render(
                k == 0,
                handles@[k as int],
            )),
        *policy is AllOutputs ==> forall|k: usize| r@.contains(k) <==> k < handles@.len(),
        *policy is PrimaryOnly ==> forall|k: usize|
            r@.contains(k) <==> (k == 0 && handles@.len() > 0),
        *policy matches OutputPolicy::Specific(hs) ==> forall|k: usize|
            r@.contains(k) <==> (k < handles@.len() && hs@.contains(handles@[k as int])),
{
    let mut r: Vec<usize> = Vec::new();
    let mut index: usize = 0;
    while index < handles.len()
        invariant
            index <= handles@.len(),
            forall|i: int, j: int| 0 <= i < j < r@.len() ==> r@[i] < r@[j],
            forall|i: int| 0 <= i < r@.len() ==> r@[i] < index,
            forall|k: usize|
                r@.contains(k) <==> (k < index && policy.spec_should_render(
                    k == 0,
                    handles@[k as int],
                )),
        decreases handles@.len() - index,
    {
        let is_primary = index == 0;
        let mut info = OutputInfo::new(handles[index]);
        info.set_primary(is_primary);
        let ghost before = r@;
        if policy.should_render(&info) {
            r.push(index);
            proof {
                assert(r@ == before.push(index));
                assert forall|k: usize|
                    r@.contains(k) <==> (k < index + 1 && policy.spec_should_render(
                        k == 0,
                        handles@[k as int],
                    )) by {
                    if r@.contains(k) {
                        let t = choose|t: int| 0 <= t < r@.len() && r@[t] == k;
                        if t < before.len() {
                            assert(before[t] == k);
                            assert(before.contains(k));
                        }
                    }
                    if k < index && policy.spec_should_render(k == 0, handles@[k as int]) {
                        assert(before.contains(k));
                        let t = choose|t: int| 0 <= t < before.len() && before[t] == k;
                        assert(r@[t] == k);
                    }
                    if k == index {
                        assert(r@[before.len() as int] == k);
                    }
                }
            }
        } else {
            proof {
                assert forall|k: usize|
                    r@.contains(k) <==> (k < index + 1 && policy.spec_should_render(
                        k == 0,
                        handles@[k as int],
                    )) by {
                    if k == index {
                        if r@.contains(k) {
                            let t = choose|t: int| 0 <= t < r@.len() && r@[t] == k;
                            assert(r@[t] < index);
                        }
                    }
                }
            }
        }
        index = index + 1;
    }
    r
}

/// No two infos of `s` share a handle.
pub open spec fn info_handles_distinct(s: Seq<OutputInfo>) -> bool {
    forall|i: int, j: int|
        0 <= i < s.len() && 0 <= j < s.len() && i != j ==> #[trigger] s[i].handle
            != #[trigger] s[j].handle
}

/// The index of the info of `h` in `s` (meaningful when there is one).
pub open spec fn info_index(s: Seq<OutputInfo>, h: OutputHandle) -> int {
    choose|i: int| 0 <= i < s.len() && s[i].handle == h
}

/// `s` holds an info for `h`.
pub open spec fn has_info(s: Seq<OutputInfo>, h: OutputHandle) -> bool {
    exists|i: int| 0 <= i < s.len() && #[trigger] s[i].handle == h
}

/// Some info of `s` is marked primary.
pub open spec fn has_primary(s: Seq<OutputInfo>) -> bool {
    exists|i: int| 0 <= i < s.len() && #[trigger] s[i].primary
}

/// The position of the first info of `s` marked primary (meaningful when there
/// is one).
pub open spec fn first_primary_pos(s: Seq<OutputInfo>) -> int {
    choose|i: int|
        0 <= i < s.len() && s[i].primary && forall|j: int| 0 <= j < i ==> !(#[trigger] s[j].primary)
}

/// The handle of the first output of `s` marked primary.
pub open spec fn primary_of(s: Seq<OutputInfo>) -> Option<OutputHandle> {
    if has_primary(s) {
        Some(s[first_primary_pos(s)].handle)
    } else {
        None
    }
}

/// The known outputs, in the order they were added, with the one that
/// currently has the pointer.
pub struct OutputRegistry {
    outputs: Vec<OutputInfo>,
    active: Option<OutputHandle>,
}

impl OutputRegistry {
    pub closed spec fn infos(&self) -> Seq<OutputInfo> {
        self.outputs@
    }

    pub closed spec fn active(&self) -> Option<OutputHandle> {
        self.active
    }

    pub open spec fn wf(&self) -> bool {
        info_handles_distinct(self.infos())
    }

    pub fn new() -> (r: Self)
        ensures
            r.wf(),
            r.infos().len() == 0,
            r.active() is None,
    {
        OutputRegistry { outputs: Vec::new(), active: None }
    }

    pub fn is_empty(&self) -> (b: bool)
        ensures
            b == (self.infos().len() == 0),
    {
        self.outputs.len() == 0
    }

    pub fn len(&self) -> (n: usize)
        ensures
            n == self.infos().len(),
    {
        self.outputs.len()
    }

    fn index_of(&self, handle: OutputHandle) -> (r: Option<usize>)
        requires
            self.wf(),
        ensures
            match r {
                Some(i) => i < self.infos().len() && self.infos()[i as int].handle == handle
                    && info_index(self.infos(), handle) == i,
                None => !has_info(self.infos(), handle),
            },
    {
        let mut i: usize = 0;
        while i < self.outputs.len()
            invariant
                i <= self.outputs@.len(),
                info_handles_distinct(self.outputs@),
                forall|j: int| 0 <= j < i ==> #[trigger] self.outputs@[j].handle != handle,
            decreases self.outputs@.len() - i,
        {
            if self.outputs[i].handle == handle {
                assert(self.outputs@[i as int].handle == handle);
                return Some(i);
            }
            i = i + 1;
        }
        None
    }

    /// Adds an output; an output already known under the same handle is
    /// replaced in place.
    pub fn add(&mut self, info: OutputInfo)
        requires
            old(self).wf(),
        ensures
            final(self).wf(),
            final(self).active() == old(self).active(),
            has_info(old(self).infos(), info.handle) ==> final(self).infos() == old(
                self,
            ).infos().update(info_index(old(self).infos(), info.handle), info),
            !has_info(old(self).infos(), info.handle) ==> final(self).infos() == old(
                self,
            ).infos().push(info),
    {
        let handle = info.handle;
        match self.index_of(handle) {
            Some(i) => {
                let ghost old_s = self.outputs@;
                self.outputs.set(i, info);
                proof {
                    let s = self.outputs@;
                    assert forall|a: int, b: int|
                        0 <= a < s.len() && 0 <= b < s.len() && a != b implies #[trigger] s[a].handle
                        != #[trigger] s[b].handle by {
                        assert(s[a].handle == old_s[a].handle);
                        assert(s[b].handle == old_s[b].handle);
                    }
                }
            },
            None => {
                let ghost old_s = self.outputs@;
                self.outputs.push(info);
                proof {
                    let s = self.outputs@;
                    assert forall|a: int, b: int|
                        0 <= a < s.len() && 0 <= b < s.len() && a != b implies #[trigger] s[a].handle
                        != #[trigger] s[b].handle by {
                        if a == old_s.len() {
                            assert(old_s[b].handle != handle);
                        } else if b == old_s.len() {
                            assert(old_s[a].handle != handle);
                        }
                    }
                }
            },
        }
    }

    /// Forgets an output and hands its info back; when it was the active one,
    /// no output is active any more.
    pub fn remove(&mut self, handle: OutputHandle) -> (r: Option<OutputInfo>)
        requires
            old(self).wf(),
        ensures
            final(self).wf(),
            !has_info(final(self).infos(), handle),
            final(self).active() == if old(self).active() == Some(handle) {
                None
            } else {
                old(self).active()
            },
            match r {
                Some(info) => {
                    let i = info_index(old(self).infos(), handle);
                    &&& has_info(old(self).infos(), handle)
                    &&& info == old(self).infos()[i]
                    &&& final(self).infos() == old(self).infos().remove(i)
                },
                None => !has_info(old(self).infos(), handle) && final(self).infos() == old(
                    self,
                ).infos(),
            },
    {
        if self.active == Some(handle) {
            self.active = None;
        }
        match self.index_of(handle) {
            Some(i) => {
                let ghost old_s = self.outputs@;
                let info = self.outputs.remove(i);
                proof {
                    let s = self.outputs@;
                    assert forall|a: int, b: int|
                        0 <= a < s.len() && 0 <= b < s.len() && a != b implies #[trigger] s[a].handle
                        != #[trigger] s[b].handle by {
                        let a2 = if a < i { a } else { a + 1 };
                        let b2 = if b < i { b } else { b + 1 };
                        assert(s[a] == old_s[a2]);
                        assert(s[b] == old_s[b2]);
                    }
                    assert(!has_info(s, handle)) by {
                        if has_info(s, handle) {
                            let k = choose|k: int| 0 <= k < s.len() && s[k].handle == handle;
                            let k2 = if k < i { k } else { k + 1 };
                            assert(s[k] == old_s[k2]);
                        }
                    }
                }
                Some(info)
            },
            None => None,
        }
    }

    pub fn get(&self, handle: OutputHandle) -> (r: Option<&OutputInfo>)
        requires
            self.wf(),
        ensures
            match r {
                Some(info) => has_info(self.infos(), handle) && *info == self.infos()[info_index(
                    self.infos(),
                    handle,
                )],
                None => !has_info(self.infos(), handle),
            },
    {
        match self.index_of(handle) {
            Some(i) => Some(&self.outputs[i]),
            None => None,
        }
    }

    pub fn get_mut(&mut self, handle: OutputHandle) -> (r: Option<&mut OutputInfo>)
        requires
            old(self).wf(),
        ensures
            final(self).active() == old(self).active(),
            match r {
                Some(info) => {
                    let i = info_index(old(self).infos(), handle);
                    &&& has_info(old(self).infos(), handle)
                    &&& *info == old(self).infos()[i]
                    &&& final(self).infos() == old(self).infos().update(i, *final(info))
                },
                None => !has_info(old(self).infos(), handle) && final(self).infos() == old(
                    self,
                ).infos(),
            },
    {
        match self.index_of(handle) {
            Some(i) => Some(&mut self.outputs[i]),
            None => None,
        }
    }

    pub fn set_active(&mut self, handle: Option<OutputHandle>)
        ensures
            final(self).active() == handle,
            final(self).infos() == old(self).infos(),
    {
        self.active = handle;
    }

    pub fn active_handle(&self) -> (h: Option<OutputHandle>)
        ensures
            h == self.active(),
    {
        self.active
    }

    /// The handle of the first output marked primary.
    pub fn primary_handle(&self) -> (h: Option<OutputHandle>)
        ensures
            h == primary_of(self.infos()),
    {
        let mut i: usize = 0;
        while i < self.outputs.len()
            invariant
                i <= self.outputs@.len(),
                forall|j: int| 0 <= j < i ==> !(#[trigger] self.outputs@[j].primary),
            decreases self.outputs@.len() - i,
        {
            if self.outputs[i].primary {
                let ghost s = self.outputs@;
                assert(s[i as int].primary);
                assert(first_primary_pos(s) == i) by {
                    let p = first_primary_pos(s);
                    if p > i {
                        assert(!s[i as int].primary);
                    }
                }
                return Some(self.outputs[i].handle);
            }
            i = i + 1;
        }
        None
    }

    pub fn all_info(&self) -> (r: &Vec<OutputInfo>)
        ensures
            r@ == self.infos(),
    {
        &self.outputs
    }
}

} // verus!
