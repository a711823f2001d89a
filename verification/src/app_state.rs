use vstd::prelude::*;
use std::collections::HashMap;
use crate::domain::{OutputHandle, SurfaceHandle};
use crate::event_context::SharedPointerSerial;
use crate::outputs::{has_info, OutputGeometry, OutputInfo, OutputMapping, OutputRegistry, info_index, primary_of};
use crate::text::{char_seq_lt, lemma_char_seq_lt_total, lemma_char_seq_lt_transitive, str_eq, str_lt};

verus! {

broadcast use vstd::std_specs::hash::group_hash_axioms, vstd::string::group_string_axioms;

/// Identifies one shell surface on one output.
#[derive(Clone, Copy, Debug, PartialEq, Eq, Structural, Hash)]
pub struct ShellSurfaceKey {
    pub output_handle: OutputHandle,
    pub surface_handle: SurfaceHandle,
}

impl ShellSurfaceKey {
    pub fn new(output_handle: OutputHandle, surface_handle: SurfaceHandle) -> (k: Self)
        ensures
            k.output_handle == output_handle,
            k.surface_handle == surface_handle,
    {
        ShellSurfaceKey { output_handle, surface_handle }
    }
}

/// No two pairs of `s` share their first component.
pub open spec fn keys_distinct<K, V>(s: Seq<(K, V)>) -> bool {
    forall|i: int, j: int|
        0 <= i < s.len() && 0 <= j < s.len() && i != j ==> #[trigger] s[i].0 != #[trigger] s[j].0
}

/// Some pair of `s` has key `k`.
pub open spec fn has_key<K, V>(s: Seq<(K, V)>, k: K) -> bool {
    exists|i: int| 0 <= i < s.len() && #[trigger] s[i].0 == k
}

/// The position of the pair with key `k` (meaningful when there is one).
pub open spec fn key_pos<K, V>(s: Seq<(K, V)>, k: K) -> int {
    choose|i: int| 0 <= i < s.len() && s[i].0 == k
}

/// The value stored under key `k`, if any.
pub open spec fn lookup<K, V>(s: Seq<(K, V)>, k: K) -> Option<V> {
    if has_key(s, k) {
        Some(s[key_pos(s, k)].1)
    } else {
        None
    }
}

/// `s` with the value of key `k` set to `v`: replaced in place when the key is
/// present, appended otherwise.
pub open spec fn upsert<K, V>(s: Seq<(K, V)>, k: K, v: V) -> Seq<(K, V)> {
    if has_key(s, k) {
        s.update(key_pos(s, k), (k, v))
    } else {
        s.push((k, v))
    }
}

/// The first position of a surface of output `h` (meaningful when there is one).
pub open spec fn first_pos_for_output<S>(s: Seq<(ShellSurfaceKey, S)>, h: OutputHandle) -> int {
    choose|i: int|
        0 <= i < s.len() && s[i].0.output_handle == h && forall|j: int|
            0 <= j < i ==> #[trigger] s[j].0.output_handle != h
}

/// Some surface of `s` is on output `h`.
pub open spec fn has_output<S>(s: Seq<(ShellSurfaceKey, S)>, h: OutputHandle) -> bool {
    exists|i: int| 0 <= i < s.len() && #[trigger] s[i].0.output_handle == h
}

/// The first surface of output `h` in `s`, if any.
pub open spec fn first_for_output<S>(s: Seq<(ShellSurfaceKey, S)>, h: OutputHandle) -> Option<S> {
    if has_output(s, h) {
        Some(s[first_pos_for_output(s, h)].1)
    } else {
        None
    }
}

/// Storing a value under a key (as every registration of a surface does for
/// its entry, its main wl_surface and its name) makes it what a lookup of that
/// key finds, keeps keys unique, and leaves every other key's value alone.
pub proof fn lemma_upsert_keys_distinct<K, V>(s: Seq<(K, V)>, k: K, v: V)
    requires
        keys_distinct(s),
    ensures
        keys_distinct(upsert(s, k, v)),
        has_key(upsert(s, k, v), k),
        lookup(upsert(s, k, v), k) == Some(v),
        forall|k2: K| k2 != k ==> lookup(upsert(s, k, v), k2) == lookup(s, k2),
{
    let t = upsert(s, k, v);
    if has_key(s, k) {
        let p = key_pos(s, k);
        assert(t[p].0 == k);
        assert forall|a: int, b: int|
            0 <= a < t.len() && 0 <= b < t.len() && a != b implies #[trigger] t[a].0
            != #[trigger] t[b].0 by {
            if a == p {
                assert(s[b].0 != s[p].0);
            } else if b == p {
                assert(s[a].0 != s[p].0);
            } else {
                assert(t[a] == s[a] && t[b] == s[b]);
            }
        }
        assert(key_pos(t, k) == p);
        assert forall|k2: K| k2 != k implies lookup(t, k2) == lookup(s, k2) by {
            if has_key(s, k2) {
                let q = key_pos(s, k2);
                assert(q != p);
                assert(t[q] == s[q]);
                assert(key_pos(t, k2) == q);
            }
            if has_key(t, k2) {
                let q = key_pos(t, k2);
                assert(q != p);
                assert(s[q] == t[q]);
            }
        }
    } else {
        let n = s.len() as int;
        assert(t[n].0 == k);
        assert forall|a: int, b: int|
            0 <= a < t.len() && 0 <= b < t.len() && a != b implies #[trigger] t[a].0
            != #[trigger] t[b].0 by {
            if a == n {
                assert(s[b].0 != k);
            } else if b == n {
                assert(s[a].0 != k);
            } else {
                assert(t[a] == s[a] && t[b] == s[b]);
            }
        }
        assert(key_pos(t, k) == n);
        assert forall|k2: K| k2 != k implies lookup(t, k2) == lookup(s, k2) by {
            if has_key(s, k2) {
                let q = key_pos(s, k2);
                assert(t[q] == s[q]);
                assert(key_pos(t, k2) == q);
            }
            if has_key(t, k2) {
                let q = key_pos(t, k2);
                assert(q != n);
                assert(s[q] == t[q]);
            }
        }
    }
}

proof fn lemma_push_keys_distinct<K, V>(s: Seq<(K, V)>, e: (K, V))
    requires
        keys_distinct(s),
        !has_key(s, e.0),
    ensures
        keys_distinct(s.push(e)),
{
    let t = s.push(e);
    assert forall|a: int, b: int|
        0 <= a < t.len() && 0 <= b < t.len() && a != b implies #[trigger] t[a].0
        != #[trigger] t[b].0 by {
        if a == s.len() {
            assert(t[b] == s[b]);
        } else if b == s.len() {
            assert(t[a] == s[a]);
        } else {
            assert(t[a] == s[a] && t[b] == s[b]);
        }
    }
}

/// A pair of `s` is on output `h`.
pub open spec fn on_output<V>(h: OutputHandle) -> spec_fn((ShellSurfaceKey, V)) -> bool {
    |e: (ShellSurfaceKey, V)| e.0.output_handle == h
}

/// A pair of `s` is not on output `h`.
pub open spec fn off_output<V>(h: OutputHandle) -> spec_fn((ShellSurfaceKey, V)) -> bool {
    |e: (ShellSurfaceKey, V)| e.0.output_handle != h
}

/// The surfaces of a sequence of entries, in order.
pub open spec fn surfaces_of<S>(s: Seq<(ShellSurfaceKey, S)>) -> Seq<S> {
    s.map_values(|e: (ShellSurfaceKey, S)| e.1)
}

/// The key pairs whose key is not on output `h`.
pub open spec fn key_off_output(h: OutputHandle) -> spec_fn((u32, ShellSurfaceKey)) -> bool {
    |e: (u32, ShellSurfaceKey)| e.1.output_handle != h
}

/// The surfaces of `s` (in order) whose key satisfies `p`, as references.
pub open spec fn refs_match<S>(r: Seq<&S>, s: Seq<S>) -> bool {
    r.len() == s.len() && forall|i: int| 0 <= i < r.len() ==> *r[i] == s[i]
}

/// Surface handle `h` is named `n` in `names`.
pub open spec fn named(names: Seq<(SurfaceHandle, Seq<char>)>, h: SurfaceHandle, n: Seq<char>) -> bool {
    lookup(names, h) == Some(n)
}

/// The entries whose surface is named `n`.
pub open spec fn entry_named<S>(names: Seq<(SurfaceHandle, Seq<char>)>, n: Seq<char>) -> spec_fn(
    (ShellSurfaceKey, S),
) -> bool {
    |e: (ShellSurfaceKey, S)| named(names, e.0.surface_handle, n)
}

/// The entries whose surface is not named `n`.
pub open spec fn entry_not_named<S>(names: Seq<(SurfaceHandle, Seq<char>)>, n: Seq<char>) -> spec_fn(
    (ShellSurfaceKey, S),
) -> bool {
    |e: (ShellSurfaceKey, S)| !named(names, e.0.surface_handle, n)
}

/// The key pairs whose surface is not named `n`.
pub open spec fn key_not_named(names: Seq<(SurfaceHandle, Seq<char>)>, n: Seq<char>) -> spec_fn(
    (u32, ShellSurfaceKey),
) -> bool {
    |e: (u32, ShellSurfaceKey)| !named(names, e.1.surface_handle, n)
}

fn handles_contain(v: &Vec<SurfaceHandle>, h: SurfaceHandle) -> (b: bool)
    ensures
        b == v@.contains(h),
{
    let mut i: usize = 0;
    while i < v.len()
        invariant
            i <= v@.len(),
            forall|j: int| 0 <= j < i ==> v@[j] != h,
        decreases v@.len() - i,
    {
        if v[i] == h {
            assert(v@[i as int] == h);
            return true;
        }
        i = i + 1;
    }
    false
}

/// One piece of output information reported by the compositor.
pub enum OutputInfoUpdate {
    Name(String),
    Description(String),
    Scale(i32),
    Geometry(OutputGeometry),
}

/// `info` with `update` applied.
pub open spec fn apply_update(info: OutputInfo, update: OutputInfoUpdate) -> OutputInfo {
    match update {
        OutputInfoUpdate::Name(n) => OutputInfo { name: Some(n), ..info },
        OutputInfoUpdate::Description(d) => OutputInfo { description: Some(d), ..info },
        OutputInfoUpdate::Scale(f) => OutputInfo { scale: Some(f), ..info },
        OutputInfoUpdate::Geometry(g) => OutputInfo { geometry: Some(g), ..info },
    }
}

/// Only the first output of `s`, if any, is marked primary.
pub open spec fn only_first_primary(s: Seq<OutputInfo>) -> bool {
    forall|i: int| 0 <= i < s.len() && #[trigger] s[i].primary ==> i == 0
}

/// An update records exactly the piece of information it carries, as it was
/// reported, and leaves the output's handle, its primary flag and every other
/// piece as they were.
pub proof fn lemma_update_records_as_reported(info: OutputInfo, update: OutputInfoUpdate)
    ensures
        apply_update(info, update).handle == info.handle,
        apply_update(info, update).primary == info.primary,
        update matches OutputInfoUpdate::Name(n) ==> apply_update(info, update).name == Some(n),
        update matches OutputInfoUpdate::Description(d) ==> apply_update(info, update).description
            == Some(d),
        update matches OutputInfoUpdate::Scale(f) ==> apply_update(info, update).scale == Some(f),
        update matches OutputInfoUpdate::Geometry(g) ==> apply_update(info, update).geometry == Some(
            g,
        ),
        !(update is Name) ==> apply_update(info, update).name == info.name,
        !(update is Description) ==> apply_update(info, update).description == info.description,
        !(update is Scale) ==> apply_update(info, update).scale == info.scale,
        !(update is Geometry) ==> apply_update(info, update).geometry == info.geometry,
{
}

/// The characters of each string.
pub open spec fn str_views(r: Seq<&str>) -> Seq<Seq<char>> {
    r.map_values(|x: &str| x@)
}

/// Each sequence comes strictly before the next.
pub open spec fn strictly_sorted(v: Seq<Seq<char>>) -> bool {
    forall|i: int, j: int| 0 <= i < j < v.len() ==> char_seq_lt(#[trigger] v[i], #[trigger] v[j])
}

/// The names of a names table, in table order.
pub open spec fn name_values(names: Seq<(SurfaceHandle, Seq<char>)>) -> Seq<Seq<char>> {
    names.map_values(|p: (SurfaceHandle, Seq<char>)| p.1)
}

/// The shell surfaces of every output, with the tables that find them again
/// by protocol id, by surface name and by output, and the surface that has the
/// pointer. `S` is the per-output surface state.
pub struct AppState<S> {
    output_registry: OutputRegistry,
    output_mapping: OutputMapping,
    surfaces: Vec<(ShellSurfaceKey, S)>,
    surface_to_key: Vec<(u32, ShellSurfaceKey)>,
    surface_handle_to_name: Vec<(SurfaceHandle, String)>,
    shared_pointer_serial: SharedPointerSerial,
    registry_name_to_output_id: HashMap<u32, u32>,
    active_surface_key: Option<ShellSurfaceKey>,
}

impl<S> AppState<S> {
    /// The surfaces, each with its key.
    pub closed spec fn entries(&self) -> Seq<(ShellSurfaceKey, S)> {
        self.surfaces@
    }

    /// The key of each main wl_surface, by protocol id.
    pub closed spec fn surface_keys(&self) -> Seq<(u32, ShellSurfaceKey)> {
        self.surface_to_key@
    }

    /// The name of each surface handle.
    pub closed spec fn names(&self) -> Seq<(SurfaceHandle, Seq<char>)> {
        self.surface_handle_to_name@.map_values(|p: (SurfaceHandle, String)| (p.0, p.1@))
    }

    pub closed spec fn registry(&self) -> OutputRegistry {
        self.output_registry
    }

    pub closed spec fn mapping(&self) -> OutputMapping {
        self.output_mapping
    }

    /// The output id announced under each registry name.
    pub closed spec fn registry_names(&self) -> Map<u32, u32> {
        self.registry_name_to_output_id@
    }

    pub closed spec fn active_key(&self) -> Option<ShellSurfaceKey> {
        self.active_surface_key
    }

    pub closed spec fn pointer_serial(&self) -> SharedPointerSerial {
        self.shared_pointer_serial
    }

    /// Each table holds every key once, the registry knows each output once,
    /// and every registered output has a handle that the mapping gave out.
    pub open spec fn wf(&self) -> bool {
        &&& keys_distinct(self.entries())
        &&& keys_distinct(self.surface_keys())
        &&& keys_distinct(self.names())
        &&& self.registry().wf()
        &&& self.mapping().wf()
        &&& forall|i: int|
            0 <= i < self.registry().infos().len() ==> #[trigger] self.registry().infos()[i].handle.id
                < self.mapping().next_id()
        &&& only_first_primary(self.registry().infos())
    }

    pub fn new(shared_pointer_serial: SharedPointerSerial) -> (a: Self)
        ensures
            a.wf(),
            a.entries().len() == 0,
            a.surface_keys().len() == 0,
            a.names().len() == 0,
            a.registry().infos().len() == 0,
            a.registry().active() is None,
            a.mapping().handles() == Map::<u32, OutputHandle>::empty(),
            a.registry_names() == Map::<u32, u32>::empty(),
            a.active_key() is None,
            a.pointer_serial() == shared_pointer_serial,
    {
        AppState {
            output_registry: OutputRegistry::new(),
            output_mapping: OutputMapping::new(),
            surfaces: Vec::new(),
            surface_to_key: Vec::new(),
            surface_handle_to_name: Vec::new(),
            shared_pointer_serial,
            registry_name_to_output_id: HashMap::new(),
            active_surface_key: None,
        }
    }

    fn surface_index(&self, key: ShellSurfaceKey) -> (r: Option<usize>)
        requires
            keys_distinct(self.entries()),
        ensures
            match r {
                Some(i) => i < self.entries().len() && self.entries()[i as int].0 == key
                    && key_pos(self.entries(), key) == i && has_key(self.entries(), key),
                None => !has_key(self.entries(), key),
            },
    {
        let mut i: usize = 0;
        while i < self.surfaces.len()
            invariant
                i <= self.surfaces@.len(),
                keys_distinct(self.surfaces@),
                forall|j: int| 0 <= j < i ==> #[trigger] self.surfaces@[j].0 != key,
            decreases self.surfaces@.len() - i,
        {
            if self.surfaces[i].0 == key {
                assert(self.surfaces@[i as int].0 == key);
                return Some(i);
            }
            i = i + 1;
        }
        None
    }

    fn surface_id_index(&self, surface_id: u32) -> (r: Option<usize>)
        requires
            keys_distinct(self.surface_keys()),
        ensures
            match r {
                Some(i) => i < self.surface_keys().len() && self.surface_keys()[i as int].0
                    == surface_id && key_pos(self.surface_keys(), surface_id) == i && has_key(
                    self.surface_keys(),
                    surface_id,
                ),
                None => !has_key(self.surface_keys(), surface_id),
            },
    {
        let mut i: usize = 0;
        while i < self.surface_to_key.len()
            invariant
                i <= self.surface_to_key@.len(),
                keys_distinct(self.surface_to_key@),
                forall|j: int| 0 <= j < i ==> #[trigger] self.surface_to_key@[j].0 != surface_id,
            decreases self.surface_to_key@.len() - i,
        {
            if self.surface_to_key[i].0 == surface_id {
                assert(self.surface_to_key@[i as int].0 == surface_id);
                return Some(i);
            }
            i = i + 1;
        }
        None
    }

    fn name_index(&self, handle: SurfaceHandle) -> (r: Option<usize>)
        requires
            keys_distinct(self.names()),
        ensures
            match r {
                Some(i) => i < self.names().len() && self.names()[i as int].0 == handle
                    && key_pos(self.names(), handle) == i && has_key(self.names(), handle),
                None => !has_key(self.names(), handle),
            },
    {
        let mut i: usize = 0;
        while i < self.surface_handle_to_name.len()
            invariant
                i <= self.surface_handle_to_name@.len(),
                keys_distinct(self.names()),
                self.names().len() == self.surface_handle_to_name@.len(),
                forall|j: int| 0 <= j < i ==> #[trigger] self.names()[j].0 != handle,
            decreases self.surface_handle_to_name@.len() - i,
        {
            assert(self.names()[i as int].0 == self.surface_handle_to_name@[i as int].0);
            if self.surface_handle_to_name[i].0 == handle {
                assert(self.names()[i as int].0 == handle);
                return Some(i);
            }
            i = i + 1;
        }
        None
    }

    fn first_index_for_output(&self, handle: OutputHandle) -> (r: Option<usize>)
        ensures
            match r {
                Some(i) => i < self.entries().len() && has_output(self.entries(), handle)
                    && first_pos_for_output(self.entries(), handle) == i,
                None => !has_output(self.entries(), handle),
            },
    {
        let mut i: usize = 0;
        while i < self.surfaces.len()
            invariant
                i <= self.surfaces@.len(),
                forall|j: int| 0 <= j < i ==> #[trigger] self.surfaces@[j].0.output_handle != handle,
            decreases self.surfaces@.len() - i,
        {
            if self.surfaces[i].0.output_handle == handle {
                let ghost s = self.surfaces@;
                assert(s[i as int].0.output_handle == handle);
                assert(first_pos_for_output(s, handle) == i) by {
                    let p = first_pos_for_output(s, handle);
                    assert(0 <= p < s.len() && s[p].0.output_handle == handle && forall|j: int|
                        0 <= j < p ==> #[trigger] s[j].0.output_handle != handle);
                    if p < i {
                    } else if p > i {
                        assert(s[i as int].0.output_handle != handle);
                    }
                }
                return Some(i);
            }
            i = i + 1;
        }
        None
    }

    /// The handle that output `output_id` has, or the one it is given now.
    pub open spec fn handle_for(&self, output_id: u32) -> OutputHandle {
        if self.mapping().handles().contains_key(output_id) {
            self.mapping().handles()[output_id]
        } else {
            OutputHandle { id: self.mapping().next_id() }
        }
    }

    /// Registers the surface `surface_handle` (named `surface_name`) on output
    /// `output_id`, whose main wl_surface is `main_surface_id`. An output seen
    /// for the first time gets a handle and is registered, as the primary
    /// output when it is the first one. Existing entries under the same keys
    /// are replaced.
    pub fn add_shell_surface(
        &mut self,
        output_id: u32,
        surface_handle: SurfaceHandle,
        surface_name: &str,
        main_surface_id: u32,
        surface_state: S,
    )
        requires
            old(self).wf(),
            old(self).mapping().next_id() < u64::MAX,
        ensures
            final(self).wf(),
            ({
                let h = old(self).handle_for(output_id);
                let key = ShellSurfaceKey { output_handle: h, surface_handle };
                &&& final(self).entries() == upsert(old(self).entries(), key, surface_state)
                &&& final(self).surface_keys() == upsert(
                    old(self).surface_keys(),
                    main_surface_id,
                    key,
                )
                &&& final(self).names() == upsert(old(self).names(), surface_handle, surface_name@)
                &&& if old(self).mapping().handles().contains_key(output_id) {
                    &&& final(self).mapping() == old(self).mapping()
                    &&& final(self).registry() == old(self).registry()
                } else {
                    &&& final(self).mapping().handles() == old(self).mapping().handles().insert(
                        output_id,
                        h,
                    )
                    &&& final(self).mapping().next_id() == old(self).mapping().next_id() + 1
                    &&& final(self).registry().active() == old(self).registry().active()
                    &&& final(self).registry().infos() == old(self).registry().infos().push(
                        OutputInfo {
                            handle: h,
                            primary: old(self).registry().infos().len() == 0,
                            name: None,
                            description: None,
                            scale: None,
                            geometry: None,
                        },
                    )
                }
            }),
            final(self).registry_names() == old(self).registry_names(),
            final(self).active_key() == old(self).active_key(),
            final(self).pointer_serial() == old(self).pointer_serial(),
    {
        let handle = match self.output_mapping.get(output_id) {
            Some(h) => h,
            None => {
                let h = self.output_mapping.insert(output_id);
                let is_primary = self.output_registry.is_empty();
                let mut info = OutputInfo::new(h);
                info.set_primary(is_primary);
                proof {
                    if has_info(self.output_registry.infos(), h) {
                        let k = choose|k: int|
                            0 <= k < self.output_registry.infos().len()
                                && self.output_registry.infos()[k].handle == h;
                        assert(self.output_registry.infos()[k].handle.id < old(
                            self,
                        ).output_mapping.next_id());
                    }
                }
                self.output_registry.add(info);
                h
            },
        };
        let key = ShellSurfaceKey::new(handle, surface_handle);
        proof {
            lemma_upsert_keys_distinct(self.surface_to_key@, main_surface_id, key);
            lemma_upsert_keys_distinct(self.surfaces@, key, surface_state);
        }
        match self.surface_id_index(main_surface_id) {
            Some(i) => self.surface_to_key.set(i, (main_surface_id, key)),
            None => self.surface_to_key.push((main_surface_id, key)),
        }
        match self.surface_index(key) {
            Some(i) => self.surfaces.set(i, (key, surface_state)),
            None => self.surfaces.push((key, surface_state)),
        }
        let name = surface_name.to_string();
        let ghost old_names = self.names();
        proof {
            lemma_upsert_keys_distinct(old_names, surface_handle, surface_name@);
        }
        match self.name_index(surface_handle) {
            Some(i) => {
                self.surface_handle_to_name.set(i, (surface_handle, name));
                proof {
                    assert(self.names() =~= upsert(old_names, surface_handle, surface_name@));
                }
            },
            None => {
                self.surface_handle_to_name.push((surface_handle, name));
                proof {
                    assert(self.names() =~= upsert(old_names, surface_handle, surface_name@));
                }
            },
        }
        proof {
            assert forall|i: int|
                0 <= i < self.registry().infos().len() implies #[trigger] self.registry().infos()[i].handle.id
                < self.mapping().next_id() by {
                if i < old(self).registry().infos().len() {
                    assert(self.registry().infos()[i] == old(self).registry().infos()[i]);
                }
            }
        }
    }

    /// The same as `add_shell_surface`.
    pub fn add_output(
        &mut self,
        output_id: u32,
        surface_handle: SurfaceHandle,
        surface_name: &str,
        main_surface_id: u32,
        surface_state: S,
    )
        requires
            old(self).wf(),
            old(self).mapping().next_id() < u64::MAX,
        ensures
            final(self).wf(),
            ({
                let h = old(self).handle_for(output_id);
                let key = ShellSurfaceKey { output_handle: h, surface_handle };
                &&& final(self).entries() == upsert(old(self).entries(), key, surface_state)
                &&& final(self).surface_keys() == upsert(
                    old(self).surface_keys(),
                    main_surface_id,
                    key,
                )
                &&& final(self).names() == upsert(old(self).names(), surface_handle, surface_name@)
            }),
            final(self).registry_names() == old(self).registry_names(),
            final(self).active_key() == old(self).active_key(),
    {
        self.add_shell_surface(
            output_id,
            surface_handle,
            surface_name,
            main_surface_id,
            surface_state,
        );
    }

    /// The surface with key `key`.
    pub fn get_surface_by_key(&self, key: &ShellSurfaceKey) -> (r: Option<&S>)
        requires
            self.wf(),
        ensures
            match r {
                Some(s) => lookup(self.entries(), *key) == Some(*s),
                None => lookup(self.entries(), *key) is None,
            },
    {
        match self.surface_index(*key) {
            Some(i) => Some(&self.surfaces[i].1),
            None => None,
        }
    }

    /// The surface with key `key`, for changing it.
    pub fn get_surface_by_key_mut(&mut self, key: &ShellSurfaceKey) -> (r: Option<&mut S>)
        requires
            old(self).wf(),
        ensures
            match r {
                Some(s) => {
                    &&& lookup(old(self).entries(), *key) == Some(*s)
                    &&& final(self).entries() == old(self).entries().update(
                        key_pos(old(self).entries(), *key),
                        (*key, *final(s)),
                    )
                },
                None => lookup(old(self).entries(), *key) is None && final(self).entries() == old(
                    self,
                ).entries(),
            },
            final(self).surface_keys() == old(self).surface_keys(),
            final(self).names() == old(self).names(),
            final(self).registry() == old(self).registry(),
            final(self).mapping() == old(self).mapping(),
            final(self).registry_names() == old(self).registry_names(),
            final(self).active_key() == old(self).active_key(),
            final(self).pointer_serial() == old(self).pointer_serial(),
    {
        match self.surface_index(*key) {
            Some(i) => Some(&mut self.surfaces[i].1),
            None => None,
        }
    }

    /// The surface `surface_handle` on output `output_handle`.
    pub fn get_surface_by_instance(&self, surface_handle: SurfaceHandle, output_handle: OutputHandle) -> (r:
        Option<&S>)
        requires
            self.wf(),
        ensures
            match r {
                Some(s) => lookup(self.entries(), ShellSurfaceKey { output_handle, surface_handle })
                    == Some(*s),
                None => lookup(self.entries(), ShellSurfaceKey { output_handle, surface_handle }) is None,
            },
    {
        let key = ShellSurfaceKey::new(output_handle, surface_handle);
        self.get_surface_by_key(&key)
    }

    /// The first surface (in the order of the entries) on output `handle`.
    pub fn get_output_by_handle(&self, handle: OutputHandle) -> (r: Option<&S>)
        ensures
            match r {
                Some(s) => first_for_output(self.entries(), handle) == Some(*s),
                None => first_for_output(self.entries(), handle) is None,
            },
    {
        match self.first_index_for_output(handle) {
            Some(i) => Some(&self.surfaces[i].1),
            None => None,
        }
    }

    /// The first surface on output `handle`, for changing it.
    pub fn get_output_by_handle_mut(&mut self, handle: OutputHandle) -> (r: Option<&mut S>)
        ensures
            match r {
                Some(s) => {
                    let p = first_pos_for_output(old(self).entries(), handle);
                    &&& first_for_output(old(self).entries(), handle) == Some(*s)
                    &&& final(self).entries() == old(self).entries().update(
                        p,
                        (old(self).entries()[p].0, *final(s)),
                    )
                },
                None => first_for_output(old(self).entries(), handle) is None && final(self).entries() == old(self).entries(),
            },
            final(self).surface_keys() == old(self).surface_keys(),
            final(self).names() == old(self).names(),
            final(self).registry() == old(self).registry(),
            final(self).mapping() == old(self).mapping(),
            final(self).registry_names() == old(self).registry_names(),
            final(self).active_key() == old(self).active_key(),
            final(self).pointer_serial() == old(self).pointer_serial(),
    {
        match self.first_index_for_output(handle) {
            Some(i) => Some(&mut self.surfaces[i].1),
            None => None,
        }
    }

    /// Forgets output `handle`: it leaves the registry, and its surfaces are
    /// removed (and handed back, in the order of the entries) together with
    /// the protocol ids that led to them. The handle mapping, the names and the
    /// active surface are left as they are.
    pub fn remove_output(&mut self, handle: OutputHandle) -> (removed: Vec<S>)
        requires
            old(self).wf(),
        ensures
            final(self).wf(),
            removed@ == surfaces_of(old(self).entries().filter(on_output(handle))),
            final(self).entries() == old(self).entries().filter(off_output(handle)),
            final(self).surface_keys() == old(self).surface_keys().filter(key_off_output(handle)),
            !has_info(final(self).registry().infos(), handle),
            has_info(old(self).registry().infos(), handle) ==> final(self).registry().infos()
                == old(self).registry().infos().remove(
                info_index(old(self).registry().infos(), handle),
            ),
            !has_info(old(self).registry().infos(), handle) ==> final(self).registry().infos()
                == old(self).registry().infos(),
            final(self).registry().active() == if old(self).registry().active() == Some(handle) {
                None
            } else {
                old(self).registry().active()
            },
            final(self).mapping() == old(self).mapping(),
            final(self).names() == old(self).names(),
            final(self).registry_names() == old(self).registry_names(),
            final(self).active_key() == old(self).active_key(),
            final(self).pointer_serial() == old(self).pointer_serial(),
    {
        broadcast use vstd::seq_lib::group_seq_properties;

        let ghost old_infos = self.output_registry.infos();
        self.output_registry.remove(handle);
        proof {
            assert forall|i: int|
                0 <= i < self.registry().infos().len() implies #[trigger] self.registry().infos()[i].handle.id
                < self.mapping().next_id() by {
                let k = if i < info_index(old_infos, handle) {
                    i
                } else {
                    i + 1
                };
                if has_info(old_infos, handle) {
                    assert(self.registry().infos()[i] == old_infos[k]);
                } else {
                    assert(self.registry().infos()[i] == old_infos[i]);
                }
            }
        }
        let ghost reg_after = self.output_registry;
        let mut pending: Vec<(ShellSurfaceKey, S)> = Vec::new();
        std::mem::swap(&mut pending, &mut self.surfaces);
        let ghost orig = pending@;
        let total: usize = pending.len();
        let mut removed: Vec<S> = Vec::new();
        let mut k: usize = 0;
        while pending.len() > 0
            invariant
                k + pending@.len() == orig.len(),
                orig.len() == total,
                pending@ == orig.subrange(k as int, orig.len() as int),
                keys_distinct(orig),
                self.surfaces@ == orig.take(k as int).filter(off_output(handle)),
                removed@ == surfaces_of(orig.take(k as int).filter(on_output(handle))),
                keys_distinct(self.surfaces@),
                self.surface_to_key == old(self).surface_to_key,
                self.surface_handle_to_name == old(self).surface_handle_to_name,
                self.output_registry == reg_after,
                self.output_mapping == old(self).output_mapping,
                self.registry_name_to_output_id == old(self).registry_name_to_output_id,
                self.active_surface_key == old(self).active_surface_key,
                self.shared_pointer_serial == old(self).shared_pointer_serial,
                keys_distinct(old(self).surface_to_key@),
            decreases pending@.len(),
        {
            let e = pending.remove(0);
            proof {
                assert(e == orig[k as int]);
                assert(orig.take(k + 1) == orig.take(k as int).push(e));
                orig.take(k as int).lemma_filter_push(e, on_output(handle));
                orig.take(k as int).lemma_filter_push(e, off_output(handle));
                orig.take(k as int).filter(on_output(handle)).lemma_push_map_commute(
                    |x: (ShellSurfaceKey, S)| x.1,
                    e,
                );
            }
            if e.0.output_handle == handle {
                let ghost before = removed@;
                removed.push(e.1);
                proof {
                    assert(removed@ =~= surfaces_of(orig.take(k + 1).filter(on_output(handle))));
                    assert(self.surfaces@ == orig.take(k + 1).filter(off_output(handle)));
                }
            } else {
                let ghost kept = self.surfaces@;
                proof {
                    assert(!has_key(kept, e.0)) by {
                        if has_key(kept, e.0) {
                            let t = choose|t: int| 0 <= t < kept.len() && kept[t].0 == e.0;
                            assert(kept.contains(kept[t]));
                            orig.take(k as int).lemma_filter_contains_rev(off_output(handle), kept[t]);
                            let u = choose|u: int|
                                0 <= u < k && orig.take(k as int)[u] == kept[t];
                            assert(orig[u].0 == orig[k as int].0);
                        }
                    }
                    lemma_push_keys_distinct(kept, e);
                }
                self.surfaces.push(e);
                proof {
                    assert(self.surfaces@ == orig.take(k + 1).filter(off_output(handle)));
                    assert(surfaces_of(orig.take(k + 1).filter(on_output(handle))) == surfaces_of(
                        orig.take(k as int).filter(on_output(handle)),
                    ));
                }
            }
            k = k + 1;
        }
        proof {
            assert(orig.take(orig.len() as int) == orig);
        }
        let mut keys: Vec<(u32, ShellSurfaceKey)> = Vec::new();
        let ghost korig = self.surface_to_key@;
        let mut i: usize = 0;
        while i < self.surface_to_key.len()
            invariant
                i <= self.surface_to_key@.len(),
                self.surface_to_key@ == korig,
                keys_distinct(korig),
                keys@ == korig.take(i as int).filter(key_off_output(handle)),
                keys_distinct(keys@),
            decreases self.surface_to_key@.len() - i,
        {
            let e = self.surface_to_key[i];
            proof {
                assert(korig.take(i + 1) == korig.take(i as int).push(e));
                korig.take(i as int).lemma_filter_push(e, key_off_output(handle));
            }
            if e.1.output_handle != handle {
                proof {
                    let kept = keys@;
                    assert(!has_key(kept, e.0)) by {
                        if has_key(kept, e.0) {
                            let t = choose|t: int| 0 <= t < kept.len() && kept[t].0 == e.0;
                            assert(kept.contains(kept[t]));
                            korig.take(i as int).lemma_filter_contains_rev(key_off_output(handle), kept[t]);
                            let u = choose|u: int|
                                0 <= u < i && korig.take(i as int)[u] == kept[t];
                            assert(korig[u].0 == korig[i as int].0);
                        }
                    }
                    lemma_push_keys_distinct(kept, e);
                }
                keys.push(e);
            }
            i = i + 1;
        }
        proof {
            assert(korig.take(korig.len() as int) == korig);
        }
        self.surface_to_key = keys;
        removed
    }

    /// The first surface of output `output_id` (by its wl_output protocol id).
    pub fn get_output_by_output_id(&self, output_id: u32) -> (r: Option<&S>)
        ensures
            match r {
                Some(s) => self.mapping().handles().contains_key(output_id) && first_for_output(
                    self.entries(),
                    self.mapping().handles()[output_id],
                ) == Some(*s),
                None => !self.mapping().handles().contains_key(output_id) || first_for_output(
                    self.entries(),
                    self.mapping().handles()[output_id],
                ) is None,
            },
    {
        match self.output_mapping.get(output_id) {
            Some(h) => self.get_output_by_handle(h),
            None => None,
        }
    }

    /// The first surface of output `output_id`, for changing it.
    pub fn get_output_by_output_id_mut(&mut self, output_id: u32) -> (r: Option<&mut S>)
        ensures
            match r {
                Some(s) => {
                    let h = old(self).mapping().handles()[output_id];
                    let p = first_pos_for_output(old(self).entries(), h);
                    &&& old(self).mapping().handles().contains_key(output_id)
                    &&& first_for_output(old(self).entries(), h) == Some(*s)
                    &&& final(self).entries() == old(self).entries().update(
                        p,
                        (old(self).entries()[p].0, *final(s)),
                    )
                },
                None => (!old(self).mapping().handles().contains_key(output_id) || first_for_output(
                    old(self).entries(),
                    old(self).mapping().handles()[output_id],
                ) is None) && final(self).entries() == old(self).entries(),
            },
            final(self).surface_keys() == old(self).surface_keys(),
            final(self).names() == old(self).names(),
            final(self).registry() == old(self).registry(),
            final(self).mapping() == old(self).mapping(),
            final(self).registry_names() == old(self).registry_names(),
            final(self).active_key() == old(self).active_key(),
            final(self).pointer_serial() == old(self).pointer_serial(),
    {
        match self.output_mapping.get(output_id) {
            Some(h) => self.get_output_by_handle_mut(h),
            None => None,
        }
    }

    /// The key of the surface whose main wl_surface is `surface_id`.
    pub fn get_key_by_surface(&self, surface_id: u32) -> (r: Option<ShellSurfaceKey>)
        requires
            self.wf(),
        ensures
            r == lookup(self.surface_keys(), surface_id),
    {
        match self.surface_id_index(surface_id) {
            Some(i) => Some(self.surface_to_key[i].1),
            None => None,
        }
    }

    /// The output of the surface whose main wl_surface is `surface_id`.
    pub fn get_handle_by_surface(&self, surface_id: u32) -> (r: Option<OutputHandle>)
        requires
            self.wf(),
        ensures
            r == match lookup(self.surface_keys(), surface_id) {
                Some(k) => Some(k.output_handle),
                None => None,
            },
    {
        match self.get_key_by_surface(surface_id) {
            Some(k) => Some(k.output_handle),
            None => None,
        }
    }

    /// The handle of output `output_id`.
    pub fn get_handle_by_output_id(&self, output_id: u32) -> (r: Option<OutputHandle>)
        ensures
            r == (if self.mapping().handles().contains_key(output_id) {
                Some(self.mapping().handles()[output_id])
            } else {
                None
            }),
    {
        self.output_mapping.get(output_id)
    }

    /// The output whose wl_output is `output_id` went away: when it has a
    /// handle, it is forgotten as `remove_output` does and its surfaces are
    /// handed back; otherwise nothing changes.
    pub fn remove_output_by_output_id(&mut self, output_id: u32) -> (removed: Vec<S>)
        requires
            old(self).wf(),
        ensures
            final(self).wf(),
            old(self).mapping().handles().contains_key(output_id) ==> {
                let h = old(self).mapping().handles()[output_id];
                &&& removed@ == surfaces_of(old(self).entries().filter(on_output(h)))
                &&& final(self).entries() == old(self).entries().filter(off_output(h))
                &&& final(self).surface_keys() == old(self).surface_keys().filter(
                    key_off_output(h),
                )
                &&& !has_info(final(self).registry().infos(), h)
                &&& has_info(old(self).registry().infos(), h) ==> final(self).registry().infos()
                    == old(self).registry().infos().remove(
                    info_index(old(self).registry().infos(), h),
                )
                &&& !has_info(old(self).registry().infos(), h) ==> final(self).registry().infos()
                    == old(self).registry().infos()
                &&& final(self).registry().active() == if old(self).registry().active() == Some(
                    h,
                ) {
                    None
                } else {
                    old(self).registry().active()
                }
                &&& final(self).mapping() == old(self).mapping()
                &&& final(self).names() == old(self).names()
                &&& final(self).registry_names() == old(self).registry_names()
                &&& final(self).active_key() == old(self).active_key()
                &&& final(self).pointer_serial() == old(self).pointer_serial()
            },
            !old(self).mapping().handles().contains_key(output_id) ==> removed@.len() == 0
                && *final(self) == *old(self),
    {
        match self.get_handle_by_output_id(output_id) {
            Some(h) => self.remove_output(h),
            None => Vec::new(),
        }
    }

    /// The surface whose main wl_surface is `surface_id`.
    pub fn get_output_by_surface(&self, surface_id: u32) -> (r: Option<&S>)
        requires
            self.wf(),
        ensures
            match lookup(self.surface_keys(), surface_id) {
                Some(k) => match r {
                    Some(s) => lookup(self.entries(), k) == Some(*s),
                    None => lookup(self.entries(), k) is None,
                },
                None => r is None,
            },
    {
        match self.get_key_by_surface(surface_id) {
            Some(k) => self.get_surface_by_key(&k),
            None => None,
        }
    }

    /// The surface whose main wl_surface is `surface_id`, for changing it.
    pub fn get_output_by_surface_mut(&mut self, surface_id: u32) -> (r: Option<&mut S>)
        requires
            old(self).wf(),
        ensures
            match r {
                Some(s) => {
                    let k = lookup(old(self).surface_keys(), surface_id)->0;
                    &&& lookup(old(self).surface_keys(), surface_id) is Some
                    &&& lookup(old(self).entries(), k) == Some(*s)
                    &&& final(self).entries() == old(self).entries().update(
                        key_pos(old(self).entries(), k),
                        (k, *final(s)),
                    )
                },
                None => final(self).entries() == old(self).entries() && match lookup(
                    old(self).surface_keys(),
                    surface_id,
                ) {
                    Some(k) => lookup(old(self).entries(), k) is None,
                    None => true,
                },
            },
            final(self).surface_keys() == old(self).surface_keys(),
            final(self).names() == old(self).names(),
            final(self).registry() == old(self).registry(),
            final(self).mapping() == old(self).mapping(),
            final(self).registry_names() == old(self).registry_names(),
            final(self).active_key() == old(self).active_key(),
            final(self).pointer_serial() == old(self).pointer_serial(),
    {
        match self.get_key_by_surface(surface_id) {
            Some(k) => self.get_surface_by_key_mut(&k),
            None => None,
        }
    }

    /// The name of surface `surface_handle`.
    pub fn get_surface_name(&self, surface_handle: SurfaceHandle) -> (r: Option<&str>)
        requires
            self.wf(),
        ensures
            match r {
                Some(n) => lookup(self.names(), surface_handle) == Some(n@),
                None => lookup(self.names(), surface_handle) is None,
            },
    {
        match self.name_index(surface_handle) {
            Some(i) => Some(self.surface_handle_to_name[i].1.as_str()),
            None => None,
        }
    }

    pub fn set_active_output_handle(&mut self, handle: Option<OutputHandle>)
        requires
            old(self).wf(),
        ensures
            final(self).wf(),
            final(self).registry().active() == handle,
            final(self).registry().infos() == old(self).registry().infos(),
            final(self).entries() == old(self).entries(),
            final(self).surface_keys() == old(self).surface_keys(),
            final(self).names() == old(self).names(),
            final(self).mapping() == old(self).mapping(),
            final(self).active_key() == old(self).active_key(),
    {
        self.output_registry.set_active(handle);
    }

    pub fn active_output_handle(&self) -> (h: Option<OutputHandle>)
        ensures
            h == self.registry().active(),
    {
        self.output_registry.active_handle()
    }

    /// A pointer entered the wl_surface `surface_id`. It belongs to the shell
    /// surface whose main wl_surface it is, else to the shell surface that owns
    /// a popup with that wl_surface (`popup_owner`, found by the caller among
    /// the popups of the surfaces). That surface becomes the active one and is
    /// returned, so that it gets the event; when neither applies nothing
    /// changes.
    pub fn handle_pointer_enter(&mut self, surface_id: u32, popup_owner: Option<ShellSurfaceKey>) -> (r:
        Option<ShellSurfaceKey>)
        requires
            old(self).wf(),
        ensures
            final(self).wf(),
            r == match lookup(old(self).surface_keys(), surface_id) {
                Some(k) => Some(k),
                None => popup_owner,
            },
            r is Some ==> final(self).active_key() == r && final(self).registry().active() == Some(
                r->0.output_handle,
            ),
            r is None ==> final(self).active_key() == old(self).active_key()
                && final(self).registry().active() == old(self).registry().active(),
            final(self).registry().infos() == old(self).registry().infos(),
            final(self).entries() == old(self).entries(),
            final(self).surface_keys() == old(self).surface_keys(),
            final(self).names() == old(self).names(),
            final(self).mapping() == old(self).mapping(),
            final(self).registry_names() == old(self).registry_names(),
            final(self).pointer_serial() == old(self).pointer_serial(),
    {
        let target = match self.get_key_by_surface(surface_id) {
            Some(k) => Some(k),
            None => popup_owner,
        };
        match target {
            Some(k) => self.set_active_surface_key(Some(k)),
            None => {},
        }
        target
    }

    /// The pointer left its surface: no surface is active any more. Returns the
    /// surface that was active, which gets the leave event.
    pub fn handle_pointer_leave(&mut self) -> (r: Option<ShellSurfaceKey>)
        requires
            old(self).wf(),
        ensures
            final(self).wf(),
            r == old(self).active_key(),
            final(self).active_key() is None,
            final(self).registry().active() is None,
            final(self).registry().infos() == old(self).registry().infos(),
            final(self).entries() == old(self).entries(),
            final(self).surface_keys() == old(self).surface_keys(),
            final(self).names() == old(self).names(),
            final(self).mapping() == old(self).mapping(),
            final(self).registry_names() == old(self).registry_names(),
            final(self).pointer_serial() == old(self).pointer_serial(),
    {
        let r = self.active_surface_key;
        self.set_active_surface_key(None);
        r
    }

    /// Makes `key` the surface that has the pointer (and its output the
    /// active output), or clears both.
    pub fn set_active_surface_key(&mut self, key: Option<ShellSurfaceKey>)
        requires
            old(self).wf(),
        ensures
            final(self).wf(),
            final(self).active_key() == key,
            final(self).registry().active() == match key {
                Some(k) => Some(k.output_handle),
                None => None,
            },
            final(self).registry().infos() == old(self).registry().infos(),
            final(self).entries() == old(self).entries(),
            final(self).surface_keys() == old(self).surface_keys(),
            final(self).names() == old(self).names(),
            final(self).mapping() == old(self).mapping(),
            final(self).registry_names() == old(self).registry_names(),
            final(self).pointer_serial() == old(self).pointer_serial(),
    {
        match key {
            Some(k) => self.output_registry.set_active(Some(k.output_handle)),
            None => self.output_registry.set_active(None),
        }
        self.active_surface_key = key;
    }

    pub fn active_surface_key(&self) -> (k: Option<ShellSurfaceKey>)
        ensures
            k == self.active_key(),
    {
        self.active_surface_key
    }

    /// The surface that has the pointer, for changing it.
    pub fn active_surface_mut(&mut self) -> (r: Option<&mut S>)
        requires
            old(self).wf(),
        ensures
            match r {
                Some(s) => {
                    let k = old(self).active_key()->0;
                    &&& old(self).active_key() is Some
                    &&& lookup(old(self).entries(), k) == Some(*s)
                    &&& final(self).entries() == old(self).entries().update(
                        key_pos(old(self).entries(), k),
                        (k, *final(s)),
                    )
                },
                None => final(self).entries() == old(self).entries() && match old(
                    self,
                ).active_key() {
                    Some(k) => lookup(old(self).entries(), k) is None,
                    None => true,
                },
            },
            final(self).surface_keys() == old(self).surface_keys(),
            final(self).names() == old(self).names(),
            final(self).registry() == old(self).registry(),
            final(self).mapping() == old(self).mapping(),
            final(self).registry_names() == old(self).registry_names(),
            final(self).active_key() == old(self).active_key(),
            final(self).pointer_serial() == old(self).pointer_serial(),
    {
        match self.active_surface_key {
            Some(k) => self.get_surface_by_key_mut(&k),
            None => None,
        }
    }

    /// The primary output's handle: the first output marked primary.
    pub fn primary_output_handle(&self) -> (h: Option<OutputHandle>)
        ensures
            h == primary_of(self.registry().infos()),
    {
        self.output_registry.primary_handle()
    }

    /// The first surface of the primary output.
    pub fn primary_output(&self) -> (r: Option<&S>)
        ensures
            match primary_of(self.registry().infos()) {
                Some(h) => match r {
                    Some(s) => first_for_output(self.entries(), h) == Some(*s),
                    None => first_for_output(self.entries(), h) is None,
                },
                None => r is None,
            },
    {
        match self.output_registry.primary_handle() {
            Some(h) => self.get_output_by_handle(h),
            None => None,
        }
    }

    /// The first surface of the active output.
    pub fn active_output(&self) -> (r: Option<&S>)
        ensures
            match self.registry().active() {
                Some(h) => match r {
                    Some(s) => first_for_output(self.entries(), h) == Some(*s),
                    None => first_for_output(self.entries(), h) is None,
                },
                None => r is None,
            },
    {
        match self.output_registry.active_handle() {
            Some(h) => self.get_output_by_handle(h),
            None => None,
        }
    }

    /// How many surfaces there are (over all outputs).
    pub fn surface_count(&self) -> (n: usize)
        ensures
            n == self.entries().len(),
    {
        self.surfaces.len()
    }

    /// The key and surface at position `index` of the entries.
    pub fn surface_at(&self, index: usize) -> (r: (ShellSurfaceKey, &S))
        requires
            index < self.entries().len(),
        ensures
            r.0 == self.entries()[index as int].0,
            *r.1 == self.entries()[index as int].1,
    {
        (self.surfaces[index].0, &self.surfaces[index].1)
    }

    /// The surface at position `index` of the entries, for changing it.
    pub fn surface_at_mut(&mut self, index: usize) -> (r: &mut S)
        requires
            index < old(self).entries().len(),
        ensures
            *r == old(self).entries()[index as int].1,
            final(self).entries() == old(self).entries().update(
                index as int,
                (old(self).entries()[index as int].0, *final(r)),
            ),
            final(self).surface_keys() == old(self).surface_keys(),
            final(self).names() == old(self).names(),
            final(self).registry() == old(self).registry(),
            final(self).mapping() == old(self).mapping(),
            final(self).registry_names() == old(self).registry_names(),
            final(self).active_key() == old(self).active_key(),
            final(self).pointer_serial() == old(self).pointer_serial(),
    {
        &mut self.surfaces[index].1
    }

    /// The positions of the surfaces of output `output_id`, in order.
    pub fn surface_indices_for_output_id(&self, output_id: u32) -> (r: Vec<usize>)
        ensures
            forall|a: int, b: int| 0 <= a < b < r@.len() ==> r@[a] < r@[b],
            forall|i: int| 0 <= i < r@.len() ==> r@[i] < self.entries().len(),
            forall|i: usize|
                r@.contains(i) <==> (i < self.entries().len() && self.mapping().handles().contains_key(
                    output_id,
                ) && self.entries()[i as int].0.output_handle == self.mapping().handles()[output_id]),
    {
        let mut r: Vec<usize> = Vec::new();
        match self.output_mapping.get(output_id) {
            None => r,
            Some(h) => {
                let mut i: usize = 0;
                while i < self.surfaces.len()
                    invariant
                        i <= self.surfaces@.len(),
                        self.mapping().handles().contains_key(output_id),
                        h == self.mapping().handles()[output_id],
                        forall|a: int, b: int| 0 <= a < b < r@.len() ==> r@[a] < r@[b],
                        forall|a: int| 0 <= a < r@.len() ==> r@[a] < i,
                        forall|x: usize|
                            r@.contains(x) <==> (x < i && self.surfaces@[x as int].0.output_handle
                                == h),
                    decreases self.surfaces@.len() - i,
                {
                    let ghost before = r@;
                    if self.surfaces[i].0.output_handle == h {
                        r.push(i);
                        proof {
                            assert(r@ == before.push(i));
                            assert forall|x: usize|
                                r@.contains(x) <==> (x < i + 1 && self.surfaces@[x as int].0.output_handle
                                    == h) by {
                                if r@.contains(x) {
                                    let t = choose|t: int| 0 <= t < r@.len() && r@[t] == x;
                                    if t < before.len() {
                                        assert(before[t] == x);
                                        assert(before.contains(x));
                                    }
                                }
                                if x < i && self.surfaces@[x as int].0.output_handle == h {
                                    assert(before.contains(x));
                                    let t = choose|t: int| 0 <= t < before.len() && before[t] == x;
                                    assert(r@[t] == x);
                                }
                                if x == i {
                                    assert(r@[before.len() as int] == x);
                                }
                            }
                        }
                    } else {
                        proof {
                            assert forall|x: usize|
                                r@.contains(x) <==> (x < i + 1 && self.surfaces@[x as int].0.output_handle
                                    == h) by {
                                if r@.contains(x) {
                                    let t = choose|t: int| 0 <= t < r@.len() && r@[t] == x;
                                    assert(r@[t] < i);
                                }
                            }
                        }
                    }
                    i = i + 1;
                }
                r
            },
        }
    }

    /// The surfaces whose surface handle is `handle`, in order.
    pub fn surfaces_by_handle(&self, handle: SurfaceHandle) -> (r: Vec<&S>)
        ensures
            refs_match(
                r@,
                surfaces_of(
                    self.entries().filter(
                        |e: (ShellSurfaceKey, S)| e.0.surface_handle == handle,
                    ),
                ),
            ),
    {
        let ghost pred = |e: (ShellSurfaceKey, S)| e.0.surface_handle == handle;
        let mut r: Vec<&S> = Vec::new();
        let mut i: usize = 0;
        while i < self.surfaces.len()
            invariant
                i <= self.surfaces@.len(),
                refs_match(r@, surfaces_of(self.surfaces@.take(i as int).filter(pred))),
                forall|e: (ShellSurfaceKey, S)| #[trigger] pred(e) == (e.0.surface_handle == handle),
            decreases self.surfaces@.len() - i,
        {
            proof {
                let e = self.surfaces@[i as int];
                assert(self.surfaces@.take(i + 1) == self.surfaces@.take(i as int).push(e));
                self.surfaces@.take(i as int).lemma_filter_push(e, pred);
                self.surfaces@.take(i as int).filter(pred).lemma_push_map_commute(
                    |x: (ShellSurfaceKey, S)| x.1,
                    e,
                );
            }
            if self.surfaces[i].0.surface_handle == handle {
                r.push(&self.surfaces[i].1);
            }
            i = i + 1;
        }
        proof {
            assert(self.surfaces@.take(self.surfaces@.len() as int) == self.surfaces@);
        }
        r
    }

    /// The surface handles named `name`.
    fn matching_handles(&self, name: &str) -> (r: Vec<SurfaceHandle>)
        requires
            self.wf(),
        ensures
            forall|h: SurfaceHandle| r@.contains(h) <==> named(self.names(), h, name@),
    {
        let mut r: Vec<SurfaceHandle> = Vec::new();
        let mut i: usize = 0;
        let ghost nm = self.names();
        while i < self.surface_handle_to_name.len()
            invariant
                i <= self.surface_handle_to_name@.len(),
                nm == self.names(),
                nm.len() == self.surface_handle_to_name@.len(),
                keys_distinct(nm),
                forall|h: SurfaceHandle|
                    r@.contains(h) <==> exists|j: int|
                        0 <= j < i && #[trigger] nm[j].0 == h && nm[j].1 == name@,
            decreases self.surface_handle_to_name@.len() - i,
        {
            let h = self.surface_handle_to_name[i].0;
            assert(nm[i as int].0 == h && nm[i as int].1 == self.surface_handle_to_name@[i as int].1@);
            let ghost before = r@;
            if str_eq(self.surface_handle_to_name[i].1.as_str(), name) {
                r.push(h);
                proof {
                    assert(r@ == before.push(h));
                    assert forall|x: SurfaceHandle|
                        r@.contains(x) <==> exists|j: int|
                            0 <= j < i + 1 && #[trigger] nm[j].0 == x && nm[j].1 == name@ by {
                        if r@.contains(x) {
                            let t = choose|t: int| 0 <= t < r@.len() && r@[t] == x;
                            if t < before.len() {
                                assert(before.contains(x));
                            } else {
                                assert(nm[i as int].0 == x);
                            }
                        }
                        if exists|j: int| 0 <= j < i + 1 && #[trigger] nm[j].0 == x && nm[j].1 == name@ {
                            let j = choose|j: int| 0 <= j < i + 1 && #[trigger] nm[j].0 == x && nm[j].1 == name@;
                            if j < i {
                                assert(before.contains(x));
                                let t = choose|t: int| 0 <= t < before.len() && before[t] == x;
                                assert(r@[t] == x);
                            } else {
                                assert(r@[before.len() as int] == x);
                            }
                        }
                    }
                }
            } else {
                proof {
                    assert forall|x: SurfaceHandle|
                        r@.contains(x) <==> exists|j: int|
                            0 <= j < i + 1 && #[trigger] nm[j].0 == x && nm[j].1 == name@ by {
                        if exists|j: int| 0 <= j < i + 1 && #[trigger] nm[j].0 == x && nm[j].1 == name@ {
                            let j = choose|j: int| 0 <= j < i + 1 && #[trigger] nm[j].0 == x && nm[j].1 == name@;
                            assert(j != i);
                        }
                    }
                }
            }
            i = i + 1;
        }
        proof {
            assert forall|h: SurfaceHandle| r@.contains(h) <==> named(nm, h, name@) by {
                if r@.contains(h) {
                    let j = choose|j: int| 0 <= j < nm.len() && #[trigger] nm[j].0 == h && nm[j].1 == name@;
                    assert(has_key(nm, h));
                    assert(key_pos(nm, h) == j);
                }
                if named(nm, h, name@) {
                    let j = key_pos(nm, h);
                    assert(nm[j].0 == h && nm[j].1 == name@);
                }
            }
        }
        r
    }

    /// The surfaces named `name`, in order.
    pub fn surfaces_by_name(&self, name: &str) -> (r: Vec<&S>)
        requires
            self.wf(),
        ensures
            refs_match(r@, surfaces_of(self.entries().filter(entry_named(self.names(), name@)))),
    {
        let matching = self.matching_handles(name);
        let ghost pred = entry_named::<S>(self.names(), name@);
        let mut r: Vec<&S> = Vec::new();
        let mut i: usize = 0;
        while i < self.surfaces.len()
            invariant
                i <= self.surfaces@.len(),
                pred == entry_named::<S>(self.names(), name@),
                forall|h: SurfaceHandle| matching@.contains(h) <==> named(self.names(), h, name@),
                refs_match(r@, surfaces_of(self.surfaces@.take(i as int).filter(pred))),
            decreases self.surfaces@.len() - i,
        {
            proof {
                let e = self.surfaces@[i as int];
                assert(self.surfaces@.take(i + 1) == self.surfaces@.take(i as int).push(e));
                self.surfaces@.take(i as int).lemma_filter_push(e, pred);
                self.surfaces@.take(i as int).filter(pred).lemma_push_map_commute(
                    |x: (ShellSurfaceKey, S)| x.1,
                    e,
                );
            }
            if handles_contain(&matching, self.surfaces[i].0.surface_handle) {
                r.push(&self.surfaces[i].1);
            }
            i = i + 1;
        }
        proof {
            assert(self.surfaces@.take(self.surfaces@.len() as int) == self.surfaces@);
        }
        r
    }

    /// The surfaces named `name` on output `output`, in order.
    pub fn surfaces_by_name_and_output(&self, name: &str, output: OutputHandle) -> (r: Vec<&S>)
        requires
            self.wf(),
        ensures
            refs_match(
                r@,
                surfaces_of(
                    self.entries().filter(
                        |e: (ShellSurfaceKey, S)|
                            e.0.output_handle == output && named(
                                self.names(),
                                e.0.surface_handle,
                                name@,
                            ),
                    ),
                ),
            ),
    {
        let matching = self.matching_handles(name);
        let ghost pred = |e: (ShellSurfaceKey, S)|
            e.0.output_handle == output && named(self.names(), e.0.surface_handle, name@);
        let mut r: Vec<&S> = Vec::new();
        let mut i: usize = 0;
        while i < self.surfaces.len()
            invariant
                i <= self.surfaces@.len(),
                forall|e: (ShellSurfaceKey, S)|
                    #[trigger] pred(e) == (e.0.output_handle == output && named(
                        self.names(),
                        e.0.surface_handle,
                        name@,
                    )),
                forall|h: SurfaceHandle| matching@.contains(h) <==> named(self.names(), h, name@),
                refs_match(r@, surfaces_of(self.surfaces@.take(i as int).filter(pred))),
            decreases self.surfaces@.len() - i,
        {
            proof {
                let e = self.surfaces@[i as int];
                assert(self.surfaces@.take(i + 1) == self.surfaces@.take(i as int).push(e));
                self.surfaces@.take(i as int).lemma_filter_push(e, pred);
                self.surfaces@.take(i as int).filter(pred).lemma_push_map_commute(
                    |x: (ShellSurfaceKey, S)| x.1,
                    e,
                );
            }
            if self.surfaces[i].0.output_handle == output && handles_contain(
                &matching,
                self.surfaces[i].0.surface_handle,
            ) {
                r.push(&self.surfaces[i].1);
            }
            i = i + 1;
        }
        proof {
            assert(self.surfaces@.take(self.surfaces@.len() as int) == self.surfaces@);
        }
        r
    }

    /// Removes every surface named `name` (handing them back, in order) with
    /// the protocol ids that led to them. The names table is left as it is.
    pub fn remove_surfaces_by_name(&mut self, name: &str) -> (removed: Vec<S>)
        requires
            old(self).wf(),
        ensures
            final(self).wf(),
            removed@ == surfaces_of(
                old(self).entries().filter(entry_named(old(self).names(), name@)),
            ),
            final(self).entries() == old(self).entries().filter(
                entry_not_named(old(self).names(), name@),
            ),
            final(self).surface_keys() == old(self).surface_keys().filter(
                key_not_named(old(self).names(), name@),
            ),
            final(self).names() == old(self).names(),
            final(self).registry() == old(self).registry(),
            final(self).mapping() == old(self).mapping(),
            final(self).registry_names() == old(self).registry_names(),
            final(self).active_key() == old(self).active_key(),
            final(self).pointer_serial() == old(self).pointer_serial(),
    {
        broadcast use vstd::seq_lib::group_seq_properties;

        let matching = self.matching_handles(name);
        let ghost nm = self.names();
        let ghost on = entry_named::<S>(nm, name@);
        let ghost off = entry_not_named::<S>(nm, name@);
        let ghost koff = key_not_named(nm, name@);
        let mut pending: Vec<(ShellSurfaceKey, S)> = Vec::new();
        std::mem::swap(&mut pending, &mut self.surfaces);
        let ghost orig = pending@;
        let total: usize = pending.len();
        let mut removed: Vec<S> = Vec::new();
        let mut k: usize = 0;
        while pending.len() > 0
            invariant
                k + pending@.len() == orig.len(),
                orig.len() == total,
                pending@ == orig.subrange(k as int, orig.len() as int),
                keys_distinct(orig),
                on == entry_named::<S>(nm, name@),
                off == entry_not_named::<S>(nm, name@),
                forall|h: SurfaceHandle| matching@.contains(h) <==> named(nm, h, name@),
                self.surfaces@ == orig.take(k as int).filter(off),
                removed@ == surfaces_of(orig.take(k as int).filter(on)),
                keys_distinct(self.surfaces@),
                self.surface_to_key == old(self).surface_to_key,
                self.surface_handle_to_name == old(self).surface_handle_to_name,
                self.output_registry == old(self).output_registry,
                self.output_mapping == old(self).output_mapping,
                self.registry_name_to_output_id == old(self).registry_name_to_output_id,
                self.active_surface_key == old(self).active_surface_key,
                self.shared_pointer_serial == old(self).shared_pointer_serial,
            decreases pending@.len(),
        {
            let e = pending.remove(0);
            proof {
                assert(e == orig[k as int]);
                assert(orig.take(k + 1) == orig.take(k as int).push(e));
                orig.take(k as int).lemma_filter_push(e, on);
                orig.take(k as int).lemma_filter_push(e, off);
                orig.take(k as int).filter(on).lemma_push_map_commute(
                    |x: (ShellSurfaceKey, S)| x.1,
                    e,
                );
            }
            if handles_contain(&matching, e.0.surface_handle) {
                removed.push(e.1);
                proof {
                    assert(removed@ =~= surfaces_of(orig.take(k + 1).filter(on)));
                }
            } else {
                let ghost kept = self.surfaces@;
                proof {
                    assert(!has_key(kept, e.0)) by {
                        if has_key(kept, e.0) {
                            let t = choose|t: int| 0 <= t < kept.len() && kept[t].0 == e.0;
                            assert(kept.contains(kept[t]));
                            orig.take(k as int).lemma_filter_contains_rev(off, kept[t]);
                            let u = choose|u: int|
                                0 <= u < k && orig.take(k as int)[u] == kept[t];
                            assert(orig[u].0 == orig[k as int].0);
                        }
                    }
                    lemma_push_keys_distinct(kept, e);
                }
                self.surfaces.push(e);
            }
            k = k + 1;
        }
        proof {
            assert(orig.take(orig.len() as int) == orig);
        }
        let mut keys: Vec<(u32, ShellSurfaceKey)> = Vec::new();
        let ghost korig = self.surface_to_key@;
        let mut i: usize = 0;
        while i < self.surface_to_key.len()
            invariant
                i <= self.surface_to_key@.len(),
                self.surface_to_key@ == korig,
                keys_distinct(korig),
                koff == key_not_named(nm, name@),
                forall|h: SurfaceHandle| matching@.contains(h) <==> named(nm, h, name@),
                keys@ == korig.take(i as int).filter(koff),
                keys_distinct(keys@),
            decreases self.surface_to_key@.len() - i,
        {
            let e = self.surface_to_key[i];
            proof {
                assert(korig.take(i + 1) == korig.take(i as int).push(e));
                korig.take(i as int).lemma_filter_push(e, koff);
            }
            if !handles_contain(&matching, e.1.surface_handle) {
                proof {
                    let kept = keys@;
                    assert(!has_key(kept, e.0)) by {
                        if has_key(kept, e.0) {
                            let t = choose|t: int| 0 <= t < kept.len() && kept[t].0 == e.0;
                            assert(kept.contains(kept[t]));
                            korig.take(i as int).lemma_filter_contains_rev(koff, kept[t]);
                            let u = choose|u: int|
                                0 <= u < i && korig.take(i as int)[u] == kept[t];
                            assert(korig[u].0 == korig[i as int].0);
                        }
                    }
                    lemma_push_keys_distinct(kept, e);
                }
                keys.push(e);
            }
            i = i + 1;
        }
        proof {
            assert(korig.take(korig.len() as int) == korig);
        }
        self.surface_to_key = keys;
        removed
    }

    /// Remembers that registry name `name` announced output `output_id`.
    pub fn register_registry_name(&mut self, name: u32, output_id: u32)
        requires
            old(self).wf(),
        ensures
            final(self).wf(),
            final(self).registry_names() == old(self).registry_names().insert(name, output_id),
            final(self).entries() == old(self).entries(),
            final(self).surface_keys() == old(self).surface_keys(),
            final(self).names() == old(self).names(),
            final(self).registry() == old(self).registry(),
            final(self).mapping() == old(self).mapping(),
            final(self).active_key() == old(self).active_key(),
    {
        self.registry_name_to_output_id.insert(name, output_id);
    }

    /// The output announced under registry name `name`.
    pub fn find_output_id_by_registry_name(&self, name: u32) -> (r: Option<u32>)
        ensures
            r == (if self.registry_names().contains_key(name) {
                Some(self.registry_names()[name])
            } else {
                None
            }),
    {
        match self.registry_name_to_output_id.get(&name) {
            Some(id) => Some(*id),
            None => None,
        }
    }

    /// Forgets registry name `name` and hands back the output it announced.
    pub fn unregister_registry_name(&mut self, name: u32) -> (r: Option<u32>)
        requires
            old(self).wf(),
        ensures
            final(self).wf(),
            final(self).registry_names() == old(self).registry_names().remove(name),
            r == (if old(self).registry_names().contains_key(name) {
                Some(old(self).registry_names()[name])
            } else {
                None
            }),
            final(self).entries() == old(self).entries(),
            final(self).surface_keys() == old(self).surface_keys(),
            final(self).names() == old(self).names(),
            final(self).registry() == old(self).registry(),
            final(self).mapping() == old(self).mapping(),
            final(self).active_key() == old(self).active_key(),
    {
        self.registry_name_to_output_id.remove(&name)
    }

    /// What is known of output `handle`.
    pub fn get_output_info(&self, handle: OutputHandle) -> (r: Option<&OutputInfo>)
        requires
            self.wf(),
        ensures
            match r {
                Some(info) => has_info(self.registry().infos(), handle) && *info
                    == self.registry().infos()[info_index(self.registry().infos(), handle)],
                None => !has_info(self.registry().infos(), handle),
            },
    {
        self.output_registry.get(handle)
    }

    pub fn all_output_info(&self) -> (r: &Vec<OutputInfo>)
        ensures
            r@ == self.registry().infos(),
    {
        self.output_registry.all_info()
    }

    pub fn output_registry(&self) -> (r: &OutputRegistry)
        ensures
            *r == self.registry(),
    {
        &self.output_registry
    }

    pub fn shared_pointer_serial(&self) -> (r: &SharedPointerSerial)
        ensures
            *r == self.pointer_serial(),
    {
        &self.shared_pointer_serial
    }

    /// Stores the serial of the latest pointer event.
    pub fn set_shared_pointer_serial(&mut self, serial: u32)
        requires
            old(self).wf(),
        ensures
            final(self).wf(),
            final(self).pointer_serial().serial_value() == serial,
            final(self).entries() == old(self).entries(),
            final(self).surface_keys() == old(self).surface_keys(),
            final(self).names() == old(self).names(),
            final(self).registry() == old(self).registry(),
            final(self).mapping() == old(self).mapping(),
            final(self).registry_names() == old(self).registry_names(),
            final(self).active_key() == old(self).active_key(),
    {
        self.shared_pointer_serial.update(serial);
    }

    /// Records a piece of information about output `handle`; returns whether
    /// the output is registered (nothing changes when it is not).
    pub fn update_output_info(&mut self, handle: OutputHandle, update: OutputInfoUpdate) -> (known:
        bool)
        requires
            old(self).wf(),
        ensures
            final(self).wf(),
            known == has_info(old(self).registry().infos(), handle),
            known ==> final(self).registry().infos() == old(self).registry().infos().update(
                info_index(old(self).registry().infos(), handle),
                apply_update(
                    old(self).registry().infos()[info_index(old(self).registry().infos(), handle)],
                    update,
                ),
            ),
            !known ==> final(self).registry().infos() == old(self).registry().infos(),
            known ==> ({
                let i = info_index(old(self).registry().infos(), handle);
                let before = old(self).registry().infos()[i];
                let after = final(self).registry().infos()[i];
                &&& after.handle == before.handle
                &&& after.primary == before.primary
                &&& match update {
                    OutputInfoUpdate::Name(n) => after.name == Some(n) && after.description
                        == before.description && after.scale == before.scale && after.geometry
                        == before.geometry,
                    OutputInfoUpdate::Description(d) => after.description == Some(d) && after.name
                        == before.name && after.scale == before.scale && after.geometry
                        == before.geometry,
                    OutputInfoUpdate::Scale(f) => after.scale == Some(f) && after.name
                        == before.name && after.description == before.description
                        && after.geometry == before.geometry,
                    OutputInfoUpdate::Geometry(g) => after.geometry == Some(g) && after.name
                        == before.name && after.description == before.description && after.scale
                        == before.scale,
                }
            }),
            final(self).registry().active() == old(self).registry().active(),
            final(self).entries() == old(self).entries(),
            final(self).surface_keys() == old(self).surface_keys(),
            final(self).names() == old(self).names(),
            final(self).mapping() == old(self).mapping(),
            final(self).registry_names() == old(self).registry_names(),
            final(self).active_key() == old(self).active_key(),
            final(self).pointer_serial() == old(self).pointer_serial(),
    {
        let ghost old_infos = self.output_registry.infos();
        match self.output_registry.get_mut(handle) {
            Some(info) => {
                match update {
                    OutputInfoUpdate::Name(n) => info.set_name(n),
                    OutputInfoUpdate::Description(d) => info.set_description(d),
                    OutputInfoUpdate::Scale(f) => info.set_scale(f),
                    OutputInfoUpdate::Geometry(g) => info.set_geometry(g),
                }
                proof {
                    let s = self.output_registry.infos();
                    let p = info_index(old_infos, handle);
                    assert(s[p].handle == old_infos[p].handle);
                    assert forall|a: int, b: int|
                        0 <= a < s.len() && 0 <= b < s.len() && a != b implies #[trigger] s[a].handle
                        != #[trigger] s[b].handle by {
                        assert(s[a].handle == old_infos[a].handle);
                        assert(s[b].handle == old_infos[b].handle);
                    }
                    assert forall|i: int|
                        0 <= i < s.len() implies #[trigger] s[i].handle.id
                        < self.output_mapping.next_id() by {
                        assert(s[i].handle == old_infos[i].handle);
                    }
                }
                true
            },
            None => false,
        }
    }

    /// The distinct surface names, in increasing order.
    pub fn shell_surface_names(&self) -> (r: Vec<&str>)
        requires
            self.wf(),
        ensures
            strictly_sorted(str_views(r@)),
            forall|n: Seq<char>|
                str_views(r@).contains(n) <==> name_values(self.names()).contains(n),
    {
        let mut r: Vec<&str> = Vec::new();
        let mut i: usize = 0;
        let ghost nv = name_values(self.names());
        while i < self.surface_handle_to_name.len()
            invariant
                i <= self.surface_handle_to_name@.len(),
                nv == name_values(self.names()),
                nv.len() == self.surface_handle_to_name@.len(),
                strictly_sorted(str_views(r@)),
                forall|n: Seq<char>| str_views(r@).contains(n) <==> nv.take(i as int).contains(n),
            decreases self.surface_handle_to_name@.len() - i,
        {
            let x: &str = self.surface_handle_to_name[i].1.as_str();
            proof {
                assert(nv[i as int] == x@);
                assert(nv.take(i + 1) == nv.take(i as int).push(x@));
            }
            let mut p: usize = 0;
            while p < r.len() && str_lt(r[p], x)
                invariant
                    p <= r@.len(),
                    forall|q: int| 0 <= q < p ==> char_seq_lt(#[trigger] str_views(r@)[q], x@),
                decreases r@.len() - p,
            {
                p = p + 1;
            }
            let ghost before = r@;
            if p < r.len() && str_eq(r[p], x) {
                proof {
                    assert(str_views(before)[p as int] == x@);
                    assert forall|n: Seq<char>|
                        str_views(r@).contains(n) <==> nv.take(i + 1).contains(n) by {
                        if n == x@ {
                            assert(str_views(r@).contains(n));
                        }
                        if nv.take(i + 1).contains(n) && n != x@ {
                            let ti = nv.take(i + 1);
                            let t = choose|t: int| 0 <= t < i + 1 && ti[t] == n;
                            assert(t < i);
                            assert(nv.take(i as int)[t] == n);
                            assert(nv.take(i as int).contains(n));
                        }
                        if nv.take(i as int).contains(n) {
                            let t0 = nv.take(i as int);
                            let t = choose|t: int| 0 <= t < i && t0[t] == n;
                            assert(nv.take(i + 1)[t] == n);
                        }
                    }
                }
            } else {
                r.insert(p, x);
                proof {
                    let vb = str_views(before);
                    let va = str_views(r@);
                    assert(va =~= vb.insert(p as int, x@));
                    if p < before.len() {
                        lemma_char_seq_lt_total(vb[p as int], x@);
                    }
                    assert forall|a: int, b: int| 0 <= a < b < va.len() implies char_seq_lt(
                        #[trigger] va[a],
                        #[trigger] va[b],
                    ) by {
                        if b < p {
                            assert(va[a] == vb[a] && va[b] == vb[b]);
                        } else if b == p {
                            assert(va[a] == vb[a]);
                        } else if a == p {
                            assert(va[b] == vb[b - 1]);
                            if b - 1 > p {
                                lemma_char_seq_lt_transitive(x@, vb[p as int], vb[b - 1]);
                            }
                        } else if a < p {
                            assert(va[a] == vb[a]);
                            assert(va[b] == vb[b - 1]);
                            assert(char_seq_lt(vb[a], vb[b - 1]));
                        } else {
                            assert(va[a] == vb[a - 1]);
                            assert(va[b] == vb[b - 1]);
                        }
                    }
                    assert forall|n: Seq<char>|
                        va.contains(n) <==> nv.take(i + 1).contains(n) by {
                        if va.contains(n) {
                            let t = choose|t: int| 0 <= t < va.len() && va[t] == n;
                            if t < p {
                                assert(vb[t] == n);
                                assert(vb.contains(n));
                            } else if t > p {
                                assert(vb[t - 1] == n);
                                assert(vb.contains(n));
                            }
                            if n != x@ {
                                assert(nv.take(i as int).contains(n));
                                let t0 = nv.take(i as int);
                                let u = choose|u: int| 0 <= u < i && t0[u] == n;
                                assert(nv.take(i + 1)[u] == n);
                            } else {
                                assert(nv.take(i + 1)[i as int] == n);
                            }
                        }
                        if nv.take(i + 1).contains(n) {
                            let ti = nv.take(i + 1);
                            let t = choose|t: int| 0 <= t < i + 1 && ti[t] == n;
                            if t < i {
                                assert(nv.take(i as int)[t] == n);
                                assert(nv.take(i as int).contains(n));
                                assert(vb.contains(n));
                                let u = choose|u: int| 0 <= u < vb.len() && vb[u] == n;
                                if u < p {
                                    assert(va[u] == n);
                                } else {
                                    assert(va[u + 1] == n);
                                }
                            } else {
                                assert(va[p as int] == n);
                            }
                        }
                    }
                }
            }
            i = i + 1;
        }
        proof {
            assert(nv.take(nv.len() as int) == nv);
        }
        r
    }
}

/// Only the first output ever added is primary. An output is registered as
/// primary exactly when the registry is empty (see `add_shell_surface`), and no
/// operation sets the flag otherwise, so in every reachable state at most one
/// output is primary, and it is the first one in the registry.
pub proof fn lemma_only_first_output_primary<S>(a: AppState<S>)
    requires
        a.wf(),
    ensures
        forall|i: int|
            0 <= i < a.registry().infos().len() && #[trigger] a.registry().infos()[i].primary ==> i
                == 0,
{
}

/// Removing an output leaves no surface on it, keeps every surface of the
/// other outputs, and hands back exactly the surfaces that were on it.
pub proof fn lemma_remove_output_partitions<S>(s: Seq<(ShellSurfaceKey, S)>, h: OutputHandle)
    ensures
        forall|i: int|
            0 <= i < s.filter(off_output(h)).len() ==> #[trigger] s.filter(
                off_output(h),
            )[i].0.output_handle != h,
        forall|i: int|
            0 <= i < s.len() && s[i].0.output_handle != h ==> #[trigger] s.filter(
                off_output(h),
            ).contains(s[i]),
        forall|i: int|
            0 <= i < s.len() && s[i].0.output_handle == h ==> #[trigger] s.filter(
                on_output(h),
            ).contains(s[i]),
        s.filter(off_output(h)).len() + s.filter(on_output(h)).len() == s.len(),
    decreases s.len(),
{
    broadcast use vstd::seq_lib::group_seq_properties;

    assert forall|i: int| 0 <= i < s.filter(off_output(h)).len() implies #[trigger] s.filter(
        off_output(h),
    )[i].0.output_handle != h by {
        s.lemma_filter_pred(off_output(h), i);
    }
    assert forall|i: int| 0 <= i < s.len() && s[i].0.output_handle != h implies #[trigger] s.filter(
        off_output(h),
    ).contains(s[i]) by {
        s.lemma_filter_contains(off_output(h), i);
    }
    assert forall|i: int| 0 <= i < s.len() && s[i].0.output_handle == h implies #[trigger] s.filter(
        on_output(h),
    ).contains(s[i]) by {
        s.lemma_filter_contains(on_output(h), i);
    }
    if s.len() > 0 {
        lemma_remove_output_partitions(s.drop_last(), h);
        assert(s == s.drop_last().push(s.last()));
        s.drop_last().lemma_filter_push(s.last(), off_output(h));
        s.drop_last().lemma_filter_push(s.last(), on_output(h));
    }
}

} // verus!
