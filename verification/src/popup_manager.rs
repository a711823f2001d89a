use vstd::prelude::*;
use slab::Slab;
use crate::app_state::{ShellSurfaceKey, has_key, key_pos, keys_distinct, lemma_upsert_keys_distinct, lookup, upsert};
use crate::domain::{LayerShikaError, PopupHandle};
use crate::popup_slab::{
    PopupEntry, popup_slots, slab_get, slab_insert, slab_keys, slab_new, slab_set,
    slab_try_remove,
};
use crate::popup_window::{begin_render_step, finish_render_step, PopupRenderState, RenderState};

verus! {

/// Which protocol object of a popup an id refers to.
#[derive(Clone, Copy, Debug, PartialEq, Eq, Structural)]
pub enum PopupObject {
    Surface,
    XdgSurface,
    XdgPopup,
    FractionalScale,
}

/// The popup's object of kind `kind` has protocol id `id`.
pub open spec fn entry_has_id(e: PopupEntry, kind: PopupObject, id: u32) -> bool {
    match kind {
        PopupObject::Surface => e.surface_id == id,
        PopupObject::XdgSurface => e.xdg_surface_id == id,
        PopupObject::XdgPopup => e.xdg_popup_id == id,
        PopupObject::FractionalScale => e.fractional_scale_id == Some(id),
    }
}

fn entry_matches(e: &PopupEntry, kind: PopupObject, id: u32) -> (b: bool)
    ensures
        b == entry_has_id(*e, kind, id),
{
    match kind {
        PopupObject::Surface => e.surface_id == id,
        PopupObject::XdgSurface => e.xdg_surface_id == id,
        PopupObject::XdgPopup => e.xdg_popup_id == id,
        PopupObject::FractionalScale => e.fractional_scale_id == Some(id),
    }
}

/// The result of looking a popup up by one of its protocol ids: the smallest
/// key (the first the slab walks) whose popup has that id, or `None` when no
/// popup has it.
pub open spec fn first_key_with(m: Map<usize, PopupEntry>, kind: PopupObject, id: u32, r: Option<
    usize,
>) -> bool {
    match r {
        Some(k) => m.dom().contains(k) && entry_has_id(m[k], kind, id) && forall|j: usize|
            #[trigger] m.dom().contains(j) && j < k ==> !entry_has_id(m[j], kind, id),
        None => forall|j: usize| #[trigger] m.dom().contains(j) ==> !entry_has_id(m[j], kind, id),
    }
}

/// The same popup with a pending redraw.
pub open spec fn dirtied(e: PopupEntry) -> PopupEntry {
    PopupEntry { render: PopupRenderState { render_state: RenderState::Dirty, ..e.render }, ..e }
}

/// The same popup, configured by the compositor.
pub open spec fn configured(e: PopupEntry) -> PopupEntry {
    PopupEntry { render: PopupRenderState { configured: true, ..e.render }, ..e }
}

/// The popups of one layer surface: the active ones in a slab keyed by popup
/// key, the request `P` each was opened from, the most recently opened one,
/// and at most one pending request that waits for the windowing system to ask
/// for its window.
pub struct PopupManager<P> {
    has_xdg_shell: bool,
    popups: Slab<PopupEntry>,
    requests: Vec<(usize, P)>,
    current_popup_key: Option<usize>,
    pending_popup: Option<P>,
}

impl<P> PopupManager<P> {
    pub closed spec fn popups(&self) -> Map<usize, PopupEntry> {
        popup_slots(self.popups)
    }

    pub closed spec fn current_key(&self) -> Option<usize> {
        self.current_popup_key
    }

    pub closed spec fn pending(&self) -> Option<P> {
        self.pending_popup
    }

    pub closed spec fn xdg_shell_available(&self) -> bool {
        self.has_xdg_shell
    }

    /// The request of each open popup, by popup key.
    pub closed spec fn requests(&self) -> Seq<(usize, P)> {
        self.requests@
    }

    /// The request that the popup `key` was opened from.
    pub open spec fn request_of(&self, key: usize) -> Option<P> {
        lookup(self.requests(), key)
    }

    /// Every open popup has exactly one request, and every request belongs to
    /// an open popup.
    pub open spec fn wf(&self) -> bool {
        &&& keys_distinct(self.requests())
        &&& forall|k: usize|
            #![trigger self.popups().dom().contains(k)]
            #![trigger has_key(self.requests(), k)]
            self.popups().dom().contains(k) <==> has_key(self.requests(), k)
    }

    /// A manager without popups; popups can only be created when the
    /// compositor offers xdg-shell.
    pub fn new(has_xdg_shell: bool) -> (m: Self)
        ensures
            m.wf(),
            m.popups() == Map::<usize, PopupEntry>::empty(),
            m.requests().len() == 0,
            m.current_key() is None,
            m.pending() is None,
            m.xdg_shell_available() == has_xdg_shell,
    {
        PopupManager {
            has_xdg_shell,
            popups: slab_new(),
            requests: Vec::new(),
            current_popup_key: None,
            pending_popup: None,
        }
    }

    pub fn has_xdg_shell(&self) -> (b: bool)
        ensures
            b == self.xdg_shell_available(),
    {
        self.has_xdg_shell
    }

    /// Popups need xdg-shell: an error when the compositor does not offer it.
    pub fn require_xdg_shell(&self) -> (r: Result<(), LayerShikaError>)
        ensures
            r is Ok <==> self.xdg_shell_available(),
            !self.xdg_shell_available() ==> (r matches Err(
                LayerShikaError::WindowConfiguration { message },
            ) && message@ == "xdg-shell not available for popups"@),
    {
        if self.has_xdg_shell {
            Ok(())
        } else {
            Err(
                LayerShikaError::WindowConfiguration {
                    message: "xdg-shell not available for popups".to_string(),
                },
            )
        }
    }

    /// Stores the next popup request, replacing one that was still pending.
    pub fn set_pending_popup(&mut self, request: P)
        requires
            old(self).wf(),
        ensures
            final(self).wf(),
            final(self).requests() == old(self).requests(),
            final(self).pending() == Some(request),
            final(self).popups() == old(self).popups(),
            final(self).current_key() == old(self).current_key(),
            final(self).xdg_shell_available() == old(self).xdg_shell_available(),
    {
        self.pending_popup = Some(request);
    }

    /// Takes the pending popup request out, if there is one.
    pub fn take_pending_popup(&mut self) -> (r: Option<P>)
        requires
            old(self).wf(),
        ensures
            final(self).wf(),
            final(self).requests() == old(self).requests(),
            r == old(self).pending(),
            final(self).pending() is None,
            final(self).popups() == old(self).popups(),
            final(self).current_key() == old(self).current_key(),
            final(self).xdg_shell_available() == old(self).xdg_shell_available(),
    {
        let mut r: Option<P> = None;
        std::mem::swap(&mut r, &mut self.pending_popup);
        r
    }

    pub fn has_pending_popup(&self) -> (b: bool)
        ensures
            b == (self.pending() is Some),
    {
        self.pending_popup.is_some()
    }

    /// The key of the most recently opened popup, while the manager tracks one.
    pub fn current_popup_key(&self) -> (k: Option<usize>)
        ensures
            k == self.current_key(),
    {
        self.current_popup_key
    }

    /// Records a popup whose protocol objects were just created from
    /// `request`: it gets a fresh key, keeps its request, and becomes the
    /// current popup.
    pub fn insert_popup(&mut self, entry: PopupEntry, request: P) -> (key: usize)
        requires
            old(self).wf(),
        ensures
            final(self).wf(),
            !old(self).popups().dom().contains(key),
            final(self).popups() == old(self).popups().insert(key, entry),
            final(self).request_of(key) == Some(request),
            forall|k: usize| k != key ==> #[trigger] final(self).request_of(k) == old(self).request_of(k),
            final(self).current_key() == Some(key),
            final(self).pending() == old(self).pending(),
            final(self).xdg_shell_available() == old(self).xdg_shell_available(),
    {
        let ghost old_reqs = self.requests@;
        let key = slab_insert(&mut self.popups, entry);
        proof {
            assert(!has_key(old_reqs, key));
            lemma_upsert_keys_distinct(old_reqs, key, request);
        }
        self.requests.push((key, request));
        proof {
            assert(self.requests@ == upsert(old_reqs, key, request));
            lemma_has_key_push(old_reqs, (key, request));
        }
        self.current_popup_key = Some(key);
        key
    }

    /// The position of the request of popup `key`, if it has one.
    fn request_index(&self, key: usize) -> (r: Option<usize>)
        ensures
            match r {
                Some(i) => i < self.requests().len() && self.requests()[i as int].0 == key,
                None => !has_key(self.requests(), key),
            },
    {
        let mut i: usize = 0;
        while i < self.requests.len()
            invariant
                i <= self.requests@.len(),
                forall|j: int| 0 <= j < i ==> #[trigger] self.requests@[j].0 != key,
            decreases self.requests@.len() - i,
        {
            if self.requests[i].0 == key {
                return Some(i);
            }
            i = i + 1;
        }
        None
    }

    /// Removes the popup `key` and hands it back (so that its protocol objects
    /// can be destroyed); its request goes with it. Nothing happens when there
    /// is no such popup. The current key is left as it is.
    pub fn destroy_popup(&mut self, key: usize) -> (r: Option<PopupEntry>)
        requires
            old(self).wf(),
        ensures
            final(self).wf(),
            r == (if old(self).popups().dom().contains(key) {
                Some(old(self).popups()[key])
            } else {
                None
            }),
            final(self).popups() == old(self).popups().remove(key),
            final(self).request_of(key) is None,
            forall|k: usize| k != key ==> #[trigger] final(self).request_of(k) == old(self).request_of(k),
            final(self).current_key() == old(self).current_key(),
            final(self).pending() == old(self).pending(),
            final(self).xdg_shell_available() == old(self).xdg_shell_available(),
    {
        let ghost old_reqs = self.requests@;
        let r = slab_try_remove(&mut self.popups, key);
        match self.request_index(key) {
            Some(i) => {
                let _removed = self.requests.remove(i);
                proof {
                    lemma_remove_key_at(old_reqs, i as int);
                    assert(self.requests@ == old_reqs.remove(i as int));
                }
            },
            None => {},
        }
        proof {
            let m = popup_slots(self.popups);
            assert forall|k: usize|
                #![trigger m.dom().contains(k)]
                #![trigger has_key(self.requests@, k)]
                m.dom().contains(k) <==> has_key(self.requests@, k) by {
                if k != key {
                    assert(old(self).popups().dom().contains(k) <==> has_key(old_reqs, k));
                }
            }
        }
        r
    }

    /// Closes the current popup: the manager stops tracking a current popup,
    /// and the popup it tracked is removed (with its request) and handed back
    /// if it still exists.
    pub fn close_current_popup(&mut self) -> (r: Option<PopupEntry>)
        requires
            old(self).wf(),
        ensures
            final(self).wf(),
            final(self).current_key() is None,
            final(self).pending() == old(self).pending(),
            final(self).xdg_shell_available() == old(self).xdg_shell_available(),
            match old(self).current_key() {
                Some(k) => {
                    &&& final(self).popups() == old(self).popups().remove(k)
                    &&& r == (if old(self).popups().dom().contains(k) {
                        Some(old(self).popups()[k])
                    } else {
                        None
                    })
                    &&& final(self).request_of(k) is None
                    &&& forall|j: usize|
                        j != k ==> #[trigger] final(self).request_of(j) == old(self).request_of(j)
                },
                None => r is None && final(self).popups() == old(self).popups()
                    && final(self).requests() == old(self).requests(),
            },
    {
        let key = self.current_popup_key;
        self.current_popup_key = None;
        match key {
            Some(k) => self.destroy_popup(k),
            None => None,
        }
    }

    /// The request that the popup `key` was opened from, with the pointer
    /// serial it was opened with, if the popup exists.
    pub fn get_popup_info(&self, key: usize) -> (r: Option<(&P, u32)>)
        requires
            self.wf(),
        ensures
            match r {
                Some((request, serial)) => {
                    &&& self.popups().dom().contains(key)
                    &&& self.request_of(key) == Some(*request)
                    &&& serial == self.popups()[key].last_serial
                },
                None => !self.popups().dom().contains(key),
            },
    {
        match slab_get(&self.popups, key) {
            Some(e) => match self.request_index(key) {
                Some(i) => {
                    proof {
                        let s = self.requests@;
                        assert(has_key(s, key));
                        let p = key_pos(s, key);
                        assert(s[p].0 == key);
                        assert(p == i as int);
                    }
                    Some((&self.requests[i].1, e.last_serial))
                },
                None => None,
            },
            None => None,
        }
    }

    /// What the manager records of the popup `key`, if it exists.
    pub fn popup_entry(&self, key: usize) -> (r: Option<PopupEntry>)
        ensures
            r == (if self.popups().dom().contains(key) {
                Some(self.popups()[key])
            } else {
                None
            }),
    {
        slab_get(&self.popups, key)
    }

    /// The keys of all popups, in increasing order.
    pub fn popup_keys(&self) -> (keys: Vec<usize>)
        ensures
            forall|i: int, j: int| 0 <= i < j < keys@.len() ==> keys@[i] < keys@[j],
            forall|k: usize| self.popups().dom().contains(k) <==> keys@.contains(k),
    {
        slab_keys(&self.popups)
    }

    /// The first popup (by key) whose object of kind `kind` has id `id`.
    pub fn find_popup_key(&self, kind: PopupObject, id: u32) -> (r: Option<usize>)
        ensures
            first_key_with(self.popups(), kind, id, r),
    {
        let keys = slab_keys(&self.popups);
        let ghost m = self.popups();
        let mut i: usize = 0;
        while i < keys.len()
            invariant
                i <= keys@.len(),
                m == popup_slots(self.popups),
                forall|a: int, b: int| 0 <= a < b < keys@.len() ==> keys@[a] < keys@[b],
                forall|k: usize| m.dom().contains(k) <==> keys@.contains(k),
                forall|t: int| 0 <= t < i ==> !entry_has_id(m[#[trigger] keys@[t]], kind, id),
            decreases keys@.len() - i,
        {
            let k = keys[i];
            assert(keys@.contains(k));
            match slab_get(&self.popups, k) {
                Some(e) => {
                    if entry_matches(&e, kind, id) {
                        assert forall|j: usize|
                            #[trigger] m.dom().contains(j) && j < k implies !entry_has_id(
                            m[j],
                            kind,
                            id,
                        ) by {
                            let t = choose|t: int| 0 <= t < keys@.len() && keys@[t] == j;
                            if t >= i {
                                if t > i {
                                    assert(keys@[i as int] < keys@[t]);
                                }
                            }
                        }
                        return Some(k);
                    }
                },
                None => {},
            }
            i = i + 1;
        }
        assert forall|j: usize| #[trigger] m.dom().contains(j) implies !entry_has_id(
            m[j],
            kind,
            id,
        ) by {
            let t = choose|t: int| 0 <= t < keys@.len() && keys@[t] == j;
        }
        None
    }

    pub fn find_popup_key_by_surface_id(&self, surface_id: u32) -> (r: Option<usize>)
        ensures
            first_key_with(self.popups(), PopupObject::Surface, surface_id, r),
    {
        self.find_popup_key(PopupObject::Surface, surface_id)
    }

    pub fn find_popup_key_by_fractional_scale_id(&self, fractional_scale_id: u32) -> (r: Option<
        usize,
    >)
        ensures
            first_key_with(self.popups(), PopupObject::FractionalScale, fractional_scale_id, r),
    {
        self.find_popup_key(PopupObject::FractionalScale, fractional_scale_id)
    }

    pub fn find_popup_key_by_xdg_popup_id(&self, xdg_popup_id: u32) -> (r: Option<usize>)
        ensures
            first_key_with(self.popups(), PopupObject::XdgPopup, xdg_popup_id, r),
    {
        self.find_popup_key(PopupObject::XdgPopup, xdg_popup_id)
    }

    pub fn find_popup_key_by_xdg_surface_id(&self, xdg_surface_id: u32) -> (r: Option<usize>)
        ensures
            first_key_with(self.popups(), PopupObject::XdgSurface, xdg_surface_id, r),
    {
        self.find_popup_key(PopupObject::XdgSurface, xdg_surface_id)
    }

    /// The handle of the popup whose xdg_popup is `xdg_popup_id`.
    pub fn find_by_xdg_popup(&self, xdg_popup_id: u32) -> (r: Option<PopupHandle>)
        ensures
            first_key_with(
                self.popups(),
                PopupObject::XdgPopup,
                xdg_popup_id,
                match r {
                    Some(h) => Some(h.key),
                    None => None,
                },
            ),
    {
        match self.find_popup_key(PopupObject::XdgPopup, xdg_popup_id) {
            Some(k) => Some(PopupHandle::new(k)),
            None => None,
        }
    }

    /// The handle of the popup whose xdg_surface is `xdg_surface_id`.
    pub fn find_by_xdg_surface(&self, xdg_surface_id: u32) -> (r: Option<PopupHandle>)
        ensures
            first_key_with(
                self.popups(),
                PopupObject::XdgSurface,
                xdg_surface_id,
                match r {
                    Some(h) => Some(h.key),
                    None => None,
                },
            ),
    {
        match self.find_popup_key(PopupObject::XdgSurface, xdg_surface_id) {
            Some(k) => Some(PopupHandle::new(k)),
            None => None,
        }
    }

    /// The handle of the popup whose wl_surface is `surface_id`.
    pub fn find_by_surface(&self, surface_id: u32) -> (r: Option<PopupHandle>)
        ensures
            first_key_with(
                self.popups(),
                PopupObject::Surface,
                surface_id,
                match r {
                    Some(h) => Some(h.key),
                    None => None,
                },
            ),
    {
        match self.find_popup_key(PopupObject::Surface, surface_id) {
            Some(k) => Some(PopupHandle::new(k)),
            None => None,
        }
    }

    /// Closes the popup `handle` (see `destroy_popup`).
    pub fn close(&mut self, handle: PopupHandle) -> (r: Result<Option<PopupEntry>, LayerShikaError>)
        requires
            old(self).wf(),
        ensures
            final(self).wf(),
            r == Ok::<Option<PopupEntry>, LayerShikaError>(
                if old(self).popups().dom().contains(handle.key) {
                    Some(old(self).popups()[handle.key])
                } else {
                    None
                },
            ),
            final(self).popups() == old(self).popups().remove(handle.key),
            final(self).current_key() == old(self).current_key(),
            final(self).pending() == old(self).pending(),
            final(self).xdg_shell_available() == old(self).xdg_shell_available(),
    {
        Ok(self.destroy_popup(handle.key()))
    }

    /// The compositor configured the xdg_popup `xdg_popup_id`: its popup (the
    /// first by key with that xdg_popup) is marked configured, then every popup
    /// asks for a new frame. Returns the popup's key; nothing changes when no
    /// popup has that xdg_popup.
    pub fn handle_xdg_popup_configure(&mut self, xdg_popup_id: u32) -> (r: Option<usize>)
        requires
            old(self).wf(),
        ensures
            final(self).wf(),
            final(self).requests() == old(self).requests(),
            first_key_with(old(self).popups(), PopupObject::XdgPopup, xdg_popup_id, r),
            r is None ==> final(self).popups() == old(self).popups(),
            r matches Some(k) ==> {
                &&& final(self).popups().dom() == old(self).popups().dom()
                &&& forall|j: usize| #[trigger]
                    old(self).popups().dom().contains(j) ==> final(self).popups()[j] == dirtied(
                        if j == k {
                            configured(old(self).popups()[j])
                        } else {
                            old(self).popups()[j]
                        },
                    )
            },
            final(self).current_key() == old(self).current_key(),
            final(self).pending() == old(self).pending(),
            final(self).xdg_shell_available() == old(self).xdg_shell_available(),
    {
        let r = self.find_popup_key(PopupObject::XdgPopup, xdg_popup_id);
        match r {
            Some(k) => {
                let ghost m0 = self.popups();
                self.mark_popup_configured(k);
                let ghost m1 = self.popups();
                self.mark_all_popups_dirty();
                proof {
                    assert(m1.dom() =~= m0.dom());
                    assert forall|j: usize| #[trigger] m0.dom().contains(j) implies self.popups()[j]
                        == dirtied(
                        if j == k {
                            configured(m0[j])
                        } else {
                            m0[j]
                        },
                    ) by {
                        assert(m1.dom().contains(j));
                    }
                }
            },
            None => {},
        }
        r
    }

    /// The compositor dismissed the xdg_popup `xdg_popup_id`: its popup (the
    /// first by key with that xdg_popup) is removed and handed back with its
    /// key; nothing changes when no popup has that xdg_popup.
    pub fn handle_xdg_popup_done(&mut self, xdg_popup_id: u32) -> (r: Option<(usize, PopupEntry)>)
        requires
            old(self).wf(),
        ensures
            final(self).wf(),
            match r {
                Some((k, e)) => {
                    &&& first_key_with(
                        old(self).popups(),
                        PopupObject::XdgPopup,
                        xdg_popup_id,
                        Some(k),
                    )
                    &&& e == old(self).popups()[k]
                    &&& final(self).popups() == old(self).popups().remove(k)
                },
                None => {
                    &&& first_key_with(old(self).popups(), PopupObject::XdgPopup, xdg_popup_id, None)
                    &&& final(self).popups() == old(self).popups()
                },
            },
            final(self).current_key() == old(self).current_key(),
            final(self).pending() == old(self).pending(),
            final(self).xdg_shell_available() == old(self).xdg_shell_available(),
    {
        match self.find_popup_key(PopupObject::XdgPopup, xdg_popup_id) {
            Some(k) => match self.destroy_popup(k) {
                Some(e) => Some((k, e)),
                None => None,
            },
            None => None,
        }
    }

    /// Every popup asks for a new frame.
    pub fn mark_all_popups_dirty(&mut self)
        requires
            old(self).wf(),
        ensures
            final(self).wf(),
            final(self).requests() == old(self).requests(),
            final(self).popups().dom() == old(self).popups().dom(),
            forall|k: usize| #[trigger]
                old(self).popups().dom().contains(k) ==> final(self).popups()[k] == dirtied(
                    old(self).popups()[k],
                ),
            final(self).current_key() == old(self).current_key(),
            final(self).pending() == old(self).pending(),
            final(self).xdg_shell_available() == old(self).xdg_shell_available(),
    {
        let keys = slab_keys(&self.popups);
        let ghost m0 = self.popups();
        let mut i: usize = 0;
        while i < keys.len()
            invariant
                i <= keys@.len(),
                forall|a: int, b: int| 0 <= a < b < keys@.len() ==> keys@[a] < keys@[b],
                forall|k: usize| m0.dom().contains(k) <==> keys@.contains(k),
                popup_slots(self.popups).dom() == m0.dom(),
                forall|k: usize| #[trigger]
                    m0.dom().contains(k) ==> popup_slots(self.popups)[k] == if keys@.take(
                        i as int,
                    ).contains(k) {
                        dirtied(m0[k])
                    } else {
                        m0[k]
                    },
                self.current_popup_key == old(self).current_popup_key,
                self.requests@ == old(self).requests@,
                self.pending_popup == old(self).pending_popup,
                self.has_xdg_shell == old(self).has_xdg_shell,
            decreases keys@.len() - i,
        {
            let k = keys[i];
            assert(keys@.contains(k));
            let ghost before = popup_slots(self.popups);
            match slab_get(&self.popups, k) {
                Some(e) => {
                    let mut e2 = e;
                    e2.render.request_redraw();
                    slab_set(&mut self.popups, k, e2);
                    proof {
                        assert(!keys@.take(i as int).contains(k)) by {
                            if keys@.take(i as int).contains(k) {
                                let t = choose|t: int| 0 <= t < i && keys@.take(i as int)[t] == k;
                                assert(keys@[t] < keys@[i as int]);
                            }
                        }
                        assert(e == m0[k]);
                        assert(e2 == dirtied(m0[k]));
                    }
                },
                None => {},
            }
            proof {
                let after = popup_slots(self.popups);
                assert forall|j: usize| #[trigger]
                    m0.dom().contains(j) implies after[j] == if keys@.take(i + 1).contains(j) {
                    dirtied(m0[j])
                } else {
                    m0[j]
                } by {
                    assert(keys@.take(i + 1) == keys@.take(i as int).push(k));
                    if j != k {
                        assert(keys@.take(i + 1).contains(j) == keys@.take(i as int).contains(j));
                    } else {
                        assert(keys@.take(i + 1)[i as int] == k);
                    }
                }
                assert(after.dom() =~= m0.dom());
            }
            i = i + 1;
        }
        proof {
            assert(keys@.take(keys@.len() as int) == keys@);
        }
    }

    /// The popup `key` asks for a new frame (nothing happens without it).
    pub fn request_popup_redraw(&mut self, key: usize)
        requires
            old(self).wf(),
        ensures
            final(self).wf(),
            final(self).requests() == old(self).requests(),
            final(self).popups() == if old(self).popups().dom().contains(key) {
                old(self).popups().insert(key, dirtied(old(self).popups()[key]))
            } else {
                old(self).popups()
            },
            final(self).current_key() == old(self).current_key(),
            final(self).pending() == old(self).pending(),
            final(self).xdg_shell_available() == old(self).xdg_shell_available(),
    {
        match slab_get(&self.popups, key) {
            Some(e) => {
                let mut e2 = e;
                e2.render.request_redraw();
                slab_set(&mut self.popups, key, e2);
            },
            None => {},
        }
    }

    /// Marks the popup `key` as configured by the compositor.
    pub fn mark_popup_configured(&mut self, key: usize)
        requires
            old(self).wf(),
        ensures
            final(self).wf(),
            final(self).requests() == old(self).requests(),
            final(self).popups() == if old(self).popups().dom().contains(key) {
                old(self).popups().insert(
                    key,
                    PopupEntry {
                        render: PopupRenderState {
                            configured: true,
                            ..old(self).popups()[key].render
                        },
                        ..old(self).popups()[key]
                    },
                )
            } else {
                old(self).popups()
            },
            final(self).current_key() == old(self).current_key(),
            final(self).pending() == old(self).pending(),
            final(self).xdg_shell_available() == old(self).xdg_shell_available(),
    {
        match slab_get(&self.popups, key) {
            Some(e) => {
                let mut e2 = e;
                e2.render.mark_configured();
                slab_set(&mut self.popups, key, e2);
            },
            None => {},
        }
    }

    /// Starts rendering the popup `key`: whether a frame must be drawn now
    /// (`false` too when there is no such popup).
    pub fn begin_popup_render(&mut self, key: usize) -> (draw: bool)
        requires
            old(self).wf(),
        ensures
            final(self).wf(),
            final(self).requests() == old(self).requests(),
            old(self).popups().dom().contains(key) ==> {
                let (d, s) = begin_render_step(old(self).popups()[key].render);
                &&& draw == d
                &&& final(self).popups() == old(self).popups().insert(
                    key,
                    PopupEntry { render: s, ..old(self).popups()[key] },
                )
            },
            !old(self).popups().dom().contains(key) ==> !draw && final(self).popups() == old(
                self,
            ).popups(),
            final(self).current_key() == old(self).current_key(),
            final(self).pending() == old(self).pending(),
            final(self).xdg_shell_available() == old(self).xdg_shell_available(),
    {
        match slab_get(&self.popups, key) {
            Some(e) => {
                let mut e2 = e;
                let draw = e2.render.begin_render();
                slab_set(&mut self.popups, key, e2);
                draw
            },
            None => false,
        }
    }

    /// Ends a render pass of the popup `key` in which a frame was drawn.
    pub fn finish_popup_render(&mut self, key: usize)
        requires
            old(self).wf(),
        ensures
            final(self).wf(),
            final(self).requests() == old(self).requests(),
            final(self).popups() == if old(self).popups().dom().contains(key) {
                old(self).popups().insert(
                    key,
                    PopupEntry {
                        render: finish_render_step(old(self).popups()[key].render),
                        ..old(self).popups()[key]
                    },
                )
            } else {
                old(self).popups()
            },
            final(self).current_key() == old(self).current_key(),
            final(self).pending() == old(self).pending(),
            final(self).xdg_shell_available() == old(self).xdg_shell_available(),
    {
        match slab_get(&self.popups, key) {
            Some(e) => {
                let mut e2 = e;
                e2.render.finish_render();
                slab_set(&mut self.popups, key, e2);
            },
            None => {},
        }
    }

    /// Starts or ends the repositioning of the popup `key`.
    pub fn set_popup_repositioning(&mut self, key: usize, repositioning: bool)
        requires
            old(self).wf(),
        ensures
            final(self).wf(),
            final(self).requests() == old(self).requests(),
            final(self).popups() == if old(self).popups().dom().contains(key) {
                old(self).popups().insert(
                    key,
                    PopupEntry {
                        render: if repositioning {
                            PopupRenderState { repositioning: true, ..old(self).popups()[key].render }
                        } else {
                            PopupRenderState {
                                repositioning: false,
                                needs_relayout: true,
                                ..old(self).popups()[key].render
                            }
                        },
                        ..old(self).popups()[key]
                    },
                )
            } else {
                old(self).popups()
            },
            final(self).current_key() == old(self).current_key(),
            final(self).pending() == old(self).pending(),
            final(self).xdg_shell_available() == old(self).xdg_shell_available(),
    {
        match slab_get(&self.popups, key) {
            Some(e) => {
                let mut e2 = e;
                if repositioning {
                    e2.render.begin_repositioning();
                } else {
                    e2.render.end_repositioning();
                }
                slab_set(&mut self.popups, key, e2);
            },
            None => {},
        }
    }
}

/// Some popup of `m` has the object of kind `kind` with id `id`.
pub open spec fn has_popup_with(m: Map<usize, PopupEntry>, kind: PopupObject, id: u32) -> bool {
    exists|k: usize| m.dom().contains(k) && #[trigger] entry_has_id(m[k], kind, id)
}

/// The shell surface that owns the popup whose wl_surface is `surface_id`:
/// the first of `owners` (each shell surface with its popup manager) whose
/// manager has such a popup.
pub fn find_popup_owner<P>(owners: &Vec<(ShellSurfaceKey, &PopupManager<P>)>, surface_id: u32) -> (r:
    Option<ShellSurfaceKey>)
    ensures
        match r {
            Some(key) => exists|i: int|
                0 <= i < owners@.len() && #[trigger] owners@[i].0 == key && has_popup_with(
                    owners@[i].1.popups(),
                    PopupObject::Surface,
                    surface_id,
                ) && forall|j: int|
                    0 <= j < i ==> !has_popup_with(
                        #[trigger] owners@[j].1.popups(),
                        PopupObject::Surface,
                        surface_id,
                    ),
            None => forall|j: int|
                0 <= j < owners@.len() ==> !has_popup_with(
                    #[trigger] owners@[j].1.popups(),
                    PopupObject::Surface,
                    surface_id,
                ),
        },
{
    let mut i: usize = 0;
    while i < owners.len()
        invariant
            i <= owners@.len(),
            forall|j: int|
                0 <= j < i ==> !has_popup_with(
                    #[trigger] owners@[j].1.popups(),
                    PopupObject::Surface,
                    surface_id,
                ),
        decreases owners@.len() - i,
    {
        let (key, manager) = owners[i];
        match manager.find_popup_key_by_surface_id(surface_id) {
            Some(k) => {
                assert(entry_has_id(manager.popups()[k], PopupObject::Surface, surface_id));
                assert(owners@[i as int].0 == key);
                return Some(key);
            },
            None => {},
        }
        i = i + 1;
    }
    None
}

/// Popups can be created for these layer surfaces: there is at least one, and
/// the compositor offers xdg-shell (all managers are made alike, so the first
/// one tells).
pub fn popups_supported<P>(managers: &Vec<&PopupManager<P>>) -> (b: bool)
    ensures
        b == (managers@.len() > 0 && managers@[0].xdg_shell_available()),
{
    if managers.len() == 0 {
        false
    } else {
        managers[0].has_xdg_shell()
    }
}

/// The position of the first manager that has a pending popup request (the
/// one whose popup the windowing system is asking for).
pub fn first_pending_manager<P>(managers: &Vec<&PopupManager<P>>) -> (r: Option<usize>)
    ensures
        match r {
            Some(i) => i < managers@.len() && managers@[i as int].pending() is Some && forall|j: int|
                0 <= j < i ==> (#[trigger] managers@[j]).pending() is None,
            None => forall|j: int| 0 <= j < managers@.len() ==> (#[trigger] managers@[j]).pending() is None,
        },
{
    let mut i: usize = 0;
    while i < managers.len()
        invariant
            i <= managers@.len(),
            forall|j: int| 0 <= j < i ==> (#[trigger] managers@[j]).pending() is None,
        decreases managers@.len() - i,
    {
        if managers[i].has_pending_popup() {
            return Some(i);
        }
        i = i + 1;
    }
    None
}

/// A key is present after a push exactly when it was present before or is the
/// pushed one.
proof fn lemma_has_key_push<K, V>(s: Seq<(K, V)>, e: (K, V))
    ensures
        forall|k: K| #[trigger] has_key(s.push(e), k) <==> (has_key(s, k) || k == e.0),
{
    let t = s.push(e);
    assert forall|k: K| #[trigger] has_key(t, k) <==> (has_key(s, k) || k == e.0) by {
        if has_key(s, k) {
            let i = choose|i: int| 0 <= i < s.len() && #[trigger] s[i].0 == k;
            assert(t[i] == s[i]);
        }
        if k == e.0 {
            assert(t[s.len() as int].0 == k);
        }
        if has_key(t, k) {
            let i = choose|i: int| 0 <= i < t.len() && #[trigger] t[i].0 == k;
            if i < s.len() {
                assert(t[i] == s[i]);
            }
        }
    }
}

/// Removing the pair at `i` from a table with distinct keys removes its key
/// and leaves every other key with its value.
proof fn lemma_remove_key_at<K, V>(s: Seq<(K, V)>, i: int)
    requires
        keys_distinct(s),
        0 <= i < s.len(),
    ensures
        keys_distinct(s.remove(i)),
        !has_key(s.remove(i), s[i].0),
        forall|k: K| k != s[i].0 ==> #[trigger] has_key(s.remove(i), k) == has_key(s, k),
        forall|k: K| k != s[i].0 ==> #[trigger] lookup(s.remove(i), k) == lookup(s, k),
{
    let t = s.remove(i);
    assert forall|a: int, b: int|
        0 <= a < t.len() && 0 <= b < t.len() && a != b implies #[trigger] t[a].0
        != #[trigger] t[b].0 by {
        let a2 = if a < i { a } else { a + 1 };
        let b2 = if b < i { b } else { b + 1 };
        assert(t[a] == s[a2] && t[b] == s[b2]);
    }
    if has_key(t, s[i].0) {
        let j = choose|j: int| 0 <= j < t.len() && #[trigger] t[j].0 == s[i].0;
        let j2 = if j < i { j } else { j + 1 };
        assert(t[j] == s[j2]);
    }
    assert forall|k: K| k != s[i].0 implies #[trigger] has_key(t, k) == has_key(s, k) && lookup(
        t,
        k,
    ) == lookup(s, k) by {
        if has_key(s, k) {
            let j = key_pos(s, k);
            assert(j != i);
            let j1 = if j < i { j } else { j - 1 };
            assert(t[j1] == s[j]);
            assert(has_key(t, k));
            let q = key_pos(t, k);
            let q2 = if q < i { q } else { q + 1 };
            assert(t[q] == s[q2]);
        }
        if has_key(t, k) {
            let q = choose|q: int| 0 <= q < t.len() && #[trigger] t[q].0 == k;
            let q2 = if q < i { q } else { q + 1 };
            assert(t[q] == s[q2]);
        }
    }
}

/// Opening a popup and then closing it as the current popup leaves the
/// popups as they were before it was opened.
pub proof fn lemma_open_then_close_restores(before: Map<usize, PopupEntry>, key: usize, entry: PopupEntry)
    requires
        !before.dom().contains(key),
    ensures
        before.insert(key, entry).remove(key) == before,
        before.insert(key, entry).dom().contains(key),
        before.insert(key, entry)[key] == entry,
{
    assert(before.insert(key, entry).remove(key) =~= before);
}

/// A popup just opened is found again by any of its protocol ids, provided no
/// other popup shares that id.
pub proof fn lemma_opened_popup_is_found(
    before: Map<usize, PopupEntry>,
    key: usize,
    entry: PopupEntry,
    kind: PopupObject,
    id: u32,
)
    requires
        !before.dom().contains(key),
        entry_has_id(entry, kind, id),
        forall|j: usize| #[trigger] before.dom().contains(j) ==> !entry_has_id(before[j], kind, id),
    ensures
        first_key_with(before.insert(key, entry), kind, id, Some(key)),
{
}

/// A closed popup is no longer found by any id.
pub proof fn lemma_closed_popup_not_found(
    before: Map<usize, PopupEntry>,
    key: usize,
    kind: PopupObject,
    id: u32,
    r: Option<usize>,
)
    requires
        first_key_with(before.remove(key), kind, id, r),
    ensures
        r != Some(key),
{
}

} // verus!
