//! The slab that stores the active popups of a popup manager, seen through what
//! it holds.
use vstd::prelude::*;
use slab::Slab;
use crate::popup_window::PopupRenderState;

verus! {

#[verifier::external_type_specification]
#[verifier::external_body]
#[verifier::reject_recursive_types(T)]
pub struct ExSlab<T>(Slab<T>);

/// What the popup manager records of one active popup: the protocol ids of its
/// objects, the pointer serial it was opened with and its rendering state.
#[derive(Clone, Copy, Debug, PartialEq, Eq, Structural)]
pub struct PopupEntry {
    pub surface_id: u32,
    pub xdg_surface_id: u32,
    pub xdg_popup_id: u32,
    pub fractional_scale_id: Option<u32>,
    pub last_serial: u32,
    pub render: PopupRenderState,
}

/// The occupied slots of a popup slab, by key.
pub uninterp spec fn popup_slots(s: Slab<PopupEntry>) -> Map<usize, PopupEntry>;

/// The contents of a slab without popups.
pub open spec fn no_popups() -> Map<usize, PopupEntry> {
    Map::empty()
}

/// `Slab::new`: a slab with no occupied slot.
#[verifier::external_body]
pub(crate) fn slab_new() -> (fresh: Slab<PopupEntry>)
    ensures
        popup_slots(fresh) == no_popups(),
{
    Slab::new()
}

/// `Slab::insert`: the value goes to a slot that was vacant, whose key is
/// returned; no other slot changes.
#[verifier::external_body]
pub(crate) fn slab_insert(s: &mut Slab<PopupEntry>, value: PopupEntry) -> (key: usize)
    ensures
        !popup_slots(*old(s)).dom().contains(key),
        popup_slots(*final(s)) == popup_slots(*old(s)).insert(key, value),
{
    s.insert(value)
}

/// `Slab::try_remove`: the value of slot `key` is taken out if the slot is
/// occupied; the slot is vacant afterwards.
#[verifier::external_body]
pub(crate) fn slab_try_remove(s: &mut Slab<PopupEntry>, key: usize) -> (r: Option<PopupEntry>)
    ensures
        r == (if popup_slots(*old(s)).dom().contains(key) {
            Some(popup_slots(*old(s))[key])
        } else {
            None
        }),
        popup_slots(*final(s)) == popup_slots(*old(s)).remove(key),
{
    s.try_remove(key)
}

/// `Slab::get`, copying the value out: the value of slot `key` if occupied.
#[verifier::external_body]
pub(crate) fn slab_get(s: &Slab<PopupEntry>, key: usize) -> (r: Option<PopupEntry>)
    ensures
        r == (if popup_slots(*s).dom().contains(key) {
            Some(popup_slots(*s)[key])
        } else {
            None
        }),
{
    s.get(key).copied()
}

/// `Slab::get_mut`, storing into an occupied slot.
#[verifier::external_body]
pub(crate) fn slab_set(s: &mut Slab<PopupEntry>, key: usize, value: PopupEntry)
    requires
        popup_slots(*old(s)).dom().contains(key),
    ensures
        popup_slots(*final(s)) == popup_slots(*old(s)).insert(key, value),
{
    if let Some(slot) = s.get_mut(key) {
        *slot = value;
    }
}

/// `Slab::iter`, keeping the keys: every occupied key once, in increasing
/// order (the order in which the slab walks its slots).
#[verifier::external_body]
pub(crate) fn slab_keys(s: &Slab<PopupEntry>) -> (keys: Vec<usize>)
    ensures
        forall|i: int, j: int| 0 <= i < j < keys@.len() ==> keys@[i] < keys@[j],
        forall|k: usize| popup_slots(*s).dom().contains(k) <==> keys@.contains(k),
{
    s.iter().map(|(key, _)| key).collect()
}

} // verus!
