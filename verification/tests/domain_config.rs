use layer_shika::config::{convert_anchor, convert_keyboard_interactivity, convert_layer};
use layer_shika::domain::{
    AnchorEdges, KeyboardInteractivity, Layer, LockState, PopupHandle, PopupPositioningMode,
};

#[test]
fn layers_map_to_wire_values() {
    assert_eq!(convert_layer(Layer::Background), 0);
    assert_eq!(convert_layer(Layer::Bottom), 1);
    assert_eq!(convert_layer(Layer::Top), 2);
    assert_eq!(convert_layer(Layer::Overlay), 3);
}

#[test]
fn keyboard_interactivity_maps_to_wire_values() {
    assert_eq!(convert_keyboard_interactivity(KeyboardInteractivity::NoFocus), 0);
    assert_eq!(convert_keyboard_interactivity(KeyboardInteractivity::Exclusive), 1);
    assert_eq!(convert_keyboard_interactivity(KeyboardInteractivity::OnDemand), 2);
}

#[test]
fn anchor_bits_are_the_union_of_edges() {
    assert_eq!(convert_anchor(AnchorEdges::new(false, false, false, false)), 0);
    assert_eq!(convert_anchor(AnchorEdges::new(true, false, false, false)), 1);
    assert_eq!(convert_anchor(AnchorEdges::new(false, true, false, false)), 2);
    assert_eq!(convert_anchor(AnchorEdges::new(false, false, true, false)), 4);
    assert_eq!(convert_anchor(AnchorEdges::new(false, false, false, true)), 8);
    assert_eq!(convert_anchor(AnchorEdges::new(true, false, true, true)), 13);
    assert_eq!(convert_anchor(AnchorEdges::new(true, true, true, true)), 15);
}

#[test]
fn anchor_edges_accessors() {
    let a = AnchorEdges::new(true, false, false, true);
    assert!(a.has_top());
    assert!(!a.has_bottom());
    assert!(!a.has_left());
    assert!(a.has_right());
}

#[test]
fn lock_state_permissions() {
    assert!(LockState::Inactive.can_activate());
    assert!(!LockState::Locking.can_activate());
    assert!(!LockState::Locked.can_activate());
    assert!(!LockState::Unlocking.can_activate());
    assert!(!LockState::Inactive.can_deactivate());
    assert!(LockState::Locking.can_deactivate());
    assert!(LockState::Locked.can_deactivate());
    assert!(!LockState::Unlocking.can_deactivate());
    assert!(LockState::Locked.is_active());
    assert!(!LockState::Unlocking.is_active());
}

#[test]
fn lock_state_names_match_debug() {
    for s in [LockState::Inactive, LockState::Locking, LockState::Locked, LockState::Unlocking] {
        assert_eq!(s.debug_name(), format!("{:?}", s));
    }
}

#[test]
fn positioning_mode_from_flags_round_trips() {
    for (x, y) in [(false, false), (true, false), (false, true), (true, true)] {
        let m = PopupPositioningMode::from_flags(x, y);
        assert_eq!(m.center_x(), x);
        assert_eq!(m.center_y(), y);
    }
    assert_eq!(PopupPositioningMode::from_flags(false, false), PopupPositioningMode::TopLeft);
    assert_eq!(PopupPositioningMode::from_flags(true, false), PopupPositioningMode::TopCenter);
    assert_eq!(PopupPositioningMode::from_flags(false, true), PopupPositioningMode::CenterLeft);
    assert_eq!(PopupPositioningMode::from_flags(true, true), PopupPositioningMode::Center);
}

#[test]
fn popup_handle_keeps_its_key() {
    let h = PopupHandle::new(42);
    assert_eq!(h.key(), 42);
    assert_eq!(h, PopupHandle { key: 42 });
}
