use layer_shika::builder::NeedsComponent;
use layer_shika::domain::{LayerShikaError, LockState, PopupPositioningMode};
use layer_shika::event_context::SharedPointerSerial;
use layer_shika::facade::{ShellSystemFacade, WaylandSystemOps};
use layer_shika::input_state::{xkb_keycode, KeyboardInputState};
use layer_shika::platform::{
    clear_popup_config, close_current_popup, get_popup_config, set_popup_config,
    CustomSlintPlatform, WindowAdapterSource,
};
use layer_shika::pointer_utils::{
    layer_surface_button_transition, transition_from_wire, wayland_button_to_slint, PointerEventButton, Transition,
};
use layer_shika::scale_coordinator;
use layer_shika::surface_configure::{check_surface_size, configure_size, output_dimension};
use layer_shika::surface_state::{
    check_component_parts, check_surface_parts, fractional_scale_target, resize_after_scale_change, FractionalScaleTarget,
};
use layer_shika::system::{popup_request_accepted, resize_action, PopupResizeAction};
use layer_shika::text::{str_eq, str_lt};

#[test]
fn configure_size_fills_output_when_asked_to_choose() {
    assert_eq!(configure_size(0, 30, 1920, 960, 15), (960, 30));
    assert_eq!(configure_size(1, 30, 1920, 1920, 30), (1920, 30));
    assert_eq!(configure_size(1, 0, 1, 1, 40), (1, 40));
    assert_eq!(configure_size(800, 0, 1920, 1920, 42), (800, 42));
    assert_eq!(configure_size(4000, 20, 1920, 1920, 20), (1920, 20));
}

#[test]
fn output_dimension_clamps_negative() {
    assert_eq!(output_dimension(1080), 1080);
    assert_eq!(output_dimension(0), 0);
    assert_eq!(output_dimension(-5), 0);
}

#[test]
fn surface_size_must_be_nonzero() {
    assert!(check_surface_size(1, 1).is_ok());
    assert_eq!(
        check_surface_size(0, 0),
        Err(LayerShikaError::InvalidInput { message: "Width cannot be zero".to_string() })
    );
    assert_eq!(
        check_surface_size(3, 0),
        Err(LayerShikaError::InvalidInput { message: "Height cannot be zero".to_string() })
    );
}

#[test]
fn buttons_map_from_evdev_codes() {
    assert_eq!(wayland_button_to_slint(0x110), PointerEventButton::Left);
    assert_eq!(wayland_button_to_slint(0x111), PointerEventButton::Right);
    assert_eq!(wayland_button_to_slint(0x112), PointerEventButton::Middle);
    assert_eq!(wayland_button_to_slint(0x115), PointerEventButton::Forward);
    assert_eq!(wayland_button_to_slint(0x116), PointerEventButton::Back);
    assert_eq!(wayland_button_to_slint(0x113), PointerEventButton::Other);
}

#[test]
fn transitions_from_wire_values() {
    assert_eq!(transition_from_wire(1), Some(Transition::Pressed));
    assert_eq!(transition_from_wire(0), Some(Transition::Released));
    assert_eq!(transition_from_wire(2), None);
}

#[test]
fn keycodes_are_offset_by_eight() {
    assert_eq!(xkb_keycode(0), 8);
    assert_eq!(xkb_keycode(30), 38);
    assert_eq!(xkb_keycode(u32::MAX - 8), u32::MAX);
}

#[test]
fn keyboard_focus_is_cleared_only_for_its_surface() {
    let mut k = KeyboardInputState::new();
    assert!(!k.has_focused_surface());
    k.set_focused_surface(Some(5));
    k.clear_surface_if_matches(6);
    assert_eq!(k.focused_surface_id(), Some(5));
    k.clear_surface_if_matches(5);
    assert_eq!(k.focused_surface_id(), None);
    k.set_focused_surface(Some(7));
    k.reset();
    assert!(!k.has_focused_surface());
}

#[test]
fn resize_recreates_only_centered_popups() {
    for (x, y) in [(true, false), (false, true), (true, true)] {
        let mode = PopupPositioningMode::from_flags(x, y);
        assert_eq!(resize_action(true, mode), PopupResizeAction::Recreate);
        assert_eq!(resize_action(false, mode), PopupResizeAction::Unchanged);
    }
    assert_eq!(
        resize_action(true, PopupPositioningMode::TopLeft),
        PopupResizeAction::ResizeInPlace
    );
    assert_eq!(resize_action(false, PopupPositioningMode::TopLeft), PopupResizeAction::Unchanged);
}

#[test]
fn popup_requests_need_a_component_name() {
    assert!(popup_request_accepted("Menu"));
    assert!(!popup_request_accepted(""));
}

#[test]
fn scale_events_target_main_surface_or_popups() {
    assert_eq!(fractional_scale_target(Some(4), 4), FractionalScaleTarget::MainSurface);
    assert_eq!(fractional_scale_target(Some(4), 5), FractionalScaleTarget::Popups);
    assert_eq!(fractional_scale_target(None, 4), FractionalScaleTarget::Popups);
    assert!(resize_after_scale_change(10, 20));
    assert!(!resize_after_scale_change(0, 20));
    assert!(!resize_after_scale_change(10, 0));
}

#[test]
fn string_comparisons() {
    assert!(str_eq("bar", "bar"));
    assert!(!str_eq("bar", "baz"));
    assert!(!str_eq("bar", "ba"));
    assert!(str_lt("bar", "baz"));
    assert!(str_lt("ba", "bar"));
    assert!(!str_lt("bar", "bar"));
    assert!(!str_lt("baz", "bar"));
    assert!(str_lt("", "a"));
}

#[test]
fn pointer_serials_keep_the_last_update() {
    let mut s = SharedPointerSerial::new();
    assert_eq!(s.get(), 0);
    s.update(9);
    s.update(12);
    assert_eq!(s.get(), 12);
    let mut t = scale_coordinator::SharedPointerSerial::new();
    assert_eq!(t.get(), 0);
    t.update(3);
    assert_eq!(t.get(), 3);
    assert_eq!(SharedPointerSerial::default().get(), 0);
}

#[test]
fn platform_hands_out_main_window_first() {
    let mut p: CustomSlintPlatform<u8, &str> = CustomSlintPlatform::new();
    assert_eq!(p.create_window_adapter(), WindowAdapterSource::MainWindow);
    assert_eq!(p.create_window_adapter(), WindowAdapterSource::NoPlatform);
    p.set_popup_creator();
    assert_eq!(p.create_window_adapter(), WindowAdapterSource::PopupCreator);
    p.set_last_popup("popup");
    assert_eq!(p.close_current_popup(), Some("popup"));
    assert_eq!(p.close_current_popup(), None);
    p.set_popup_config(4);
    assert_eq!(p.get_popup_config(), Some(4));
    p.clear_popup_config();
    assert_eq!(p.get_popup_config(), None);
}

#[test]
fn platform_slot_functions() {
    let mut none: Option<CustomSlintPlatform<u8, &str>> = None;
    assert_eq!(close_current_popup(&mut none), None);
    set_popup_config(&mut none, 3);
    assert_eq!(get_popup_config(&none), None);
    clear_popup_config(&mut none);
    assert!(none.is_none());

    let mut slot = Some(CustomSlintPlatform::<u8, &str>::new());
    set_popup_config(&mut slot, 3);
    assert_eq!(get_popup_config(&slot), Some(3));
    slot.as_mut().unwrap().set_last_popup("p");
    assert_eq!(close_current_popup(&mut slot), Some("p"));
    clear_popup_config(&mut slot);
    assert_eq!(get_popup_config(&slot), None);
}

#[derive(Clone, Copy)]
struct FakeSystem {
    runs: u32,
    fail: bool,
}

impl WaylandSystemOps for FakeSystem {
    fn run_outcome(before: Self, after: Self, r: Result<(), LayerShikaError>) -> bool {
        after.runs == before.runs + 1 && after.fail == before.fail && r.is_err() == before.fail
    }

    fn run(&mut self) -> Result<(), LayerShikaError> {
        self.runs += 1;
        if self.fail {
            Err(LayerShikaError::WindowConfiguration { message: "no display".to_string() })
        } else {
            Ok(())
        }
    }

    fn despawn_surface(&mut self, _name: &str) -> Result<(), LayerShikaError> {
        Ok(())
    }

    fn deactivate_session_lock(&mut self) -> Result<(), LayerShikaError> {
        Ok(())
    }

    fn is_session_lock_available(&self) -> bool {
        false
    }

    fn session_lock_state(&self) -> Option<LockState> {
        None
    }
}

#[test]
fn facade_passes_run_outcome_on() {
    let mut f = ShellSystemFacade::new(FakeSystem { runs: 0, fail: false });
    assert!(f.run().is_ok());
    assert_eq!(f.inner_ref().runs, 1);
    f.inner_mut().fail = true;
    assert_eq!(
        f.run(),
        Err(LayerShikaError::WindowConfiguration { message: "no display".to_string() })
    );
    assert_eq!(f.inner_ref().runs, 2);
}

#[test]
fn builder_takes_its_component() {
    let b = NeedsComponent.with_component("ui.slint");
    assert_eq!(b.component_definition, "ui.slint");
}

#[test]
fn window_parts_are_checked_in_order() {
    let invalid = |m: &str| Err(LayerShikaError::InvalidInput { message: m.to_string() });
    assert_eq!(check_component_parts(true, true), Ok(()));
    assert_eq!(check_component_parts(false, false), invalid("Component definition is required"));
    assert_eq!(check_component_parts(true, false), invalid("Window is required"));
    assert_eq!(check_surface_parts(true, true, true, true), Ok(()));
    assert_eq!(check_surface_parts(false, false, false, false), invalid("Connection is required"));
    assert_eq!(check_surface_parts(true, false, false, true), invalid("Surface is required"));
    assert_eq!(check_surface_parts(true, true, false, false), invalid("Layer surface is required"));
    assert_eq!(check_surface_parts(true, true, true, false), invalid("Pointer is required"));
}

#[test]
fn layer_surface_buttons_release_unless_pressed() {
    assert_eq!(layer_surface_button_transition(1), Transition::Pressed);
    assert_eq!(layer_surface_button_transition(0), Transition::Released);
    assert_eq!(layer_surface_button_transition(7), Transition::Released);
}

#[test]
fn facade_run_meets_the_systems_outcome_relation() {
    for fail in [false, true] {
        let mut f = ShellSystemFacade::new(FakeSystem { runs: 3, fail });
        let before = *f.inner_ref();
        let r = f.run();
        assert!(FakeSystem::run_outcome(before, *f.inner_ref(), r));
    }
}
