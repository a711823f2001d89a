use layer_shika::app_state::{AppState, OutputInfoUpdate, ShellSurfaceKey};
use layer_shika::domain::{OutputHandle, SurfaceHandle};
use layer_shika::event_context::SharedPointerSerial;
use layer_shika::outputs::{
    geometry_from_event, is_output_global, mode_is_current, output_bind_version, outputs_to_render, OutputGeometry, OutputInfo, OutputMapping, OutputPolicy, OutputRegistry,
};

fn handle(id: u64) -> OutputHandle {
    OutputHandle { id }
}

fn surface(id: u64) -> SurfaceHandle {
    SurfaceHandle { id }
}

#[test]
fn mapping_gives_fresh_handles_in_order() {
    let mut m = OutputMapping::new();
    let a = m.insert(100);
    let b = m.insert(200);
    assert_eq!(a, handle(0));
    assert_eq!(b, handle(1));
    assert_eq!(m.get(100), Some(a));
    assert_eq!(m.remove(100), Some(a));
    assert_eq!(m.get(100), None);
    assert_eq!(m.remove(100), None);
    let c = m.insert(100);
    assert_eq!(c, handle(2));
    assert_ne!(c, a);
}

#[test]
fn outputs_to_render_follows_policy() {
    let handles = vec![handle(10), handle(11), handle(12)];
    assert_eq!(outputs_to_render(&handles, &OutputPolicy::AllOutputs), vec![0, 1, 2]);
    assert_eq!(outputs_to_render(&handles, &OutputPolicy::PrimaryOnly), vec![0]);
    assert!(outputs_to_render(&Vec::new(), &OutputPolicy::PrimaryOnly).is_empty());
    let specific = OutputPolicy::Specific(vec![handle(12), handle(10), handle(99)]);
    assert_eq!(outputs_to_render(&handles, &specific), vec![0, 2]);
    assert!(outputs_to_render(&handles, &OutputPolicy::Specific(Vec::new())).is_empty());
    let mut info = OutputInfo::new(handle(4));
    assert!(OutputPolicy::AllOutputs.should_render(&info));
    assert!(!OutputPolicy::PrimaryOnly.should_render(&info));
    assert!(OutputPolicy::Specific(vec![handle(4)]).should_render(&info));
    assert!(!OutputPolicy::Specific(vec![handle(5)]).should_render(&info));
    info.set_primary(true);
    assert!(OutputPolicy::PrimaryOnly.should_render(&info));
    assert!(!OutputPolicy::Specific(vec![handle(5)]).should_render(&info));
}

#[test]
fn registry_add_replace_remove() {
    let mut r = OutputRegistry::new();
    assert!(r.is_empty());
    let mut first = OutputInfo::new(handle(1));
    first.set_name("DP-1".to_string());
    r.add(first);
    let mut second = OutputInfo::new(handle(2));
    second.set_primary(true);
    r.add(second);
    assert_eq!(r.len(), 2);
    assert_eq!(r.primary_handle(), Some(handle(2)));
    let mut replaced = OutputInfo::new(handle(1));
    replaced.set_scale(2);
    r.add(replaced);
    assert_eq!(r.len(), 2);
    assert_eq!(r.all_info()[0].handle(), handle(1));
    assert_eq!(r.get(handle(1)).unwrap().scale, Some(2));
    assert_eq!(r.get(handle(1)).unwrap().name, None);
    r.set_active(Some(handle(2)));
    assert_eq!(r.active_handle(), Some(handle(2)));
    let removed = r.remove(handle(2)).unwrap();
    assert!(removed.is_primary());
    assert_eq!(r.active_handle(), None);
    assert_eq!(r.primary_handle(), None);
    assert!(r.remove(handle(2)).is_none());
    assert!(r.get(handle(2)).is_none());
    r.get_mut(handle(1)).unwrap().set_description("left".to_string());
    assert_eq!(r.get(handle(1)).unwrap().description.as_deref(), Some("left"));
}

#[test]
fn geometry_builders_keep_fields() {
    let g = OutputGeometry::new(1, 2, 300, 200)
        .with_make("ACME".to_string())
        .with_model("X1".to_string());
    assert_eq!((g.x, g.y, g.physical_width, g.physical_height), (1, 2, 300, 200));
    assert_eq!(g.make.as_deref(), Some("ACME"));
    assert_eq!(g.model.as_deref(), Some("X1"));
}

fn state() -> AppState<&'static str> {
    AppState::new(SharedPointerSerial::new())
}

#[test]
fn first_output_becomes_primary() {
    let mut s = state();
    s.add_shell_surface(100, surface(1), "bar", 1000, "bar@100");
    s.add_shell_surface(200, surface(1), "bar", 2000, "bar@200");
    let h100 = s.get_handle_by_output_id(100).unwrap();
    let h200 = s.get_handle_by_output_id(200).unwrap();
    assert_ne!(h100, h200);
    assert_eq!(s.primary_output_handle(), Some(h100));
    assert_eq!(s.primary_output(), Some(&"bar@100"));
    assert_eq!(s.surface_count(), 2);
    assert_eq!(s.all_output_info().len(), 2);
    assert!(s.output_registry().get(h200).is_some());
}

#[test]
fn surfaces_are_found_by_every_key() {
    let mut s = state();
    s.add_shell_surface(100, surface(1), "bar", 1000, "bar@100");
    s.add_shell_surface(100, surface(2), "dock", 1001, "dock@100");
    let h = s.get_handle_by_output_id(100).unwrap();
    let key = ShellSurfaceKey::new(h, surface(2));
    assert_eq!(s.get_surface_by_key(&key), Some(&"dock@100"));
    assert_eq!(s.get_surface_by_instance(surface(1), h), Some(&"bar@100"));
    assert_eq!(s.get_key_by_surface(1001), Some(key));
    assert_eq!(s.get_handle_by_surface(1000), Some(h));
    assert_eq!(s.get_output_by_surface(1001), Some(&"dock@100"));
    assert_eq!(s.get_output_by_output_id(100), Some(&"bar@100"));
    assert_eq!(s.get_output_by_handle(h), Some(&"bar@100"));
    assert_eq!(s.get_surface_name(surface(2)), Some("dock"));
    assert_eq!(s.get_surface_name(surface(3)), None);
    assert_eq!(s.surfaces_by_handle(surface(1)), vec![&"bar@100"]);
    assert_eq!(s.surfaces_by_name("dock"), vec![&"dock@100"]);
    assert_eq!(s.surfaces_by_name_and_output("bar", h), vec![&"bar@100"]);
    assert_eq!(s.surface_indices_for_output_id(100), vec![0, 1]);
    assert!(s.surface_indices_for_output_id(999).is_empty());
    assert_eq!(s.get_key_by_surface(5), None);
}

#[test]
fn adding_under_the_same_key_replaces() {
    let mut s = state();
    s.add_shell_surface(100, surface(1), "bar", 1000, "old");
    s.add_output(100, surface(1), "bar", 1000, "new");
    assert_eq!(s.surface_count(), 1);
    assert_eq!(s.get_output_by_surface(1000), Some(&"new"));
}

#[test]
fn mutable_lookups_change_the_stored_surface() {
    let mut s = state();
    s.add_shell_surface(100, surface(1), "bar", 1000, "a");
    let h = s.get_handle_by_output_id(100).unwrap();
    *s.get_output_by_handle_mut(h).unwrap() = "b";
    assert_eq!(s.get_output_by_output_id(100), Some(&"b"));
    *s.get_output_by_output_id_mut(100).unwrap() = "c";
    assert_eq!(s.get_output_by_surface(1000), Some(&"c"));
    *s.get_output_by_surface_mut(1000).unwrap() = "d";
    let key = ShellSurfaceKey::new(h, surface(1));
    assert_eq!(s.get_surface_by_key(&key), Some(&"d"));
    *s.get_surface_by_key_mut(&key).unwrap() = "e";
    *s.surface_at_mut(0) = "f";
    assert_eq!(s.surface_at(0), (key, &"f"));
}

#[test]
fn removing_an_output_removes_its_surfaces_only() {
    let mut s = state();
    s.add_shell_surface(100, surface(1), "bar", 1000, "bar@100");
    s.add_shell_surface(200, surface(1), "bar", 2000, "bar@200");
    s.add_shell_surface(100, surface(2), "dock", 1001, "dock@100");
    let h100 = s.get_handle_by_output_id(100).unwrap();
    let removed = s.remove_output(h100);
    assert_eq!(removed, vec!["bar@100", "dock@100"]);
    assert_eq!(s.surface_count(), 1);
    assert_eq!(s.get_output_by_surface(1000), None);
    assert_eq!(s.get_output_by_surface(2000), Some(&"bar@200"));
    assert!(s.get_output_info(h100).is_none());
    assert!(s.remove_output(h100).is_empty());
}

#[test]
fn removing_surfaces_by_name() {
    let mut s = state();
    s.add_shell_surface(100, surface(1), "bar", 1000, "bar@100");
    s.add_shell_surface(100, surface(2), "dock", 1001, "dock@100");
    s.add_shell_surface(200, surface(1), "bar", 2000, "bar@200");
    let removed = s.remove_surfaces_by_name("bar");
    assert_eq!(removed, vec!["bar@100", "bar@200"]);
    assert_eq!(s.surfaces_by_name("bar"), Vec::<&&str>::new());
    assert_eq!(s.surfaces_by_name("dock"), vec![&"dock@100"]);
    assert_eq!(s.get_key_by_surface(1000), None);
    assert!(s.remove_surfaces_by_name("bar").is_empty());
}

#[test]
fn surface_names_sorted_and_distinct() {
    let mut s = state();
    s.add_shell_surface(100, surface(3), "panel", 1002, "p");
    s.add_shell_surface(100, surface(1), "bar", 1000, "b");
    s.add_shell_surface(100, surface(2), "dock", 1001, "d");
    s.add_shell_surface(200, surface(1), "bar", 2000, "b2");
    assert_eq!(s.shell_surface_names(), vec!["bar", "dock", "panel"]);
    assert!(state().shell_surface_names().is_empty());
}

#[test]
fn active_output_and_surface() {
    let mut s = state();
    s.add_shell_surface(100, surface(1), "bar", 1000, "bar@100");
    s.add_shell_surface(200, surface(1), "bar", 2000, "bar@200");
    assert_eq!(s.active_output(), None);
    let h200 = s.get_handle_by_output_id(200).unwrap();
    s.set_active_output_handle(Some(h200));
    assert_eq!(s.active_output_handle(), Some(h200));
    assert_eq!(s.active_output(), Some(&"bar@200"));
    let key = ShellSurfaceKey::new(h200, surface(1));
    s.set_active_surface_key(Some(key));
    assert_eq!(s.active_surface_key(), Some(key));
    *s.active_surface_mut().unwrap() = "changed";
    assert_eq!(s.get_output_by_output_id(200), Some(&"changed"));
    s.remove_output(h200);
    assert_eq!(s.active_output_handle(), None);
    s.set_active_surface_key(None);
    assert!(s.active_surface_mut().is_none());
}

#[test]
fn registry_names_map_to_output_ids() {
    let mut s = state();
    s.register_registry_name(40, 100);
    assert_eq!(s.find_output_id_by_registry_name(40), Some(100));
    assert_eq!(s.unregister_registry_name(40), Some(100));
    assert_eq!(s.find_output_id_by_registry_name(40), None);
    assert_eq!(s.unregister_registry_name(40), None);
}

#[test]
fn output_info_updates_apply_to_known_outputs() {
    let mut s = state();
    s.add_shell_surface(100, surface(1), "bar", 1000, "bar@100");
    let h = s.get_handle_by_output_id(100).unwrap();
    assert!(s.update_output_info(h, OutputInfoUpdate::Name("HDMI-A-1".to_string())));
    assert!(s.update_output_info(h, OutputInfoUpdate::Scale(2)));
    assert!(s.update_output_info(h, OutputInfoUpdate::Description("monitor".to_string())));
    assert!(s.update_output_info(h, OutputInfoUpdate::Geometry(OutputGeometry::new(0, 0, 10, 20))));
    let info = s.get_output_info(h).unwrap();
    assert_eq!(info.name.as_deref(), Some("HDMI-A-1"));
    assert_eq!(info.scale, Some(2));
    assert_eq!(info.description.as_deref(), Some("monitor"));
    assert_eq!(info.geometry.as_ref().unwrap().physical_height, 20);
    assert!(info.is_primary());
    assert!(!s.update_output_info(handle(77), OutputInfoUpdate::Scale(1)));
}

#[test]
fn pointer_serial_is_shared_state() {
    let mut s = state();
    assert_eq!(s.shared_pointer_serial().get(), 0);
    s.set_shared_pointer_serial(17);
    assert_eq!(s.shared_pointer_serial().get(), 17);
}

#[test]
fn geometry_events_drop_empty_make_and_model() {
    let g = geometry_from_event(5, 6, 700, 400, String::new(), "Z".to_string());
    assert_eq!((g.x, g.y, g.physical_width, g.physical_height), (5, 6, 700, 400));
    assert_eq!(g.make, None);
    assert_eq!(g.model.as_deref(), Some("Z"));
    let g = geometry_from_event(0, 0, 1, 1, "ACME".to_string(), String::new());
    assert_eq!(g.make.as_deref(), Some("ACME"));
    assert_eq!(g.model, None);
}

#[test]
fn output_mode_and_registry_helpers() {
    assert!(mode_is_current(1));
    assert!(mode_is_current(3));
    assert!(!mode_is_current(2));
    assert!(!mode_is_current(0));
    assert!(is_output_global("wl_output"));
    assert!(!is_output_global("wl_seat"));
    assert!(!is_output_global("wl_outputs"));
    assert_eq!(output_bind_version(3), 3);
    assert_eq!(output_bind_version(4), 4);
    assert_eq!(output_bind_version(9), 4);
}

#[test]
fn pointer_enter_prefers_main_surface_then_popup_owner() {
    let mut s = state();
    s.add_shell_surface(100, surface(1), "bar", 1000, "bar@100");
    s.add_shell_surface(200, surface(1), "bar", 2000, "bar@200");
    let h100 = s.get_handle_by_output_id(100).unwrap();
    let h200 = s.get_handle_by_output_id(200).unwrap();
    let k100 = ShellSurfaceKey::new(h100, surface(1));
    let k200 = ShellSurfaceKey::new(h200, surface(1));
    assert_eq!(s.handle_pointer_enter(1000, Some(k200)), Some(k100));
    assert_eq!(s.active_surface_key(), Some(k100));
    assert_eq!(s.active_output_handle(), Some(h100));
    assert_eq!(s.handle_pointer_enter(5555, Some(k200)), Some(k200));
    assert_eq!(s.active_surface_key(), Some(k200));
    assert_eq!(s.handle_pointer_enter(6666, None), None);
    assert_eq!(s.active_surface_key(), Some(k200));
    assert_eq!(s.handle_pointer_leave(), Some(k200));
    assert_eq!(s.active_surface_key(), None);
    assert_eq!(s.active_output_handle(), None);
    assert_eq!(s.handle_pointer_leave(), None);
}

#[test]
fn only_the_first_output_is_primary() {
    let mut s = state();
    s.add_shell_surface(100, surface(1), "bar", 1000, "a");
    s.add_shell_surface(200, surface(1), "bar", 2000, "b");
    s.add_shell_surface(300, surface(1), "bar", 3000, "c");
    let primaries: Vec<bool> = s.all_output_info().iter().map(|i| i.is_primary()).collect();
    assert_eq!(primaries, vec![true, false, false]);
    let h100 = s.get_handle_by_output_id(100).unwrap();
    s.remove_output(h100);
    assert_eq!(s.primary_output_handle(), None);
    let primaries: Vec<bool> = s.all_output_info().iter().map(|i| i.is_primary()).collect();
    assert_eq!(primaries, vec![false, false]);
}

#[test]
fn removing_an_output_by_its_protocol_id() {
    let mut s = state();
    s.add_shell_surface(100, surface(1), "bar", 1000, "bar@100");
    s.add_shell_surface(200, surface(1), "bar", 2000, "bar@200");
    assert_eq!(s.remove_output_by_output_id(100), vec!["bar@100"]);
    assert_eq!(s.surface_count(), 1);
    assert_eq!(s.all_output_info().len(), 1);
    assert!(s.remove_output_by_output_id(100).is_empty());
    assert!(s.remove_output_by_output_id(999).is_empty());
    assert_eq!(s.surface_count(), 1);
}
