use layer_shika::domain::{LayerShikaError, PopupHandle};
use layer_shika::app_state::ShellSurfaceKey;
use layer_shika::domain::{OutputHandle, SurfaceHandle};
use layer_shika::popup_manager::{
    find_popup_owner, first_pending_manager, popups_supported, PopupManager, PopupObject,
};
use layer_shika::popup_service::{ActiveWindow, PopupService};
use layer_shika::popup_slab::PopupEntry;
use layer_shika::popup_window::{PopupRenderState, PopupWindowHandle, RenderState};

fn popup(surface: u32, fractional: Option<u32>) -> PopupEntry {
    PopupEntry {
        surface_id: surface,
        xdg_surface_id: surface + 1000,
        xdg_popup_id: surface + 2000,
        fractional_scale_id: fractional,
        last_serial: 5,
        render: PopupRenderState::new(),
    }
}

#[test]
fn inserted_popups_get_distinct_keys_and_become_current() {
    let mut m: PopupManager<u8> = PopupManager::new(true);
    let a = m.insert_popup(popup(10, None), 0);
    assert_eq!(m.current_popup_key(), Some(a));
    let b = m.insert_popup(popup(20, None), 0);
    assert_ne!(a, b);
    assert_eq!(m.current_popup_key(), Some(b));
    assert_eq!(m.popup_entry(a), Some(popup(10, None)));
    assert_eq!(m.popup_entry(b), Some(popup(20, None)));
    let mut keys = vec![a, b];
    keys.sort();
    assert_eq!(m.popup_keys(), keys);
}

#[test]
fn open_then_close_restores_the_popups() {
    let mut m: PopupManager<u8> = PopupManager::new(true);
    let a = m.insert_popup(popup(10, None), 0);
    let before = m.popup_keys();
    let b = m.insert_popup(popup(20, None), 0);
    assert_eq!(m.close_current_popup(), Some(popup(20, None)));
    assert_eq!(m.current_popup_key(), None);
    assert_eq!(m.popup_keys(), before);
    assert_eq!(m.popup_entry(b), None);
    assert_eq!(m.popup_entry(a), Some(popup(10, None)));
    assert_eq!(m.close_current_popup(), None);
}

#[test]
fn destroy_missing_popup_changes_nothing() {
    let mut m: PopupManager<u8> = PopupManager::new(true);
    let a = m.insert_popup(popup(10, None), 0);
    assert_eq!(m.destroy_popup(a + 1), None);
    assert_eq!(m.popup_keys(), vec![a]);
    assert_eq!(m.current_popup_key(), Some(a));
    assert_eq!(m.destroy_popup(a), Some(popup(10, None)));
    assert_eq!(m.current_popup_key(), Some(a));
    assert!(m.popup_keys().is_empty());
}

#[test]
fn popups_are_found_by_each_protocol_id() {
    let mut m: PopupManager<u8> = PopupManager::new(true);
    let a = m.insert_popup(popup(10, Some(7)), 0);
    let b = m.insert_popup(popup(20, Some(8)), 0);
    assert_eq!(m.find_popup_key(PopupObject::Surface, 20), Some(b));
    assert_eq!(m.find_popup_key_by_surface_id(10), Some(a));
    assert_eq!(m.find_popup_key_by_xdg_surface_id(1010), Some(a));
    assert_eq!(m.find_popup_key_by_xdg_popup_id(2020), Some(b));
    assert_eq!(m.find_popup_key_by_fractional_scale_id(8), Some(b));
    assert_eq!(m.find_popup_key_by_fractional_scale_id(9), None);
    assert_eq!(m.find_by_surface(10), Some(PopupHandle::new(a)));
    assert_eq!(m.find_by_xdg_popup(2010), Some(PopupHandle::new(a)));
    assert_eq!(m.find_by_xdg_surface(1020), Some(PopupHandle::new(b)));
    assert_eq!(m.find_by_surface(30), None);
}

#[test]
fn closed_popup_is_not_found() {
    let mut m: PopupManager<u8> = PopupManager::new(true);
    let a = m.insert_popup(popup(10, None), 0);
    assert_eq!(m.close(PopupHandle::new(a)).unwrap(), Some(popup(10, None)));
    assert_eq!(m.find_by_surface(10), None);
    assert_eq!(m.close(PopupHandle::new(a)).unwrap(), None);
}

#[test]
fn xdg_shell_is_required_for_popups() {
    let m: PopupManager<u8> = PopupManager::new(false);
    assert!(!m.has_xdg_shell());
    match m.require_xdg_shell() {
        Err(LayerShikaError::WindowConfiguration { message }) => {
            assert_eq!(message, "xdg-shell not available for popups")
        }
        other => panic!("unexpected {:?}", other),
    }
    let m: PopupManager<u8> = PopupManager::new(true);
    assert!(m.require_xdg_shell().is_ok());
}

#[test]
fn pending_request_is_taken_once() {
    let mut m: PopupManager<&str> = PopupManager::new(true);
    assert!(!m.has_pending_popup());
    m.set_pending_popup("menu");
    m.set_pending_popup("tooltip");
    assert!(m.has_pending_popup());
    assert_eq!(m.take_pending_popup(), Some("tooltip"));
    assert_eq!(m.take_pending_popup(), None);
}

#[test]
fn popup_draws_only_once_configured_and_dirty() {
    let mut m: PopupManager<u8> = PopupManager::new(true);
    let a = m.insert_popup(popup(10, None), 0);
    m.request_popup_redraw(a);
    assert!(!m.begin_popup_render(a));
    m.mark_popup_configured(a);
    assert!(m.begin_popup_render(a));
    m.finish_popup_render(a);
    assert!(!m.begin_popup_render(a));
    m.mark_all_popups_dirty();
    m.set_popup_repositioning(a, true);
    assert!(!m.begin_popup_render(a));
    m.set_popup_repositioning(a, false);
    assert!(m.begin_popup_render(a));
    m.finish_popup_render(a);
    assert_eq!(m.popup_entry(a).unwrap().render.render_state, RenderState::Dirty);
    assert!(m.begin_popup_render(a));
    m.finish_popup_render(a);
    assert!(!m.begin_popup_render(a));
    assert!(!m.begin_popup_render(a + 1));
}

#[test]
fn relayout_costs_exactly_one_more_frame() {
    let mut s = PopupRenderState::new();
    s.mark_configured();
    assert!(s.is_configured());
    s.begin_repositioning();
    s.request_redraw();
    assert!(!s.begin_render());
    s.end_repositioning();
    assert!(s.begin_render());
    s.finish_render();
    assert_eq!(s.render_state, RenderState::Dirty);
    assert!(!s.needs_relayout);
    assert!(s.begin_render());
    s.finish_render();
    assert!(!s.begin_render());
}

#[test]
fn active_window_routes_input() {
    let mut m: PopupManager<u8> = PopupManager::new(true);
    let a = m.insert_popup(popup(10, Some(3)), 0);
    let mut service = PopupService::new(m);
    assert_eq!(service.get_active_window(1, 1), ActiveWindow::Main);
    assert_eq!(service.get_active_window(10, 1), ActiveWindow::Popup(a));
    assert_eq!(service.get_active_window(11, 1), ActiveWindow::NoWindow);
    assert_eq!(service.update_scale_for_fractional_scale_object(3), Some(a));
    assert_eq!(
        service.popup_entry(PopupHandle::new(a)).unwrap().render.render_state,
        RenderState::Dirty
    );
    assert_eq!(service.update_scale_for_fractional_scale_object(4), None);
    assert_eq!(service.find_by_fractional_scale(3), Some(PopupHandle::new(a)));
    assert_eq!(service.find_by_xdg_popup(2010), Some(PopupHandle::new(a)));
    assert_eq!(service.find_by_xdg_surface(1010), Some(PopupHandle::new(a)));
    assert_eq!(service.find_by_surface(10), Some(PopupHandle::new(a)));
}

#[test]
fn service_shows_and_closes() {
    let m: PopupManager<&str> = PopupManager::new(true);
    let mut service = PopupService::new(m);
    assert!(service.has_xdg_shell());
    service.show("menu");
    assert_eq!(service.take_pending_popup(), Some("menu"));
    assert_eq!(service.take_pending_popup(), None);
    assert_eq!(service.close_current(), None);
    assert_eq!(service.current_popup_key(), None);
    assert_eq!(service.close(PopupHandle::new(0)).unwrap(), None);
}

#[test]
fn configured_popup_through_service() {
    let mut m: PopupManager<u8> = PopupManager::new(true);
    let a = m.insert_popup(popup(10, None), 0);
    let mut service = PopupService::new(m);
    service.mark_popup_configured(PopupHandle::new(a));
    assert!(service.popup_entry(PopupHandle::new(a)).unwrap().render.configured);
    assert_eq!(service.manager().current_popup_key(), Some(a));
    assert_eq!(service.close_current(), Some({
        let mut e = popup(10, None);
        e.render.configured = true;
        e
    }));
}

#[test]
fn popup_window_handle_forgets_its_popup_when_closed() {
    let mut w = PopupWindowHandle::new();
    assert_eq!(w.popup_key(), None);
    assert_eq!(w.close_popup(), None);
    w.set_popup_id(PopupHandle::new(3));
    assert_eq!(w.popup_key(), Some(3));
    assert_eq!(w.close_popup(), Some(PopupHandle::new(3)));
    assert_eq!(w.popup_key(), None);
}

#[test]
fn xdg_popup_configure_marks_and_dirties() {
    let mut m: PopupManager<u8> = PopupManager::new(true);
    let a = m.insert_popup(popup(10, None), 0);
    let b = m.insert_popup(popup(20, None), 0);
    assert_eq!(m.handle_xdg_popup_configure(2020), Some(b));
    let eb = m.popup_entry(b).unwrap();
    assert!(eb.render.configured);
    assert_eq!(eb.render.render_state, RenderState::Dirty);
    let ea = m.popup_entry(a).unwrap();
    assert!(!ea.render.configured);
    assert_eq!(ea.render.render_state, RenderState::Dirty);
    assert_eq!(m.handle_xdg_popup_configure(9999), None);
}

#[test]
fn xdg_popup_done_closes_that_popup() {
    let mut m: PopupManager<u8> = PopupManager::new(true);
    let a = m.insert_popup(popup(10, None), 0);
    let b = m.insert_popup(popup(20, None), 0);
    assert_eq!(m.handle_xdg_popup_done(2010), Some((a, popup(10, None))));
    assert_eq!(m.popup_keys(), vec![b]);
    assert_eq!(m.current_popup_key(), Some(b));
    assert_eq!(m.handle_xdg_popup_done(2010), None);
}

#[test]
fn popup_info_returns_request_and_serial() {
    let mut m: PopupManager<&str> = PopupManager::new(true);
    let a = m.insert_popup(popup(10, None), "menu");
    let b = m.insert_popup(popup(20, None), "tooltip");
    assert_eq!(m.get_popup_info(a), Some((&"menu", 5)));
    assert_eq!(m.get_popup_info(b), Some((&"tooltip", 5)));
    m.destroy_popup(a);
    assert_eq!(m.get_popup_info(a), None);
    assert_eq!(m.get_popup_info(b), Some((&"tooltip", 5)));
    let c = m.insert_popup(popup(30, None), "menu2");
    assert_eq!(m.get_popup_info(c), Some((&"menu2", 5)));
    let service = PopupService::new(m);
    assert_eq!(service.get_popup_info(PopupHandle::new(c)), Some((&"menu2", 5)));
    assert_eq!(service.get_popup_info(PopupHandle::new(99)), None);
}

fn key(output: u64) -> ShellSurfaceKey {
    ShellSurfaceKey::new(OutputHandle { id: output }, SurfaceHandle { id: 1 })
}

#[test]
fn popup_owner_is_the_first_manager_with_that_surface() {
    let mut a: PopupManager<u8> = PopupManager::new(true);
    let mut b: PopupManager<u8> = PopupManager::new(true);
    a.insert_popup(popup(10, None), 0);
    b.insert_popup(popup(20, None), 0);
    b.insert_popup(popup(10, None), 0);
    let owners = vec![(key(1), &a), (key(2), &b)];
    assert_eq!(find_popup_owner(&owners, 10), Some(key(1)));
    assert_eq!(find_popup_owner(&owners, 20), Some(key(2)));
    assert_eq!(find_popup_owner(&owners, 30), None);
    assert_eq!(find_popup_owner::<u8>(&Vec::new(), 10), None);
}

#[test]
fn pending_popup_is_taken_from_the_first_manager_that_has_one() {
    let a: PopupManager<&str> = PopupManager::new(true);
    let mut b: PopupManager<&str> = PopupManager::new(true);
    let mut c: PopupManager<&str> = PopupManager::new(true);
    assert_eq!(first_pending_manager(&vec![&a, &b, &c]), None);
    c.set_pending_popup("later");
    b.set_pending_popup("menu");
    assert_eq!(first_pending_manager(&vec![&a, &b, &c]), Some(1));
    assert!(popups_supported(&vec![&a, &b]));
    let none: PopupManager<&str> = PopupManager::new(false);
    assert!(!popups_supported(&vec![&none, &a]));
    assert!(!popups_supported::<&str>(&Vec::new()));
}
