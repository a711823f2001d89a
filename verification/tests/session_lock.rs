use layer_shika::domain::{LayerShikaError, LockState};
use layer_shika::session_lock::{LockScalingMode, LockSurfaceEntry, SessionLockManager};

fn entry(output: u32, surface: u32, lock_surface: u32) -> LockSurfaceEntry {
    LockSurfaceEntry::new(output, surface, lock_surface, None, false)
}

fn locked_manager() -> SessionLockManager {
    let mut m = SessionLockManager::new();
    m.begin_activate().unwrap();
    m.insert_lock_surface(entry(1, 10, 100));
    m.insert_lock_surface(entry(2, 20, 200));
    m.handle_locked();
    m
}

#[test]
fn lock_cycle_returns_to_inactive() {
    let mut m = SessionLockManager::new();
    assert_eq!(m.state(), LockState::Inactive);
    assert!(m.begin_activate().is_ok());
    assert_eq!(m.state(), LockState::Locking);
    m.insert_lock_surface(entry(1, 10, 100));
    m.handle_locked();
    assert_eq!(m.state(), LockState::Locked);
    let removed = m.deactivate().unwrap();
    assert_eq!(removed, vec![entry(1, 10, 100)]);
    assert_eq!(m.state(), LockState::Unlocking);
    assert_eq!(m.lock_surface_count(), 0);
    let rest = m.handle_finished();
    assert!(rest.is_empty());
    assert_eq!(m.state(), LockState::Inactive);
    assert!(m.begin_activate().is_ok());
}

#[test]
fn activation_refused_while_locking() {
    let mut m = SessionLockManager::new();
    m.begin_activate().unwrap();
    match m.begin_activate() {
        Err(LayerShikaError::InvalidInput { message }) => {
            assert_eq!(message, "Session lock cannot activate in state Locking")
        }
        other => panic!("unexpected {:?}", other),
    }
    assert_eq!(m.state(), LockState::Locking);
}

#[test]
fn deactivation_refused_when_inactive() {
    let mut m = SessionLockManager::new();
    match m.deactivate() {
        Err(LayerShikaError::InvalidInput { message }) => {
            assert_eq!(message, "Session lock cannot deactivate in state Inactive")
        }
        other => panic!("unexpected {:?}", other),
    }
    let mut m = locked_manager();
    m.deactivate().unwrap();
    match m.deactivate() {
        Err(LayerShikaError::InvalidInput { message }) => {
            assert_eq!(message, "Session lock cannot deactivate in state Unlocking")
        }
        other => panic!("unexpected {:?}", other),
    }
}

#[test]
fn locked_confirmation_only_moves_locking() {
    let mut m = SessionLockManager::new();
    m.handle_locked();
    assert_eq!(m.state(), LockState::Inactive);
    let mut m = locked_manager();
    m.handle_locked();
    assert_eq!(m.state(), LockState::Locked);
}

#[test]
fn hotplugged_output_gets_surface_only_when_locked() {
    let m = SessionLockManager::new();
    assert_eq!(m.prepare_add_output(3).unwrap(), false);
    let mut m = SessionLockManager::new();
    m.begin_activate().unwrap();
    assert_eq!(m.prepare_add_output(3).unwrap(), false);
    let m = locked_manager();
    assert_eq!(m.prepare_add_output(1).unwrap(), false);
    assert_eq!(m.prepare_add_output(3).unwrap(), true);
}

#[test]
fn focus_follows_surfaces() {
    let mut m = locked_manager();
    assert!(!m.handle_pointer_enter(99));
    assert!(!m.has_active_pointer());
    assert!(m.handle_pointer_enter(20));
    assert_eq!(m.active_pointer_surface_id(), Some(20));
    assert_eq!(m.pointer_target(), Some(entry(2, 20, 200)));
    assert!(m.handle_axis_source());
    assert!(m.handle_keyboard_enter(20));
    assert!(!m.handle_keyboard_leave(10));
    assert_eq!(m.keyboard_focus_surface_id(), Some(20));
    let removed = m.remove_output(2);
    assert_eq!(removed, Some(entry(2, 20, 200)));
    assert!(!m.has_active_pointer());
    assert!(!m.has_keyboard_focus());
    assert!(!m.is_lock_surface(20));
    assert!(m.is_lock_surface(10));
    assert_eq!(m.remove_output(2), None);
    assert!(m.handle_pointer_enter(10));
    assert_eq!(m.handle_pointer_leave(), Some(10));
    assert_eq!(m.handle_pointer_leave(), None);
    assert!(!m.handle_axis_stop());
}

#[test]
fn deactivation_clears_focus() {
    let mut m = locked_manager();
    m.handle_pointer_enter(10);
    m.handle_keyboard_enter(20);
    let removed = m.deactivate().unwrap();
    assert_eq!(removed.len(), 2);
    assert!(!m.has_active_pointer());
    assert!(!m.has_keyboard_focus());
    assert_eq!(m.pointer_target(), None);
    assert_eq!(m.keyboard_target(), None);
}

#[test]
fn configure_records_size_and_mode() {
    let mut m = SessionLockManager::new();
    m.begin_activate().unwrap();
    m.insert_lock_surface(LockSurfaceEntry::new(1, 10, 100, Some(7), true));
    m.insert_lock_surface(LockSurfaceEntry::new(2, 20, 200, Some(8), false));
    m.insert_lock_surface(LockSurfaceEntry::new(3, 30, 300, None, true));
    assert_eq!(m.handle_configure(100, 1920, 1080), Some(LockScalingMode::FractionalWithViewport));
    assert_eq!(m.handle_configure(200, 800, 600), Some(LockScalingMode::FractionalOnly));
    assert_eq!(m.handle_configure(300, 640, 480), Some(LockScalingMode::Integer));
    assert_eq!(m.handle_configure(999, 1, 1), None);
    let e = m.find_surface_by_lock_surface_id(100).unwrap();
    assert_eq!((e.width, e.height), (1920, 1080));
    assert!(m.needs_component(100));
    m.mark_component_created(100);
    assert!(!m.needs_component(100));
    assert!(!m.needs_component(999));
}

#[test]
fn fractional_scale_relayouts_configured_surfaces() {
    let mut m = SessionLockManager::new();
    m.begin_activate().unwrap();
    m.insert_lock_surface(LockSurfaceEntry::new(1, 10, 100, Some(7), false));
    m.insert_lock_surface(LockSurfaceEntry::new(2, 20, 200, Some(7), false));
    m.handle_configure(200, 640, 480);
    let hit = m.handle_fractional_scale(7);
    assert_eq!(hit.len(), 1);
    assert_eq!(hit[0].lock_surface_id, 200);
    assert!(m.handle_fractional_scale(8).is_empty());
}

#[test]
fn reinserting_an_output_replaces_its_surface() {
    let mut m = SessionLockManager::new();
    m.begin_activate().unwrap();
    m.insert_lock_surface(entry(1, 10, 100));
    m.insert_lock_surface(entry(1, 11, 101));
    assert_eq!(m.lock_surface_count(), 1);
    assert_eq!(m.surface_for_output(1), Some(entry(1, 11, 101)));
    assert_eq!(m.find_surface_by_surface_id(10), None);
}

#[test]
fn scaling_mode_selection() {
    assert_eq!(LockScalingMode::select(true, true), LockScalingMode::FractionalWithViewport);
    assert_eq!(LockScalingMode::select(true, false), LockScalingMode::FractionalOnly);
    assert_eq!(LockScalingMode::select(false, true), LockScalingMode::Integer);
    assert!(LockScalingMode::FractionalOnly.sizes_window_logically());
    assert!(!LockScalingMode::Integer.sizes_window_logically());
    assert!(LockScalingMode::FractionalWithViewport.uses_viewport());
    assert!(!LockScalingMode::FractionalOnly.uses_viewport());
}

#[test]
fn component_is_created_once_over_repeated_configures() {
    let mut m = SessionLockManager::new();
    m.begin_activate().unwrap();
    m.insert_lock_surface(entry(1, 10, 100));
    let mut created = 0;
    for (w, h) in [(800, 600), (1024, 768), (800, 600)] {
        m.handle_configure(100, w, h);
        if m.needs_component(100) {
            created += 1;
            m.mark_component_created(100);
        }
    }
    assert_eq!(created, 1);
}
