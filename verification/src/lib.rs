//! Verified core of a Wayland layer-shell integration: registries of surfaces,
//! outputs and popups, the session-lock state machine, input focus tracking and
//! the small decisions that drive rendering and configuration.
pub mod event_context;
pub mod scale_coordinator;
pub mod domain;
pub mod config;
pub mod session_lock;
pub mod popup_window;
pub mod popup_slab;
pub mod popup_manager;
pub mod popup_service;
pub mod outputs;
pub mod app_state;
pub mod text;
pub mod surface_configure;
pub mod platform;
pub mod facade;
pub mod window_events;
pub mod pointer_utils;
pub mod input_state;
pub mod system;
pub mod builder;
pub mod surface_state;
