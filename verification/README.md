# layer_shika

The core of a Wayland layer-shell toolkit, written in Verus: the bookkeeping
and the decisions behind layer surfaces on several outputs, their popups and a
session lock, each with a contract that Verus proves.

## Layout

- `src/` — the verified library.
  - `domain.rs`, `config.rs`: layers, anchors, keyboard interactivity, lock
    states, popup positioning and their protocol wire values.
  - `outputs.rs`, `app_state.rs`: output handles, the output registry and the
    per-output surface tables with their lookups.
  - `session_lock.rs`: the session-lock life cycle, one lock surface per
    output, and pointer and keyboard focus on lock surfaces.
  - `popup_slab.rs`, `popup_manager.rs`, `popup_service.rs`,
    `popup_window.rs`: popups kept in a `slab::Slab`, found again by their
    protocol ids, and their render state.
  - the remaining modules: small decisions (sizes on configure, scale events,
    pointer buttons, popup resizing) and helpers.
- `tests/` — tests on concrete values.
- `app/` — the Wayland side: protocol conversions, output and keyboard events,
  error types with `std::error::Error`, and the floating-point scale math.
