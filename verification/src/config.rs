use vstd::prelude::*;
use crate::domain::{AnchorEdges, KeyboardInteractivity, Layer};

verus! {

/// The `zwlr_layer_shell_v1.layer` wire value of a layer.
pub open spec fn wlr_layer_value(layer: Layer) -> u32 {
    match layer {
        Layer::Background => 0,
        Layer::Bottom => 1,
        Layer::Top => 2,
        Layer::Overlay => 3,
    }
}

/// The `zwlr_layer_surface_v1.keyboard_interactivity` wire value of a mode.
pub open spec fn wlr_keyboard_interactivity_value(mode: KeyboardInteractivity) -> u32 {
    match mode {
        KeyboardInteractivity::NoFocus => 0,
        KeyboardInteractivity::Exclusive => 1,
        KeyboardInteractivity::OnDemand => 2,
    }
}

/// Bit `bit` of `bits` is set.
pub open spec fn has_bit(bits: u32, bit: u32) -> bool {
    bits & bit != 0
}

/// The layer as the layer-shell protocol encodes it.
pub fn convert_layer(layer: Layer) -> (v: u32)
    ensures
        v == wlr_layer_value(layer),
{
    match layer {
        Layer::Background => 0,
        Layer::Bottom => 1,
        Layer::Top => 2,
        Layer::Overlay => 3,
    }
}

/// The keyboard interactivity mode as the layer-shell protocol encodes it.
pub fn convert_keyboard_interactivity(mode: KeyboardInteractivity) -> (v: u32)
    ensures
        v == wlr_keyboard_interactivity_value(mode),
{
    match mode {
        KeyboardInteractivity::NoFocus => 0,
        KeyboardInteractivity::Exclusive => 1,
        KeyboardInteractivity::OnDemand => 2,
    }
}

/// The anchor bitfield of the layer-shell protocol (top 1, bottom 2, left 4,
/// right 8): the union of the flags of the edges that are set.
pub fn convert_anchor(anchor: AnchorEdges) -> (bits: u32)
    ensures
        bits < 16,
        has_bit(bits, 1) == anchor.top,
        has_bit(bits, 2) == anchor.bottom,
        has_bit(bits, 4) == anchor.left,
        has_bit(bits, 8) == anchor.right,
{
    let top_bit: u32 = if anchor.has_top() { 1 } else { 0 };
    let bottom_bit: u32 = if anchor.has_bottom() { 2 } else { 0 };
    let left_bit: u32 = if anchor.has_left() { 4 } else { 0 };
    let right_bit: u32 = if anchor.has_right() { 8 } else { 0 };
    let mut result: u32 = 0;
    result = result | top_bit;
    result = result | bottom_bit;
    result = result | left_bit;
    result = result | right_bit;
    assert(result < 16 && ((result & 1 != 0) == (top_bit == 1)) && ((result & 2 != 0) == (
    bottom_bit == 2)) && ((result & 4 != 0) == (left_bit == 4)) && ((result & 8 != 0) == (
    right_bit == 8))) by (bit_vector)
        requires
            result == (((0u32 | top_bit) | bottom_bit) | left_bit) | right_bit,
            top_bit == 0 || top_bit == 1,
            bottom_bit == 0 || bottom_bit == 2,
            left_bit == 0 || left_bit == 4,
            right_bit == 0 || right_bit == 8,
    ;
    result
}

} // verus!
