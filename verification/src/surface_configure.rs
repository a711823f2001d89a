use vstd::prelude::*;
use crate::domain::LayerShikaError;

verus! {

/// The size a layer surface takes when the compositor configures it with
/// `width` x `height`, on an output `output_width` pixels wide.
/// `scaled_output_width` and `scaled_height` are the output width and the
/// configured height of the surface brought to logical units (the caller
/// divides by the scale factor and rounds when the scale is above 1).
///
/// A width of 0, or of 1 on an output wider than one pixel, means "choose": the
/// surface spans the output. A height of 0 means "choose": the surface keeps
/// its configured height. The width never exceeds the output's.
pub open spec fn spec_configure_size(
    width: u32,
    height: u32,
    output_width: u32,
    scaled_output_width: u32,
    scaled_height: u32,
) -> (u32, u32) {
    let target_width = if width == 0 || (width == 1 && output_width > 1) {
        scaled_output_width
    } else {
        width
    };
    let target_height = if height > 0 {
        height
    } else {
        scaled_height
    };
    (if target_width < output_width { target_width } else { output_width }, target_height)
}

/// A nonzero height from the compositor is taken as it is, and only a height
/// of 0 keeps the surface's own; a width asking to choose spans the output,
/// any other width is kept; the width never exceeds the output's.
pub proof fn lemma_configure_size_follows_compositor(
    width: u32,
    height: u32,
    output_width: u32,
    scaled_output_width: u32,
    scaled_height: u32,
)
    ensures
        ({
            let r = spec_configure_size(
                width,
                height,
                output_width,
                scaled_output_width,
                scaled_height,
            );
            &&& height > 0 ==> r.1 == height
            &&& height == 0 ==> r.1 == scaled_height
            &&& r.0 <= output_width
            &&& (width == 0 || (width == 1 && output_width > 1)) ==> (r.0 == scaled_output_width
                || r.0 == output_width) && r.0 >= (if scaled_output_width < output_width {
                scaled_output_width
            } else {
                output_width
            })
            &&& !(width == 0 || (width == 1 && output_width > 1)) && width <= output_width ==> r.0
                == width
            &&& width > output_width ==> r.0 == output_width
        }),
{
}

pub fn configure_size(
    width: u32,
    height: u32,
    output_width: u32,
    scaled_output_width: u32,
    scaled_height: u32,
) -> (r: (u32, u32))
    ensures
        r == spec_configure_size(width, height, output_width, scaled_output_width, scaled_height),
        r.0 <= output_width,
        height > 0 ==> r.1 == height,
        height == 0 ==> r.1 == scaled_height,
        (width == 0 || (width == 1 && output_width > 1)) ==> r.0 == if scaled_output_width
            < output_width {
            scaled_output_width
        } else {
            output_width
        },
        !(width == 0 || (width == 1 && output_width > 1)) ==> r.0 == if width < output_width {
            width
        } else {
            output_width
        },
{
    let target_width = if width == 0 || (width == 1 && output_width > 1) {
        scaled_output_width
    } else {
        width
    };
    let target_height = if height > 0 {
        height
    } else {
        scaled_height
    };
    let clamped_width = if target_width < output_width {
        target_width
    } else {
        output_width
    };
    (clamped_width, target_height)
}

/// An output mode dimension as a size: negative values (which the protocol
/// does not send) become 0.
pub fn output_dimension(value: i32) -> (r: u32)
    ensures
        value >= 0 ==> r == value,
        value < 0 ==> r == 0,
{
    if value >= 0 {
        value as u32
    } else {
        0
    }
}

/// A rendering surface needs a nonzero width and height.
pub fn check_surface_size(width: u32, height: u32) -> (r: Result<(), LayerShikaError>)
    ensures
        r is Ok <==> (width != 0 && height != 0),
        width == 0 ==> (r matches Err(LayerShikaError::InvalidInput { message }) && message@
            == "Width cannot be zero"@),
        width != 0 && height == 0 ==> (r matches Err(LayerShikaError::InvalidInput { message })
            && message@ == "Height cannot be zero"@),
{
    if width == 0 {
        return Err(LayerShikaError::InvalidInput { message: "Width cannot be zero".to_string() });
    }
    if height == 0 {
        return Err(LayerShikaError::InvalidInput { message: "Height cannot be zero".to_string() });
    }
    Ok(())
}

} // verus!
