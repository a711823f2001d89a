use vstd::prelude::*;
use crate::domain::LayerShikaError;

verus! {

/// Which surfaces a preferred-scale event concerns.
#[derive(Clone, Copy, Debug, PartialEq, Eq, Structural)]
pub enum FractionalScaleTarget {
    /// The fractional-scale object of the main surface sent it.
    MainSurface,
    /// Another object sent it: it is one of the popups'.
    Popups,
}

/// A preferred scale from object `fractional_scale_id` applies to the main
/// surface when that is the main surface's fractional-scale object.
pub fn fractional_scale_target(main_fractional_scale_id: Option<u32>, fractional_scale_id: u32) -> (t:
    FractionalScaleTarget)
    ensures
        t == if main_fractional_scale_id == Some(fractional_scale_id) {
            FractionalScaleTarget::MainSurface
        } else {
            FractionalScaleTarget::Popups
        },
{
    match main_fractional_scale_id {
        Some(id) => {
            if id == fractional_scale_id {
                FractionalScaleTarget::MainSurface
            } else {
                FractionalScaleTarget::Popups
            }
        },
        None => FractionalScaleTarget::Popups,
    }
}

/// After a scale change the surface is resized at its current logical size,
/// when it has one.
pub fn resize_after_scale_change(logical_width: u32, logical_height: u32) -> (b: bool)
    ensures
        b == (logical_width > 0 && logical_height > 0),
{
    logical_width > 0 && logical_height > 0
}

/// `r` is an invalid-input error with text `message`.
pub open spec fn invalid_input_with(r: Result<(), LayerShikaError>, message: Seq<char>) -> bool {
    r matches Err(LayerShikaError::InvalidInput { message: m }) && m@ == message
}

/// A main window needs a component definition and a window before its
/// component is created: the first of them that is missing is reported.
pub fn check_component_parts(has_component_definition: bool, has_window: bool) -> (r: Result<
    (),
    LayerShikaError,
>)
    ensures
        r is Ok <==> (has_component_definition && has_window),
        !has_component_definition ==> invalid_input_with(r, "Component definition is required"@),
        has_component_definition && !has_window ==> invalid_input_with(r, "Window is required"@),
{
    if !has_component_definition {
        return Err(
            LayerShikaError::InvalidInput { message: "Component definition is required".to_string() },
        );
    }
    if !has_window {
        return Err(LayerShikaError::InvalidInput { message: "Window is required".to_string() });
    }
    Ok(())
}

/// Once its component exists, a main window needs a connection, a surface, a
/// layer surface and a pointer, checked in that order: the first that is
/// missing is reported.
pub fn check_surface_parts(
    has_connection: bool,
    has_surface: bool,
    has_layer_surface: bool,
    has_pointer: bool,
) -> (r: Result<(), LayerShikaError>)
    ensures
        r is Ok <==> (has_connection && has_surface && has_layer_surface && has_pointer),
        !has_connection ==> invalid_input_with(r, "Connection is required"@),
        has_connection && !has_surface ==> invalid_input_with(r, "Surface is required"@),
        has_connection && has_surface && !has_layer_surface ==> invalid_input_with(r, "Layer surface is required"@),
        has_connection && has_surface && has_layer_surface && !has_pointer ==> invalid_input_with(r, "Pointer is required"@),
{
    if !has_connection {
        return Err(LayerShikaError::InvalidInput { message: "Connection is required".to_string() });
    }
    if !has_surface {
        return Err(LayerShikaError::InvalidInput { message: "Surface is required".to_string() });
    }
    if !has_layer_surface {
        return Err(
            LayerShikaError::InvalidInput { message: "Layer surface is required".to_string() },
        );
    }
    if !has_pointer {
        return Err(LayerShikaError::InvalidInput { message: "Pointer is required".to_string() });
    }
    Ok(())
}

} // verus!
