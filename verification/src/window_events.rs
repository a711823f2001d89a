use vstd::prelude::*;

verus! {

/// Where a scale-factor change came from.
#[derive(Clone, Copy, Debug, PartialEq, Eq, Structural)]
pub enum ScaleSource {
    FractionalScale,
    IntegerScale,
}

} // verus!
