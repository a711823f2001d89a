use vstd::prelude::*;

verus! {

/// The state of a shell builder that has no UI component yet.
pub struct NeedsComponent;

/// The state of a shell builder that has its UI component definition `D`.
pub struct HasComponent<D> {
    pub component_definition: D,
}

impl NeedsComponent {
    /// Gives the builder its component: the next state.
    pub fn with_component<D>(self, component_definition: D) -> (s: HasComponent<D>)
        ensures
            s.component_definition == component_definition,
    {
        HasComponent { component_definition }
    }
}

} // verus!
