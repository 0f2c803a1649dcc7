//! The kind of a component: a plain component or one of the two frame kinds.

use vstd::prelude::*;

verus! {

/// The possible values of a component's type.
#[derive(Debug, Clone, Copy, PartialEq, Eq, Structural)]
pub enum ComponentType {
    Component,
    ConfigurationFrame,
    AggregationFrame,
}

impl ComponentType {
    /// The label of each type, as a sequence of characters.
    pub open spec fn label_text(self) -> Seq<char> {
        match self {
            ComponentType::Component => "Component"@,
            ComponentType::ConfigurationFrame => "Configuration Frame"@,
            ComponentType::AggregationFrame => "Aggregation Frame"@,
        }
    }

    /// Whether a component of this type may contain other components.
    pub open spec fn is_frame(self) -> bool {
        self != ComponentType::Component
    }

    /// Return the label corresponding to this type.
    pub fn label(&self) -> (text: &'static str)
        ensures
            text@ == self.label_text(),
    {
        match self {
            ComponentType::Component => "Component",
            ComponentType::ConfigurationFrame => "Configuration Frame",
            ComponentType::AggregationFrame => "Aggregation Frame",
        }
    }
}

} // verus!
