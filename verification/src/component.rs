//! Components: the instantiated resources of the diagram.

use vstd::prelude::*;
use crate::component_type::ComponentType;
use crate::graph::{Graph, GraphView};
use crate::ids::{ComponentId, NodeId, SchemaId, SchemaVariantId};

verus! {

/// A resource instantiated from a schema variant, with its node on the diagram.
#[derive(Debug, Clone, Copy, PartialEq, Eq, Structural)]
pub struct Component {
    pub id: ComponentId,
    pub node_id: NodeId,
    pub schema_id: SchemaId,
    pub schema_variant_id: SchemaVariantId,
    pub component_type: ComponentType,
}

/// Why a component operation failed.
#[derive(Debug, Clone, Copy, PartialEq, Eq, Structural)]
pub enum ComponentError {
    /// No component has this identifier.
    NotFound(ComponentId),
}

impl GraphView {
    /// Whether a component with this identifier is stored.
    pub open spec fn has_component(self, id: ComponentId) -> bool {
        id.0 < self.components.len()
    }

    /// The stored component with this identifier.
    pub open spec fn component(self, id: ComponentId) -> Component {
        self.components[id.0 as int]
    }

    /// The component that stands at a node, if one does.
    pub open spec fn component_for_node(self, node_id: NodeId) -> Option<Component> {
        if node_id.0 < self.components.len() {
            Some(self.components[node_id.0 as int])
        } else {
            None
        }
    }

    /// The graph with one more component.
    pub open spec fn with_component(self, component: Component) -> GraphView {
        GraphView { components: self.components.push(component), ..self }
    }

    /// The graph after a component changed its type.
    pub open spec fn with_component_type(
        self,
        id: ComponentId,
        component_type: ComponentType,
    ) -> GraphView {
        GraphView {
            components: self.components.update(
                id.0 as int,
                Component { component_type, ..self.component(id) },
            ),
            ..self
        }
    }

    /// A graph stays well formed when its components change and each still has
    /// the identifier and the node that name its position.
    pub proof fn lemma_with_components_wf(self, after: GraphView)
        requires
            self.wf(),
            after == (GraphView { components: after.components, ..self }),
            forall|i: int| 0 <= i < after.components.len() ==> #[trigger] after.component_wf(i),
        ensures
            after.wf(),
            self.scaffolded() ==> after.scaffolded(),
    {
        assert forall|i: int| 0 <= i < after.sockets.len() implies #[trigger] after.socket_wf(i) by {
            assert(self.socket_wf(i));
        }
        assert forall|i: int| 0 <= i < after.internal_providers.len() implies #[trigger]
            after.internal_provider_wf(i) by {
            assert(self.internal_provider_wf(i));
        }
        assert forall|i: int| 0 <= i < after.external_providers.len() implies #[trigger]
            after.external_provider_wf(i) by {
            assert(self.external_provider_wf(i));
        }
        assert forall|i: int| 0 <= i < after.edges.len() implies #[trigger] after.edge_wf(i) by {
            assert(self.edge_wf(i));
        }
        assert forall|i: int| 0 <= i < after.connections.len() implies #[trigger]
            after.connection_wf(i) by {
            assert(self.connection_wf(i));
        }
        self.lemma_same_props_wf(after);
        self.lemma_same_values_wf(after);
        self.lemma_same_prototypes_wf(after);
    }
}

impl Component {
    /// Instantiates a component from a schema variant, with its node.
    pub fn new(
        ctx: &mut Graph,
        schema_id: SchemaId,
        schema_variant_id: SchemaVariantId,
        component_type: ComponentType,
    ) -> (component: Component)
        requires
            old(ctx).wf(),
        ensures
            final(ctx).wf(),
            old(ctx).scaffolded() ==> final(ctx).scaffolded(),
            component.id.0 == old(ctx)@.components.len(),
            component.node_id.0 == old(ctx)@.components.len(),
            component.schema_id == schema_id,
            component.schema_variant_id == schema_variant_id,
            component.component_type == component_type,
            final(ctx)@ == old(ctx)@.with_component(component),
    {
        let position = ctx.component_count() as u64;
        let component = Component {
            id: ComponentId(position),
            node_id: NodeId(position),
            schema_id,
            schema_variant_id,
            component_type,
        };
        ctx.components.push(component);
        proof {
            let before = old(ctx)@;
            let after = before.with_component(component);
            assert forall|i: int| 0 <= i < after.components.len() implies #[trigger]
                after.component_wf(i) by {
                if i < before.components.len() {
                    assert(before.component_wf(i));
                }
            }
            before.lemma_with_components_wf(after);
        }
        component
    }

    /// The stored component with this identifier, if there is one.
    pub fn get_by_id(ctx: &Graph, id: ComponentId) -> (found: Option<Component>)
        ensures
            match found {
                Some(component) => ctx@.has_component(id) && component == ctx@.component(id),
                None => !ctx@.has_component(id),
            },
    {
        match Graph::position(id.0, ctx.component_count()) {
            Some(i) => Some(ctx.components[i]),
            None => None,
        }
    }

    /// The component that stands at a node, if one does.
    pub fn find_for_node(ctx: &Graph, node_id: NodeId) -> (found: Option<Component>)
        ensures
            found == ctx@.component_for_node(node_id),
    {
        match Graph::position(node_id.0, ctx.component_count()) {
            Some(i) => Some(ctx.components[i]),
            None => None,
        }
    }

    /// The type of a component.
    pub fn get_type(&self) -> (component_type: ComponentType)
        ensures
            component_type == self.component_type,
    {
        self.component_type
    }

    /// Changes the type of a stored component.
    pub fn set_type(ctx: &mut Graph, id: ComponentId, component_type: ComponentType) -> (set: Result<
        (),
        ComponentError,
    >)
        requires
            old(ctx).wf(),
        ensures
            final(ctx).wf(),
            old(ctx).scaffolded() ==> final(ctx).scaffolded(),
            match set {
                Ok(()) => old(ctx)@.has_component(id) && final(ctx)@ == old(
                    ctx,
                )@.with_component_type(id, component_type),
                Err(error) => !old(ctx)@.has_component(id) && error == ComponentError::NotFound(
                    id,
                ) && final(ctx)@ == old(ctx)@,
            },
    {
        let position = match Graph::position(id.0, ctx.component_count()) {
            Some(i) => i,
            None => {
                return Err(ComponentError::NotFound(id));
            },
        };
        ctx.components[position].component_type = component_type;
        proof {
            let before = old(ctx)@;
            let after = before.with_component_type(id, component_type);
            assert forall|i: int| 0 <= i < after.components.len() implies #[trigger]
                after.component_wf(i) by {
                assert(before.component_wf(i));
            }
            before.lemma_with_components_wf(after);
        }
        Ok(())
    }
}

} // verus!
