//! Edges and connections: the links between the sockets of components.

use vstd::prelude::*;
use crate::component::Component;
use crate::graph::{Graph, GraphView};
use crate::ids::{
    ComponentId, EdgeId, ExternalProviderId, InternalProviderId, NodeId, SocketId,
};
use crate::prototype::AttributePrototypeArgument;
use crate::provider::{ExternalProvider, InternalProvider, ProviderId};
use crate::socket::{Socket, SocketArity};

verus! {

/// What a link means.
#[derive(Debug, Clone, Copy, PartialEq, Eq, Structural)]
pub enum EdgeKind {
    /// Data flows along the link.
    Configuration,
    /// The link only records structure, such as membership in a frame.
    Symbolic,
}

/// The kind of object at an end of an edge.
#[derive(Debug, Clone, Copy, PartialEq, Eq, Structural)]
pub enum VertexObjectKind {
    Configuration,
}

/// A directed link of the graph, from its tail to its head.
#[derive(Debug, Clone, Copy, PartialEq, Eq, Structural)]
pub struct Edge {
    pub id: EdgeId,
    pub kind: EdgeKind,
    pub head_node_id: NodeId,
    pub head_object_kind: VertexObjectKind,
    pub head_object_id: ComponentId,
    pub head_socket_id: SocketId,
    pub tail_node_id: NodeId,
    pub tail_object_kind: VertexObjectKind,
    pub tail_object_id: ComponentId,
    pub tail_socket_id: SocketId,
}

/// One end of a connection.
#[derive(Debug, Clone, Copy, PartialEq, Eq, Structural)]
pub struct Vertex {
    pub node_id: NodeId,
    pub socket_id: SocketId,
}

/// A link as the diagram shows it, from its source to its destination. It
/// carries the identifier of the edge that was made with it.
#[derive(Debug, Clone, Copy, PartialEq, Eq, Structural)]
pub struct Connection {
    pub id: EdgeId,
    pub classification: EdgeKind,
    pub source: Vertex,
    pub destination: Vertex,
}

/// Why an edge or a connection could not be made.
#[derive(Debug, Clone, Copy, PartialEq, Eq, Structural)]
pub enum EdgeError {
    /// No component stands at this node.
    NodeNotFound(NodeId),
    /// No socket has this identifier.
    SocketNotFound(SocketId),
    /// No explicit internal provider stands behind this socket.
    InternalProviderNotFoundForSocket(SocketId),
    /// No external provider stands behind this socket.
    ExternalProviderNotFoundForSocket(SocketId),
    /// No internal provider has this identifier.
    InternalProviderNotFound(InternalProviderId),
    /// No external provider has this identifier.
    ExternalProviderNotFound(ExternalProviderId),
}

impl Edge {
    /// The edge from a socket of the tail component to a socket of the head component.
    pub open spec fn between(
        id: EdgeId,
        kind: EdgeKind,
        tail: Component,
        tail_socket_id: SocketId,
        head: Component,
        head_socket_id: SocketId,
    ) -> Edge {
        Edge {
            id,
            kind,
            head_node_id: head.node_id,
            head_object_kind: VertexObjectKind::Configuration,
            head_object_id: head.id,
            head_socket_id,
            tail_node_id: tail.node_id,
            tail_object_kind: VertexObjectKind::Configuration,
            tail_object_id: tail.id,
            tail_socket_id,
        }
    }
}

impl GraphView {
    /// The identifier that the next edge gets.
    pub open spec fn next_edge_id(self) -> EdgeId {
        EdgeId(self.edges.len() as u64)
    }

    /// The graph with one more edge.
    pub open spec fn with_edge(self, edge: Edge) -> GraphView {
        GraphView { edges: self.edges.push(edge), ..self }
    }

    /// The graph with a new edge and the connection that shows it on the diagram.
    pub open spec fn with_edge_and_connection(self, edge: Edge) -> GraphView {
        GraphView {
            edges: self.edges.push(edge),
            connections: self.connections.push(
                Connection {
                    id: edge.id,
                    classification: edge.kind,
                    source: Vertex { node_id: edge.tail_node_id, socket_id: edge.tail_socket_id },
                    destination: Vertex {
                        node_id: edge.head_node_id,
                        socket_id: edge.head_socket_id,
                    },
                },
            ),
            ..self
        }
    }

    /// Whether a connection may be made between two sockets of two nodes: a
    /// component stands at each node, and both sockets are stored.
    pub open spec fn connection_allowed(
        self,
        from_node_id: NodeId,
        from_socket_id: SocketId,
        to_node_id: NodeId,
        to_socket_id: SocketId,
    ) -> Result<(), EdgeError> {
        if self.component_for_node(from_node_id) is None {
            Err(EdgeError::NodeNotFound(from_node_id))
        } else if self.component_for_node(to_node_id) is None {
            Err(EdgeError::NodeNotFound(to_node_id))
        } else if !self.has_socket(from_socket_id) {
            Err(EdgeError::SocketNotFound(from_socket_id))
        } else if !self.has_socket(to_socket_id) {
            Err(EdgeError::SocketNotFound(to_socket_id))
        } else {
            Ok(())
        }
    }

    /// The edge that a connection between two sockets of two nodes is made with.
    pub open spec fn connection_edge(
        self,
        from_node_id: NodeId,
        from_socket_id: SocketId,
        to_node_id: NodeId,
        to_socket_id: SocketId,
        kind: EdgeKind,
    ) -> Edge {
        Edge::between(
            self.next_edge_id(),
            kind,
            self.component_for_node(from_node_id).unwrap(),
            from_socket_id,
            self.component_for_node(to_node_id).unwrap(),
            to_socket_id,
        )
    }

    /// Whether the connection at position `i` ends on a socket.
    pub open spec fn is_connection_into(self, socket_id: SocketId, i: int) -> bool {
        0 <= i < self.connections.len() && self.connections[i].destination.socket_id == socket_id
    }

    /// Whether a socket can take one more connection: it takes any number, or
    /// none ends on it yet.
    pub open spec fn has_room(self, socket_id: SocketId) -> bool {
        self.socket(socket_id).arity == SocketArity::Many || forall|i: int|
            !#[trigger] self.is_connection_into(socket_id, i)
    }

    /// A graph stays well formed when it gets an edge with the next
    /// identifier, with or without the connection that shows it.
    pub proof fn lemma_with_edge_wf(self, edge: Edge)
        requires
            self.wf(),
            edge.id.0 == self.edges.len(),
        ensures
            self.with_edge(edge).wf(),
            self.with_edge_and_connection(edge).wf(),
            self.scaffolded() ==> self.with_edge(edge).scaffolded()
                && self.with_edge_and_connection(edge).scaffolded(),
    {
        let one = self.with_edge(edge);
        let both = self.with_edge_and_connection(edge);
        assert forall|i: int| 0 <= i < one.edges.len() implies #[trigger] one.edge_wf(i) by {
            if i < self.edges.len() {
                assert(self.edge_wf(i));
            }
        }
        assert forall|i: int| 0 <= i < both.edges.len() implies #[trigger] both.edge_wf(i) by {
            assert(one.edge_wf(i));
        }
        assert forall|i: int| 0 <= i < one.connections.len() implies #[trigger] one.connection_wf(
            i,
        ) by {
            assert(self.connection_wf(i));
        }
        assert forall|i: int| 0 <= i < both.connections.len() implies #[trigger]
            both.connection_wf(i) by {
            if i < self.connections.len() {
                assert(self.connection_wf(i));
            }
        }
        self.lemma_with_links_wf(one);
        self.lemma_with_links_wf(both);
    }

    /// A graph stays well formed when its edges and connections change and
    /// each is as a well-formed graph wants it.
    pub proof fn lemma_with_links_wf(self, after: GraphView)
        requires
            self.wf(),
            after == (GraphView { edges: after.edges, connections: after.connections, ..self }),
            forall|i: int| 0 <= i < after.edges.len() ==> #[trigger] after.edge_wf(i),
            forall|i: int| 0 <= i < after.connections.len() ==> #[trigger] after.connection_wf(i),
        ensures
            after.wf(),
            self.scaffolded() ==> after.scaffolded(),
    {
        assert forall|i: int| 0 <= i < after.sockets.len() implies #[trigger] after.socket_wf(i) by {
            assert(self.socket_wf(i));
        }
        assert forall|i: int| 0 <= i < after.internal_providers.len() implies #[trigger]
            after.internal_provider_wf(i) by {
            assert(self.internal_provider_wf(i));
        }
        assert forall|i: int| 0 <= i < after.external_providers.len() implies #[trigger]
            after.external_provider_wf(i) by {
            assert(self.external_provider_wf(i));
        }
        assert forall|i: int| 0 <= i < after.components.len() implies #[trigger]
            after.component_wf(i) by {
            assert(self.component_wf(i));
        }
        self.lemma_same_props_wf(after);
        self.lemma_same_values_wf(after);
        self.lemma_same_prototypes_wf(after);
    }
}

impl Edge {
    /// Stores an edge.
    pub(crate) fn store(ctx: &mut Graph, edge: Edge, with_connection: bool)
        requires
            old(ctx).wf(),
            edge.id.0 == old(ctx)@.edges.len(),
        ensures
            final(ctx).wf(),
            old(ctx).scaffolded() ==> final(ctx).scaffolded(),
            final(ctx)@ == if with_connection {
                old(ctx)@.with_edge_and_connection(edge)
            } else {
                old(ctx)@.with_edge(edge)
            },
    {
        proof {
            old(ctx)@.lemma_with_edge_wf(edge);
        }
        ctx.edges.push(edge);
        if with_connection {
            ctx.connections.push(
                Connection {
                    id: edge.id,
                    classification: edge.kind,
                    source: Vertex { node_id: edge.tail_node_id, socket_id: edge.tail_socket_id },
                    destination: Vertex {
                        node_id: edge.head_node_id,
                        socket_id: edge.head_socket_id,
                    },
                },
            );
        }
    }

    /// Makes an edge between two sockets, from the tail to the head. Nothing
    /// is asked of the ends: an edge refers to them by identifier only.
    pub fn new(
        ctx: &mut Graph,
        kind: EdgeKind,
        head_node_id: NodeId,
        head_object_kind: VertexObjectKind,
        head_object_id: ComponentId,
        head_socket_id: SocketId,
        tail_node_id: NodeId,
        tail_object_kind: VertexObjectKind,
        tail_object_id: ComponentId,
        tail_socket_id: SocketId,
    ) -> (edge: Edge)
        requires
            old(ctx).wf(),
        ensures
            final(ctx).wf(),
            old(ctx).scaffolded() ==> final(ctx).scaffolded(),
            edge == (Edge {
                id: edge.id,
                kind,
                head_node_id,
                head_object_kind,
                head_object_id,
                head_socket_id,
                tail_node_id,
                tail_object_kind,
                tail_object_id,
                tail_socket_id,
            }),
            edge.id.0 == old(ctx)@.edges.len(),
            final(ctx)@ == old(ctx)@.with_edge(edge),
    {
        let edge = Edge {
            id: EdgeId(ctx.edges.len() as u64),
            kind,
            head_node_id,
            head_object_kind,
            head_object_id,
            head_socket_id,
            tail_node_id,
            tail_object_kind,
            tail_object_id,
            tail_socket_id,
        };
        Edge::store(ctx, edge, false);
        edge
    }

    /// Makes an internal provider of the head component take the value of
    /// the tail component as one more source: binds the one parameter of the
    /// pass-through function, on the prototype of the provider, for this pair
    /// of components.
    pub fn connect_internal_providers_for_components(
        ctx: &mut Graph,
        internal_provider_id: InternalProviderId,
        tail_component_id: ComponentId,
        head_component_id: ComponentId,
    ) -> (connected: Result<(), EdgeError>)
        requires
            old(ctx).wf(),
        ensures
            final(ctx).wf(),
            old(ctx).scaffolded() ==> final(ctx).scaffolded(),
            match connected {
                Ok(()) => old(ctx)@.has_internal_provider(internal_provider_id) && final(ctx)@
                    == old(ctx)@.with_argument(
                    old(ctx)@.internal_provider(internal_provider_id).attribute_prototype_id,
                    AttributePrototypeArgument {
                        func_argument_id: old(ctx)@.identity.func_argument_id,
                        provider_id: ProviderId::Internal(internal_provider_id),
                        head_component_id: Some(head_component_id),
                        tail_component_id: Some(tail_component_id),
                    },
                ),
                Err(error) => !old(ctx)@.has_internal_provider(internal_provider_id) && error
                    == EdgeError::InternalProviderNotFound(internal_provider_id) && final(ctx)@
                    == old(ctx)@,
            },
    {
        let attribute_prototype_id = match InternalProvider::get_by_id(ctx, internal_provider_id) {
            Some(provider) => provider.attribute_prototype_id,
            None => {
                return Err(EdgeError::InternalProviderNotFound(internal_provider_id));
            },
        };
        let argument = AttributePrototypeArgument {
            func_argument_id: ctx.identity().func_argument_id,
            provider_id: ProviderId::Internal(internal_provider_id),
            head_component_id: Some(head_component_id),
            tail_component_id: Some(tail_component_id),
        };
        AttributePrototypeArgument::attach(ctx, attribute_prototype_id, argument);
        Ok(())
    }

    /// Makes an external provider of the tail component hand its value to
    /// the head component: binds the one parameter of the pass-through
    /// function, on the prototype of the provider, for this pair of components.
    pub fn connect_external_providers_for_components(
        ctx: &mut Graph,
        external_provider_id: ExternalProviderId,
        tail_component_id: ComponentId,
        head_component_id: ComponentId,
    ) -> (connected: Result<(), EdgeError>)
        requires
            old(ctx).wf(),
        ensures
            final(ctx).wf(),
            old(ctx).scaffolded() ==> final(ctx).scaffolded(),
            match connected {
                Ok(()) => old(ctx)@.has_external_provider(external_provider_id) && final(ctx)@
                    == old(ctx)@.with_argument(
                    old(ctx)@.external_provider(external_provider_id).attribute_prototype_id,
                    AttributePrototypeArgument {
                        func_argument_id: old(ctx)@.identity.func_argument_id,
                        provider_id: ProviderId::External(external_provider_id),
                        head_component_id: Some(head_component_id),
                        tail_component_id: Some(tail_component_id),
                    },
                ),
                Err(error) => !old(ctx)@.has_external_provider(external_provider_id) && error
                    == EdgeError::ExternalProviderNotFound(external_provider_id) && final(ctx)@
                    == old(ctx)@,
            },
    {
        let attribute_prototype_id = match ExternalProvider::get_by_id(ctx, external_provider_id) {
            Some(provider) => provider.attribute_prototype_id,
            None => {
                return Err(EdgeError::ExternalProviderNotFound(external_provider_id));
            },
        };
        let argument = AttributePrototypeArgument {
            func_argument_id: ctx.identity().func_argument_id,
            provider_id: ProviderId::External(external_provider_id),
            head_component_id: Some(head_component_id),
            tail_component_id: Some(tail_component_id),
        };
        AttributePrototypeArgument::attach(ctx, attribute_prototype_id, argument);
        Ok(())
    }
}

impl Connection {
    /// Connects a socket of one node to a socket of another, and makes the
    /// edge between the two with it. The arity of the sockets is not looked at.
    pub fn new(
        ctx: &mut Graph,
        from_node_id: NodeId,
        from_socket_id: SocketId,
        to_node_id: NodeId,
        to_socket_id: SocketId,
        edge_kind: EdgeKind,
    ) -> (made: Result<Connection, EdgeError>)
        requires
            old(ctx).wf(),
        ensures
            final(ctx).wf(),
            old(ctx).scaffolded() ==> final(ctx).scaffolded(),
            match made {
                Ok(connection) => {
                    &&& old(ctx)@.connection_allowed(
                        from_node_id,
                        from_socket_id,
                        to_node_id,
                        to_socket_id,
                    ) is Ok
                    &&& connection == (Connection {
                        id: connection.id,
                        classification: edge_kind,
                        source: Vertex { node_id: from_node_id, socket_id: from_socket_id },
                        destination: Vertex { node_id: to_node_id, socket_id: to_socket_id },
                    })
                    &&& connection.id.0 == old(ctx)@.edges.len()
                    &&& final(ctx)@ == old(ctx)@.with_edge_and_connection(
                        old(ctx)@.connection_edge(
                            from_node_id,
                            from_socket_id,
                            to_node_id,
                            to_socket_id,
                            edge_kind,
                        ),
                    )
                    &&& final(ctx)@.connections.last() == connection
                },
                Err(error) => {
                    &&& old(ctx)@.connection_allowed(
                        from_node_id,
                        from_socket_id,
                        to_node_id,
                        to_socket_id,
                    ) == Err::<(), EdgeError>(error)
                    &&& final(ctx)@ == old(ctx)@
                },
            },
    {
        let tail = match Component::find_for_node(ctx, from_node_id) {
            Some(component) => component,
            None => {
                return Err(EdgeError::NodeNotFound(from_node_id));
            },
        };
        let head = match Component::find_for_node(ctx, to_node_id) {
            Some(component) => component,
            None => {
                return Err(EdgeError::NodeNotFound(to_node_id));
            },
        };
        if Socket::get_by_id(ctx, from_socket_id).is_none() {
            return Err(EdgeError::SocketNotFound(from_socket_id));
        }
        if Socket::get_by_id(ctx, to_socket_id).is_none() {
            return Err(EdgeError::SocketNotFound(to_socket_id));
        }
        proof {
            assert(old(ctx)@.component_wf(from_node_id.0 as int));
            assert(old(ctx)@.component_wf(to_node_id.0 as int));
        }
        let edge = Edge {
            id: EdgeId(ctx.edges.len() as u64),
            kind: edge_kind,
            head_node_id: head.node_id,
            head_object_kind: VertexObjectKind::Configuration,
            head_object_id: head.id,
            head_socket_id: to_socket_id,
            tail_node_id: tail.node_id,
            tail_object_kind: VertexObjectKind::Configuration,
            tail_object_id: tail.id,
            tail_socket_id: from_socket_id,
        };
        Edge::store(ctx, edge, true);
        Ok(
            Connection {
                id: edge.id,
                classification: edge_kind,
                source: Vertex { node_id: from_node_id, socket_id: from_socket_id },
                destination: Vertex { node_id: to_node_id, socket_id: to_socket_id },
            },
        )
    }

    /// Whether a socket can take one more connection. A socket of arity one
    /// takes one; the library leaves it to the caller to ask before connecting.
    pub fn has_room(ctx: &Graph, socket_id: SocketId) -> (room: Result<bool, EdgeError>)
        ensures
            match room {
                Ok(room) => ctx@.has_socket(socket_id) && room == ctx@.has_room(socket_id),
                Err(error) => !ctx@.has_socket(socket_id) && error == EdgeError::SocketNotFound(
                    socket_id,
                ),
            },
    {
        let arity = match Socket::get_by_id(ctx, socket_id) {
            Some(socket) => socket.arity,
            None => {
                return Err(EdgeError::SocketNotFound(socket_id));
            },
        };
        if arity == SocketArity::Many {
            return Ok(true);
        }
        let connections = ctx.connections();
        let mut i: usize = 0;
        while i < connections.len()
            invariant
                ctx@.has_socket(socket_id),
                ctx@.socket(socket_id).arity != SocketArity::Many,
                connections@ == ctx@.connections,
                i <= connections.len(),
                forall|k: int| 0 <= k < i ==> !#[trigger] ctx@.is_connection_into(socket_id, k),
            decreases connections.len() - i,
        {
            if connections[i].destination.socket_id == socket_id {
                assert(ctx@.is_connection_into(socket_id, i as int));
                return Ok(false);
            }
            i = i + 1;
        }
        Ok(true)
    }
}

} // verus!
