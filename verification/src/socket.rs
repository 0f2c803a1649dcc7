//! Sockets: the diagram-facing ends of providers.

use vstd::prelude::*;
use crate::component::Component;
use crate::graph::{Graph, GraphView};
use crate::ids::{NodeId, SchemaVariantId, SocketId};
use crate::provider::ProviderId;

verus! {

/// What a socket stands for on the diagram.
#[derive(Debug, Clone, Copy, PartialEq, Eq, Structural)]
pub enum SocketKind {
    /// The socket wraps a provider.
    Provider,
    /// The socket marks membership in a frame.
    Frame,
}

/// The direction of the data that flows through a socket.
#[derive(Debug, Clone, Copy, PartialEq, Eq, Structural)]
pub enum SocketEdgeKind {
    ConfigurationInput,
    ConfigurationOutput,
    System,
}

/// How many connections may end on a socket.
#[derive(Debug, Clone, Copy, PartialEq, Eq, Structural)]
pub enum SocketArity {
    One,
    Many,
}

/// The diagram on which a socket is drawn.
#[derive(Debug, Clone, Copy, PartialEq, Eq, Structural)]
pub enum DiagramKind {
    Configuration,
}

/// A diagram endpoint of a schema variant.
#[derive(Debug, PartialEq, Eq)]
pub struct Socket {
    pub id: SocketId,
    pub name: String,
    pub kind: SocketKind,
    pub edge_kind: SocketEdgeKind,
    pub arity: SocketArity,
    pub diagram_kind: DiagramKind,
    /// The schema variant whose components show this socket.
    pub schema_variant_id: Option<SchemaVariantId>,
    /// The provider that stands behind this socket.
    pub provider_id: Option<ProviderId>,
}

/// The mathematical value of a socket.
pub struct SocketView {
    pub id: SocketId,
    pub name: Seq<char>,
    pub kind: SocketKind,
    pub edge_kind: SocketEdgeKind,
    pub arity: SocketArity,
    pub diagram_kind: DiagramKind,
    pub schema_variant_id: Option<SchemaVariantId>,
    pub provider_id: Option<ProviderId>,
}

impl View for Socket {
    type V = SocketView;

    open spec fn view(&self) -> SocketView {
        SocketView {
            id: self.id,
            name: self.name@,
            kind: self.kind,
            edge_kind: self.edge_kind,
            arity: self.arity,
            diagram_kind: self.diagram_kind,
            schema_variant_id: self.schema_variant_id,
            provider_id: self.provider_id,
        }
    }
}

/// Why a socket operation failed.
#[derive(Debug, Clone, Copy, PartialEq, Eq, Structural)]
pub enum SocketError {
    /// The schema variant of the component at this node has no frame socket
    /// in this direction.
    FrameSocketNotFound(NodeId, SocketEdgeKind),
    /// No component stands at this node.
    NodeNotFound(NodeId),
    /// No socket has this identifier.
    NotFound(SocketId),
}

impl GraphView {
    /// Whether a socket with this identifier is stored.
    pub open spec fn has_socket(self, id: SocketId) -> bool {
        id.0 < self.sockets.len()
    }

    /// The stored socket with this identifier.
    pub open spec fn socket(self, id: SocketId) -> SocketView {
        self.sockets[id.0 as int]
    }

    /// The socket at position `i` belongs to a schema variant.
    pub open spec fn is_socket_of(self, schema_variant_id: SchemaVariantId, i: int) -> bool {
        0 <= i < self.sockets.len() && self.sockets[i].schema_variant_id == Some(schema_variant_id)
    }

    /// The socket at position `i` is a frame socket of a schema variant in a direction.
    pub open spec fn is_frame_socket_of(
        self,
        schema_variant_id: SchemaVariantId,
        edge_kind: SocketEdgeKind,
        i: int,
    ) -> bool {
        &&& self.is_socket_of(schema_variant_id, i)
        &&& self.sockets[i].kind == SocketKind::Frame
        &&& self.sockets[i].edge_kind == edge_kind
    }

    /// The first frame socket of a schema variant in a direction, among the
    /// sockets from position `from` on.
    pub open spec fn first_frame_socket(
        self,
        schema_variant_id: SchemaVariantId,
        edge_kind: SocketEdgeKind,
        from: nat,
    ) -> Option<SocketId>
        decreases self.sockets.len() - from,
    {
        if from >= self.sockets.len() {
            None
        } else if self.is_frame_socket_of(schema_variant_id, edge_kind, from as int) {
            Some(SocketId(from as u64))
        } else {
            self.first_frame_socket(schema_variant_id, edge_kind, from + 1)
        }
    }

    /// The frame socket of a node in a direction: the first frame socket in
    /// that direction among the sockets of the schema variant of the node's
    /// component.
    pub open spec fn frame_socket_for_node(
        self,
        node_id: NodeId,
        edge_kind: SocketEdgeKind,
    ) -> Result<SocketId, SocketError> {
        match self.component_for_node(node_id) {
            None => Err(SocketError::NodeNotFound(node_id)),
            Some(component) => match self.first_frame_socket(
                component.schema_variant_id,
                edge_kind,
                0,
            ) {
                Some(id) => Ok(id),
                None => Err(SocketError::FrameSocketNotFound(node_id, edge_kind)),
            },
        }
    }

    /// What `first_frame_socket` finds is a stored frame socket of the schema
    /// variant in the direction, and no such socket stands between `from` and it.
    pub proof fn lemma_first_frame_socket(
        self,
        schema_variant_id: SchemaVariantId,
        edge_kind: SocketEdgeKind,
        from: nat,
    )
        requires
            self.providers_wf(),
        ensures
            match self.first_frame_socket(schema_variant_id, edge_kind, from) {
                Some(id) => {
                    &&& from <= id.0
                    &&& self.is_frame_socket_of(schema_variant_id, edge_kind, id.0 as int)
                    &&& forall|i: int|
                        from <= i < id.0 ==> !#[trigger] self.is_frame_socket_of(
                            schema_variant_id,
                            edge_kind,
                            i,
                        )
                },
                None => forall|i: int|
                    from <= i ==> !#[trigger] self.is_frame_socket_of(
                        schema_variant_id,
                        edge_kind,
                        i,
                    ),
            },
        decreases self.sockets.len() - from,
    {
        if from < self.sockets.len() {
            assert(self.socket_wf(from as int));
            if !self.is_frame_socket_of(schema_variant_id, edge_kind, from as int) {
                self.lemma_first_frame_socket(schema_variant_id, edge_kind, from + 1);
            }
        }
    }

    /// The graph with one more socket.
    pub open spec fn with_socket(self, socket: SocketView) -> GraphView {
        GraphView { sockets: self.sockets.push(socket), ..self }
    }

    /// The graph after a socket was given to a schema variant.
    pub open spec fn with_socket_of(
        self,
        id: SocketId,
        schema_variant_id: SchemaVariantId,
    ) -> GraphView {
        GraphView {
            sockets: self.sockets.update(
                id.0 as int,
                SocketView { schema_variant_id: Some(schema_variant_id), ..self.socket(id) },
            ),
            ..self
        }
    }

    /// A graph stays well formed when its sockets change and each still has the
    /// identifier that names its position and a provider of the graph, while no
    /// socket goes away.
    pub proof fn lemma_with_sockets_wf(self, after: GraphView)
        requires
            self.wf(),
            after == (GraphView { sockets: after.sockets, ..self }),
            after.sockets.len() >= self.sockets.len(),
            forall|i: int| 0 <= i < after.sockets.len() ==> #[trigger] after.socket_wf(i),
        ensures
            after.wf(),
            self.scaffolded() ==> after.scaffolded(),
    {
        assert forall|i: int| 0 <= i < after.internal_providers.len() implies #[trigger]
            after.internal_provider_wf(i) by {
            assert(self.internal_provider_wf(i));
        }
        assert forall|i: int| 0 <= i < after.external_providers.len() implies #[trigger]
            after.external_provider_wf(i) by {
            assert(self.external_provider_wf(i));
        }
        assert forall|i: int| 0 <= i < after.components.len() implies #[trigger]
            after.component_wf(i) by {
            assert(self.component_wf(i));
        }
        assert forall|i: int| 0 <= i < after.edges.len() implies #[trigger] after.edge_wf(i) by {
            assert(self.edge_wf(i));
        }
        assert forall|i: int| 0 <= i < after.connections.len() implies #[trigger]
            after.connection_wf(i) by {
            assert(self.connection_wf(i));
        }
        self.lemma_same_props_wf(after);
        self.lemma_same_values_wf(after);
        self.lemma_same_prototypes_wf(after);
    }
}

impl Socket {
    /// Makes a socket that belongs to no schema variant yet and has no provider behind it.
    pub fn new(
        ctx: &mut Graph,
        name: String,
        kind: SocketKind,
        edge_kind: SocketEdgeKind,
        arity: SocketArity,
        diagram_kind: DiagramKind,
    ) -> (id: SocketId)
        requires
            old(ctx).wf(),
        ensures
            final(ctx).wf(),
            old(ctx).scaffolded() ==> final(ctx).scaffolded(),
            id.0 == old(ctx)@.sockets.len(),
            final(ctx)@ == old(ctx)@.with_socket(
                SocketView {
                    id,
                    name: name@,
                    kind,
                    edge_kind,
                    arity,
                    diagram_kind,
                    schema_variant_id: None,
                    provider_id: None,
                },
            ),
    {
        let id = SocketId(ctx.socket_count() as u64);
        ctx.sockets.push(
            Socket {
                id,
                name,
                kind,
                edge_kind,
                arity,
                diagram_kind,
                schema_variant_id: None,
                provider_id: None,
            },
        );
        proof {
            let before = old(ctx)@;
            let after = before.with_socket(
                SocketView {
                    id,
                    name: name@,
                    kind,
                    edge_kind,
                    arity,
                    diagram_kind,
                    schema_variant_id: None,
                    provider_id: None,
                },
            );
            assert(ctx@.sockets =~= after.sockets);
            assert forall|i: int| 0 <= i < after.sockets.len() implies #[trigger] after.socket_wf(
                i,
            ) by {
                if i < before.sockets.len() {
                    assert(before.socket_wf(i));
                }
            }
            before.lemma_with_sockets_wf(after);
        }
        id
    }

    /// The stored socket with this identifier, if there is one.
    pub fn get_by_id(ctx: &Graph, id: SocketId) -> (found: Option<&Socket>)
        ensures
            match found {
                Some(socket) => ctx@.has_socket(id) && socket@ == ctx@.socket(id),
                None => !ctx@.has_socket(id),
            },
    {
        match Graph::position(id.0, ctx.socket_count()) {
            Some(i) => Some(ctx.socket_at(i)),
            None => None,
        }
    }

    /// Gives a socket to a schema variant: the components of the variant show it.
    pub fn add_to_schema_variant(
        ctx: &mut Graph,
        id: SocketId,
        schema_variant_id: SchemaVariantId,
    ) -> (added: Result<(), SocketError>)
        requires
            old(ctx).wf(),
        ensures
            final(ctx).wf(),
            old(ctx).scaffolded() ==> final(ctx).scaffolded(),
            match added {
                Ok(()) => old(ctx)@.has_socket(id) && final(ctx)@ == old(ctx)@.with_socket_of(
                    id,
                    schema_variant_id,
                ),
                Err(error) => !old(ctx)@.has_socket(id) && error == SocketError::NotFound(id)
                    && final(ctx)@ == old(ctx)@,
            },
    {
        let position = match Graph::position(id.0, ctx.socket_count()) {
            Some(i) => i,
            None => {
                return Err(SocketError::NotFound(id));
            },
        };
        ctx.sockets[position].schema_variant_id = Some(schema_variant_id);
        proof {
            let before = old(ctx)@;
            let after = before.with_socket_of(id, schema_variant_id);
            assert(ctx@.sockets =~= after.sockets);
            assert forall|i: int| 0 <= i < after.sockets.len() implies #[trigger] after.socket_wf(
                i,
            ) by {
                assert(before.socket_wf(i));
            }
            before.lemma_with_sockets_wf(after);
        }
        Ok(())
    }

    /// The sockets of the schema variant of a component, in the order in
    /// which they were made.
    pub fn list_for_component(ctx: &Graph, component: &Component) -> (sockets: Vec<SocketId>)
        requires
            ctx.wf(),
        ensures
            forall|k: int|
                0 <= k < sockets@.len() ==> ctx@.is_socket_of(
                    component.schema_variant_id,
                    (#[trigger] sockets@[k]).0 as int,
                ),
            forall|k: int, l: int|
                0 <= k < l < sockets@.len() ==> (#[trigger] sockets@[k]).0 < (
                #[trigger] sockets@[l]).0,
            forall|i: int| #[trigger]
                ctx@.is_socket_of(component.schema_variant_id, i) ==> sockets@.contains(
                    SocketId(i as u64),
                ),
    {
        let mut sockets: Vec<SocketId> = Vec::new();
        let mut i: usize = 0;
        while i < ctx.socket_count()
            invariant
                ctx.wf(),
                i <= ctx@.sockets.len(),
                forall|k: int|
                    0 <= k < sockets@.len() ==> (#[trigger] sockets@[k]).0 < i && ctx@.is_socket_of(
                        component.schema_variant_id,
                        sockets@[k].0 as int,
                    ),
                forall|k: int, l: int|
                    0 <= k < l < sockets@.len() ==> (#[trigger] sockets@[k]).0 < (
                    #[trigger] sockets@[l]).0,
                forall|j: int|
                    0 <= j < i && #[trigger] ctx@.is_socket_of(component.schema_variant_id, j)
                        ==> sockets@.contains(SocketId(j as u64)),
            decreases ctx@.sockets.len() - i,
        {
            let socket = ctx.socket_at(i);
            if socket.schema_variant_id == Some(component.schema_variant_id) {
                let ghost before = sockets@;
                proof {
                    assert(ctx@.socket_wf(i as int));
                }
                sockets.push(socket.id);
                proof {
                    assert(sockets@.last() == SocketId(i as u64));
                    assert forall|j: int|
                        0 <= j < i + 1 && #[trigger] ctx@.is_socket_of(
                            component.schema_variant_id,
                            j,
                        ) implies sockets@.contains(SocketId(j as u64)) by {
                        if j < i {
                            let k = choose|k: int|
                                0 <= k < before.len() && before[k] == SocketId(j as u64);
                            assert(sockets@[k] == SocketId(j as u64));
                        }
                    }
                }
            }
            i = i + 1;
        }
        sockets
    }

    /// The frame socket of a node in a direction: the first frame socket in
    /// that direction among the sockets of the schema variant of the node's
    /// component.
    pub fn find_frame_socket_for_node(
        ctx: &Graph,
        node_id: NodeId,
        edge_kind: SocketEdgeKind,
    ) -> (found: Result<SocketId, SocketError>)
        requires
            ctx.wf(),
        ensures
            found == ctx@.frame_socket_for_node(node_id, edge_kind),
    {
        let component = match Component::find_for_node(ctx, node_id) {
            Some(component) => component,
            None => {
                return Err(SocketError::NodeNotFound(node_id));
            },
        };
        let mut i: usize = 0;
        while i < ctx.socket_count()
            invariant
                ctx.wf(),
                ctx@.component_for_node(node_id) == Some(component),
                i <= ctx@.sockets.len(),
                ctx@.first_frame_socket(component.schema_variant_id, edge_kind, 0)
                    == ctx@.first_frame_socket(component.schema_variant_id, edge_kind, i as nat),
            decreases ctx@.sockets.len() - i,
        {
            let socket = ctx.socket_at(i);
            if socket.schema_variant_id == Some(component.schema_variant_id) && socket.kind
                == SocketKind::Frame && socket.edge_kind == edge_kind {
                proof {
                    assert(ctx@.socket_wf(i as int));
                }
                return Ok(socket.id);
            }
            i = i + 1;
        }
        Err(SocketError::FrameSocketNotFound(node_id, edge_kind))
    }
}

impl Clone for Socket {
    /// A socket with the same contents.
    fn clone(&self) -> (copy: Socket)
        ensures
            copy@ == self@,
    {
        Socket {
            id: self.id,
            name: self.name.clone(),
            kind: self.kind,
            edge_kind: self.edge_kind,
            arity: self.arity,
            diagram_kind: self.diagram_kind,
            schema_variant_id: self.schema_variant_id,
            provider_id: self.provider_id,
        }
    }
}

} // verus!
