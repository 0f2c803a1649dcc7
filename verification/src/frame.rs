//! Frames: components that contain other components.
//!
//! When a node is put into a frame, the sockets of the frame are wired to the
//! child. An aggregation frame treats each of its sockets as one point shared
//! by all children: an input socket gathers the children (fan-in), an output
//! socket hands the same value to each child (fan-out). A configuration frame
//! connects each of its outputs to the inputs of the child that have the same
//! name. Every link queues a value as a root, so that what depends on it is
//! computed again.
//!
//! The wiring is all or nothing: every lookup is made before anything is
//! written, and a failed lookup leaves the graph as it was.

use vstd::prelude::*;
use vstd::pervasive::unreached;
use crate::component::Component;
use crate::component_type::ComponentType;
use crate::context::{AttributeReadContext, Filter};
use crate::edge::{Connection, Edge, EdgeError, EdgeKind, Vertex, VertexObjectKind};
use crate::graph::{Graph, GraphView};
use crate::ids::{AttributePrototypeId, AttributeValueId, EdgeId, NodeId, SocketId};
use crate::prototype::AttributePrototypeArgument;
use crate::provider::{provider_context, ExternalProvider, InternalProvider, ProviderId};
use crate::socket::{Socket, SocketEdgeKind, SocketError, SocketKind, SocketView};
use crate::value::{AttributeValue, ValueQuery};

verus! {

/// Why a node could not be put into a frame.
#[derive(Debug, Clone, Copy, PartialEq, Eq, Structural)]
pub enum DiagramError {
    /// No value is stored under a context that the read context admits. The
    /// wiring fails so where a provider of the frame has no value: in a graph
    /// that is not scaffolded. Every operation of the library keeps a graph
    /// scaffolded, so a graph that they built does not fail so.
    AttributeValueNotFoundForContext(AttributeReadContext),
    /// A provider that the wiring needs is missing.
    Edge(EdgeError),
    /// The parent is no frame: only a configuration frame or an aggregation
    /// frame contains other components.
    InvalidComponentTypeForFrame(ComponentType),
    /// No component stands at this node.
    NodeNotFound(NodeId),
    /// A frame socket is missing.
    Socket(SocketError),
}

/// The request to put the component at the child node into the frame at the parent node.
#[derive(Debug, Clone, Copy, PartialEq, Eq, Structural)]
pub struct CreateFrameConnectionRequest {
    pub child_node_id: NodeId,
    pub parent_node_id: NodeId,
}

/// The connection that records the membership of a child in a frame.
#[derive(Debug, Clone, Copy, PartialEq, Eq, Structural)]
pub struct CreateFrameConnectionResponse {
    pub connection: Connection,
}

/// An argument together with the prototype that it is bound to.
#[derive(Debug, Clone, Copy, PartialEq, Eq, Structural)]
pub struct FrameBinding {
    pub attribute_prototype_id: AttributePrototypeId,
    pub argument: AttributePrototypeArgument,
}

/// One link that a frame derives between itself and a child.
#[derive(Debug, Clone, Copy, PartialEq, Eq, Structural)]
pub struct FrameLink {
    /// The argument that connects the provider of the frame to the child;
    /// none where the link is a plain connection.
    pub binding: Option<FrameBinding>,
    /// The component that the value comes from, and its socket.
    pub tail: Component,
    pub tail_socket_id: SocketId,
    /// The component that receives the value, and its socket.
    pub head: Component,
    pub head_socket_id: SocketId,
    /// Whether the diagram shows the link as a connection.
    pub connection: bool,
    /// The value whose dependents are computed again.
    pub root: AttributeValueId,
}

impl GraphView {
    /// The read context for the value that an internal provider holds for a component.
    pub open spec fn aggregation_input_context(parent: Component, provider: ProviderId)
        -> AttributeReadContext {
        match provider {
            ProviderId::Internal(id) => AttributeReadContext {
                component_id: Filter::Is(parent.id),
                internal_provider_id: Filter::Is(id),
                ..AttributeReadContext::spec_any()
            },
            ProviderId::External(id) => AttributeReadContext {
                component_id: Filter::Is(parent.id),
                external_provider_id: Filter::Is(id),
                ..AttributeReadContext::spec_any()
            },
        }
    }

    /// The read context for the value that an output of a configuration frame
    /// exposes: the value of the external provider and of no other carrier,
    /// for the frame or what the frame falls back to.
    pub open spec fn configuration_output_context(parent: Component, provider: ProviderId)
        -> AttributeReadContext {
        match provider {
            ProviderId::External(id) => AttributeReadContext {
                prop_id: Filter::Unset,
                internal_provider_id: Filter::Unset,
                external_provider_id: Filter::Is(id),
                component_id: Filter::Is(parent.id),
                ..AttributeReadContext::spec_any()
            },
            ProviderId::Internal(id) => AttributeReadContext {
                prop_id: Filter::Unset,
                internal_provider_id: Filter::Is(id),
                external_provider_id: Filter::Unset,
                component_id: Filter::Is(parent.id),
                ..AttributeReadContext::spec_any()
            },
        }
    }

    /// What an aggregation frame derives for one of its sockets.
    ///
    /// An input socket gathers: the child becomes one more source of the
    /// internal provider behind the socket, an edge leads from the child to
    /// the frame, and the value that the provider holds for the frame is the
    /// root. An output socket hands out: the external provider behind the
    /// socket becomes a source for the child, an edge leads from the frame to
    /// the child, and the value that the provider holds for the child is the
    /// root. Any other socket derives nothing.
    pub open spec fn aggregation_link(
        self,
        parent: Component,
        child: Component,
        socket: SocketView,
    ) -> Result<Option<FrameLink>, DiagramError> {
        match socket.edge_kind {
            SocketEdgeKind::ConfigurationInput => match socket.provider_id {
                Some(ProviderId::Internal(provider)) => {
                    let read_context = GraphView::aggregation_input_context(
                        parent,
                        ProviderId::Internal(provider),
                    );
                    match self.found(ValueQuery::for_context(read_context)) {
                        None => Err(DiagramError::AttributeValueNotFoundForContext(read_context)),
                        Some(root) => Ok(
                            Some(
                                FrameLink {
                                    binding: Some(
                                        FrameBinding {
                                            attribute_prototype_id: self.internal_provider(
                                                provider,
                                            ).attribute_prototype_id,
                                            argument: AttributePrototypeArgument {
                                                func_argument_id: self.identity.func_argument_id,
                                                provider_id: ProviderId::Internal(provider),
                                                head_component_id: Some(parent.id),
                                                tail_component_id: Some(child.id),
                                            },
                                        },
                                    ),
                                    tail: child,
                                    tail_socket_id: socket.id,
                                    head: parent,
                                    head_socket_id: socket.id,
                                    connection: false,
                                    root,
                                },
                            ),
                        ),
                    }
                },
                _ => Err(
                    DiagramError::Edge(EdgeError::InternalProviderNotFoundForSocket(socket.id)),
                ),
            },
            SocketEdgeKind::ConfigurationOutput => match socket.provider_id {
                Some(ProviderId::External(provider)) => {
                    let read_context = GraphView::aggregation_input_context(
                        child,
                        ProviderId::External(provider),
                    );
                    match self.found(ValueQuery::for_context(read_context)) {
                        None => Err(DiagramError::AttributeValueNotFoundForContext(read_context)),
                        Some(root) => Ok(
                            Some(
                                FrameLink {
                                    binding: Some(
                                        FrameBinding {
                                            attribute_prototype_id: self.external_provider(
                                                provider,
                                            ).attribute_prototype_id,
                                            argument: AttributePrototypeArgument {
                                                func_argument_id: self.identity.func_argument_id,
                                                provider_id: ProviderId::External(provider),
                                                head_component_id: Some(child.id),
                                                tail_component_id: Some(parent.id),
                                            },
                                        },
                                    ),
                                    tail: parent,
                                    tail_socket_id: socket.id,
                                    head: child,
                                    head_socket_id: socket.id,
                                    connection: false,
                                    root,
                                },
                            ),
                        ),
                    }
                },
                _ => Err(
                    DiagramError::Edge(EdgeError::ExternalProviderNotFoundForSocket(socket.id)),
                ),
            },
            SocketEdgeKind::System => Ok(None),
        }
    }

    /// Whether an output of a configuration frame and a socket of the child
    /// make a pair: the socket belongs to the child, is no frame socket, and
    /// the internal provider behind it has the name of the external provider
    /// behind the output.
    pub open spec fn is_configuration_pair(
        self,
        child: Component,
        parent_socket: SocketView,
        child_socket: SocketView,
    ) -> bool {
        &&& child_socket.schema_variant_id == Some(child.schema_variant_id)
        &&& child_socket.kind != SocketKind::Frame
        &&& parent_socket.provider_id matches Some(ProviderId::External(parent_provider))
        &&& child_socket.provider_id matches Some(ProviderId::Internal(child_provider))
        &&& self.external_provider(parent_provider).name == self.internal_provider(
            child_provider,
        ).name
    }

    /// What a configuration frame derives for one of its outputs and one
    /// socket of the child: for a pair, a connection from the output to the
    /// socket, with the value that the output exposes for the frame as the
    /// root; for any other two sockets, nothing.
    pub open spec fn configuration_link(
        self,
        parent: Component,
        child: Component,
        parent_socket: SocketView,
        child_socket: SocketView,
    ) -> Result<Option<FrameLink>, DiagramError> {
        if self.is_configuration_pair(child, parent_socket, child_socket) {
            let read_context = GraphView::configuration_output_context(
                parent,
                parent_socket.provider_id.unwrap(),
            );
            match self.found(ValueQuery::for_context(read_context)) {
                None => Err(DiagramError::AttributeValueNotFoundForContext(read_context)),
                Some(root) => Ok(
                    Some(
                        FrameLink {
                            binding: None,
                            tail: parent,
                            tail_socket_id: parent_socket.id,
                            head: child,
                            head_socket_id: child_socket.id,
                            connection: true,
                            root,
                        },
                    ),
                ),
            }
        } else {
            Ok(None)
        }
    }

    /// What a configuration frame derives for one of its outputs and the
    /// first `count` sockets of the graph, or the first failure among them.
    pub open spec fn configuration_links(
        self,
        parent: Component,
        child: Component,
        parent_socket: SocketView,
        count: nat,
    ) -> Result<Seq<FrameLink>, DiagramError>
        decreases count,
    {
        if count == 0 {
            Ok(Seq::empty())
        } else {
            match self.configuration_links(parent, child, parent_socket, (count - 1) as nat) {
                Err(error) => Err(error),
                Ok(links) => match self.configuration_link(
                    parent,
                    child,
                    parent_socket,
                    self.sockets[count - 1],
                ) {
                    Err(error) => Err(error),
                    Ok(None) => Ok(links),
                    Ok(Some(link)) => Ok(links.push(link)),
                },
            }
        }
    }

    /// What a frame derives for one socket of the graph. Only the sockets of
    /// the frame that are no frame sockets derive anything.
    pub open spec fn socket_links(self, parent: Component, child: Component, socket: SocketView)
        -> Result<Seq<FrameLink>, DiagramError> {
        if socket.schema_variant_id != Some(parent.schema_variant_id) || socket.kind
            == SocketKind::Frame {
            Ok(Seq::empty())
        } else if parent.component_type == ComponentType::AggregationFrame {
            match self.aggregation_link(parent, child, socket) {
                Err(error) => Err(error),
                Ok(None) => Ok(Seq::empty()),
                Ok(Some(link)) => Ok(seq![link]),
            }
        } else {
            match socket.provider_id {
                Some(ProviderId::External(_)) => self.configuration_links(
                    parent,
                    child,
                    socket,
                    self.sockets.len(),
                ),
                _ => Ok(Seq::empty()),
            }
        }
    }

    /// What a frame derives for the first `count` sockets of the graph, in
    /// their order, or the first failure among them.
    pub open spec fn frame_links_among(self, parent: Component, child: Component, count: nat)
        -> Result<Seq<FrameLink>, DiagramError>
        decreases count,
    {
        if count == 0 {
            Ok(Seq::empty())
        } else {
            match self.frame_links_among(parent, child, (count - 1) as nat) {
                Err(error) => Err(error),
                Ok(links) => match self.socket_links(parent, child, self.sockets[count - 1]) {
                    Err(error) => Err(error),
                    Ok(more) => Ok(links + more),
                },
            }
        }
    }

    /// The links that putting the child node into the parent node derives,
    /// or why the child cannot be put there.
    pub open spec fn frame_links(self, parent_node_id: NodeId, child_node_id: NodeId) -> Result<
        Seq<FrameLink>,
        DiagramError,
    > {
        match self.component_for_node(parent_node_id) {
            None => Err(DiagramError::NodeNotFound(parent_node_id)),
            Some(parent) => match self.component_for_node(child_node_id) {
                None => Err(DiagramError::NodeNotFound(child_node_id)),
                Some(child) => if parent.component_type == ComponentType::Component {
                    Err(DiagramError::InvalidComponentTypeForFrame(parent.component_type))
                } else {
                    self.frame_links_among(parent, child, self.sockets.len())
                },
            },
        }
    }

    /// A failure among the first sockets is the failure among all of them.
    pub proof fn lemma_configuration_failure_stays(
        self,
        parent: Component,
        child: Component,
        parent_socket: SocketView,
        failed: nat,
        count: nat,
    )
        requires
            failed <= count,
            self.configuration_links(parent, child, parent_socket, failed) is Err,
        ensures
            self.configuration_links(parent, child, parent_socket, count)
                == self.configuration_links(parent, child, parent_socket, failed),
        decreases count,
    {
        if failed < count {
            self.lemma_configuration_failure_stays(
                parent,
                child,
                parent_socket,
                failed,
                (count - 1) as nat,
            );
        }
    }

    /// A failure among the first sockets is the failure among all of them.
    pub proof fn lemma_frame_failure_stays(
        self,
        parent: Component,
        child: Component,
        failed: nat,
        count: nat,
    )
        requires
            failed <= count,
            self.frame_links_among(parent, child, failed) is Err,
        ensures
            self.frame_links_among(parent, child, count) == self.frame_links_among(
                parent,
                child,
                failed,
            ),
        decreases count,
    {
        if failed < count {
            self.lemma_frame_failure_stays(parent, child, failed, (count - 1) as nat);
        }
    }

    /// The edge that a link is made with.
    pub open spec fn frame_link_edge(self, link: FrameLink) -> Edge {
        Edge::between(
            self.next_edge_id(),
            EdgeKind::Configuration,
            link.tail,
            link.tail_socket_id,
            link.head,
            link.head_socket_id,
        )
    }

    /// The graph after one link was made: its argument bound, its edge stored,
    /// with a connection where the link is one, and its root queued.
    pub open spec fn with_frame_link(self, link: FrameLink) -> GraphView {
        let bound = match link.binding {
            Some(binding) => self.with_argument(binding.attribute_prototype_id, binding.argument),
            None => self,
        };
        let linked = if link.connection {
            bound.with_edge_and_connection(bound.frame_link_edge(link))
        } else {
            bound.with_edge(bound.frame_link_edge(link))
        };
        linked.with_pending(link.root)
    }

    /// The graph after links were made one after the other.
    pub open spec fn with_frame_links(self, links: Seq<FrameLink>) -> GraphView
        decreases links.len(),
    {
        if links.len() == 0 {
            self
        } else {
            self.with_frame_links(links.drop_last()).with_frame_link(links.last())
        }
    }

    /// What `connect_component_to_frame` makes of the graph: the connection
    /// that records the membership, and the graph with that connection and
    /// with every link that the frame derives; or why the child cannot be put
    /// into the frame.
    pub open spec fn connected_to_frame(self, parent_node_id: NodeId, child_node_id: NodeId)
        -> Result<(Connection, GraphView), DiagramError> {
        match self.frame_socket_for_node(child_node_id, SocketEdgeKind::ConfigurationOutput) {
            Err(error) => Err(DiagramError::Socket(error)),
            Ok(from_socket_id) => match self.frame_socket_for_node(
                parent_node_id,
                SocketEdgeKind::ConfigurationInput,
            ) {
                Err(error) => Err(DiagramError::Socket(error)),
                Ok(to_socket_id) => match self.frame_links(parent_node_id, child_node_id) {
                    Err(error) => Err(error),
                    Ok(links) => Ok(
                        (
                            Connection {
                                id: self.next_edge_id(),
                                classification: EdgeKind::Symbolic,
                                source: Vertex {
                                    node_id: child_node_id,
                                    socket_id: from_socket_id,
                                },
                                destination: Vertex {
                                    node_id: parent_node_id,
                                    socket_id: to_socket_id,
                                },
                            },
                            self.with_edge_and_connection(
                                self.connection_edge(
                                    child_node_id,
                                    from_socket_id,
                                    parent_node_id,
                                    to_socket_id,
                                    EdgeKind::Symbolic,
                                ),
                            ).with_frame_links(links),
                        ),
                    ),
                },
            },
        }
    }
}

/// How many of the links are shown as connections.
pub open spec fn connections_among(links: Seq<FrameLink>) -> nat
    decreases links.len(),
{
    if links.len() == 0 {
        0
    } else {
        connections_among(links.drop_last()) + if links.last().connection {
            1nat
        } else {
            0nat
        }
    }
}

impl GraphView {
    /// How many of the first `count` sockets of the graph make a pair with an
    /// output of a configuration frame.
    pub open spec fn pairs_among(
        self,
        child: Component,
        parent_socket: SocketView,
        count: nat,
    ) -> nat
        decreases count,
    {
        if count == 0 {
            0
        } else {
            self.pairs_among(child, parent_socket, (count - 1) as nat) + if self.is_configuration_pair(
                child,
                parent_socket,
                self.sockets[count - 1],
            ) {
                1nat
            } else {
                0nat
            }
        }
    }

    /// A component that is no frame takes no child: the wiring fails with the
    /// error that names the type of the component, and so does the whole
    /// operation unless a frame socket is missing, which fails it earlier. A
    /// failed operation leaves the graph as it was, so no edge and no
    /// connection is made.
    pub proof fn lemma_plain_component_is_no_frame(self, parent_node_id: NodeId, child_node_id: NodeId)
        requires
            self.component_for_node(parent_node_id) matches Some(parent) && parent.component_type
                == ComponentType::Component,
        ensures
            self.frame_links(parent_node_id, child_node_id) is Err,
            self.component_for_node(child_node_id) is Some ==> self.frame_links(
                parent_node_id,
                child_node_id,
            ) == Err::<Seq<FrameLink>, DiagramError>(
                DiagramError::InvalidComponentTypeForFrame(ComponentType::Component),
            ),
            self.connected_to_frame(parent_node_id, child_node_id) is Err,
            self.frame_socket_for_node(child_node_id, SocketEdgeKind::ConfigurationOutput) is Ok
                && self.frame_socket_for_node(parent_node_id, SocketEdgeKind::ConfigurationInput)
                is Ok ==> self.connected_to_frame(parent_node_id, child_node_id) == Err::<
                (Connection, GraphView),
                DiagramError,
            >(DiagramError::InvalidComponentTypeForFrame(ComponentType::Component)),
    {
    }

    /// A configuration frame makes one connection for each pair of an output
    /// with a socket of the child whose provider has the same name, and
    /// nothing else: an output without such a socket makes no connection and
    /// is no failure.
    pub proof fn lemma_one_connection_for_each_pair(
        self,
        parent: Component,
        child: Component,
        parent_socket: SocketView,
        count: nat,
    )
        ensures
            self.configuration_links(parent, child, parent_socket, count) matches Ok(links) ==> {
                &&& links.len() == self.pairs_among(child, parent_socket, count)
                &&& connections_among(links) == links.len()
                &&& forall|i: int|
                    0 <= i < links.len() ==> (#[trigger] links[i]).tail == parent && links[i].head
                        == child && links[i].tail_socket_id == parent_socket.id
                        && links[i].binding is None
            },
            self.pairs_among(child, parent_socket, count) == 0 ==> self.configuration_links(
                parent,
                child,
                parent_socket,
                count,
            ) == Ok::<Seq<FrameLink>, DiagramError>(Seq::empty()),
        decreases count,
    {
        if count > 0 {
            self.lemma_one_connection_for_each_pair(
                parent,
                child,
                parent_socket,
                (count - 1) as nat,
            );
            let earlier = self.configuration_links(parent, child, parent_socket, (count - 1) as nat);
            let now = self.configuration_links(parent, child, parent_socket, count);
            if let Ok(links) = now {
                let before = earlier.unwrap();
                if links.len() > before.len() {
                    assert(links.drop_last() == before);
                }
            }
        }
    }

    /// The value that an aggregation frame queues for one of its inputs is
    /// the value of the frame, whichever child is put into the frame: two
    /// children make one edge each, towards the frame, and name the same root.
    pub proof fn lemma_aggregation_input_is_shared(
        self,
        parent: Component,
        first: Component,
        second: Component,
        socket: SocketView,
    )
        requires
            socket.edge_kind == SocketEdgeKind::ConfigurationInput,
        ensures
            match (
                self.aggregation_link(parent, first, socket),
                self.aggregation_link(parent, second, socket),
            ) {
                (Ok(Some(a)), Ok(Some(b))) => {
                    &&& a.root == b.root
                    &&& a.head == parent && b.head == parent
                    &&& a.tail == first && b.tail == second
                    &&& !a.connection && !b.connection
                },
                (Err(a), Err(b)) => a == b,
                _ => false,
            },
    {
    }

    /// In a scaffolded graph the value that a provider holds is found for
    /// every component: the value that was made with the provider stands in
    /// where the component has none of its own.
    pub proof fn lemma_provider_value_is_found(self, component: Component, provider: ProviderId)
        requires
            self.wf(),
            self.scaffolded(),
            match provider {
                ProviderId::Internal(id) => self.has_internal_provider(id),
                ProviderId::External(id) => self.has_external_provider(id),
            },
        ensures
            self.found(
                ValueQuery::for_context(GraphView::aggregation_input_context(component, provider)),
            ) is Some,
            self.found(
                ValueQuery::for_context(
                    GraphView::configuration_output_context(component, provider),
                ),
            ) is Some,
    {
        let (prototype, context) = match provider {
            ProviderId::Internal(id) => {
                assert(self.internal_provider_wf(id.0 as int));
                (
                    self.internal_provider(id).attribute_prototype_id,
                    provider_context(
                        provider,
                        self.internal_provider(id).schema_id,
                        self.internal_provider(id).schema_variant_id,
                    ),
                )
            },
            ProviderId::External(id) => {
                assert(self.external_provider_wf(id.0 as int));
                (
                    self.external_provider(id).attribute_prototype_id,
                    provider_context(
                        provider,
                        self.external_provider(id).schema_id,
                        self.external_provider(id).schema_variant_id,
                    ),
                )
            },
        };
        assert(self.prototype_has_value(prototype.0 as int));
        let v = choose|v: int| 0 <= v < self.values.len() && (#[trigger] self.values[v]).context
            == context;
        self.lemma_candidate_is_found(
            ValueQuery::for_context(GraphView::aggregation_input_context(component, provider)),
            v,
        );
        self.lemma_candidate_is_found(
            ValueQuery::for_context(GraphView::configuration_output_context(component, provider)),
            v,
        );
    }

    /// In a scaffolded graph no lookup of the wiring fails: every provider
    /// was made with its value. There the wiring of a frame fails only where a
    /// node holds no component, where the parent is no frame, or where no
    /// provider stands behind an input or output of an aggregation frame.
    pub proof fn lemma_frame_lookups_succeed(self, parent_node_id: NodeId, child_node_id: NodeId)
        requires
            self.wf(),
            self.scaffolded(),
        ensures
            self.frame_links(parent_node_id, child_node_id) matches Err(error) ==> !(error
                is AttributeValueNotFoundForContext),
            self.connected_to_frame(parent_node_id, child_node_id) matches Err(error) ==> !(error
                is AttributeValueNotFoundForContext),
    {
        if let Some(parent) = self.component_for_node(parent_node_id) {
            if let Some(child) = self.component_for_node(child_node_id) {
                self.lemma_frame_links_among_find_values(parent, child, self.sockets.len());
            }
        }
    }

    /// No lookup fails among the first `count` sockets of a scaffolded graph.
    pub proof fn lemma_frame_links_among_find_values(
        self,
        parent: Component,
        child: Component,
        count: nat,
    )
        requires
            self.wf(),
            self.scaffolded(),
            count <= self.sockets.len(),
        ensures
            self.frame_links_among(parent, child, count) matches Err(error) ==> !(error
                is AttributeValueNotFoundForContext),
        decreases count,
    {
        if count > 0 {
            self.lemma_frame_links_among_find_values(parent, child, (count - 1) as nat);
            let socket = self.sockets[count - 1];
            assert(self.socket_wf(count - 1));
            match socket.provider_id {
                Some(provider) => {
                    self.lemma_provider_value_is_found(parent, provider);
                    self.lemma_provider_value_is_found(child, provider);
                    self.lemma_configuration_links_find_values(
                        parent,
                        child,
                        socket,
                        self.sockets.len(),
                    );
                },
                None => {},
            }
        }
    }

    /// No lookup fails for an output of a configuration frame and the first
    /// `count` sockets of a scaffolded graph.
    pub proof fn lemma_configuration_links_find_values(
        self,
        parent: Component,
        child: Component,
        parent_socket: SocketView,
        count: nat,
    )
        requires
            self.wf(),
            self.scaffolded(),
            count <= self.sockets.len(),
            match parent_socket.provider_id {
                Some(ProviderId::Internal(id)) => self.has_internal_provider(id),
                Some(ProviderId::External(id)) => self.has_external_provider(id),
                None => true,
            },
        ensures
            self.configuration_links(parent, child, parent_socket, count) matches Err(error) ==> !(
            error is AttributeValueNotFoundForContext),
        decreases count,
    {
        if count > 0 {
            self.lemma_configuration_links_find_values(
                parent,
                child,
                parent_socket,
                (count - 1) as nat,
            );
            if let Some(provider) = parent_socket.provider_id {
                self.lemma_provider_value_is_found(parent, provider);
            }
        }
    }

    /// A root is queued once: queueing it again changes nothing.
    pub proof fn lemma_root_is_queued_once(self, root: AttributeValueId)
        ensures
            self.with_pending(root).with_pending(root) == self.with_pending(root),
    {
        let once = self.with_pending(root);
        if root.0 < self.values.len() && !self.pending.contains(root) {
            assert(once.pending.last() == root);
        }
    }

    /// Making one link writes nothing but an argument, an edge, perhaps a
    /// connection, and a pending root.
    pub proof fn lemma_frame_link_only_adds(self, link: FrameLink)
        ensures
            self.with_frame_link(link).identity == self.identity,
            self.with_frame_link(link).props == self.props,
            self.with_frame_link(link).values == self.values,
            self.with_frame_link(link).sockets == self.sockets,
            self.with_frame_link(link).internal_providers == self.internal_providers,
            self.with_frame_link(link).external_providers == self.external_providers,
            self.with_frame_link(link).components == self.components,
            self.with_frame_link(link).prototypes.len() == self.prototypes.len(),
            self.with_frame_link(link).edges == self.edges.push(
                Edge { id: self.next_edge_id(), ..self.frame_link_edge(link) },
            ),
            self.with_frame_link(link).connections.len() == self.connections.len() + if link.connection {
                1int
            } else {
                0int
            },
            self.with_frame_link(link).connections.take(self.connections.len() as int)
                == self.connections,
            link.root.0 < self.values.len() ==> self.with_frame_link(link).pending.contains(
                link.root,
            ),
            forall|root: AttributeValueId|
                self.pending.contains(root) ==> self.with_frame_link(link).pending.contains(root),
    {
        let bound = match link.binding {
            Some(binding) => self.with_argument(binding.attribute_prototype_id, binding.argument),
            None => self,
        };
        let linked = if link.connection {
            bound.with_edge_and_connection(bound.frame_link_edge(link))
        } else {
            bound.with_edge(bound.frame_link_edge(link))
        };
        let after = linked.with_pending(link.root);
        if link.root.0 < linked.values.len() && !linked.pending.contains(link.root) {
            assert(after.pending.last() == link.root);
            assert forall|root: AttributeValueId| self.pending.contains(root) implies
                after.pending.contains(root) by {
                let k = choose|k: int| 0 <= k < self.pending.len() && self.pending[k] == root;
                assert(after.pending[k] == root);
            }
        }
    }

    /// The wiring of a frame writes nothing but arguments, edges, connections
    /// and pending roots: every prop, value, socket, provider and component
    /// stays as it was, what was there of edges, connections and pending
    /// roots stays, one edge is made for each link and one connection for each
    /// link that is one, and the root of every link is pending afterwards.
    pub proof fn lemma_frame_links_only_add(self, links: Seq<FrameLink>)
        ensures
            self.with_frame_links(links).identity == self.identity,
            self.with_frame_links(links).props == self.props,
            self.with_frame_links(links).values == self.values,
            self.with_frame_links(links).sockets == self.sockets,
            self.with_frame_links(links).internal_providers == self.internal_providers,
            self.with_frame_links(links).external_providers == self.external_providers,
            self.with_frame_links(links).components == self.components,
            self.with_frame_links(links).prototypes.len() == self.prototypes.len(),
            self.with_frame_links(links).edges.len() == self.edges.len() + links.len(),
            self.with_frame_links(links).edges.take(self.edges.len() as int) == self.edges,
            self.with_frame_links(links).connections.len() == self.connections.len()
                + connections_among(links),
            self.with_frame_links(links).connections.take(self.connections.len() as int)
                == self.connections,
            forall|i: int|
                0 <= i < links.len() && (#[trigger] links[i]).root.0 < self.values.len()
                    ==> self.with_frame_links(links).pending.contains(links[i].root),
            forall|root: AttributeValueId|
                self.pending.contains(root) ==> self.with_frame_links(links).pending.contains(
                    root,
                ),
        decreases links.len(),
    {
        if links.len() > 0 {
            let front = links.drop_last();
            let earlier = self.with_frame_links(front);
            let after = self.with_frame_links(links);
            self.lemma_frame_links_only_add(front);
            earlier.lemma_frame_link_only_adds(links.last());
            assert(after.edges.take(self.edges.len() as int) == earlier.edges.take(
                self.edges.len() as int,
            ));
            assert(after.connections.take(self.connections.len() as int)
                == after.connections.take(earlier.connections.len() as int).take(
                self.connections.len() as int,
            ));
            assert forall|i: int|
                0 <= i < links.len() && (#[trigger] links[i]).root.0
                    < self.values.len() implies after.pending.contains(links[i].root) by {
                if i < front.len() {
                    assert(front[i] == links[i]);
                }
            }
        }
    }
}

/// What an aggregation frame derives for the socket at a position.
fn plan_aggregation_link(ctx: &Graph, parent: &Component, child: &Component, position: usize) -> (planned:
    Result<Option<FrameLink>, DiagramError>)
    requires
        ctx.wf(),
        position < ctx@.sockets.len(),
    ensures
        planned == ctx@.aggregation_link(*parent, *child, ctx@.sockets[position as int]),
{
    let socket = ctx.socket_at(position);
    proof {
        assert(ctx@.socket_wf(position as int));
    }
    match socket.edge_kind {
        SocketEdgeKind::ConfigurationInput => {
            let provider_id = match socket.provider_id {
                Some(ProviderId::Internal(provider_id)) => provider_id,
                _ => {
                    return Err(
                        DiagramError::Edge(EdgeError::InternalProviderNotFoundForSocket(socket.id)),
                    );
                },
            };
            let attribute_prototype_id = match InternalProvider::get_by_id(ctx, provider_id) {
                Some(provider) => provider.attribute_prototype_id,
                None => unreached(),
            };
            let mut read_context = AttributeReadContext::any();
            read_context.component_id = Filter::Is(parent.id);
            read_context.internal_provider_id = Filter::Is(provider_id);
            let root = match AttributeValue::find_id_for_context(ctx, read_context) {
                Ok(root) => root,
                Err(_) => {
                    return Err(DiagramError::AttributeValueNotFoundForContext(read_context));
                },
            };
            Ok(
                Some(
                    FrameLink {
                        binding: Some(
                            FrameBinding {
                                attribute_prototype_id,
                                argument: AttributePrototypeArgument {
                                    func_argument_id: ctx.identity().func_argument_id,
                                    provider_id: ProviderId::Internal(provider_id),
                                    head_component_id: Some(parent.id),
                                    tail_component_id: Some(child.id),
                                },
                            },
                        ),
                        tail: *child,
                        tail_socket_id: socket.id,
                        head: *parent,
                        head_socket_id: socket.id,
                        connection: false,
                        root,
                    },
                ),
            )
        },
        SocketEdgeKind::ConfigurationOutput => {
            let provider_id = match socket.provider_id {
                Some(ProviderId::External(provider_id)) => provider_id,
                _ => {
                    return Err(
                        DiagramError::Edge(EdgeError::ExternalProviderNotFoundForSocket(socket.id)),
                    );
                },
            };
            let attribute_prototype_id = match ExternalProvider::get_by_id(ctx, provider_id) {
                Some(provider) => provider.attribute_prototype_id,
                None => unreached(),
            };
            let mut read_context = AttributeReadContext::any();
            read_context.component_id = Filter::Is(child.id);
            read_context.external_provider_id = Filter::Is(provider_id);
            let root = match AttributeValue::find_id_for_context(ctx, read_context) {
                Ok(root) => root,
                Err(_) => {
                    return Err(DiagramError::AttributeValueNotFoundForContext(read_context));
                },
            };
            Ok(
                Some(
                    FrameLink {
                        binding: Some(
                            FrameBinding {
                                attribute_prototype_id,
                                argument: AttributePrototypeArgument {
                                    func_argument_id: ctx.identity().func_argument_id,
                                    provider_id: ProviderId::External(provider_id),
                                    head_component_id: Some(child.id),
                                    tail_component_id: Some(parent.id),
                                },
                            },
                        ),
                        tail: *parent,
                        tail_socket_id: socket.id,
                        head: *child,
                        head_socket_id: socket.id,
                        connection: false,
                        root,
                    },
                ),
            )
        },
        SocketEdgeKind::System => Ok(None),
    }
}

/// What a configuration frame derives for the output at one position and
/// the socket at another.
fn plan_configuration_link(
    ctx: &Graph,
    parent: &Component,
    child: &Component,
    parent_position: usize,
    child_position: usize,
) -> (planned: Result<Option<FrameLink>, DiagramError>)
    requires
        ctx.wf(),
        parent_position < ctx@.sockets.len(),
        child_position < ctx@.sockets.len(),
    ensures
        planned == ctx@.configuration_link(
            *parent,
            *child,
            ctx@.sockets[parent_position as int],
            ctx@.sockets[child_position as int],
        ),
{
    let parent_socket = ctx.socket_at(parent_position);
    let child_socket = ctx.socket_at(child_position);
    proof {
        assert(ctx@.socket_wf(parent_position as int));
        assert(ctx@.socket_wf(child_position as int));
    }
    if child_socket.schema_variant_id != Some(child.schema_variant_id) || child_socket.kind
        == SocketKind::Frame {
        return Ok(None);
    }
    let parent_provider_id = match parent_socket.provider_id {
        Some(ProviderId::External(provider_id)) => provider_id,
        _ => {
            return Ok(None);
        },
    };
    let child_provider_id = match child_socket.provider_id {
        Some(ProviderId::Internal(provider_id)) => provider_id,
        _ => {
            return Ok(None);
        },
    };
    let parent_provider = match ExternalProvider::get_by_id(ctx, parent_provider_id) {
        Some(provider) => provider,
        None => unreached(),
    };
    let child_provider = match InternalProvider::get_by_id(ctx, child_provider_id) {
        Some(provider) => provider,
        None => unreached(),
    };
    if parent_provider.name != child_provider.name {
        return Ok(None);
    }
    let mut read_context = AttributeReadContext::any();
    read_context.prop_id = Filter::Unset;
    read_context.internal_provider_id = Filter::Unset;
    read_context.external_provider_id = Filter::Is(parent_provider_id);
    read_context.component_id = Filter::Is(parent.id);
    let root = match AttributeValue::find_id_for_context(ctx, read_context) {
        Ok(root) => root,
        Err(_) => {
            return Err(DiagramError::AttributeValueNotFoundForContext(read_context));
        },
    };
    Ok(
        Some(
            FrameLink {
                binding: None,
                tail: *parent,
                tail_socket_id: parent_socket.id,
                head: *child,
                head_socket_id: child_socket.id,
                connection: true,
                root,
            },
        ),
    )
}

/// Plans the links that a frame derives for the socket at a position, and
/// puts them behind the links planned so far.
fn plan_socket_links(
    ctx: &Graph,
    parent: &Component,
    child: &Component,
    position: usize,
    links: &mut Vec<FrameLink>,
) -> (planned: Result<(), DiagramError>)
    requires
        ctx.wf(),
        position < ctx@.sockets.len(),
    ensures
        match planned {
            Ok(()) => ctx@.socket_links(*parent, *child, ctx@.sockets[position as int])
                matches Ok(more) && final(links)@ == old(links)@ + more,
            Err(error) => ctx@.socket_links(*parent, *child, ctx@.sockets[position as int])
                == Err::<Seq<FrameLink>, DiagramError>(error),
        },
{
    let ghost before = links@;
    let socket = ctx.socket_at(position);
    if socket.schema_variant_id != Some(parent.schema_variant_id) || socket.kind
        == SocketKind::Frame {
        return Ok(());
    }
    if parent.component_type == ComponentType::AggregationFrame {
        match plan_aggregation_link(ctx, parent, child, position) {
            Err(error) => {
                return Err(error);
            },
            Ok(None) => {},
            Ok(Some(link)) => {
                links.push(link);
            },
        }
        return Ok(());
    }
    match socket.provider_id {
        Some(ProviderId::External(_)) => {},
        _ => {
            return Ok(());
        },
    }
    let count = ctx.socket_count();
    let ghost parent_socket = ctx@.sockets[position as int];
    let mut child_position: usize = 0;
    while child_position < count
        invariant
            ctx.wf(),
            count == ctx@.sockets.len(),
            position < count,
            parent_socket == ctx@.sockets[position as int],
            ctx@.socket_links(*parent, *child, parent_socket) == ctx@.configuration_links(
                *parent,
                *child,
                parent_socket,
                count as nat,
            ),
            child_position <= count,
            ctx@.configuration_links(*parent, *child, parent_socket, child_position as nat)
                matches Ok(more) && links@ == before + more,
        decreases count - child_position,
    {
        match plan_configuration_link(ctx, parent, child, position, child_position) {
            Err(error) => {
                proof {
                    assert(ctx@.configuration_links(
                        *parent,
                        *child,
                        parent_socket,
                        (child_position + 1) as nat,
                    ) == Err::<Seq<FrameLink>, DiagramError>(error));
                    ctx@.lemma_configuration_failure_stays(
                        *parent,
                        *child,
                        parent_socket,
                        (child_position + 1) as nat,
                        count as nat,
                    );
                }
                return Err(error);
            },
            Ok(None) => {},
            Ok(Some(link)) => {
                links.push(link);
            },
        }
        child_position = child_position + 1;
    }
    Ok(())
}

/// Plans every link that putting the child node into the parent node
/// derives. Nothing is written.
fn plan_frame_links(ctx: &Graph, parent_node_id: NodeId, child_node_id: NodeId) -> (planned: Result<
    Vec<FrameLink>,
    DiagramError,
>)
    requires
        ctx.wf(),
    ensures
        match planned {
            Ok(links) => ctx@.frame_links(parent_node_id, child_node_id) == Ok::<
                Seq<FrameLink>,
                DiagramError,
            >(links@),
            Err(error) => ctx@.frame_links(parent_node_id, child_node_id) == Err::<
                Seq<FrameLink>,
                DiagramError,
            >(error),
        },
{
    let parent = match Component::find_for_node(ctx, parent_node_id) {
        Some(component) => component,
        None => {
            return Err(DiagramError::NodeNotFound(parent_node_id));
        },
    };
    let child = match Component::find_for_node(ctx, child_node_id) {
        Some(component) => component,
        None => {
            return Err(DiagramError::NodeNotFound(child_node_id));
        },
    };
    match parent.get_type() {
        ComponentType::AggregationFrame => {},
        ComponentType::ConfigurationFrame => {},
        component_type => {
            return Err(DiagramError::InvalidComponentTypeForFrame(component_type));
        },
    }
    let mut links: Vec<FrameLink> = Vec::new();
    let count = ctx.socket_count();
    let mut position: usize = 0;
    while position < count
        invariant
            ctx.wf(),
            count == ctx@.sockets.len(),
            position <= count,
            ctx@.frame_links(parent_node_id, child_node_id) == ctx@.frame_links_among(
                parent,
                child,
                count as nat,
            ),
            ctx@.frame_links_among(parent, child, position as nat) == Ok::<
                Seq<FrameLink>,
                DiagramError,
            >(links@),
        decreases count - position,
    {
        match plan_socket_links(ctx, &parent, &child, position, &mut links) {
            Err(error) => {
                proof {
                    assert(ctx@.frame_links_among(parent, child, (position + 1) as nat) == Err::<
                        Seq<FrameLink>,
                        DiagramError,
                    >(error));
                    ctx@.lemma_frame_failure_stays(
                        parent,
                        child,
                        (position + 1) as nat,
                        count as nat,
                    );
                }
                return Err(error);
            },
            Ok(()) => {},
        }
        position = position + 1;
    }
    Ok(links)
}

/// Makes one link: binds its argument, stores its edge, with a connection
/// where the link is one, and queues its root.
fn make_frame_link(ctx: &mut Graph, link: &FrameLink)
    requires
        old(ctx).wf(),
    ensures
        final(ctx).wf(),
        old(ctx).scaffolded() ==> final(ctx).scaffolded(),
        final(ctx)@ == old(ctx)@.with_frame_link(*link),
{
    if let Some(binding) = link.binding {
        AttributePrototypeArgument::attach(ctx, binding.attribute_prototype_id, binding.argument);
    }
    let edge = Edge {
        id: EdgeId(ctx.edges().len() as u64),
        kind: EdgeKind::Configuration,
        head_node_id: link.head.node_id,
        head_object_kind: VertexObjectKind::Configuration,
        head_object_id: link.head.id,
        head_socket_id: link.head_socket_id,
        tail_node_id: link.tail.node_id,
        tail_object_kind: VertexObjectKind::Configuration,
        tail_object_id: link.tail.id,
        tail_socket_id: link.tail_socket_id,
    };
    Edge::store(ctx, edge, link.connection);
    ctx.enqueue_dependent_values_update(link.root);
}

/// Makes the planned links one after the other.
fn make_frame_links(ctx: &mut Graph, links: &Vec<FrameLink>)
    requires
        old(ctx).wf(),
    ensures
        final(ctx).wf(),
        old(ctx).scaffolded() ==> final(ctx).scaffolded(),
        final(ctx)@ == old(ctx)@.with_frame_links(links@),
{
    let mut made: usize = 0;
    while made < links.len()
        invariant
            ctx.wf(),
            old(ctx).scaffolded() ==> ctx.scaffolded(),
            made <= links.len(),
            ctx@ == old(ctx)@.with_frame_links(links@.take(made as int)),
        decreases links.len() - made,
    {
        make_frame_link(ctx, &links[made]);
        proof {
            assert(links@.take(made + 1).drop_last() == links@.take(made as int));
        }
        made = made + 1;
    }
    assert(links@.take(made as int) == links@);
}

/// Wires the sockets of the frame at the parent node to the component at
/// the child node.
///
/// Both nodes must hold a component, and the parent must be a configuration
/// frame or an aggregation frame. Every socket of the frame that is no frame
/// socket is then looked at in turn. An aggregation frame binds the provider
/// behind an input or output socket to the child, stores an edge, and queues
/// the value of the provider as a root. A configuration frame connects each
/// output to every socket of the child whose internal provider has the name
/// of the output's external provider, and queues the value that the output
/// exposes for the frame. A missing provider or value fails the whole
/// operation, and then nothing is written.
pub fn connect_component_sockets_to_frame(
    ctx: &mut Graph,
    parent_node_id: NodeId,
    child_node_id: NodeId,
) -> (connected: Result<(), DiagramError>)
    requires
        old(ctx).wf(),
    ensures
        final(ctx).wf(),
        old(ctx).scaffolded() ==> final(ctx).scaffolded(),
        match connected {
            Ok(()) => old(ctx)@.frame_links(parent_node_id, child_node_id) matches Ok(links)
                && final(ctx)@ == old(ctx)@.with_frame_links(links),
            Err(error) => old(ctx)@.frame_links(parent_node_id, child_node_id) == Err::<
                Seq<FrameLink>,
                DiagramError,
            >(error) && final(ctx)@ == old(ctx)@,
        },
{
    let links = match plan_frame_links(ctx, parent_node_id, child_node_id) {
        Ok(links) => links,
        Err(error) => {
            return Err(error);
        },
    };
    make_frame_links(ctx, &links);
    Ok(())
}

/// Puts the component at the child node into the frame at the parent node:
/// connects the frame socket of the child to the frame socket of the parent
/// with a symbolic connection, and wires the sockets of the frame to the
/// child. Where any part fails, nothing is written.
pub fn connect_component_to_frame(ctx: &mut Graph, request: CreateFrameConnectionRequest) -> (connected:
    Result<CreateFrameConnectionResponse, DiagramError>)
    requires
        old(ctx).wf(),
    ensures
        final(ctx).wf(),
        old(ctx).scaffolded() ==> final(ctx).scaffolded(),
        match connected {
            Ok(response) => old(ctx)@.connected_to_frame(
                request.parent_node_id,
                request.child_node_id,
            ) == Ok::<(Connection, GraphView), DiagramError>((response.connection, final(ctx)@)),
            Err(error) => old(ctx)@.connected_to_frame(
                request.parent_node_id,
                request.child_node_id,
            ) == Err::<(Connection, GraphView), DiagramError>(error) && final(ctx)@ == old(ctx)@,
        },
{
    let from_socket_id = match Socket::find_frame_socket_for_node(
        ctx,
        request.child_node_id,
        SocketEdgeKind::ConfigurationOutput,
    ) {
        Ok(socket_id) => socket_id,
        Err(error) => {
            return Err(DiagramError::Socket(error));
        },
    };
    let to_socket_id = match Socket::find_frame_socket_for_node(
        ctx,
        request.parent_node_id,
        SocketEdgeKind::ConfigurationInput,
    ) {
        Ok(socket_id) => socket_id,
        Err(error) => {
            return Err(DiagramError::Socket(error));
        },
    };
    let links = match plan_frame_links(ctx, request.parent_node_id, request.child_node_id) {
        Ok(links) => links,
        Err(error) => {
            return Err(error);
        },
    };
    proof {
        let child = ctx@.component_for_node(request.child_node_id).unwrap();
        let parent = ctx@.component_for_node(request.parent_node_id).unwrap();
        ctx@.lemma_first_frame_socket(
            child.schema_variant_id,
            SocketEdgeKind::ConfigurationOutput,
            0,
        );
        ctx@.lemma_first_frame_socket(
            parent.schema_variant_id,
            SocketEdgeKind::ConfigurationInput,
            0,
        );
    }
    let connection = match Connection::new(
        ctx,
        request.child_node_id,
        from_socket_id,
        request.parent_node_id,
        to_socket_id,
        EdgeKind::Symbolic,
    ) {
        Ok(connection) => connection,
        Err(_) => unreached(),
    };
    make_frame_links(ctx, &links);
    Ok(CreateFrameConnectionResponse { connection })
}

} // verus!
