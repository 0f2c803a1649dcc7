//! The graph: every prop, value, prototype, provider, socket, component, edge
//! and connection, each kind in a store of its own, and the queue of values
//! whose dependents wait to be computed again.
//!
//! An entity's identifier is its position in its store. Entities refer to each
//! other by identifier only.

use vstd::prelude::*;
use crate::component::Component;
use crate::edge::{Connection, Edge};
use crate::ids::{AttributeValueId, FuncArgumentId, FuncBindingId, FuncBindingReturnValueId, FuncId};
use crate::index_map::distinct;
use crate::prop::{Prop, PropView};
use crate::prototype::{one_source_each, AttributePrototype, AttributePrototypeView};
use crate::context::AttributeContext;
use crate::provider::{
    provider_context, ExternalProvider, ExternalProviderView, InternalProvider,
    InternalProviderView, ProviderId,
};
use crate::socket::{Socket, SocketView};
use crate::value::{AttributeValue, AttributeValueView};

verus! {

/// The function that hands its one argument on unchanged. Providers are made
/// with it, and frames wire providers together through it.
#[derive(Debug, Clone, Copy, PartialEq, Eq, Structural)]
pub struct IdentityFunc {
    pub func_id: FuncId,
    pub func_binding_id: FuncBindingId,
    pub func_binding_return_value_id: FuncBindingReturnValueId,
    pub func_argument_id: FuncArgumentId,
}

/// The whole state of the engine.
#[derive(Debug)]
pub struct Graph {
    pub(crate) identity: IdentityFunc,
    pub(crate) props: Vec<Prop>,
    pub(crate) values: Vec<AttributeValue>,
    pub(crate) prototypes: Vec<AttributePrototype>,
    pub(crate) internal_providers: Vec<InternalProvider>,
    pub(crate) external_providers: Vec<ExternalProvider>,
    pub(crate) sockets: Vec<Socket>,
    pub(crate) components: Vec<Component>,
    pub(crate) edges: Vec<Edge>,
    pub(crate) connections: Vec<Connection>,
    pub(crate) pending: Vec<AttributeValueId>,
}

/// The mathematical value of the graph.
pub struct GraphView {
    pub identity: IdentityFunc,
    pub props: Seq<PropView>,
    pub values: Seq<AttributeValueView>,
    pub prototypes: Seq<AttributePrototypeView>,
    pub internal_providers: Seq<InternalProviderView>,
    pub external_providers: Seq<ExternalProviderView>,
    pub sockets: Seq<SocketView>,
    pub components: Seq<Component>,
    pub edges: Seq<Edge>,
    pub connections: Seq<Connection>,
    /// The values whose dependents wait to be computed again, oldest first.
    pub pending: Seq<AttributeValueId>,
}

impl View for Graph {
    type V = GraphView;

    open(crate) spec fn view(&self) -> GraphView {
        GraphView {
            identity: self.identity,
            props: self.props@.map_values(|prop: Prop| prop@),
            values: self.values@.map_values(|value: AttributeValue| value@),
            prototypes: self.prototypes@.map_values(|prototype: AttributePrototype| prototype@),
            internal_providers: self.internal_providers@.map_values(
                |provider: InternalProvider| provider@,
            ),
            external_providers: self.external_providers@.map_values(
                |provider: ExternalProvider| provider@,
            ),
            sockets: self.sockets@.map_values(|socket: Socket| socket@),
            components: self.components@,
            edges: self.edges@,
            connections: self.connections@,
            pending: self.pending@,
        }
    }
}

impl GraphView {
    /// The prop at position `i` has the identifier that names this position,
    /// stands after its parent, and its parent is of a kind that has children.
    pub open spec fn prop_wf(self, i: int) -> bool {
        &&& self.props[i].id.0 == i
        &&& (self.props[i].parent_prop_id matches Some(parent) ==> parent.0 < i
            && self.props[parent.0 as int].kind.spec_allows_children())
    }

    /// Every prop is as `prop_wf` says.
    pub open spec fn props_wf(self) -> bool {
        forall|i: int| 0 <= i < self.props.len() ==> #[trigger] self.prop_wf(i)
    }

    /// The value at position `i` has the identifier that names this position;
    /// it lists no child and no key twice; its parent was made before it; its
    /// prototype exists and has its context; the value that it is a proxy for
    /// exists under a less specific context.
    pub open spec fn value_wf(self, i: int) -> bool {
        &&& self.values[i].id.0 == i
        &&& (self.values[i].index_map matches Some(entries) ==> distinct(entries))
        &&& (self.values[i].parent_attribute_value_id matches Some(parent) ==> parent.0 < i)
        &&& (self.values[i].attribute_prototype_id matches Some(prototype) ==> prototype.0
            < self.prototypes.len() && self.prototypes[prototype.0 as int].context
            == self.values[i].context)
        &&& (self.values[i].proxy_for_attribute_value_id matches Some(target) ==> target.0
            < self.values.len() && self.values[target.0 as int].context.spec_is_less_specific_than(
            &self.values[i].context,
        ))
    }

    /// Every value is as `value_wf` says.
    pub open spec fn values_wf(self) -> bool {
        forall|i: int| 0 <= i < self.values.len() ==> #[trigger] self.value_wf(i)
    }

    /// The values at two positions differ in context, key or parent.
    pub open spec fn places_differ(self, i: int, j: int) -> bool {
        !self.values[i].same_place(self.values[j])
    }

    /// No two values share context, key and parent.
    pub open spec fn places_wf(self) -> bool {
        forall|i: int, j: int|
            0 <= i < j < self.values.len() ==> #[trigger] self.places_differ(i, j)
    }

    /// Whether a value is stored under exactly this context.
    pub open spec fn has_value_in_context(self, context: AttributeContext) -> bool {
        exists|v: int| 0 <= v < self.values.len() && (#[trigger] self.values[v]).context == context
    }

    /// The prototype at position `i` has the identifier that names this
    /// position, and within a component each of its parameters has one source.
    pub open spec fn prototype_wf(self, i: int) -> bool {
        &&& self.prototypes[i].id.0 == i
        &&& one_source_each(self.prototypes[i].arguments)
    }

    /// A value is stored under the context of the prototype at position `i`.
    pub open spec fn prototype_has_value(self, i: int) -> bool {
        self.has_value_in_context(self.prototypes[i].context)
    }

    /// Every prototype has a value under its context. The operations of the
    /// library attach a function to a context only together with a value, so
    /// every graph that they build from an empty one is scaffolded. A graph
    /// may be well formed without being scaffolded: then a lookup for the
    /// value of a prototype can fail.
    pub open spec fn scaffolded(self) -> bool {
        forall|i: int| 0 <= i < self.prototypes.len() ==> #[trigger] self.prototype_has_value(i)
    }

    /// Every prototype is as `prototype_wf` says.
    pub open spec fn prototypes_wf(self) -> bool {
        forall|i: int| 0 <= i < self.prototypes.len() ==> #[trigger] self.prototype_wf(i)
    }

    /// The socket at position `i` has the identifier that names this position,
    /// and the provider behind it exists.
    pub open spec fn socket_wf(self, i: int) -> bool {
        &&& self.sockets[i].id.0 == i
        &&& match self.sockets[i].provider_id {
            Some(ProviderId::Internal(provider)) => provider.0 < self.internal_providers.len(),
            Some(ProviderId::External(provider)) => provider.0 < self.external_providers.len(),
            None => true,
        }
    }

    /// The internal provider at position `i` has the identifier that names this
    /// position, its socket exists, and its prototype exists and computes the
    /// value that the provider holds for its schema variant.
    pub open spec fn internal_provider_wf(self, i: int) -> bool {
        &&& self.internal_providers[i].id.0 == i
        &&& (self.internal_providers[i].socket_id matches Some(socket) ==> socket.0
            < self.sockets.len())
        &&& self.internal_providers[i].attribute_prototype_id.0 < self.prototypes.len()
        &&& self.prototypes[self.internal_providers[i].attribute_prototype_id.0 as int].context
            == provider_context(
            ProviderId::Internal(self.internal_providers[i].id),
            self.internal_providers[i].schema_id,
            self.internal_providers[i].schema_variant_id,
        )
    }

    /// The external provider at position `i` has the identifier that names this
    /// position, its socket exists, and its prototype exists and computes the
    /// value that the provider holds for its schema variant.
    pub open spec fn external_provider_wf(self, i: int) -> bool {
        &&& self.external_providers[i].id.0 == i
        &&& (self.external_providers[i].socket_id matches Some(socket) ==> socket.0
            < self.sockets.len())
        &&& self.external_providers[i].attribute_prototype_id.0 < self.prototypes.len()
        &&& self.prototypes[self.external_providers[i].attribute_prototype_id.0 as int].context
            == provider_context(
            ProviderId::External(self.external_providers[i].id),
            self.external_providers[i].schema_id,
            self.external_providers[i].schema_variant_id,
        )
    }

    /// Every socket and every provider is as `socket_wf`,
    /// `internal_provider_wf` and `external_provider_wf` say.
    pub open spec fn providers_wf(self) -> bool {
        &&& forall|i: int| 0 <= i < self.sockets.len() ==> #[trigger] self.socket_wf(i)
        &&& forall|i: int|
            0 <= i < self.internal_providers.len() ==> #[trigger] self.internal_provider_wf(i)
        &&& forall|i: int|
            0 <= i < self.external_providers.len() ==> #[trigger] self.external_provider_wf(i)
    }

    /// The component at position `i` has the identifier and the node that name
    /// this position.
    pub open spec fn component_wf(self, i: int) -> bool {
        self.components[i].id.0 == i && self.components[i].node_id.0 == i
    }

    /// The edge at position `i` has the identifier that names this position.
    pub open spec fn edge_wf(self, i: int) -> bool {
        self.edges[i].id.0 == i
    }

    /// The connection at position `i` carries the identifier of an edge, and
    /// the edge is of the kind of the connection and links the same sockets of
    /// the same nodes.
    pub open spec fn connection_wf(self, i: int) -> bool {
        let connection = self.connections[i];
        let edge = self.edges[connection.id.0 as int];
        &&& connection.id.0 < self.edges.len()
        &&& edge.kind == connection.classification
        &&& edge.tail_node_id == connection.source.node_id
        &&& edge.tail_socket_id == connection.source.socket_id
        &&& edge.head_node_id == connection.destination.node_id
        &&& edge.head_socket_id == connection.destination.socket_id
    }

    /// Every component, edge and connection is as `component_wf`, `edge_wf`
    /// and `connection_wf` say.
    pub open spec fn diagram_wf(self) -> bool {
        &&& forall|i: int| 0 <= i < self.components.len() ==> #[trigger] self.component_wf(i)
        &&& forall|i: int| 0 <= i < self.edges.len() ==> #[trigger] self.edge_wf(i)
        &&& forall|i: int| 0 <= i < self.connections.len() ==> #[trigger] self.connection_wf(i)
    }

    /// The pending root at position `i` is a value of the graph.
    pub open spec fn pending_root_wf(self, i: int) -> bool {
        self.pending[i].0 < self.values.len()
    }

    /// Every pending root is a value of the graph, and none is queued twice.
    pub open spec fn pending_wf(self) -> bool {
        &&& forall|i: int| 0 <= i < self.pending.len() ==> #[trigger] self.pending_root_wf(i)
        &&& self.pending.no_duplicates()
    }

    /// What every operation asks of a graph and keeps.
    pub open spec fn wf(self) -> bool {
        &&& self.props_wf()
        &&& self.values_wf()
        &&& self.places_wf()
        &&& self.prototypes_wf()
        &&& self.providers_wf()
        &&& self.diagram_wf()
        &&& self.pending_wf()
    }

    /// A graph with the same props is as well formed in them.
    pub proof fn lemma_same_props_wf(self, after: GraphView)
        requires
            self.props_wf(),
            after.props == self.props,
        ensures
            after.props_wf(),
    {
        assert forall|i: int| 0 <= i < after.props.len() implies #[trigger] after.prop_wf(i) by {
            assert(self.prop_wf(i));
        }
    }

    /// A graph with the same values, and with the same prototypes followed
    /// perhaps by more, whose contexts are unchanged, is as well formed in its
    /// values and in its pending roots.
    pub proof fn lemma_same_values_wf(self, after: GraphView)
        requires
            self.values_wf(),
            self.places_wf(),
            self.pending_wf(),
            after.values == self.values,
            after.pending == self.pending,
            after.prototypes.len() >= self.prototypes.len(),
            forall|i: int|
                0 <= i < self.prototypes.len() ==> (#[trigger] after.prototypes[i]).context
                    == self.prototypes[i].context,
        ensures
            after.values_wf(),
            after.places_wf(),
            after.pending_wf(),
    {
        assert forall|i: int| 0 <= i < after.values.len() implies #[trigger] after.value_wf(i) by {
            assert(self.value_wf(i));
        }
        assert forall|i: int, j: int| 0 <= i < j < after.values.len() implies #[trigger]
            after.places_differ(i, j) by {
            assert(self.places_differ(i, j));
        }
        assert forall|i: int| 0 <= i < after.pending.len() implies #[trigger]
            after.pending_root_wf(i) by {
            assert(self.pending_root_wf(i));
        }
    }

    /// Whether `after` has every value and every prototype of this graph at
    /// its position, each with the context it has here.
    pub open spec fn keeps_contexts(self, after: GraphView) -> bool {
        &&& after.values.len() >= self.values.len()
        &&& forall|i: int|
            0 <= i < self.values.len() ==> (#[trigger] after.values[i]).context
                == self.values[i].context
        &&& after.prototypes.len() >= self.prototypes.len()
        &&& forall|i: int|
            0 <= i < self.prototypes.len() ==> (#[trigger] after.prototypes[i]).context
                == self.prototypes[i].context
    }

    /// A context that holds a value still holds one in a graph that keeps the contexts.
    pub proof fn lemma_keeps_value_in_context(self, after: GraphView, context: AttributeContext)
        requires
            self.keeps_contexts(after),
            self.has_value_in_context(context),
        ensures
            after.has_value_in_context(context),
    {
        let v = choose|v: int| 0 <= v < self.values.len() && (#[trigger] self.values[v]).context
            == context;
        assert(after.values[v].context == context);
    }

    /// A graph that keeps the contexts, and in which every prototype that
    /// this graph does not have has a value under its context, is scaffolded
    /// if this graph is.
    pub proof fn lemma_keeps_scaffolded(self, after: GraphView)
        requires
            self.keeps_contexts(after),
            forall|i: int|
                self.prototypes.len() <= i < after.prototypes.len()
                    ==> #[trigger] after.prototype_has_value(i),
        ensures
            self.scaffolded() ==> after.scaffolded(),
    {
        if self.scaffolded() {
            assert forall|i: int| 0 <= i < after.prototypes.len() implies #[trigger]
                after.prototype_has_value(i) by {
                if i < self.prototypes.len() {
                    assert(self.prototype_has_value(i));
                    self.lemma_keeps_value_in_context(after, self.prototypes[i].context);
                }
            }
        }
    }

    /// A graph with the same prototypes, which keeps the contexts of the
    /// values, is as well formed in its prototypes, and scaffolded if this
    /// graph is.
    pub proof fn lemma_same_prototypes_wf(self, after: GraphView)
        requires
            self.prototypes_wf(),
            after.prototypes == self.prototypes,
            self.keeps_contexts(after),
        ensures
            after.prototypes_wf(),
            self.scaffolded() ==> after.scaffolded(),
    {
        assert forall|i: int| 0 <= i < after.prototypes.len() implies #[trigger]
            after.prototype_wf(i) by {
            assert(self.prototype_wf(i));
        }
        self.lemma_keeps_scaffolded(after);
    }

    /// A graph with the same sockets, providers, components, edges and
    /// connections, which keeps the contexts of the prototypes, is as well
    /// formed in these.
    pub proof fn lemma_same_diagram_wf(self, after: GraphView)
        requires
            self.providers_wf(),
            self.diagram_wf(),
            after.sockets == self.sockets,
            after.internal_providers == self.internal_providers,
            after.external_providers == self.external_providers,
            after.components == self.components,
            after.edges == self.edges,
            after.connections == self.connections,
            self.keeps_contexts(after),
        ensures
            after.providers_wf(),
            after.diagram_wf(),
    {
        assert forall|i: int| 0 <= i < after.sockets.len() implies #[trigger] after.socket_wf(i) by {
            assert(self.socket_wf(i));
        }
        assert forall|i: int| 0 <= i < after.internal_providers.len() implies #[trigger]
            after.internal_provider_wf(i) by {
            assert(self.internal_provider_wf(i));
        }
        assert forall|i: int| 0 <= i < after.external_providers.len() implies #[trigger]
            after.external_provider_wf(i) by {
            assert(self.external_provider_wf(i));
        }
        assert forall|i: int| 0 <= i < after.components.len() implies #[trigger]
            after.component_wf(i) by {
            assert(self.component_wf(i));
        }
        assert forall|i: int| 0 <= i < after.edges.len() implies #[trigger] after.edge_wf(i) by {
            assert(self.edge_wf(i));
        }
        assert forall|i: int| 0 <= i < after.connections.len() implies #[trigger]
            after.connection_wf(i) by {
            assert(self.connection_wf(i));
        }
    }

    /// The graph after a value was queued as a root for the computation of its
    /// dependents. A root is queued once; what is no value of the graph is not queued.
    pub open spec fn with_pending(self, root: AttributeValueId) -> GraphView {
        if root.0 < self.values.len() && !self.pending.contains(root) {
            GraphView { pending: self.pending.push(root), ..self }
        } else {
            self
        }
    }

    /// The graph after the queue was handed to the job executor.
    pub open spec fn without_pending(self) -> GraphView {
        GraphView { pending: Seq::empty(), ..self }
    }

    /// Queueing a root keeps a graph well formed, and afterwards the root is
    /// queued if it is a value of the graph.
    pub proof fn lemma_with_pending_wf(self, root: AttributeValueId)
        requires
            self.wf(),
        ensures
            self.with_pending(root).wf(),
            self.scaffolded() ==> self.with_pending(root).scaffolded(),
            root.0 < self.values.len() ==> self.with_pending(root).pending.contains(root),
            forall|other: AttributeValueId|
                self.pending.contains(other) ==> self.with_pending(root).pending.contains(other),
    {
        let after = self.with_pending(root);
        if root.0 < self.values.len() && !self.pending.contains(root) {
            assert forall|i: int| 0 <= i < after.pending.len() implies #[trigger]
                after.pending_root_wf(i) by {
                if i < self.pending.len() {
                    assert(self.pending_root_wf(i));
                }
            }
            assert(after.pending.last() == root);
            assert forall|other: AttributeValueId| self.pending.contains(other) implies
                after.pending.contains(other) by {
                let k = choose|k: int| 0 <= k < self.pending.len() && self.pending[k] == other;
                assert(after.pending[k] == other);
            }
            assert forall|i: int| 0 <= i < after.values.len() implies #[trigger] after.value_wf(
                i,
            ) by {
                assert(self.value_wf(i));
            }
            assert forall|i: int, j: int| 0 <= i < j < after.values.len() implies #[trigger]
                after.places_differ(i, j) by {
                assert(self.places_differ(i, j));
            }
            self.lemma_same_props_wf(after);
            self.lemma_same_prototypes_wf(after);
            self.lemma_same_diagram_wf(after);
        }
    }

    /// The graph without any entity.
    pub open spec fn empty(identity: IdentityFunc) -> GraphView {
        GraphView {
            identity,
            props: Seq::empty(),
            values: Seq::empty(),
            prototypes: Seq::empty(),
            internal_providers: Seq::empty(),
            external_providers: Seq::empty(),
            sockets: Seq::empty(),
            components: Seq::empty(),
            edges: Seq::empty(),
            connections: Seq::empty(),
            pending: Seq::empty(),
        }
    }
}

impl Graph {
    /// What every operation asks of a graph and keeps.
    pub open spec fn wf(&self) -> bool {
        self@.wf()
    }

    /// Every prototype has a value under its context. A new graph is
    /// scaffolded, and every operation keeps a scaffolded graph scaffolded.
    pub open spec fn scaffolded(&self) -> bool {
        self@.scaffolded()
    }

    /// A graph without any entity, for an engine whose pass-through function is `identity`.
    pub fn new(identity: IdentityFunc) -> (graph: Graph)
        ensures
            graph@ == GraphView::empty(identity),
            graph.wf(),
            graph.scaffolded(),
    {
        let graph = Graph {
            identity,
            props: Vec::new(),
            values: Vec::new(),
            prototypes: Vec::new(),
            internal_providers: Vec::new(),
            external_providers: Vec::new(),
            sockets: Vec::new(),
            components: Vec::new(),
            edges: Vec::new(),
            connections: Vec::new(),
            pending: Vec::new(),
        };
        assert(graph@.props =~= Seq::empty());
        assert(graph@.values =~= Seq::empty());
        assert(graph@.prototypes =~= Seq::empty());
        assert(graph@.internal_providers =~= Seq::empty());
        assert(graph@.external_providers =~= Seq::empty());
        assert(graph@.sockets =~= Seq::empty());
        graph
    }

    /// The position that an identifier names in a store of `len` entities, if
    /// the store has such a position.
    pub(crate) fn position(raw: u64, len: usize) -> (position: Option<usize>)
        ensures
            match position {
                Some(i) => i == raw && raw < len,
                None => raw >= len,
            },
    {
        if raw < len as u64 {
            Some(raw as usize)
        } else {
            None
        }
    }

    /// The number of stored values.
    pub fn value_count(&self) -> (count: usize)
        ensures
            count == self@.values.len(),
    {
        self.values.len()
    }

    /// The value at a position.
    pub(crate) fn value_at(&self, i: usize) -> (value: &AttributeValue)
        requires
            i < self@.values.len(),
        ensures
            value@ == self@.values[i as int],
    {
        &self.values[i]
    }

    /// The number of stored props.
    pub fn prop_count(&self) -> (count: usize)
        ensures
            count == self@.props.len(),
    {
        self.props.len()
    }

    /// The prop at a position.
    pub(crate) fn prop_at(&self, i: usize) -> (prop: &Prop)
        requires
            i < self@.props.len(),
        ensures
            prop@ == self@.props[i as int],
    {
        &self.props[i]
    }

    /// The number of stored prototypes.
    pub fn prototype_count(&self) -> (count: usize)
        ensures
            count == self@.prototypes.len(),
    {
        self.prototypes.len()
    }

    /// The prototype at a position.
    pub(crate) fn prototype_at(&self, i: usize) -> (prototype: &AttributePrototype)
        requires
            i < self@.prototypes.len(),
        ensures
            prototype@ == self@.prototypes[i as int],
    {
        &self.prototypes[i]
    }

    /// Queues a value as a root for the computation of its dependents, unless
    /// it is queued already or is no value of the graph.
    pub fn enqueue_dependent_values_update(&mut self, root: AttributeValueId)
        requires
            old(self).wf(),
        ensures
            final(self).wf(),
            old(self).scaffolded() ==> final(self).scaffolded(),
            final(self)@ == old(self)@.with_pending(root),
    {
        proof {
            self@.lemma_with_pending_wf(root);
        }
        if Graph::position(root.0, self.value_count()).is_none() {
            return ;
        }
        let mut i: usize = 0;
        while i < self.pending.len()
            invariant
                *self == *old(self),
                old(self)@.with_pending(root).wf(),
                root.0 < self@.values.len(),
                i <= self.pending.len(),
                forall|k: int| 0 <= k < i ==> self.pending@[k] != root,
            decreases self.pending.len() - i,
        {
            if self.pending[i] == root {
                return ;
            }
            i = i + 1;
        }
        self.pending.push(root);
    }

    /// The values queued as roots, oldest first.
    pub fn pending_roots(&self) -> (roots: &Vec<AttributeValueId>)
        ensures
            roots@ == self@.pending,
    {
        &self.pending
    }

    /// Hands the queued roots to the job executor and empties the queue.
    pub fn take_pending_roots(&mut self) -> (roots: Vec<AttributeValueId>)
        requires
            old(self).wf(),
        ensures
            final(self).wf(),
            old(self).scaffolded() ==> final(self).scaffolded(),
            roots@ == old(self)@.pending,
            final(self)@ == old(self)@.without_pending(),
    {
        let mut roots: Vec<AttributeValueId> = Vec::new();
        core::mem::swap(&mut roots, &mut self.pending);
        proof {
            let before = old(self)@;
            let after = before.without_pending();
            assert forall|i: int| 0 <= i < after.values.len() implies #[trigger] after.value_wf(
                i,
            ) by {
                assert(before.value_wf(i));
            }
            assert forall|i: int, j: int| 0 <= i < j < after.values.len() implies #[trigger]
                after.places_differ(i, j) by {
                assert(before.places_differ(i, j));
            }
            before.lemma_same_props_wf(after);
            before.lemma_same_prototypes_wf(after);
            before.lemma_same_diagram_wf(after);
        }
        roots
    }

    /// The edges, in the order in which they were made.
    pub fn edges(&self) -> (edges: &Vec<Edge>)
        ensures
            edges@ == self@.edges,
    {
        &self.edges
    }

    /// The connections, in the order in which they were made.
    pub fn connections(&self) -> (connections: &Vec<Connection>)
        ensures
            connections@ == self@.connections,
    {
        &self.connections
    }

    /// The number of stored sockets.
    pub fn socket_count(&self) -> (count: usize)
        ensures
            count == self@.sockets.len(),
    {
        self.sockets.len()
    }

    /// The socket at a position.
    pub(crate) fn socket_at(&self, i: usize) -> (socket: &Socket)
        requires
            i < self@.sockets.len(),
        ensures
            socket@ == self@.sockets[i as int],
    {
        &self.sockets[i]
    }

    /// The number of stored internal providers.
    pub fn internal_provider_count(&self) -> (count: usize)
        ensures
            count == self@.internal_providers.len(),
    {
        self.internal_providers.len()
    }

    /// The internal provider at a position.
    pub(crate) fn internal_provider_at(&self, i: usize) -> (provider: &InternalProvider)
        requires
            i < self@.internal_providers.len(),
        ensures
            provider@ == self@.internal_providers[i as int],
    {
        &self.internal_providers[i]
    }

    /// The number of stored external providers.
    pub fn external_provider_count(&self) -> (count: usize)
        ensures
            count == self@.external_providers.len(),
    {
        self.external_providers.len()
    }

    /// The external provider at a position.
    pub(crate) fn external_provider_at(&self, i: usize) -> (provider: &ExternalProvider)
        requires
            i < self@.external_providers.len(),
        ensures
            provider@ == self@.external_providers[i as int],
    {
        &self.external_providers[i]
    }

    /// The number of stored components.
    pub fn component_count(&self) -> (count: usize)
        ensures
            count == self@.components.len(),
    {
        self.components.len()
    }

    /// The pass-through function of this engine.
    pub fn identity(&self) -> (identity: IdentityFunc)
        ensures
            identity == self@.identity,
    {
        self.identity
    }
}

/// A vector with a copy of each entity, in the same order.
fn copy_of<T: Clone + View>(entities: &Vec<T>) -> (copy: Vec<T>)
    requires
        forall|entity: T, cloned: T| #[trigger]
            call_ensures(T::clone, (&entity,), cloned) ==> cloned@ == entity@,
    ensures
        copy@.len() == entities@.len(),
        forall|i: int| 0 <= i < entities@.len() ==> (#[trigger] copy@[i])@ == entities@[i]@,
{
    let mut copy: Vec<T> = Vec::new();
    let mut i: usize = 0;
    while i < entities.len()
        invariant
            forall|entity: T, cloned: T| #[trigger]
                call_ensures(T::clone, (&entity,), cloned) ==> cloned@ == entity@,
            i <= entities.len(),
            copy@.len() == i,
            forall|k: int| 0 <= k < i ==> (#[trigger] copy@[k])@ == entities@[k]@,
        decreases entities.len() - i,
    {
        copy.push(entities[i].clone());
        i = i + 1;
    }
    copy
}

/// A vector with the same entities, in the same order.
fn same_as<T: Copy>(entities: &Vec<T>) -> (copy: Vec<T>)
    ensures
        copy@ == entities@,
{
    let mut copy: Vec<T> = Vec::new();
    let mut i: usize = 0;
    while i < entities.len()
        invariant
            i <= entities.len(),
            copy@ == entities@.take(i as int),
        decreases entities.len() - i,
    {
        copy.push(entities[i]);
        assert(entities@.take(i + 1) == entities@.take(i as int).push(entities@[i as int]));
        i = i + 1;
    }
    assert(entities@.take(i as int) == entities@);
    copy
}

impl Clone for Graph {
    /// A graph with the same contents: a draft on which a unit of work is
    /// done, to take the place of the graph when the work has succeeded and to
    /// be dropped when it has failed.
    fn clone(&self) -> (copy: Graph)
        ensures
            copy@ == self@,
    {
        let copy = Graph {
            identity: self.identity,
            props: copy_of(&self.props),
            values: copy_of(&self.values),
            prototypes: copy_of(&self.prototypes),
            internal_providers: copy_of(&self.internal_providers),
            external_providers: copy_of(&self.external_providers),
            sockets: copy_of(&self.sockets),
            components: same_as(&self.components),
            edges: same_as(&self.edges),
            connections: same_as(&self.connections),
            pending: same_as(&self.pending),
        };
        assert(copy@.props =~= self@.props);
        assert(copy@.values =~= self@.values);
        assert(copy@.prototypes =~= self@.prototypes);
        assert(copy@.internal_providers =~= self@.internal_providers);
        assert(copy@.external_providers =~= self@.external_providers);
        assert(copy@.sockets =~= self@.sockets);
        copy
    }
}

} // verus!
