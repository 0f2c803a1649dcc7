//! Providers: the named endpoints through which values flow between
//! attributes and between components.

use vstd::prelude::*;
use crate::context::{AttributeCarrier, AttributeContext, AttributeContextBuilderError};
use crate::graph::{Graph, GraphView};
use crate::ids::{
    AttributePrototypeId, ExternalProviderId, FuncBindingId, FuncBindingReturnValueId, FuncId,
    InternalProviderId, PropId, SchemaId, SchemaVariantId, SocketId,
};
use crate::prototype::{AttributePrototype, AttributePrototypeError};
use crate::socket::{DiagramKind, Socket, SocketArity, SocketEdgeKind, SocketKind, SocketView};
use crate::value::AttributeValueError;

verus! {

/// A consumer-facing endpoint of a schema variant. It is implicit where it
/// reads a prop, and explicit where it stands behind an input socket.
#[derive(Debug, PartialEq, Eq)]
pub struct InternalProvider {
    pub id: InternalProviderId,
    pub schema_id: SchemaId,
    pub schema_variant_id: SchemaVariantId,
    pub name: String,
    /// The prop that an implicit provider reads; an explicit provider has none.
    pub prop_id: Option<PropId>,
    /// The input socket of an explicit provider.
    pub socket_id: Option<SocketId>,
    /// The prototype that computes what the provider holds.
    pub attribute_prototype_id: AttributePrototypeId,
}

/// The mathematical value of an internal provider.
pub struct InternalProviderView {
    pub id: InternalProviderId,
    pub schema_id: SchemaId,
    pub schema_variant_id: SchemaVariantId,
    pub name: Seq<char>,
    pub prop_id: Option<PropId>,
    pub socket_id: Option<SocketId>,
    pub attribute_prototype_id: AttributePrototypeId,
}

impl View for InternalProvider {
    type V = InternalProviderView;

    open spec fn view(&self) -> InternalProviderView {
        InternalProviderView {
            id: self.id,
            schema_id: self.schema_id,
            schema_variant_id: self.schema_variant_id,
            name: self.name@,
            prop_id: self.prop_id,
            socket_id: self.socket_id,
            attribute_prototype_id: self.attribute_prototype_id,
        }
    }
}

impl InternalProviderView {
    /// An explicit provider reads no prop.
    pub open spec fn is_explicit(self) -> bool {
        self.prop_id is None
    }
}

/// A producer-facing endpoint of a schema variant, behind an output socket.
#[derive(Debug, PartialEq, Eq)]
pub struct ExternalProvider {
    pub id: ExternalProviderId,
    pub schema_id: SchemaId,
    pub schema_variant_id: SchemaVariantId,
    pub name: String,
    pub socket_id: Option<SocketId>,
    /// The prototype that computes what the provider exposes.
    pub attribute_prototype_id: AttributePrototypeId,
}

/// The mathematical value of an external provider.
pub struct ExternalProviderView {
    pub id: ExternalProviderId,
    pub schema_id: SchemaId,
    pub schema_variant_id: SchemaVariantId,
    pub name: Seq<char>,
    pub socket_id: Option<SocketId>,
    pub attribute_prototype_id: AttributePrototypeId,
}

impl View for ExternalProvider {
    type V = ExternalProviderView;

    open spec fn view(&self) -> ExternalProviderView {
        ExternalProviderView {
            id: self.id,
            schema_id: self.schema_id,
            schema_variant_id: self.schema_variant_id,
            name: self.name@,
            socket_id: self.socket_id,
            attribute_prototype_id: self.attribute_prototype_id,
        }
    }
}

/// Either kind of provider.
#[derive(Debug, Clone, Copy, PartialEq, Eq, Structural)]
pub enum ProviderId {
    Internal(InternalProviderId),
    External(ExternalProviderId),
}

/// Why a provider could not be made.
#[derive(Debug, Clone, Copy, PartialEq, Eq, Structural)]
pub enum ProviderError {
    /// The prototype of the provider could not be made.
    AttributePrototype(AttributePrototypeError),
    /// No prop has this identifier.
    PropNotFound(PropId),
}

impl ProviderError {
    /// The error of a provider whose context already holds a value.
    pub open spec fn context_in_use(context: AttributeContext) -> ProviderError {
        ProviderError::AttributePrototype(
            AttributePrototypeError::AttributeValue(
                AttributeValueError::AttributeContextBuilder(
                    AttributeContextBuilderError::ContextInUse(context),
                ),
            ),
        )
    }
}

/// The context of the value that a provider holds for every component of its
/// schema variant.
pub open spec fn provider_context(
    provider_id: ProviderId,
    schema_id: SchemaId,
    schema_variant_id: SchemaVariantId,
) -> AttributeContext {
    AttributeContext {
        carrier: match provider_id {
            ProviderId::Internal(id) => AttributeCarrier::InternalProvider(id),
            ProviderId::External(id) => AttributeCarrier::ExternalProvider(id),
        },
        schema_id: Some(schema_id),
        schema_variant_id: Some(schema_variant_id),
        component_id: None,
    }
}

impl GraphView {
    /// Whether an internal provider with this identifier is stored.
    pub open spec fn has_internal_provider(self, id: InternalProviderId) -> bool {
        id.0 < self.internal_providers.len()
    }

    /// The stored internal provider with this identifier.
    pub open spec fn internal_provider(self, id: InternalProviderId) -> InternalProviderView {
        self.internal_providers[id.0 as int]
    }

    /// Whether an external provider with this identifier is stored.
    pub open spec fn has_external_provider(self, id: ExternalProviderId) -> bool {
        id.0 < self.external_providers.len()
    }

    /// The stored external provider with this identifier.
    pub open spec fn external_provider(self, id: ExternalProviderId) -> ExternalProviderView {
        self.external_providers[id.0 as int]
    }

    /// The identifier that the next internal provider gets.
    pub open spec fn next_internal_provider_id(self) -> InternalProviderId {
        InternalProviderId(self.internal_providers.len() as u64)
    }

    /// The identifier that the next external provider gets.
    pub open spec fn next_external_provider_id(self) -> ExternalProviderId {
        ExternalProviderId(self.external_providers.len() as u64)
    }

    /// The identifier that the next socket gets.
    pub open spec fn next_socket_id(self) -> SocketId {
        SocketId(self.sockets.len() as u64)
    }

    /// The internal provider that stands behind a socket, if one does.
    pub open spec fn internal_provider_for_socket(self, socket_id: SocketId) -> Option<
        InternalProviderId,
    > {
        if self.has_socket(socket_id) {
            match self.socket(socket_id).provider_id {
                Some(ProviderId::Internal(id)) => Some(id),
                _ => None,
            }
        } else {
            None
        }
    }

    /// The external provider that stands behind a socket, if one does.
    pub open spec fn external_provider_for_socket(self, socket_id: SocketId) -> Option<
        ExternalProviderId,
    > {
        if self.has_socket(socket_id) {
            match self.socket(socket_id).provider_id {
                Some(ProviderId::External(id)) => Some(id),
                _ => None,
            }
        } else {
            None
        }
    }

    /// The graph with a new implicit internal provider for a prop: its
    /// prototype with the pass-through function, the value that the prototype
    /// computes, and the provider itself, which has the name of the prop.
    pub open spec fn with_implicit_internal_provider(
        self,
        prop_id: PropId,
        schema_id: SchemaId,
        schema_variant_id: SchemaVariantId,
    ) -> GraphView {
        let id = self.next_internal_provider_id();
        let made = self.with_prototype_and_value(
            self.identity.func_id,
            self.identity.func_binding_id,
            None,
            provider_context(ProviderId::Internal(id), schema_id, schema_variant_id),
            None,
        );
        GraphView {
            internal_providers: made.internal_providers.push(
                InternalProviderView {
                    id,
                    schema_id,
                    schema_variant_id,
                    name: self.prop(prop_id).name,
                    prop_id: Some(prop_id),
                    socket_id: None,
                    attribute_prototype_id: self.next_prototype_id(),
                },
            ),
            ..made
        }
    }

    /// The graph with a new explicit internal provider: its prototype, the
    /// value that the prototype computes, its input socket, and the provider itself.
    pub open spec fn with_explicit_internal_provider(
        self,
        schema_id: SchemaId,
        schema_variant_id: SchemaVariantId,
        name: Seq<char>,
        func_id: FuncId,
        func_binding_id: FuncBindingId,
        func_binding_return_value_id: FuncBindingReturnValueId,
        arity: SocketArity,
        diagram_kind: DiagramKind,
    ) -> GraphView {
        let id = self.next_internal_provider_id();
        let made = self.with_prototype_and_value(
            func_id,
            func_binding_id,
            Some(func_binding_return_value_id),
            provider_context(ProviderId::Internal(id), schema_id, schema_variant_id),
            None,
        );
        GraphView {
            sockets: made.sockets.push(
                SocketView {
                    id: self.next_socket_id(),
                    name,
                    kind: SocketKind::Provider,
                    edge_kind: SocketEdgeKind::ConfigurationInput,
                    arity,
                    diagram_kind,
                    schema_variant_id: Some(schema_variant_id),
                    provider_id: Some(ProviderId::Internal(id)),
                },
            ),
            internal_providers: made.internal_providers.push(
                InternalProviderView {
                    id,
                    schema_id,
                    schema_variant_id,
                    name,
                    prop_id: None,
                    socket_id: Some(self.next_socket_id()),
                    attribute_prototype_id: self.next_prototype_id(),
                },
            ),
            ..made
        }
    }

    /// The graph with a new external provider: its prototype, the value that
    /// the prototype computes, its output socket, and the provider itself.
    pub open spec fn with_external_provider(
        self,
        schema_id: SchemaId,
        schema_variant_id: SchemaVariantId,
        name: Seq<char>,
        func_id: FuncId,
        func_binding_id: FuncBindingId,
        func_binding_return_value_id: FuncBindingReturnValueId,
        arity: SocketArity,
        diagram_kind: DiagramKind,
    ) -> GraphView {
        let id = self.next_external_provider_id();
        let made = self.with_prototype_and_value(
            func_id,
            func_binding_id,
            Some(func_binding_return_value_id),
            provider_context(ProviderId::External(id), schema_id, schema_variant_id),
            None,
        );
        GraphView {
            sockets: made.sockets.push(
                SocketView {
                    id: self.next_socket_id(),
                    name,
                    kind: SocketKind::Provider,
                    edge_kind: SocketEdgeKind::ConfigurationOutput,
                    arity,
                    diagram_kind,
                    schema_variant_id: Some(schema_variant_id),
                    provider_id: Some(ProviderId::External(id)),
                },
            ),
            external_providers: made.external_providers.push(
                ExternalProviderView {
                    id,
                    schema_id,
                    schema_variant_id,
                    name,
                    socket_id: Some(self.next_socket_id()),
                    attribute_prototype_id: self.next_prototype_id(),
                },
            ),
            ..made
        }
    }

    /// A graph stays well formed when it gets sockets and providers and each
    /// socket and provider is as a well-formed graph wants it.
    pub proof fn lemma_with_providers_wf(self, after: GraphView)
        requires
            self.wf(),
            after == (GraphView {
                sockets: after.sockets,
                internal_providers: after.internal_providers,
                external_providers: after.external_providers,
                ..self
            }),
            forall|i: int| 0 <= i < after.sockets.len() ==> #[trigger] after.socket_wf(i),
            forall|i: int|
                0 <= i < after.internal_providers.len() ==> #[trigger] after.internal_provider_wf(
                    i,
                ),
            forall|i: int|
                0 <= i < after.external_providers.len() ==> #[trigger] after.external_provider_wf(
                    i,
                ),
        ensures
            after.wf(),
            self.scaffolded() ==> after.scaffolded(),
    {
        assert forall|i: int| 0 <= i < after.components.len() implies #[trigger]
            after.component_wf(i) by {
            assert(self.component_wf(i));
        }
        assert forall|i: int| 0 <= i < after.edges.len() implies #[trigger] after.edge_wf(i) by {
            assert(self.edge_wf(i));
        }
        assert forall|i: int| 0 <= i < after.connections.len() implies #[trigger]
            after.connection_wf(i) by {
            assert(self.connection_wf(i));
        }
        self.lemma_same_props_wf(after);
        self.lemma_same_values_wf(after);
        self.lemma_same_prototypes_wf(after);
    }
}

impl InternalProvider {
    /// The stored internal provider with this identifier, if there is one.
    pub fn get_by_id(ctx: &Graph, id: InternalProviderId) -> (found: Option<&InternalProvider>)
        ensures
            match found {
                Some(provider) => ctx@.has_internal_provider(id) && provider@
                    == ctx@.internal_provider(id),
                None => !ctx@.has_internal_provider(id),
            },
    {
        match Graph::position(id.0, ctx.internal_provider_count()) {
            Some(i) => Some(ctx.internal_provider_at(i)),
            None => None,
        }
    }

    /// The internal provider that stands behind a socket, if one does.
    pub fn find_explicit_for_socket(ctx: &Graph, socket_id: SocketId) -> (found: Option<
        InternalProviderId,
    >)
        ensures
            found == ctx@.internal_provider_for_socket(socket_id),
    {
        match Socket::get_by_id(ctx, socket_id) {
            Some(socket) => match socket.provider_id {
                Some(ProviderId::Internal(id)) => Some(id),
                _ => None,
            },
            None => None,
        }
    }

    /// Makes the implicit internal provider of a prop, through which the
    /// value of the prop is read from elsewhere. Fails, and makes nothing,
    /// when the prop is not stored or when the context of the provider already
    /// holds a value.
    pub fn new_implicit(
        ctx: &mut Graph,
        prop_id: PropId,
        schema_id: SchemaId,
        schema_variant_id: SchemaVariantId,
    ) -> (made: Result<InternalProviderId, ProviderError>)
        requires
            old(ctx).wf(),
        ensures
            final(ctx).wf(),
            old(ctx).scaffolded() ==> final(ctx).scaffolded(),
            match made {
                Ok(id) => {
                    &&& old(ctx)@.has_prop(prop_id)
                    &&& id.0 == old(ctx)@.internal_providers.len()
                    &&& !old(ctx)@.place_in_use(
                        provider_context(ProviderId::Internal(id), schema_id, schema_variant_id),
                        None,
                        None,
                    )
                    &&& final(ctx)@ == old(ctx)@.with_implicit_internal_provider(
                        prop_id,
                        schema_id,
                        schema_variant_id,
                    )
                },
                Err(error) => {
                    &&& final(ctx)@ == old(ctx)@
                    &&& if !old(ctx)@.has_prop(prop_id) {
                        error == ProviderError::PropNotFound(prop_id)
                    } else {
                        let context = provider_context(
                            ProviderId::Internal(old(ctx)@.next_internal_provider_id()),
                            schema_id,
                            schema_variant_id,
                        );
                        old(ctx)@.place_in_use(context, None, None) && error
                            == ProviderError::context_in_use(context)
                    }
                },
            },
    {
        let name = match Graph::position(prop_id.0, ctx.prop_count()) {
            Some(i) => ctx.prop_at(i).name.clone(),
            None => {
                return Err(ProviderError::PropNotFound(prop_id));
            },
        };
        let id = InternalProviderId(ctx.internal_provider_count() as u64);
        let context = AttributeContext {
            carrier: AttributeCarrier::InternalProvider(id),
            schema_id: Some(schema_id),
            schema_variant_id: Some(schema_variant_id),
            component_id: None,
        };
        let identity = ctx.identity();
        let attribute_prototype_id = match AttributePrototype::new(
            ctx,
            identity.func_id,
            identity.func_binding_id,
            None,
            context,
            None,
        ) {
            Ok(prototype) => prototype,
            Err(error) => {
                return Err(ProviderError::AttributePrototype(error));
            },
        };
        let ghost made = ctx@;
        ctx.internal_providers.push(
            InternalProvider {
                id,
                schema_id,
                schema_variant_id,
                name,
                prop_id: Some(prop_id),
                socket_id: None,
                attribute_prototype_id,
            },
        );
        proof {
            let after = old(ctx)@.with_implicit_internal_provider(
                prop_id,
                schema_id,
                schema_variant_id,
            );
            assert(ctx@.internal_providers =~= after.internal_providers);
            assert(after.internal_providers.drop_last() =~= made.internal_providers);
            made.lemma_with_provider_wf(after);
        }
        Ok(id)
    }

    /// Makes an explicit internal provider, an input of the components of a
    /// schema variant, together with its prototype, the value that the
    /// prototype computes, and its input socket. Fails, and makes nothing,
    /// when the context of the provider already holds a value.
    pub fn new_explicit_with_socket(
        ctx: &mut Graph,
        schema_id: SchemaId,
        schema_variant_id: SchemaVariantId,
        name: String,
        func_id: FuncId,
        func_binding_id: FuncBindingId,
        func_binding_return_value_id: FuncBindingReturnValueId,
        arity: SocketArity,
        diagram_kind: DiagramKind,
    ) -> (made: Result<(InternalProviderId, SocketId), ProviderError>)
        requires
            old(ctx).wf(),
        ensures
            final(ctx).wf(),
            old(ctx).scaffolded() ==> final(ctx).scaffolded(),
            match made {
                Ok((id, socket_id)) => {
                    &&& id.0 == old(ctx)@.internal_providers.len()
                    &&& socket_id.0 == old(ctx)@.sockets.len()
                    &&& !old(ctx)@.place_in_use(
                        provider_context(ProviderId::Internal(id), schema_id, schema_variant_id),
                        None,
                        None,
                    )
                    &&& final(ctx)@ == old(ctx)@.with_explicit_internal_provider(
                        schema_id,
                        schema_variant_id,
                        name@,
                        func_id,
                        func_binding_id,
                        func_binding_return_value_id,
                        arity,
                        diagram_kind,
                    )
                },
                Err(error) => {
                    let context = provider_context(
                        ProviderId::Internal(old(ctx)@.next_internal_provider_id()),
                        schema_id,
                        schema_variant_id,
                    );
                    &&& final(ctx)@ == old(ctx)@
                    &&& old(ctx)@.place_in_use(context, None, None)
                    &&& error == ProviderError::context_in_use(context)
                },
            },
    {
        let id = InternalProviderId(ctx.internal_provider_count() as u64);
        let socket_id = SocketId(ctx.socket_count() as u64);
        let context = AttributeContext {
            carrier: AttributeCarrier::InternalProvider(id),
            schema_id: Some(schema_id),
            schema_variant_id: Some(schema_variant_id),
            component_id: None,
        };
        let attribute_prototype_id = match AttributePrototype::new(
            ctx,
            func_id,
            func_binding_id,
            Some(func_binding_return_value_id),
            context,
            None,
        ) {
            Ok(prototype) => prototype,
            Err(error) => {
                return Err(ProviderError::AttributePrototype(error));
            },
        };
        let ghost made = ctx@;
        ctx.sockets.push(
            Socket {
                id: socket_id,
                name: name.clone(),
                kind: SocketKind::Provider,
                edge_kind: SocketEdgeKind::ConfigurationInput,
                arity,
                diagram_kind,
                schema_variant_id: Some(schema_variant_id),
                provider_id: Some(ProviderId::Internal(id)),
            },
        );
        ctx.internal_providers.push(
            InternalProvider {
                id,
                schema_id,
                schema_variant_id,
                name,
                prop_id: None,
                socket_id: Some(socket_id),
                attribute_prototype_id,
            },
        );
        proof {
            let after = old(ctx)@.with_explicit_internal_provider(
                schema_id,
                schema_variant_id,
                name@,
                func_id,
                func_binding_id,
                func_binding_return_value_id,
                arity,
                diagram_kind,
            );
            assert(ctx@.sockets =~= after.sockets);
            assert(ctx@.internal_providers =~= after.internal_providers);
            assert(after.sockets.drop_last() =~= made.sockets);
            assert(after.internal_providers.drop_last() =~= made.internal_providers);
            made.lemma_with_provider_wf(after);
        }
        Ok((id, socket_id))
    }
}

impl ExternalProvider {
    /// The stored external provider with this identifier, if there is one.
    pub fn get_by_id(ctx: &Graph, id: ExternalProviderId) -> (found: Option<&ExternalProvider>)
        ensures
            match found {
                Some(provider) => ctx@.has_external_provider(id) && provider@
                    == ctx@.external_provider(id),
                None => !ctx@.has_external_provider(id),
            },
    {
        match Graph::position(id.0, ctx.external_provider_count()) {
            Some(i) => Some(ctx.external_provider_at(i)),
            None => None,
        }
    }

    /// The external provider that stands behind a socket, if one does.
    pub fn find_for_socket(ctx: &Graph, socket_id: SocketId) -> (found: Option<ExternalProviderId>)
        ensures
            found == ctx@.external_provider_for_socket(socket_id),
    {
        match Socket::get_by_id(ctx, socket_id) {
            Some(socket) => match socket.provider_id {
                Some(ProviderId::External(id)) => Some(id),
                _ => None,
            },
            None => None,
        }
    }

    /// Makes an external provider, an output of the components of a schema
    /// variant, together with its prototype, the value that the prototype
    /// computes, and its output socket. Fails, and makes nothing, when the
    /// context of the provider already holds a value.
    pub fn new_with_socket(
        ctx: &mut Graph,
        schema_id: SchemaId,
        schema_variant_id: SchemaVariantId,
        name: String,
        func_id: FuncId,
        func_binding_id: FuncBindingId,
        func_binding_return_value_id: FuncBindingReturnValueId,
        arity: SocketArity,
        diagram_kind: DiagramKind,
    ) -> (made: Result<(ExternalProviderId, SocketId), ProviderError>)
        requires
            old(ctx).wf(),
        ensures
            final(ctx).wf(),
            old(ctx).scaffolded() ==> final(ctx).scaffolded(),
            match made {
                Ok((id, socket_id)) => {
                    &&& id.0 == old(ctx)@.external_providers.len()
                    &&& socket_id.0 == old(ctx)@.sockets.len()
                    &&& !old(ctx)@.place_in_use(
                        provider_context(ProviderId::External(id), schema_id, schema_variant_id),
                        None,
                        None,
                    )
                    &&& final(ctx)@ == old(ctx)@.with_external_provider(
                        schema_id,
                        schema_variant_id,
                        name@,
                        func_id,
                        func_binding_id,
                        func_binding_return_value_id,
                        arity,
                        diagram_kind,
                    )
                },
                Err(error) => {
                    let context = provider_context(
                        ProviderId::External(old(ctx)@.next_external_provider_id()),
                        schema_id,
                        schema_variant_id,
                    );
                    &&& final(ctx)@ == old(ctx)@
                    &&& old(ctx)@.place_in_use(context, None, None)
                    &&& error == ProviderError::context_in_use(context)
                },
            },
    {
        let id = ExternalProviderId(ctx.external_provider_count() as u64);
        let socket_id = SocketId(ctx.socket_count() as u64);
        let context = AttributeContext {
            carrier: AttributeCarrier::ExternalProvider(id),
            schema_id: Some(schema_id),
            schema_variant_id: Some(schema_variant_id),
            component_id: None,
        };
        let attribute_prototype_id = match AttributePrototype::new(
            ctx,
            func_id,
            func_binding_id,
            Some(func_binding_return_value_id),
            context,
            None,
        ) {
            Ok(prototype) => prototype,
            Err(error) => {
                return Err(ProviderError::AttributePrototype(error));
            },
        };
        let ghost made = ctx@;
        ctx.sockets.push(
            Socket {
                id: socket_id,
                name: name.clone(),
                kind: SocketKind::Provider,
                edge_kind: SocketEdgeKind::ConfigurationOutput,
                arity,
                diagram_kind,
                schema_variant_id: Some(schema_variant_id),
                provider_id: Some(ProviderId::External(id)),
            },
        );
        ctx.external_providers.push(
            ExternalProvider {
                id,
                schema_id,
                schema_variant_id,
                name,
                socket_id: Some(socket_id),
                attribute_prototype_id,
            },
        );
        proof {
            let after = old(ctx)@.with_external_provider(
                schema_id,
                schema_variant_id,
                name@,
                func_id,
                func_binding_id,
                func_binding_return_value_id,
                arity,
                diagram_kind,
            );
            assert(ctx@.sockets =~= after.sockets);
            assert(ctx@.external_providers =~= after.external_providers);
            assert(after.sockets.drop_last() =~= made.sockets);
            assert(after.external_providers.drop_last() =~= made.external_providers);
            made.lemma_with_provider_wf(after);
        }
        Ok((id, socket_id))
    }
}

impl GraphView {
    /// A graph stays well formed when it gets at most one socket and one
    /// provider, each with the next identifier of its kind, which name each
    /// other, and the prototype of the provider is stored.
    pub proof fn lemma_with_provider_wf(self, after: GraphView)
        requires
            self.wf(),
            after == (GraphView {
                sockets: after.sockets,
                internal_providers: after.internal_providers,
                external_providers: after.external_providers,
                ..self
            }),
            after.sockets == self.sockets || (after.sockets.len() == self.sockets.len() + 1
                && after.sockets.drop_last() == self.sockets && after.socket_wf(
                self.sockets.len() as int,
            )),
            after.internal_providers == self.internal_providers || (after.internal_providers.len()
                == self.internal_providers.len() + 1 && after.internal_providers.drop_last()
                == self.internal_providers && after.internal_provider_wf(
                self.internal_providers.len() as int,
            )),
            after.external_providers == self.external_providers || (after.external_providers.len()
                == self.external_providers.len() + 1 && after.external_providers.drop_last()
                == self.external_providers && after.external_provider_wf(
                self.external_providers.len() as int,
            )),
        ensures
            after.wf(),
            self.scaffolded() ==> after.scaffolded(),
    {
        assert forall|i: int| 0 <= i < after.sockets.len() implies #[trigger] after.socket_wf(i) by {
            if i < self.sockets.len() {
                assert(self.socket_wf(i));
                assert(after.sockets[i] == after.sockets.drop_last()[i] || after.sockets
                    == self.sockets);
            }
        }
        assert forall|i: int| 0 <= i < after.internal_providers.len() implies #[trigger]
            after.internal_provider_wf(i) by {
            if i < self.internal_providers.len() {
                assert(self.internal_provider_wf(i));
                assert(after.internal_providers[i] == after.internal_providers.drop_last()[i]
                    || after.internal_providers == self.internal_providers);
            }
        }
        assert forall|i: int| 0 <= i < after.external_providers.len() implies #[trigger]
            after.external_provider_wf(i) by {
            if i < self.external_providers.len() {
                assert(self.external_provider_wf(i));
                assert(after.external_providers[i] == after.external_providers.drop_last()[i]
                    || after.external_providers == self.external_providers);
            }
        }
        self.lemma_with_providers_wf(after);
    }
}

impl Clone for InternalProvider {
    /// A provider with the same contents.
    fn clone(&self) -> (copy: InternalProvider)
        ensures
            copy@ == self@,
    {
        InternalProvider {
            id: self.id,
            schema_id: self.schema_id,
            schema_variant_id: self.schema_variant_id,
            name: self.name.clone(),
            prop_id: self.prop_id,
            socket_id: self.socket_id,
            attribute_prototype_id: self.attribute_prototype_id,
        }
    }
}

impl Clone for ExternalProvider {
    /// A provider with the same contents.
    fn clone(&self) -> (copy: ExternalProvider)
        ensures
            copy@ == self@,
    {
        ExternalProvider {
            id: self.id,
            schema_id: self.schema_id,
            schema_variant_id: self.schema_variant_id,
            name: self.name.clone(),
            socket_id: self.socket_id,
            attribute_prototype_id: self.attribute_prototype_id,
        }
    }
}

} // verus!
