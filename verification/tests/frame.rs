use dal::component::Component;
use dal::component_type::ComponentType;
use dal::context::{AttributeCarrier, AttributeContext, AttributeReadContext, Filter};
use dal::edge::{Connection, Edge, EdgeError, EdgeKind, Vertex, VertexObjectKind};
use dal::frame::{
    connect_component_sockets_to_frame, connect_component_to_frame, CreateFrameConnectionRequest,
    DiagramError,
};
use dal::graph::{Graph, IdentityFunc};
use dal::ids::{
    AttributeValueId, EdgeId, ExternalProviderId, FuncArgumentId, FuncBindingId,
    FuncBindingReturnValueId, FuncId, InternalProviderId, NodeId, SchemaId, SchemaVariantId,
    SocketId,
};
use dal::prototype::{AttributePrototype, AttributePrototypeArgument};
use dal::provider::{ExternalProvider, InternalProvider, ProviderId};
use dal::socket::{
    DiagramKind, Socket, SocketArity, SocketEdgeKind, SocketError, SocketKind,
};
use dal::value::{AttributeValue, AttributeValueError};

const IDENTITY: IdentityFunc = IdentityFunc {
    func_id: FuncId(100),
    func_binding_id: FuncBindingId(101),
    func_binding_return_value_id: FuncBindingReturnValueId(102),
    func_argument_id: FuncArgumentId(103),
};

const SCHEMA: SchemaId = SchemaId(1);
const FRAME_VARIANT: SchemaVariantId = SchemaVariantId(10);
const CHILD_VARIANT: SchemaVariantId = SchemaVariantId(20);

fn input(ctx: &mut Graph, variant: SchemaVariantId, name: &str) -> (InternalProviderId, SocketId) {
    InternalProvider::new_explicit_with_socket(
        ctx,
        SCHEMA,
        variant,
        name.to_string(),
        IDENTITY.func_id,
        IDENTITY.func_binding_id,
        IDENTITY.func_binding_return_value_id,
        SocketArity::Many,
        DiagramKind::Configuration,
    )
    .expect("the context of a new provider is free")
}

fn output(ctx: &mut Graph, variant: SchemaVariantId, name: &str) -> (ExternalProviderId, SocketId) {
    ExternalProvider::new_with_socket(
        ctx,
        SCHEMA,
        variant,
        name.to_string(),
        IDENTITY.func_id,
        IDENTITY.func_binding_id,
        IDENTITY.func_binding_return_value_id,
        SocketArity::Many,
        DiagramKind::Configuration,
    )
    .expect("the context of a new provider is free")
}

fn frame_socket(ctx: &mut Graph, variant: SchemaVariantId, edge_kind: SocketEdgeKind) -> SocketId {
    let socket = Socket::new(
        ctx,
        "Frame".to_string(),
        SocketKind::Frame,
        edge_kind,
        SocketArity::Many,
        DiagramKind::Configuration,
    );
    Socket::add_to_schema_variant(ctx, socket, variant).unwrap();
    socket
}

fn value_of(ctx: &Graph, carrier: AttributeCarrier, variant: SchemaVariantId) -> AttributeValueId {
    let context = AttributeContext {
        carrier,
        schema_id: Some(SCHEMA),
        schema_variant_id: Some(variant),
        component_id: None,
    };
    AttributeValue::find_for_context(ctx, AttributeReadContext::from(context)).unwrap().id
}

#[test]
fn an_aggregation_frame_gathers_its_children_into_one_root() {
    let mut ctx = Graph::new(IDENTITY);
    let (gather, gather_socket) = input(&mut ctx, FRAME_VARIANT, "X");
    output(&mut ctx, CHILD_VARIANT, "X");
    let frame = Component::new(&mut ctx, SCHEMA, FRAME_VARIANT, ComponentType::AggregationFrame);
    let a = Component::new(&mut ctx, SCHEMA, CHILD_VARIANT, ComponentType::Component);
    let b = Component::new(&mut ctx, SCHEMA, CHILD_VARIANT, ComponentType::Component);
    let root = value_of(&ctx, AttributeCarrier::InternalProvider(gather), FRAME_VARIANT);

    assert_eq!(connect_component_sockets_to_frame(&mut ctx, frame.node_id, a.node_id), Ok(()));
    assert_eq!(ctx.edges().len(), 1);
    assert_eq!(ctx.pending_roots(), &vec![root]);
    assert_eq!(connect_component_sockets_to_frame(&mut ctx, frame.node_id, b.node_id), Ok(()));

    let edge_from = |id: u64, child: &Component| Edge {
        id: EdgeId(id),
        kind: EdgeKind::Configuration,
        head_node_id: frame.node_id,
        head_object_kind: VertexObjectKind::Configuration,
        head_object_id: frame.id,
        head_socket_id: gather_socket,
        tail_node_id: child.node_id,
        tail_object_kind: VertexObjectKind::Configuration,
        tail_object_id: child.id,
        tail_socket_id: gather_socket,
    };
    assert_eq!(ctx.edges(), &vec![edge_from(0, &a), edge_from(1, &b)]);
    assert!(ctx.connections().is_empty());
    assert_eq!(ctx.pending_roots(), &vec![root]);
    let provider = InternalProvider::get_by_id(&ctx, gather).unwrap();
    let prototype = AttributePrototype::get_by_id(&ctx, provider.attribute_prototype_id).unwrap();
    let source = |child: &Component| AttributePrototypeArgument {
        func_argument_id: IDENTITY.func_argument_id,
        provider_id: ProviderId::Internal(gather),
        head_component_id: Some(frame.id),
        tail_component_id: Some(child.id),
    };
    assert_eq!(prototype.arguments, vec![source(&a), source(&b)]);
}

#[test]
fn an_aggregation_frame_hands_its_output_to_each_child() {
    let mut ctx = Graph::new(IDENTITY);
    let (spread, spread_socket) = output(&mut ctx, FRAME_VARIANT, "Y");
    let frame = Component::new(&mut ctx, SCHEMA, FRAME_VARIANT, ComponentType::AggregationFrame);
    let a = Component::new(&mut ctx, SCHEMA, CHILD_VARIANT, ComponentType::Component);
    let b = Component::new(&mut ctx, SCHEMA, CHILD_VARIANT, ComponentType::Component);
    let variant_value = value_of(&ctx, AttributeCarrier::ExternalProvider(spread), FRAME_VARIANT);
    let for_b = AttributeValue::new(
        &mut ctx,
        None,
        AttributeContext {
            carrier: AttributeCarrier::ExternalProvider(spread),
            schema_id: Some(SCHEMA),
            schema_variant_id: Some(FRAME_VARIANT),
            component_id: Some(b.id),
        },
        None,
    )
    .unwrap();

    assert_eq!(connect_component_sockets_to_frame(&mut ctx, frame.node_id, a.node_id), Ok(()));
    assert_eq!(connect_component_sockets_to_frame(&mut ctx, frame.node_id, b.node_id), Ok(()));

    let edge_to = |id: u64, child: &Component| Edge {
        id: EdgeId(id),
        kind: EdgeKind::Configuration,
        head_node_id: child.node_id,
        head_object_kind: VertexObjectKind::Configuration,
        head_object_id: child.id,
        head_socket_id: spread_socket,
        tail_node_id: frame.node_id,
        tail_object_kind: VertexObjectKind::Configuration,
        tail_object_id: frame.id,
        tail_socket_id: spread_socket,
    };
    assert_eq!(ctx.edges(), &vec![edge_to(0, &a), edge_to(1, &b)]);
    assert_eq!(ctx.pending_roots(), &vec![variant_value, for_b.id]);
    let provider = ExternalProvider::get_by_id(&ctx, spread).unwrap();
    let prototype = AttributePrototype::get_by_id(&ctx, provider.attribute_prototype_id).unwrap();
    let target = |child: &Component| AttributePrototypeArgument {
        func_argument_id: IDENTITY.func_argument_id,
        provider_id: ProviderId::External(spread),
        head_component_id: Some(child.id),
        tail_component_id: Some(frame.id),
    };
    assert_eq!(prototype.arguments, vec![target(&a), target(&b)]);
}

#[test]
fn an_aggregation_frame_skips_frame_and_system_sockets() {
    let mut ctx = Graph::new(IDENTITY);
    frame_socket(&mut ctx, FRAME_VARIANT, SocketEdgeKind::ConfigurationInput);
    let system = Socket::new(
        &mut ctx,
        "system".to_string(),
        SocketKind::Provider,
        SocketEdgeKind::System,
        SocketArity::Many,
        DiagramKind::Configuration,
    );
    Socket::add_to_schema_variant(&mut ctx, system, FRAME_VARIANT).unwrap();
    input(&mut ctx, CHILD_VARIANT, "X");
    let frame = Component::new(&mut ctx, SCHEMA, FRAME_VARIANT, ComponentType::AggregationFrame);
    let child = Component::new(&mut ctx, SCHEMA, CHILD_VARIANT, ComponentType::Component);
    assert_eq!(connect_component_sockets_to_frame(&mut ctx, frame.node_id, child.node_id), Ok(()));
    assert!(ctx.edges().is_empty());
    assert!(ctx.connections().is_empty());
    assert!(ctx.pending_roots().is_empty());
}

#[test]
fn an_aggregation_socket_without_provider_fails_the_wiring() {
    let mut ctx = Graph::new(IDENTITY);
    input(&mut ctx, FRAME_VARIANT, "X");
    let bare_input = Socket::new(
        &mut ctx,
        "bare".to_string(),
        SocketKind::Provider,
        SocketEdgeKind::ConfigurationInput,
        SocketArity::Many,
        DiagramKind::Configuration,
    );
    Socket::add_to_schema_variant(&mut ctx, bare_input, FRAME_VARIANT).unwrap();
    let frame = Component::new(&mut ctx, SCHEMA, FRAME_VARIANT, ComponentType::AggregationFrame);
    let child = Component::new(&mut ctx, SCHEMA, CHILD_VARIANT, ComponentType::Component);
    assert_eq!(
        connect_component_sockets_to_frame(&mut ctx, frame.node_id, child.node_id),
        Err(DiagramError::Edge(EdgeError::InternalProviderNotFoundForSocket(bare_input)))
    );
    assert!(ctx.edges().is_empty());
    assert!(ctx.pending_roots().is_empty());
    let provider = InternalProvider::get_by_id(&ctx, InternalProviderId(0)).unwrap();
    assert!(AttributePrototype::get_by_id(&ctx, provider.attribute_prototype_id)
        .unwrap()
        .arguments
        .is_empty());

    let mut ctx = Graph::new(IDENTITY);
    let bare_output = Socket::new(
        &mut ctx,
        "bare".to_string(),
        SocketKind::Provider,
        SocketEdgeKind::ConfigurationOutput,
        SocketArity::Many,
        DiagramKind::Configuration,
    );
    Socket::add_to_schema_variant(&mut ctx, bare_output, FRAME_VARIANT).unwrap();
    let frame = Component::new(&mut ctx, SCHEMA, FRAME_VARIANT, ComponentType::AggregationFrame);
    let child = Component::new(&mut ctx, SCHEMA, CHILD_VARIANT, ComponentType::Component);
    assert_eq!(
        connect_component_sockets_to_frame(&mut ctx, frame.node_id, child.node_id),
        Err(DiagramError::Edge(EdgeError::ExternalProviderNotFoundForSocket(bare_output)))
    );
}

#[test]
fn a_configuration_frame_connects_outputs_to_inputs_of_the_same_name() {
    let mut ctx = Graph::new(IDENTITY);
    let (region, region_out) = output(&mut ctx, FRAME_VARIANT, "Region");
    output(&mut ctx, FRAME_VARIANT, "Foo");
    let (_, region_in) = input(&mut ctx, CHILD_VARIANT, "Region");
    input(&mut ctx, CHILD_VARIANT, "Bar");
    let frame = Component::new(&mut ctx, SCHEMA, FRAME_VARIANT, ComponentType::ConfigurationFrame);
    let child = Component::new(&mut ctx, SCHEMA, CHILD_VARIANT, ComponentType::Component);
    let root = value_of(&ctx, AttributeCarrier::ExternalProvider(region), FRAME_VARIANT);

    assert_eq!(connect_component_sockets_to_frame(&mut ctx, frame.node_id, child.node_id), Ok(()));

    assert_eq!(
        ctx.connections(),
        &vec![Connection {
            id: EdgeId(0),
            classification: EdgeKind::Configuration,
            source: Vertex { node_id: frame.node_id, socket_id: region_out },
            destination: Vertex { node_id: child.node_id, socket_id: region_in },
        }]
    );
    assert_eq!(
        ctx.edges(),
        &vec![Edge {
            id: EdgeId(0),
            kind: EdgeKind::Configuration,
            head_node_id: child.node_id,
            head_object_kind: VertexObjectKind::Configuration,
            head_object_id: child.id,
            head_socket_id: region_in,
            tail_node_id: frame.node_id,
            tail_object_kind: VertexObjectKind::Configuration,
            tail_object_id: frame.id,
            tail_socket_id: region_out,
        }]
    );
    assert_eq!(ctx.pending_roots(), &vec![root]);
}

#[test]
fn a_configuration_frame_without_matching_names_connects_nothing() {
    let mut ctx = Graph::new(IDENTITY);
    output(&mut ctx, FRAME_VARIANT, "Foo");
    input(&mut ctx, FRAME_VARIANT, "Region");
    input(&mut ctx, CHILD_VARIANT, "Region");
    output(&mut ctx, CHILD_VARIANT, "Foo");
    let frame = Component::new(&mut ctx, SCHEMA, FRAME_VARIANT, ComponentType::ConfigurationFrame);
    let child = Component::new(&mut ctx, SCHEMA, CHILD_VARIANT, ComponentType::Component);
    assert_eq!(connect_component_sockets_to_frame(&mut ctx, frame.node_id, child.node_id), Ok(()));
    assert!(ctx.connections().is_empty());
    assert!(ctx.edges().is_empty());
    assert!(ctx.pending_roots().is_empty());
}

#[test]
fn a_configuration_frame_connects_every_matching_input() {
    let mut ctx = Graph::new(IDENTITY);
    let (_, region_out) = output(&mut ctx, FRAME_VARIANT, "Region");
    let (_, first_in) = input(&mut ctx, CHILD_VARIANT, "Region");
    let (_, second_in) = input(&mut ctx, CHILD_VARIANT, "Region");
    input(&mut ctx, SchemaVariantId(30), "Region");
    let frame = Component::new(&mut ctx, SCHEMA, FRAME_VARIANT, ComponentType::ConfigurationFrame);
    let child = Component::new(&mut ctx, SCHEMA, CHILD_VARIANT, ComponentType::Component);
    assert_eq!(connect_component_sockets_to_frame(&mut ctx, frame.node_id, child.node_id), Ok(()));
    let destinations: Vec<SocketId> =
        ctx.connections().iter().map(|connection| connection.destination.socket_id).collect();
    assert_eq!(destinations, vec![first_in, second_in]);
    assert!(ctx.connections().iter().all(|connection| connection.source.socket_id == region_out));
    assert_eq!(ctx.edges().len(), 2);
    assert_eq!(ctx.pending_roots().len(), 1);
}

#[test]
fn wiring_twice_makes_the_connections_twice() {
    let mut ctx = Graph::new(IDENTITY);
    output(&mut ctx, FRAME_VARIANT, "Region");
    input(&mut ctx, CHILD_VARIANT, "Region");
    let frame = Component::new(&mut ctx, SCHEMA, FRAME_VARIANT, ComponentType::ConfigurationFrame);
    let child = Component::new(&mut ctx, SCHEMA, CHILD_VARIANT, ComponentType::Component);
    connect_component_sockets_to_frame(&mut ctx, frame.node_id, child.node_id).unwrap();
    connect_component_sockets_to_frame(&mut ctx, frame.node_id, child.node_id).unwrap();
    assert_eq!(ctx.connections().len(), 2);
    assert_eq!(ctx.edges().len(), 2);
    assert_eq!(ctx.pending_roots().len(), 1);
}

#[test]
fn a_plain_component_is_no_frame() {
    let mut ctx = Graph::new(IDENTITY);
    output(&mut ctx, FRAME_VARIANT, "Region");
    input(&mut ctx, CHILD_VARIANT, "Region");
    let parent = Component::new(&mut ctx, SCHEMA, FRAME_VARIANT, ComponentType::Component);
    let child = Component::new(&mut ctx, SCHEMA, CHILD_VARIANT, ComponentType::Component);
    assert_eq!(
        connect_component_sockets_to_frame(&mut ctx, parent.node_id, child.node_id),
        Err(DiagramError::InvalidComponentTypeForFrame(ComponentType::Component))
    );
    assert!(ctx.connections().is_empty());
    assert!(ctx.edges().is_empty());
    assert!(ctx.pending_roots().is_empty());
}

#[test]
fn both_nodes_must_hold_a_component() {
    let mut ctx = Graph::new(IDENTITY);
    let frame = Component::new(&mut ctx, SCHEMA, FRAME_VARIANT, ComponentType::AggregationFrame);
    assert_eq!(
        connect_component_sockets_to_frame(&mut ctx, NodeId(7), NodeId(8)),
        Err(DiagramError::NodeNotFound(NodeId(7)))
    );
    assert_eq!(
        connect_component_sockets_to_frame(&mut ctx, frame.node_id, NodeId(8)),
        Err(DiagramError::NodeNotFound(NodeId(8)))
    );
    let plain = Component::new(&mut ctx, SCHEMA, FRAME_VARIANT, ComponentType::Component);
    assert_eq!(
        connect_component_sockets_to_frame(&mut ctx, plain.node_id, NodeId(8)),
        Err(DiagramError::NodeNotFound(NodeId(8)))
    );
}

#[test]
fn a_missing_provider_fails_the_wiring_and_nothing_is_written() {
    let mut ctx = Graph::new(IDENTITY);
    let (first, _) = input(&mut ctx, FRAME_VARIANT, "X");
    let lonely = Socket::new(
        &mut ctx,
        "Lonely".to_string(),
        SocketKind::Provider,
        SocketEdgeKind::ConfigurationInput,
        SocketArity::Many,
        DiagramKind::Configuration,
    );
    Socket::add_to_schema_variant(&mut ctx, lonely, FRAME_VARIANT).unwrap();
    let provider = InternalProvider::get_by_id(&ctx, first).unwrap().attribute_prototype_id;
    let frame = Component::new(&mut ctx, SCHEMA, FRAME_VARIANT, ComponentType::AggregationFrame);
    let child = Component::new(&mut ctx, SCHEMA, CHILD_VARIANT, ComponentType::Component);
    let wired = connect_component_sockets_to_frame(&mut ctx, frame.node_id, child.node_id);
    assert_eq!(
        wired,
        Err(DiagramError::Edge(EdgeError::InternalProviderNotFoundForSocket(lonely)))
    );
    assert!(ctx.edges().is_empty());
    assert!(ctx.pending_roots().is_empty());
    assert!(AttributePrototype::get_by_id(&ctx, provider).unwrap().arguments.is_empty());
}

#[test]
fn the_value_made_with_a_provider_is_found_for_every_component() {
    let mut ctx = Graph::new(IDENTITY);
    let (spread, _) = output(&mut ctx, FRAME_VARIANT, "Y");
    let (gather, _) = input(&mut ctx, FRAME_VARIANT, "X");
    let frame = Component::new(&mut ctx, SCHEMA, FRAME_VARIANT, ComponentType::AggregationFrame);
    let child = Component::new(&mut ctx, SCHEMA, CHILD_VARIANT, ComponentType::Component);
    let for_child = AttributeReadContext {
        component_id: Filter::Is(child.id),
        external_provider_id: Filter::Is(spread),
        ..AttributeReadContext::default()
    };
    assert_eq!(
        AttributeValue::find_id_for_context(&ctx, for_child),
        Ok(value_of(&ctx, AttributeCarrier::ExternalProvider(spread), FRAME_VARIANT))
    );
    let for_frame = AttributeReadContext {
        component_id: Filter::Is(frame.id),
        internal_provider_id: Filter::Is(gather),
        ..AttributeReadContext::default()
    };
    assert_eq!(
        AttributeValue::find_id_for_context(&ctx, for_frame),
        Ok(value_of(&ctx, AttributeCarrier::InternalProvider(gather), FRAME_VARIANT))
    );
    let unknown = AttributeReadContext {
        component_id: Filter::Is(child.id),
        external_provider_id: Filter::Is(ExternalProviderId(7)),
        ..AttributeReadContext::default()
    };
    assert_eq!(
        AttributeValue::find_id_for_context(&ctx, unknown),
        Err(AttributeValueError::NotFoundForContext(unknown))
    );
    assert_eq!(connect_component_sockets_to_frame(&mut ctx, frame.node_id, child.node_id), Ok(()));
    assert_eq!(ctx.edges().len(), 2);
    assert_eq!(ctx.pending_roots().len(), 2);
}

fn framed_graph(frame_type: ComponentType) -> (Graph, Component, Component, SocketId, SocketId) {
    let mut ctx = Graph::new(IDENTITY);
    let frame_in = frame_socket(&mut ctx, FRAME_VARIANT, SocketEdgeKind::ConfigurationInput);
    frame_socket(&mut ctx, FRAME_VARIANT, SocketEdgeKind::ConfigurationOutput);
    frame_socket(&mut ctx, CHILD_VARIANT, SocketEdgeKind::ConfigurationInput);
    let child_out = frame_socket(&mut ctx, CHILD_VARIANT, SocketEdgeKind::ConfigurationOutput);
    output(&mut ctx, FRAME_VARIANT, "Region");
    input(&mut ctx, CHILD_VARIANT, "Region");
    let frame = Component::new(&mut ctx, SCHEMA, FRAME_VARIANT, frame_type);
    let child = Component::new(&mut ctx, SCHEMA, CHILD_VARIANT, ComponentType::Component);
    (ctx, frame, child, frame_in, child_out)
}

#[test]
fn a_child_is_put_into_a_frame() {
    let (mut ctx, frame, child, frame_in, child_out) =
        framed_graph(ComponentType::ConfigurationFrame);
    let request =
        CreateFrameConnectionRequest { child_node_id: child.node_id, parent_node_id: frame.node_id };
    let response = connect_component_to_frame(&mut ctx, request).unwrap();
    assert_eq!(
        response.connection,
        Connection {
            id: EdgeId(0),
            classification: EdgeKind::Symbolic,
            source: Vertex { node_id: child.node_id, socket_id: child_out },
            destination: Vertex { node_id: frame.node_id, socket_id: frame_in },
        }
    );
    assert_eq!(ctx.connections().len(), 2);
    assert_eq!(ctx.connections()[0], response.connection);
    assert_eq!(ctx.connections()[1].classification, EdgeKind::Configuration);
    assert_eq!(ctx.connections()[1].id, EdgeId(1));
    assert_eq!(ctx.edges().len(), 2);
    assert_eq!(ctx.edges()[0].kind, EdgeKind::Symbolic);
    assert_eq!(ctx.edges()[0].tail_object_id, child.id);
    assert_eq!(ctx.edges()[0].head_object_id, frame.id);
    assert_eq!(ctx.edges()[1].kind, EdgeKind::Configuration);
    assert_eq!(ctx.pending_roots().len(), 1);
}

#[test]
fn a_child_is_not_put_into_a_plain_component() {
    let (mut ctx, parent, child, _, _) = framed_graph(ComponentType::Component);
    let request = CreateFrameConnectionRequest {
        child_node_id: child.node_id,
        parent_node_id: parent.node_id,
    };
    assert_eq!(
        connect_component_to_frame(&mut ctx, request).err(),
        Some(DiagramError::InvalidComponentTypeForFrame(ComponentType::Component))
    );
    assert!(ctx.connections().is_empty());
    assert!(ctx.edges().is_empty());
    assert!(ctx.pending_roots().is_empty());
}

#[test]
fn a_frame_connection_needs_both_frame_sockets() {
    let mut ctx = Graph::new(IDENTITY);
    let frame = Component::new(&mut ctx, SCHEMA, FRAME_VARIANT, ComponentType::AggregationFrame);
    let child = Component::new(&mut ctx, SCHEMA, CHILD_VARIANT, ComponentType::Component);
    let request =
        CreateFrameConnectionRequest { child_node_id: child.node_id, parent_node_id: frame.node_id };
    assert_eq!(
        connect_component_to_frame(&mut ctx, request).err(),
        Some(DiagramError::Socket(SocketError::FrameSocketNotFound(
            child.node_id,
            SocketEdgeKind::ConfigurationOutput
        )))
    );
    frame_socket(&mut ctx, CHILD_VARIANT, SocketEdgeKind::ConfigurationOutput);
    assert_eq!(
        connect_component_to_frame(&mut ctx, request).err(),
        Some(DiagramError::Socket(SocketError::FrameSocketNotFound(
            frame.node_id,
            SocketEdgeKind::ConfigurationInput
        )))
    );
    let unknown_child =
        CreateFrameConnectionRequest { child_node_id: NodeId(9), parent_node_id: frame.node_id };
    assert_eq!(
        connect_component_to_frame(&mut ctx, unknown_child).err(),
        Some(DiagramError::Socket(SocketError::NodeNotFound(NodeId(9))))
    );
    assert!(ctx.connections().is_empty());
    frame_socket(&mut ctx, FRAME_VARIANT, SocketEdgeKind::ConfigurationInput);
    assert!(connect_component_to_frame(&mut ctx, request).is_ok());
    assert_eq!(ctx.connections().len(), 1);
}
