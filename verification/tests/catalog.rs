use dal::component::Component;
use dal::component_type::ComponentType;
use dal::context::{AttributeCarrier, AttributeContext, AttributeReadContext};
use dal::frame::{connect_component_to_frame, CreateFrameConnectionRequest};
use dal::graph::{Graph, IdentityFunc};
use dal::ids::{
    AttributeValueId, FuncArgumentId, FuncBindingId, FuncBindingReturnValueId, FuncId,
    InternalProviderId, PropId, SchemaId, SchemaVariantId,
};
use dal::prop::{Prop, PropKind};
use dal::prototype::{AttributePrototype, AttributePrototypeArgument};
use dal::provider::{ExternalProvider, InternalProvider, ProviderId};
use dal::socket::{
    DiagramKind, Socket, SocketArity, SocketEdgeKind, SocketKind,
};
use dal::value::AttributeValue;

const IDENTITY: IdentityFunc = IdentityFunc {
    func_id: FuncId(1),
    func_binding_id: FuncBindingId(1),
    func_binding_return_value_id: FuncBindingReturnValueId(1),
    func_argument_id: FuncArgumentId(1),
};

#[derive(Clone, Copy)]
struct Schema {
    schema_id: SchemaId,
    schema_variant_id: SchemaVariantId,
}

fn variant_context(schema: Schema, carrier: AttributeCarrier) -> AttributeContext {
    AttributeContext {
        carrier,
        schema_id: Some(schema.schema_id),
        schema_variant_id: Some(schema.schema_variant_id),
        component_id: None,
    }
}

fn create_prop(
    ctx: &mut Graph,
    schema: Schema,
    name: &str,
    kind: PropKind,
    parent: Option<PropId>,
) -> PropId {
    let prop_id = Prop::new(ctx, name.to_string(), kind, parent).unwrap();
    AttributePrototype::new(
        ctx,
        IDENTITY.func_id,
        IDENTITY.func_binding_id,
        None,
        variant_context(schema, AttributeCarrier::Prop(prop_id)),
        None,
    )
    .unwrap();
    prop_id
}

fn frame_sockets(ctx: &mut Graph, schema: Schema) {
    for edge_kind in [SocketEdgeKind::ConfigurationInput, SocketEdgeKind::ConfigurationOutput] {
        let socket_id = Socket::new(
            ctx,
            "Frame".to_string(),
            SocketKind::Frame,
            edge_kind,
            SocketArity::Many,
            DiagramKind::Configuration,
        );
        Socket::add_to_schema_variant(ctx, socket_id, schema.schema_variant_id).unwrap();
    }
}

fn value_of(ctx: &Graph, schema: Schema, carrier: AttributeCarrier) -> AttributeValue {
    AttributeValue::find_for_context(ctx, AttributeReadContext::from(variant_context(schema, carrier)))
        .unwrap()
}

fn take_from_provider(ctx: &mut Graph, value_id: AttributeValueId, provider: InternalProviderId) {
    let value = AttributeValue::get_by_id(ctx, value_id).unwrap();
    let prototype_id = match value.attribute_prototype_id {
        Some(prototype_id) => prototype_id,
        None => AttributePrototype::new_with_existing_value(
            ctx,
            IDENTITY.func_id,
            IDENTITY.func_binding_id,
            value_id,
        )
        .unwrap(),
    };
    AttributePrototype::set_func_id(ctx, prototype_id, IDENTITY.func_id).unwrap();
    AttributePrototypeArgument::bind(
        ctx,
        prototype_id,
        IDENTITY.func_argument_id,
        ProviderId::Internal(provider),
    )
    .unwrap();
}

/// A schema for a region: a frame that hands its region to what it contains.
fn region(ctx: &mut Graph) -> Schema {
    let schema = Schema { schema_id: SchemaId(1), schema_variant_id: SchemaVariantId(1) };
    let root = create_prop(ctx, schema, "root", PropKind::Object, None);
    let domain = create_prop(ctx, schema, "domain", PropKind::Object, Some(root));
    let region_prop = create_prop(ctx, schema, "region", PropKind::String, Some(domain));
    frame_sockets(ctx, schema);
    let (output, _) = ExternalProvider::new_with_socket(
        ctx,
        schema.schema_id,
        schema.schema_variant_id,
        "Region".to_string(),
        IDENTITY.func_id,
        IDENTITY.func_binding_id,
        IDENTITY.func_binding_return_value_id,
        SocketArity::Many,
        DiagramKind::Configuration,
    )
    .unwrap();
    let implicit =
        InternalProvider::new_implicit(ctx, region_prop, schema.schema_id, schema.schema_variant_id)
            .unwrap();
    let exposed = value_of(ctx, schema, AttributeCarrier::ExternalProvider(output));
    take_from_provider(ctx, exposed.id, implicit);
    schema
}

/// A schema for an ingress rule: it takes its region through a socket and
/// carries the name of its component among its tags.
fn ingress(ctx: &mut Graph) -> (Schema, PropId, AttributeValueId) {
    let schema = Schema { schema_id: SchemaId(2), schema_variant_id: SchemaVariantId(2) };
    let root = create_prop(ctx, schema, "root", PropKind::Object, None);
    let si = create_prop(ctx, schema, "si", PropKind::Object, Some(root));
    let si_name = create_prop(ctx, schema, "name", PropKind::String, Some(si));
    let domain = create_prop(ctx, schema, "domain", PropKind::Object, Some(root));
    let region_prop = create_prop(ctx, schema, "region", PropKind::String, Some(domain));
    let tags = create_prop(ctx, schema, "tags", PropKind::KeyedMap, Some(domain));
    let tag = Prop::new(ctx, "tag".to_string(), PropKind::String, Some(tags)).unwrap();
    frame_sockets(ctx, schema);
    let (region_input, _) = InternalProvider::new_explicit_with_socket(
        ctx,
        schema.schema_id,
        schema.schema_variant_id,
        "Region".to_string(),
        IDENTITY.func_id,
        IDENTITY.func_binding_id,
        IDENTITY.func_binding_return_value_id,
        SocketArity::Many,
        DiagramKind::Configuration,
    )
    .unwrap();
    let tags_value = value_of(ctx, schema, AttributeCarrier::Prop(tags));
    let name_tag = AttributeValue::insert_for_context(
        ctx,
        variant_context(schema, AttributeCarrier::Prop(tag)),
        tags_value.id,
        None,
        Some("Name".to_string()),
    )
    .unwrap();
    let si_name_provider =
        InternalProvider::new_implicit(ctx, si_name, schema.schema_id, schema.schema_variant_id)
            .unwrap();
    take_from_provider(ctx, name_tag, si_name_provider);
    let region_value = value_of(ctx, schema, AttributeCarrier::Prop(region_prop));
    take_from_provider(ctx, region_value.id, region_input);
    (schema, region_prop, name_tag)
}

#[test]
fn a_catalog_is_loaded_and_a_rule_is_put_into_a_region() {
    let mut ctx = Graph::new(IDENTITY);
    let region_schema = region(&mut ctx);
    let (ingress_schema, region_prop, name_tag) = ingress(&mut ctx);

    let name_tag_value = AttributeValue::get_by_id(&ctx, name_tag).unwrap();
    assert_eq!(name_tag_value.key, Some("Name".to_string()));
    let name_tag_prototype =
        AttributePrototype::get_by_id(&ctx, name_tag_value.attribute_prototype_id.unwrap()).unwrap();
    assert_eq!(name_tag_prototype.context, name_tag_value.context);
    assert_eq!(name_tag_prototype.arguments.len(), 1);
    let region_value = value_of(&ctx, ingress_schema, AttributeCarrier::Prop(region_prop));
    let region_prototype =
        AttributePrototype::get_by_id(&ctx, region_value.attribute_prototype_id.unwrap()).unwrap();
    assert_eq!(region_prototype.arguments.len(), 1);
    assert_eq!(ctx.take_pending_roots(), vec![name_tag]);

    let frame = Component::new(
        &mut ctx,
        region_schema.schema_id,
        region_schema.schema_variant_id,
        ComponentType::ConfigurationFrame,
    );
    let rule = Component::new(
        &mut ctx,
        ingress_schema.schema_id,
        ingress_schema.schema_variant_id,
        ComponentType::Component,
    );
    let response = connect_component_to_frame(
        &mut ctx,
        CreateFrameConnectionRequest { child_node_id: rule.node_id, parent_node_id: frame.node_id },
    )
    .unwrap();
    assert_eq!(response.connection.source.node_id, rule.node_id);
    assert_eq!(response.connection.destination.node_id, frame.node_id);
    assert_eq!(ctx.connections().len(), 2);
    let wired = ctx.connections()[1];
    assert_eq!(wired.source.node_id, frame.node_id);
    assert_eq!(wired.destination.node_id, rule.node_id);
    let roots = ctx.take_pending_roots();
    assert_eq!(roots.len(), 1);
    let root = AttributeValue::get_by_id(&ctx, roots[0]).unwrap();
    assert!(root.context.external_provider_id().is_some());
    assert_eq!(root.context.schema_variant_id(), Some(region_schema.schema_variant_id));
}
