use dal::context::{
    AttributeCarrier, AttributeContext, AttributeContextBuilder, AttributeContextBuilderError,
    AttributeReadContext, Filter,
};
use dal::ids::{
    ComponentId, ExternalProviderId, InternalProviderId, PropId, SchemaId, SchemaVariantId,
};

fn component_prop_context() -> AttributeContext {
    let mut builder = AttributeContext::builder();
    builder
        .set_prop_id(PropId(7))
        .set_schema_id(SchemaId(1))
        .set_schema_variant_id(SchemaVariantId(2))
        .set_component_id(ComponentId(3));
    builder.to_context().expect("one carrier is set")
}

#[test]
fn builder_without_carrier_builds_a_base_context() {
    let mut builder = AttributeContextBuilder::new();
    builder.set_schema_id(SchemaId(1)).set_schema_variant_id(SchemaVariantId(2));
    let context = builder.to_context().expect("no carrier is set");
    assert_eq!(context.carrier, AttributeCarrier::Unset);
    assert_eq!(context.prop_id(), None);
    assert_eq!(context.internal_provider_id(), None);
    assert_eq!(context.external_provider_id(), None);
    assert_eq!(context.schema_id(), Some(SchemaId(1)));
    assert_eq!(context.schema_variant_id(), Some(SchemaVariantId(2)));
    assert_eq!(context.component_id(), None);
}

#[test]
fn builder_with_one_carrier_builds_each_kind() {
    let mut builder = AttributeContextBuilder::new();
    builder.set_prop_id(PropId(4));
    assert_eq!(builder.to_context().unwrap().carrier, AttributeCarrier::Prop(PropId(4)));

    let mut builder = AttributeContextBuilder::new();
    builder.set_internal_provider_id(InternalProviderId(5));
    assert_eq!(
        builder.to_context().unwrap().carrier,
        AttributeCarrier::InternalProvider(InternalProviderId(5))
    );

    let mut builder = AttributeContextBuilder::new();
    builder.set_external_provider_id(ExternalProviderId(6));
    assert_eq!(
        builder.to_context().unwrap().carrier,
        AttributeCarrier::ExternalProvider(ExternalProviderId(6))
    );
}

#[test]
fn builder_with_two_carriers_fails() {
    let mut builder = AttributeContextBuilder::new();
    builder.set_prop_id(PropId(4)).set_internal_provider_id(InternalProviderId(5));
    assert_eq!(
        builder.to_context(),
        Err(AttributeContextBuilderError::MultipleLeastSpecificFieldsSpecified)
    );

    let mut builder = AttributeContextBuilder::new();
    builder.set_prop_id(PropId(4)).set_external_provider_id(ExternalProviderId(6));
    assert_eq!(
        builder.to_context(),
        Err(AttributeContextBuilderError::MultipleLeastSpecificFieldsSpecified)
    );

    let mut builder = AttributeContextBuilder::new();
    builder
        .set_internal_provider_id(InternalProviderId(5))
        .set_external_provider_id(ExternalProviderId(6));
    assert_eq!(
        builder.to_context(),
        Err(AttributeContextBuilderError::MultipleLeastSpecificFieldsSpecified)
    );
}

#[test]
fn builder_with_three_carriers_fails() {
    let mut builder = AttributeContextBuilder::new();
    builder
        .set_prop_id(PropId(4))
        .set_internal_provider_id(InternalProviderId(5))
        .set_external_provider_id(ExternalProviderId(6));
    assert_eq!(
        builder.to_context(),
        Err(AttributeContextBuilderError::MultipleLeastSpecificFieldsSpecified)
    );
}

#[test]
fn unsetting_a_carrier_makes_the_builder_valid_again() {
    let mut builder = AttributeContextBuilder::new();
    builder.set_prop_id(PropId(4)).set_internal_provider_id(InternalProviderId(5));
    assert!(builder.to_context().is_err());
    builder.unset_prop_id();
    assert_eq!(
        builder.to_context().unwrap().carrier,
        AttributeCarrier::InternalProvider(InternalProviderId(5))
    );
    builder.unset_internal_provider_id().set_external_provider_id(ExternalProviderId(9));
    builder.unset_external_provider_id();
    assert_eq!(builder.to_context().unwrap().carrier, AttributeCarrier::Unset);
}

#[test]
fn unsetting_scope_fields() {
    let mut builder = AttributeContextBuilder::from(component_prop_context());
    builder.unset_component_id().unset_schema_variant_id().unset_schema_id();
    let context = builder.to_context().unwrap();
    assert!(context.is_least_specific());
    assert_eq!(context.prop_id(), Some(PropId(7)));
}

#[test]
fn specificity_ranks_component_over_variant_over_schema() {
    let global = AttributeContext {
        carrier: AttributeCarrier::Prop(PropId(7)),
        schema_id: None,
        schema_variant_id: None,
        component_id: None,
    };
    let schema = AttributeContext { schema_id: Some(SchemaId(1)), ..global };
    let variant = AttributeContext { schema_variant_id: Some(SchemaVariantId(2)), ..schema };
    let component = AttributeContext { component_id: Some(ComponentId(3)), ..variant };
    assert_eq!(global.specificity(), 0);
    assert_eq!(schema.specificity(), 1);
    assert_eq!(variant.specificity(), 3);
    assert_eq!(component.specificity(), 7);
    assert!(global.is_least_specific());
    assert!(!schema.is_least_specific());
    let component_only = AttributeContext { component_id: Some(ComponentId(3)), ..global };
    assert_eq!(component_only.specificity(), 4);
    assert!(component_only.specificity() > variant.specificity());
}

#[test]
fn at_or_below_follows_the_scope() {
    let component = component_prop_context();
    let variant = AttributeContext { component_id: None, ..component };
    let schema = AttributeContext { schema_variant_id: None, ..variant };
    let global = AttributeContext { schema_id: None, ..schema };
    assert!(component.is_at_or_below(&component));
    assert!(variant.is_at_or_below(&component));
    assert!(schema.is_at_or_below(&component));
    assert!(global.is_at_or_below(&component));
    assert!(!component.is_at_or_below(&variant));
    assert!(variant.is_less_specific_than(&component));
    assert!(!component.is_less_specific_than(&component));
    let other_component = AttributeContext { component_id: Some(ComponentId(99)), ..component };
    assert!(!other_component.is_at_or_below(&component));
    let other_carrier = AttributeContext { carrier: AttributeCarrier::Prop(PropId(8)), ..global };
    assert!(!other_carrier.is_at_or_below(&component));
}

#[test]
fn read_context_from_context_admits_fallbacks_only() {
    let component = component_prop_context();
    let variant = AttributeContext { component_id: None, ..component };
    let read_component = AttributeReadContext::from(component);
    assert_eq!(read_component.prop_id, Filter::Is(PropId(7)));
    assert_eq!(read_component.internal_provider_id, Filter::Unset);
    assert_eq!(read_component.external_provider_id, Filter::Unset);
    assert_eq!(read_component.component_id, Filter::Is(ComponentId(3)));
    assert!(read_component.admits(&component));
    assert!(read_component.admits(&variant));
    let read_variant = AttributeReadContext::from(variant);
    assert_eq!(read_variant.component_id, Filter::Unset);
    assert!(read_variant.admits(&variant));
    assert!(!read_variant.admits(&component));
}

#[test]
fn default_read_context_admits_everything() {
    let read_context = AttributeReadContext::default();
    assert_eq!(read_context, AttributeReadContext::any());
    assert!(read_context.admits(&component_prop_context()));
    let provider = AttributeContext {
        carrier: AttributeCarrier::ExternalProvider(ExternalProviderId(1)),
        schema_id: None,
        schema_variant_id: None,
        component_id: None,
    };
    assert!(read_context.admits(&provider));
}

#[test]
fn read_context_probes_several_carriers() {
    let read_context = AttributeReadContext {
        component_id: Filter::Is(ComponentId(3)),
        internal_provider_id: Filter::Is(InternalProviderId(5)),
        ..AttributeReadContext::default()
    };
    let provider_for_component = AttributeContext {
        carrier: AttributeCarrier::InternalProvider(InternalProviderId(5)),
        schema_id: Some(SchemaId(1)),
        schema_variant_id: Some(SchemaVariantId(2)),
        component_id: Some(ComponentId(3)),
    };
    let provider_for_variant = AttributeContext { component_id: None, ..provider_for_component };
    let other_provider = AttributeContext {
        carrier: AttributeCarrier::InternalProvider(InternalProviderId(6)),
        ..provider_for_component
    };
    assert!(read_context.admits(&provider_for_component));
    assert!(read_context.admits(&provider_for_variant));
    assert!(!read_context.admits(&other_provider));
    assert!(!read_context.admits(&component_prop_context()));
}

#[test]
fn builder_from_read_context_takes_the_identifiers() {
    let read_context = AttributeReadContext {
        prop_id: Filter::Unset,
        schema_id: Filter::Is(SchemaId(1)),
        schema_variant_id: Filter::Is(SchemaVariantId(2)),
        ..AttributeReadContext::default()
    };
    let mut builder = AttributeContextBuilder::from(read_context);
    builder.set_prop_id(PropId(11));
    let context = builder.to_context().unwrap();
    assert_eq!(context.prop_id(), Some(PropId(11)));
    assert_eq!(context.schema_id(), Some(SchemaId(1)));
    assert_eq!(context.schema_variant_id(), Some(SchemaVariantId(2)));
    assert_eq!(context.component_id(), None);
}

#[test]
fn builder_round_trips_a_context() {
    let context = component_prop_context();
    assert_eq!(AttributeContextBuilder::from(context).to_context(), Ok(context));
}
