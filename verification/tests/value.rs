use dal::context::{
    AttributeCarrier, AttributeContext, AttributeContextBuilderError, AttributeReadContext, Filter,
};
use dal::graph::{Graph, IdentityFunc};
use dal::ids::{
    AttributePrototypeId, AttributeValueId, ComponentId, FuncArgumentId, FuncBindingId,
    FuncBindingReturnValueId, FuncId, InternalProviderId, PropId, SchemaId, SchemaVariantId,
};
use dal::index_map::IndexMap;
use dal::prop::{Prop, PropError, PropKind};
use dal::prototype::AttributePrototype;
use dal::value::{AttributeValue, AttributeValueError};

fn graph() -> Graph {
    Graph::new(IdentityFunc {
        func_id: FuncId(100),
        func_binding_id: FuncBindingId(101),
        func_binding_return_value_id: FuncBindingReturnValueId(102),
        func_argument_id: FuncArgumentId(103),
    })
}

fn prop_context(
    prop: u64,
    schema: Option<u64>,
    variant: Option<u64>,
    component: Option<u64>,
) -> AttributeContext {
    AttributeContext {
        carrier: AttributeCarrier::Prop(PropId(prop)),
        schema_id: schema.map(SchemaId),
        schema_variant_id: variant.map(SchemaVariantId),
        component_id: component.map(ComponentId),
    }
}

fn key(text: &str) -> Option<String> {
    Some(text.to_string())
}

#[test]
fn new_value_is_stored_as_given() {
    let mut ctx = graph();
    let context = prop_context(1, Some(1), Some(1), None);
    let value = AttributeValue::new(&mut ctx, Some(FuncBindingReturnValueId(8)), context, None)
        .expect("the place is free");
    assert_eq!(value.id, AttributeValueId(0));
    assert_eq!(value.func_binding_return_value_id, Some(FuncBindingReturnValueId(8)));
    assert_eq!(value.proxy_for_attribute_value_id, None);
    assert!(!value.sealed_proxy);
    assert!(value.index_map.is_none());
    assert_eq!(value.key, None);
    assert_eq!(value.context, context);
    assert_eq!(value.parent_attribute_value_id, None);
    assert_eq!(value.attribute_prototype_id, None);
    assert_eq!(ctx.value_count(), 1);
    let stored = AttributeValue::get_by_id(&ctx, AttributeValueId(0)).expect("stored");
    assert_eq!(stored.id, value.id);
    assert_eq!(stored.context, context);
    assert_eq!(
        AttributeValue::get_by_id(&ctx, AttributeValueId(1)).err(),
        Some(AttributeValueError::NotFound(AttributeValueId(1)))
    );
}

#[test]
fn new_value_in_a_used_place_fails() {
    let mut ctx = graph();
    let context = prop_context(1, None, None, None);
    AttributeValue::new(&mut ctx, None, context, key("a")).unwrap();
    let again = AttributeValue::new(&mut ctx, None, context, key("a"));
    assert_eq!(
        again.err(),
        Some(AttributeValueError::AttributeContextBuilder(
            AttributeContextBuilderError::ContextInUse(context)
        ))
    );
    assert_eq!(ctx.value_count(), 1);
    let other_key = AttributeValue::new(&mut ctx, None, context, key("b")).unwrap();
    assert_eq!(other_key.id, AttributeValueId(1));
    let no_key = AttributeValue::new(&mut ctx, None, context, None).unwrap();
    assert_eq!(no_key.id, AttributeValueId(2));
}

#[test]
fn find_for_context_round_trips_a_component_value() {
    let mut ctx = graph();
    let context = prop_context(1, Some(1), Some(2), Some(3));
    let made = AttributeValue::new(&mut ctx, None, context, None).unwrap();
    let found = AttributeValue::find_for_context(&ctx, AttributeReadContext::from(context))
        .expect("the value was just made");
    assert_eq!(found.id, made.id);
    assert_eq!(found.context, context);
}

#[test]
fn specificity_does_not_leak_upward() {
    let mut ctx = graph();
    let component = prop_context(1, Some(1), Some(2), Some(3));
    AttributeValue::new(&mut ctx, None, component, None).unwrap();
    let variant = AttributeContext { component_id: None, ..component };
    let read_context = AttributeReadContext::from(variant);
    assert_eq!(
        AttributeValue::find_for_context(&ctx, read_context).err(),
        Some(AttributeValueError::NotFoundForContext(read_context))
    );
    let schema = AttributeContext { schema_variant_id: None, ..variant };
    assert!(AttributeValue::find_for_context(&ctx, AttributeReadContext::from(schema)).is_err());
    let other_component = AttributeContext { component_id: Some(ComponentId(4)), ..component };
    assert!(
        AttributeValue::find_for_context(&ctx, AttributeReadContext::from(other_component))
            .is_err()
    );
}

#[test]
fn find_for_context_prefers_the_most_specific() {
    let mut ctx = graph();
    let component = prop_context(1, Some(1), Some(2), Some(3));
    let variant = AttributeContext { component_id: None, ..component };
    let schema = AttributeContext { schema_variant_id: None, ..variant };
    let schema_value = AttributeValue::new(&mut ctx, None, schema, None).unwrap();
    let read_component = AttributeReadContext::from(component);
    assert_eq!(
        AttributeValue::find_for_context(&ctx, read_component).unwrap().id,
        schema_value.id
    );
    let component_value = AttributeValue::new(&mut ctx, None, component, None).unwrap();
    assert_eq!(
        AttributeValue::find_for_context(&ctx, read_component).unwrap().id,
        component_value.id
    );
    let variant_value = AttributeValue::new(&mut ctx, None, variant, None).unwrap();
    assert_eq!(
        AttributeValue::find_for_context(&ctx, read_component).unwrap().id,
        component_value.id
    );
    assert_eq!(
        AttributeValue::find_for_context(&ctx, AttributeReadContext::from(variant)).unwrap().id,
        variant_value.id
    );
    let other_component = AttributeContext { component_id: Some(ComponentId(9)), ..component };
    assert_eq!(
        AttributeValue::find_for_context(&ctx, AttributeReadContext::from(other_component))
            .unwrap()
            .id,
        variant_value.id
    );
    assert_eq!(
        AttributeValue::find_id_for_context(&ctx, AttributeReadContext::from(schema)),
        Ok(schema_value.id)
    );
}

#[test]
fn find_for_context_takes_the_first_of_equal_contexts() {
    let mut ctx = graph();
    let context = prop_context(1, None, None, None);
    let first = AttributeValue::new(&mut ctx, None, context, key("a")).unwrap();
    AttributeValue::new(&mut ctx, None, context, key("b")).unwrap();
    let found = AttributeValue::find_for_context(&ctx, AttributeReadContext::from(context)).unwrap();
    assert_eq!(found.id, first.id);
}

#[test]
fn find_for_context_with_open_fields() {
    let mut ctx = graph();
    let prop_value =
        AttributeValue::new(&mut ctx, None, prop_context(1, Some(1), Some(2), None), None).unwrap();
    let provider_context = AttributeContext {
        carrier: AttributeCarrier::InternalProvider(InternalProviderId(5)),
        schema_id: Some(SchemaId(1)),
        schema_variant_id: Some(SchemaVariantId(2)),
        component_id: None,
    };
    let provider_value = AttributeValue::new(&mut ctx, None, provider_context, None).unwrap();
    let read_provider = AttributeReadContext {
        component_id: Filter::Is(ComponentId(3)),
        internal_provider_id: Filter::Is(InternalProviderId(5)),
        ..AttributeReadContext::default()
    };
    assert_eq!(
        AttributeValue::find_for_context(&ctx, read_provider).unwrap().id,
        provider_value.id
    );
    let read_anything = AttributeReadContext::default();
    assert_eq!(AttributeValue::find_for_context(&ctx, read_anything).unwrap().id, prop_value.id);
    let read_unknown_provider = AttributeReadContext {
        internal_provider_id: Filter::Is(InternalProviderId(6)),
        ..AttributeReadContext::default()
    };
    assert_eq!(
        AttributeValue::find_for_context(&ctx, read_unknown_provider).err(),
        Some(AttributeValueError::NotFoundForContext(read_unknown_provider))
    );
}

#[test]
fn find_for_prop_finds_the_least_specific_value_only() {
    let mut ctx = graph();
    AttributeValue::new(&mut ctx, None, prop_context(1, Some(1), None, None), None).unwrap();
    let missing = AttributeValue::find_for_prop(&ctx, PropId(1));
    assert_eq!(
        missing.err(),
        Some(AttributeValueError::NotFoundForContext(AttributeReadContext::from(prop_context(
            1, None, None, None
        ))))
    );
    let global =
        AttributeValue::new(&mut ctx, None, prop_context(1, None, None, None), None).unwrap();
    assert_eq!(AttributeValue::find_for_prop(&ctx, PropId(1)).unwrap().id, global.id);
    assert!(AttributeValue::find_for_prop(&ctx, PropId(2)).is_err());
}

#[test]
fn find_with_parent_and_prototype_for_context_filters_both() {
    let mut ctx = graph();
    let context = prop_context(1, Some(1), Some(2), None);
    let prototype =
        AttributePrototype::new(&mut ctx, FuncId(1), FuncBindingId(1), None, context, None).unwrap();
    let value_id = AttributeValueId(0);
    let found = AttributeValue::find_with_parent_and_prototype_for_context(
        &ctx, None, prototype, context,
    )
    .expect("value of the prototype");
    assert_eq!(found.id, value_id);
    assert_eq!(found.attribute_prototype_id, Some(prototype));
    assert_eq!(found.context, context);
    let not_found = AttributeValueError::NotFoundForContext(AttributeReadContext::from(context));
    assert_eq!(
        AttributeValue::find_with_parent_and_prototype_for_context(
            &ctx,
            None,
            AttributePrototypeId(7),
            context
        )
        .err(),
        Some(not_found)
    );
    assert_eq!(
        AttributeValue::find_with_parent_and_prototype_for_context(
            &ctx,
            Some(AttributeValueId(0)),
            prototype,
            context
        )
        .err(),
        Some(not_found)
    );
    let more_specific = AttributeContext { component_id: Some(ComponentId(3)), ..context };
    let fallback = AttributeValue::find_with_parent_and_prototype_for_context(
        &ctx,
        None,
        prototype,
        more_specific,
    )
    .expect("falls back to the variant");
    assert_eq!(fallback.id, value_id);
    assert_eq!(fallback.context, context);
    let less_specific = AttributeContext { schema_variant_id: None, ..context };
    assert_eq!(
        AttributeValue::find_with_parent_and_prototype_for_context(
            &ctx,
            None,
            prototype,
            less_specific
        )
        .err(),
        Some(AttributeValueError::NotFoundForContext(AttributeReadContext::from(less_specific)))
    );
}

#[test]
fn find_with_parent_and_prototype_for_context_on_an_empty_graph_fails() {
    let ctx = graph();
    let context = prop_context(1, None, None, None);
    assert_eq!(
        AttributeValue::find_with_parent_and_prototype_for_context(
            &ctx,
            None,
            AttributePrototypeId(0),
            context
        )
        .err(),
        Some(AttributeValueError::NotFoundForContext(AttributeReadContext::from(context)))
    );
}

fn graph_with_map_value() -> (Graph, PropId, PropId, AttributeValueId) {
    let mut ctx = graph();
    let map_prop = Prop::new(&mut ctx, "tags".to_string(), PropKind::KeyedMap, None).unwrap();
    let item_prop =
        Prop::new(&mut ctx, "tag".to_string(), PropKind::String, Some(map_prop)).unwrap();
    let map_value =
        AttributeValue::new(&mut ctx, None, prop_context(map_prop.0, Some(1), Some(1), None), None)
            .unwrap();
    (ctx, map_prop, item_prop, map_value.id)
}

#[test]
fn insert_for_context_appends_to_the_parent_index() {
    let (mut ctx, _, item_prop, map_value) = graph_with_map_value();
    let item_context = prop_context(item_prop.0, Some(1), Some(1), None);
    let first = AttributeValue::insert_for_context(
        &mut ctx,
        item_context,
        map_value,
        Some(FuncBindingReturnValueId(1)),
        key("k1"),
    )
    .unwrap();
    let second =
        AttributeValue::insert_for_context(&mut ctx, item_context, map_value, None, key("k2"))
            .unwrap();
    assert_eq!(first, AttributeValueId(1));
    assert_eq!(second, AttributeValueId(2));
    let parent = AttributeValue::get_by_id(&ctx, map_value).unwrap();
    let index_map = parent.index_map.expect("the parent lists its children");
    assert_eq!(index_map.order(), vec![first, second]);
    assert_eq!(index_map.keys(), vec![key("k1"), key("k2")]);
    let child = AttributeValue::get_by_id(&ctx, first).unwrap();
    assert_eq!(child.parent_attribute_value_id, Some(map_value));
    assert_eq!(child.key, key("k1"));
    assert_eq!(child.context, item_context);
    assert_eq!(child.func_binding_return_value_id, Some(FuncBindingReturnValueId(1)));
}

#[test]
fn insert_for_context_rejects_a_missing_parent() {
    let (mut ctx, _, item_prop, _) = graph_with_map_value();
    let item_context = prop_context(item_prop.0, Some(1), Some(1), None);
    assert_eq!(
        AttributeValue::insert_for_context(
            &mut ctx,
            item_context,
            AttributeValueId(42),
            None,
            None
        ),
        Err(AttributeValueError::NotFound(AttributeValueId(42)))
    );
    assert_eq!(ctx.value_count(), 1);
}

#[test]
fn insert_for_context_rejects_a_scalar_parent() {
    let (mut ctx, _, item_prop, map_value) = graph_with_map_value();
    let item_context = prop_context(item_prop.0, Some(1), Some(1), None);
    let item =
        AttributeValue::insert_for_context(&mut ctx, item_context, map_value, None, key("k"))
            .unwrap();
    assert_eq!(
        AttributeValue::insert_for_context(&mut ctx, item_context, item, None, key("x")),
        Err(AttributeValueError::ParentNotAllowed(item, PropKind::String))
    );
    assert_eq!(ctx.value_count(), 2);
}

#[test]
fn insert_for_context_rejects_a_parent_without_prop() {
    let mut ctx = graph();
    let provider_context = AttributeContext {
        carrier: AttributeCarrier::InternalProvider(InternalProviderId(5)),
        schema_id: None,
        schema_variant_id: None,
        component_id: None,
    };
    let parent = AttributeValue::new(&mut ctx, None, provider_context, None).unwrap();
    assert_eq!(
        AttributeValue::insert_for_context(
            &mut ctx,
            prop_context(1, None, None, None),
            parent.id,
            None,
            None
        ),
        Err(AttributeValueError::ParentWithoutProp(parent.id))
    );
    let unknown_prop =
        AttributeValue::new(&mut ctx, None, prop_context(77, None, None, None), None).unwrap();
    assert_eq!(
        AttributeValue::insert_for_context(
            &mut ctx,
            prop_context(1, None, None, None),
            unknown_prop.id,
            None,
            None
        ),
        Err(AttributeValueError::Prop(PropError::NotFound(PropId(77))))
    );
}

#[test]
fn insert_for_context_rejects_a_used_place() {
    let (mut ctx, _, item_prop, map_value) = graph_with_map_value();
    let item_context = prop_context(item_prop.0, Some(1), Some(1), None);
    AttributeValue::insert_for_context(&mut ctx, item_context, map_value, None, key("k")).unwrap();
    assert_eq!(
        AttributeValue::insert_for_context(&mut ctx, item_context, map_value, None, key("k")),
        Err(AttributeValueError::AttributeContextBuilder(
            AttributeContextBuilderError::ContextInUse(item_context)
        ))
    );
    let parent = AttributeValue::get_by_id(&ctx, map_value).unwrap();
    assert_eq!(parent.index_map.unwrap().len(), 1);
}

#[test]
fn a_key_written_in_a_more_specific_context_moves_to_the_end() {
    let (mut ctx, _, item_prop, map_value) = graph_with_map_value();
    let variant = prop_context(item_prop.0, Some(1), Some(1), None);
    let component = prop_context(item_prop.0, Some(1), Some(1), Some(1));
    let a = AttributeValue::insert_for_context(&mut ctx, variant, map_value, None, key("a"))
        .unwrap();
    let b = AttributeValue::insert_for_context(&mut ctx, variant, map_value, None, key("b"))
        .unwrap();
    let a_again =
        AttributeValue::insert_for_context(&mut ctx, component, map_value, None, key("a")).unwrap();
    assert_ne!(a, a_again);
    let parent = AttributeValue::get_by_id(&ctx, map_value).unwrap();
    let index_map = parent.index_map.unwrap();
    assert_eq!(index_map.order(), vec![b, a_again]);
    assert_eq!(index_map.keys(), vec![key("b"), key("a")]);
}

#[test]
fn index_map_is_changed_in_place_and_written_back() {
    let (mut ctx, _, item_prop, map_value) = graph_with_map_value();
    let item_context = prop_context(item_prop.0, Some(1), Some(1), None);
    let first =
        AttributeValue::insert_for_context(&mut ctx, item_context, map_value, None, key("k1"))
            .unwrap();
    let second =
        AttributeValue::insert_for_context(&mut ctx, item_context, map_value, None, key("k2"))
            .unwrap();
    let mut parent = AttributeValue::get_by_id(&ctx, map_value).unwrap();
    parent.index_map_mut().expect("has an index").remove(first);
    parent.update_stored_index_map(&mut ctx).unwrap();
    let stored = AttributeValue::get_by_id(&ctx, map_value).unwrap();
    assert_eq!(stored.index_map.unwrap().order(), vec![second]);

    let mut child = AttributeValue::get_by_id(&ctx, first).unwrap();
    assert!(child.index_map_mut().is_none());
    child.index_map = Some(IndexMap::new());
    child.update_stored_index_map(&mut ctx).unwrap();
    assert_eq!(AttributeValue::get_by_id(&ctx, first).unwrap().index_map.unwrap().len(), 0);

    child.id = AttributeValueId(99);
    assert_eq!(
        child.update_stored_index_map(&mut ctx),
        Err(AttributeValueError::NotFound(AttributeValueId(99)))
    );
}

fn graph_with_proxy() -> (Graph, AttributeValueId, AttributeValueId) {
    let mut ctx = graph();
    let variant = prop_context(1, Some(1), Some(2), None);
    let component = prop_context(1, Some(1), Some(2), Some(3));
    let target =
        AttributeValue::new(&mut ctx, Some(FuncBindingReturnValueId(10)), variant, None).unwrap();
    let proxy = AttributeValue::new(&mut ctx, None, component, None).unwrap();
    AttributeValue::set_proxy_for_attribute_value_id(&mut ctx, proxy.id, Some(target.id)).unwrap();
    (ctx, proxy.id, target.id)
}

#[test]
fn a_live_proxy_reads_the_current_result_of_its_target() {
    let (mut ctx, proxy, target) = graph_with_proxy();
    assert_eq!(
        AttributeValue::resolved_func_binding_return_value_id(&ctx, proxy),
        Ok(Some(FuncBindingReturnValueId(10)))
    );
    AttributeValue::set_func_binding_return_value_id(
        &mut ctx,
        target,
        Some(FuncBindingReturnValueId(11)),
    )
    .unwrap();
    assert_eq!(
        AttributeValue::resolved_func_binding_return_value_id(&ctx, proxy),
        Ok(Some(FuncBindingReturnValueId(11)))
    );
    AttributeValue::set_func_binding_return_value_id(&mut ctx, target, None).unwrap();
    assert_eq!(AttributeValue::resolved_func_binding_return_value_id(&ctx, proxy), Ok(None));
    let stored = AttributeValue::get_by_id(&ctx, proxy).unwrap();
    assert_eq!(stored.func_binding_return_value_id, None);
    assert!(!stored.sealed_proxy);
}

#[test]
fn a_sealed_proxy_no_longer_follows_its_target() {
    let (mut ctx, proxy, target) = graph_with_proxy();
    AttributeValue::seal_proxy(&mut ctx, proxy).unwrap();
    let sealed = AttributeValue::get_by_id(&ctx, proxy).unwrap();
    assert!(sealed.sealed_proxy);
    assert_eq!(sealed.func_binding_return_value_id, Some(FuncBindingReturnValueId(10)));
    assert_eq!(sealed.proxy_for_attribute_value_id, Some(target));
    AttributeValue::set_func_binding_return_value_id(
        &mut ctx,
        target,
        Some(FuncBindingReturnValueId(11)),
    )
    .unwrap();
    assert_eq!(
        AttributeValue::resolved_func_binding_return_value_id(&ctx, proxy),
        Ok(Some(FuncBindingReturnValueId(10)))
    );
    assert_eq!(
        AttributeValue::resolved_func_binding_return_value_id(&ctx, target),
        Ok(Some(FuncBindingReturnValueId(11)))
    );
}

#[test]
fn writing_to_a_proxy_seals_it() {
    let (mut ctx, proxy, target) = graph_with_proxy();
    AttributeValue::set_func_binding_return_value_id(
        &mut ctx,
        proxy,
        Some(FuncBindingReturnValueId(20)),
    )
    .unwrap();
    assert!(AttributeValue::get_by_id(&ctx, proxy).unwrap().sealed_proxy);
    AttributeValue::set_func_binding_return_value_id(
        &mut ctx,
        target,
        Some(FuncBindingReturnValueId(21)),
    )
    .unwrap();
    assert_eq!(
        AttributeValue::resolved_func_binding_return_value_id(&ctx, proxy),
        Ok(Some(FuncBindingReturnValueId(20)))
    );
    assert!(!AttributeValue::get_by_id(&ctx, target).unwrap().sealed_proxy);
}

#[test]
fn a_chain_of_proxies_reads_through_to_its_root() {
    let mut ctx = graph();
    let schema = prop_context(1, Some(1), None, None);
    let variant = prop_context(1, Some(1), Some(2), None);
    let component = prop_context(1, Some(1), Some(2), Some(3));
    let root =
        AttributeValue::new(&mut ctx, Some(FuncBindingReturnValueId(1)), schema, None).unwrap();
    let middle = AttributeValue::new(&mut ctx, None, variant, None).unwrap();
    let leaf = AttributeValue::new(&mut ctx, None, component, None).unwrap();
    AttributeValue::set_proxy_for_attribute_value_id(&mut ctx, middle.id, Some(root.id)).unwrap();
    AttributeValue::set_proxy_for_attribute_value_id(&mut ctx, leaf.id, Some(middle.id)).unwrap();
    assert_eq!(
        AttributeValue::resolved_func_binding_return_value_id(&ctx, leaf.id),
        Ok(Some(FuncBindingReturnValueId(1)))
    );
    AttributeValue::seal_proxy(&mut ctx, middle.id).unwrap();
    AttributeValue::set_func_binding_return_value_id(
        &mut ctx,
        root.id,
        Some(FuncBindingReturnValueId(2)),
    )
    .unwrap();
    assert_eq!(
        AttributeValue::resolved_func_binding_return_value_id(&ctx, leaf.id),
        Ok(Some(FuncBindingReturnValueId(1)))
    );
    AttributeValue::set_proxy_for_attribute_value_id(&mut ctx, leaf.id, None).unwrap();
    assert_eq!(AttributeValue::resolved_func_binding_return_value_id(&ctx, leaf.id), Ok(None));
}

#[test]
fn a_proxy_target_must_be_less_specific() {
    let mut ctx = graph();
    let variant = prop_context(1, Some(1), Some(2), None);
    let component = prop_context(1, Some(1), Some(2), Some(3));
    let other_prop = prop_context(2, Some(1), Some(2), None);
    let low = AttributeValue::new(&mut ctx, None, variant, None).unwrap();
    let high = AttributeValue::new(&mut ctx, None, component, None).unwrap();
    let other = AttributeValue::new(&mut ctx, None, other_prop, None).unwrap();
    assert_eq!(
        AttributeValue::set_proxy_for_attribute_value_id(&mut ctx, low.id, Some(high.id)),
        Err(AttributeValueError::InvalidProxy(low.id, high.id))
    );
    assert_eq!(
        AttributeValue::set_proxy_for_attribute_value_id(&mut ctx, high.id, Some(high.id)),
        Err(AttributeValueError::InvalidProxy(high.id, high.id))
    );
    assert_eq!(
        AttributeValue::set_proxy_for_attribute_value_id(&mut ctx, high.id, Some(other.id)),
        Err(AttributeValueError::InvalidProxy(high.id, other.id))
    );
    assert_eq!(
        AttributeValue::set_proxy_for_attribute_value_id(
            &mut ctx,
            high.id,
            Some(AttributeValueId(50))
        ),
        Err(AttributeValueError::NotFound(AttributeValueId(50)))
    );
    assert_eq!(
        AttributeValue::set_proxy_for_attribute_value_id(
            &mut ctx,
            AttributeValueId(51),
            Some(low.id)
        ),
        Err(AttributeValueError::NotFound(AttributeValueId(51)))
    );
    assert_eq!(AttributeValue::get_by_id(&ctx, high.id).unwrap().proxy_for_attribute_value_id, None);
}

#[test]
fn operations_on_a_missing_value_fail() {
    let mut ctx = graph();
    let missing = AttributeValueId(3);
    assert_eq!(
        AttributeValue::resolved_func_binding_return_value_id(&ctx, missing),
        Err(AttributeValueError::NotFound(missing))
    );
    assert_eq!(
        AttributeValue::seal_proxy(&mut ctx, missing),
        Err(AttributeValueError::NotFound(missing))
    );
    assert_eq!(
        AttributeValue::set_func_binding_return_value_id(&mut ctx, missing, None),
        Err(AttributeValueError::NotFound(missing))
    );
}

#[test]
fn a_value_takes_a_prototype_of_its_own_context_only() {
    let mut ctx = graph();
    let context = prop_context(1, Some(1), Some(2), None);
    let other_context = prop_context(1, Some(1), Some(2), Some(3));
    let prototype =
        AttributePrototype::new(&mut ctx, FuncId(1), FuncBindingId(1), None, context, None).unwrap();
    let same = AttributeValue::new(&mut ctx, None, context, key("k")).unwrap();
    let other = AttributeValue::new(&mut ctx, None, other_context, None).unwrap();
    assert_eq!(AttributeValue::set_attribute_prototype(&mut ctx, same.id, prototype), Ok(()));
    assert_eq!(
        AttributeValue::get_by_id(&ctx, same.id).unwrap().attribute_prototype_id,
        Some(prototype)
    );
    assert_eq!(
        AttributeValue::set_attribute_prototype(&mut ctx, other.id, prototype),
        Err(AttributeValueError::PrototypeContextMismatch(other.id, prototype))
    );
    assert_eq!(
        AttributeValue::set_attribute_prototype(&mut ctx, other.id, AttributePrototypeId(9)),
        Err(AttributeValueError::AttributePrototypeNotFound(AttributePrototypeId(9)))
    );
    assert_eq!(
        AttributeValue::set_attribute_prototype(&mut ctx, AttributeValueId(77), prototype),
        Err(AttributeValueError::NotFound(AttributeValueId(77)))
    );
}

#[test]
fn a_duplicate_value_has_the_same_contents() {
    let (mut ctx, _, item_prop, map_value) = graph_with_map_value();
    let item_context = prop_context(item_prop.0, Some(1), Some(1), None);
    AttributeValue::insert_for_context(&mut ctx, item_context, map_value, None, key("k")).unwrap();
    let value = AttributeValue::get_by_id(&ctx, map_value).unwrap();
    let copy = value.clone();
    assert_eq!(copy.id, value.id);
    assert_eq!(copy.context, value.context);
    assert_eq!(copy.key, value.key);
    assert_eq!(copy.index_map.unwrap().order(), value.index_map.unwrap().order());
}

#[test]
fn queueing_roots_once() {
    let mut ctx = graph();
    let value = AttributeValue::new(&mut ctx, None, prop_context(1, None, None, None), None).unwrap();
    let other = AttributeValue::new(&mut ctx, None, prop_context(2, None, None, None), None).unwrap();
    ctx.enqueue_dependent_values_update(value.id);
    ctx.enqueue_dependent_values_update(other.id);
    ctx.enqueue_dependent_values_update(value.id);
    ctx.enqueue_dependent_values_update(AttributeValueId(55));
    assert_eq!(ctx.pending_roots(), &vec![value.id, other.id]);
    assert_eq!(ctx.take_pending_roots(), vec![value.id, other.id]);
    assert!(ctx.pending_roots().is_empty());
    ctx.enqueue_dependent_values_update(value.id);
    assert_eq!(ctx.pending_roots(), &vec![value.id]);
}

#[test]
fn inserting_a_child_queues_it_as_a_root() {
    let (mut ctx, _, item_prop, map_value) = graph_with_map_value();
    let item_context = prop_context(item_prop.0, Some(1), Some(1), None);
    let first =
        AttributeValue::insert_for_context(&mut ctx, item_context, map_value, None, key("k1"))
            .unwrap();
    let second =
        AttributeValue::insert_for_context(&mut ctx, item_context, map_value, None, key("k2"))
            .unwrap();
    assert_eq!(ctx.pending_roots(), &vec![first, second]);
    assert!(
        AttributeValue::insert_for_context(&mut ctx, item_context, map_value, None, key("k2"))
            .is_err()
    );
    assert_eq!(ctx.pending_roots(), &vec![first, second]);
}

#[test]
fn updating_a_value_in_its_own_context_writes_and_queues_it() {
    let mut ctx = graph();
    let context = prop_context(1, Some(1), Some(2), None);
    let value = AttributeValue::new(&mut ctx, None, context, None).unwrap();
    assert_eq!(
        AttributeValue::update_for_context(
            &mut ctx,
            value.id,
            context,
            Some(FuncBindingReturnValueId(5))
        ),
        Ok(value.id)
    );
    let stored = AttributeValue::get_by_id(&ctx, value.id).unwrap();
    assert_eq!(stored.func_binding_return_value_id, Some(FuncBindingReturnValueId(5)));
    assert!(!stored.sealed_proxy);
    assert_eq!(ctx.value_count(), 1);
    assert_eq!(ctx.pending_roots(), &vec![value.id]);
}

#[test]
fn updating_a_live_proxy_promotes_it_into_a_sealed_override() {
    let (mut ctx, proxy, target) = graph_with_proxy();
    let context = AttributeValue::get_by_id(&ctx, proxy).unwrap().context;
    assert_eq!(
        AttributeValue::update_for_context(
            &mut ctx,
            proxy,
            context,
            Some(FuncBindingReturnValueId(30))
        ),
        Ok(proxy)
    );
    let stored = AttributeValue::get_by_id(&ctx, proxy).unwrap();
    assert!(stored.sealed_proxy);
    assert_eq!(stored.proxy_for_attribute_value_id, Some(target));
    AttributeValue::set_func_binding_return_value_id(
        &mut ctx,
        target,
        Some(FuncBindingReturnValueId(31)),
    )
    .unwrap();
    assert_eq!(
        AttributeValue::resolved_func_binding_return_value_id(&ctx, proxy),
        Ok(Some(FuncBindingReturnValueId(30)))
    );
}

#[test]
fn updating_in_a_more_specific_context_makes_a_sealed_override() {
    let mut ctx = graph();
    let variant = prop_context(1, Some(1), Some(2), None);
    let component = prop_context(1, Some(1), Some(2), Some(3));
    let shared =
        AttributeValue::new(&mut ctx, Some(FuncBindingReturnValueId(1)), variant, key("k")).unwrap();
    let made = AttributeValue::update_for_context(
        &mut ctx,
        shared.id,
        component,
        Some(FuncBindingReturnValueId(2)),
    )
    .unwrap();
    assert_eq!(made, AttributeValueId(1));
    let stored = AttributeValue::get_by_id(&ctx, made).unwrap();
    assert_eq!(stored.context, component);
    assert_eq!(stored.key, key("k"));
    assert_eq!(stored.parent_attribute_value_id, None);
    assert_eq!(stored.proxy_for_attribute_value_id, Some(shared.id));
    assert!(stored.sealed_proxy);
    assert_eq!(stored.func_binding_return_value_id, Some(FuncBindingReturnValueId(2)));
    assert_eq!(ctx.pending_roots(), &vec![made]);
    assert_eq!(
        AttributeValue::find_for_context(&ctx, AttributeReadContext::from(component)).unwrap().id,
        made
    );
    let other_component = prop_context(1, Some(1), Some(2), Some(4));
    assert_eq!(
        AttributeValue::find_for_context(&ctx, AttributeReadContext::from(other_component))
            .unwrap()
            .id,
        shared.id
    );
    AttributeValue::set_func_binding_return_value_id(
        &mut ctx,
        shared.id,
        Some(FuncBindingReturnValueId(9)),
    )
    .unwrap();
    assert_eq!(
        AttributeValue::resolved_func_binding_return_value_id(&ctx, made),
        Ok(Some(FuncBindingReturnValueId(2)))
    );
    assert_eq!(
        AttributeValue::get_by_id(&ctx, shared.id).unwrap().func_binding_return_value_id,
        Some(FuncBindingReturnValueId(9))
    );
}

#[test]
fn an_override_of_a_child_is_listed_by_the_parent() {
    let (mut ctx, _, item_prop, map_value) = graph_with_map_value();
    let variant = prop_context(item_prop.0, Some(1), Some(1), None);
    let component = prop_context(item_prop.0, Some(1), Some(1), Some(7));
    let a = AttributeValue::insert_for_context(&mut ctx, variant, map_value, None, key("a"))
        .unwrap();
    let b = AttributeValue::insert_for_context(&mut ctx, variant, map_value, None, key("b"))
        .unwrap();
    let a_override = AttributeValue::update_for_context(
        &mut ctx,
        a,
        component,
        Some(FuncBindingReturnValueId(4)),
    )
    .unwrap();
    let stored = AttributeValue::get_by_id(&ctx, a_override).unwrap();
    assert_eq!(stored.parent_attribute_value_id, Some(map_value));
    assert_eq!(stored.key, key("a"));
    let parent = AttributeValue::get_by_id(&ctx, map_value).unwrap();
    let index_map = parent.index_map.unwrap();
    assert_eq!(index_map.order(), vec![b, a_override]);
    assert_eq!(index_map.keys(), vec![key("b"), key("a")]);
    assert_eq!(ctx.pending_roots(), &vec![a, b, a_override]);
}

#[test]
fn updating_fails_where_the_context_is_not_for_the_value() {
    let mut ctx = graph();
    let variant = prop_context(1, Some(1), Some(2), None);
    let component = prop_context(1, Some(1), Some(2), Some(3));
    let schema = prop_context(1, Some(1), None, None);
    let other_prop = prop_context(2, Some(1), Some(2), Some(3));
    let value = AttributeValue::new(&mut ctx, None, variant, None).unwrap();
    assert_eq!(
        AttributeValue::update_for_context(&mut ctx, AttributeValueId(9), variant, None),
        Err(AttributeValueError::NotFound(AttributeValueId(9)))
    );
    assert_eq!(
        AttributeValue::update_for_context(&mut ctx, value.id, schema, None),
        Err(AttributeValueError::ContextNotReachable(value.id, schema))
    );
    assert_eq!(
        AttributeValue::update_for_context(&mut ctx, value.id, other_prop, None),
        Err(AttributeValueError::ContextNotReachable(value.id, other_prop))
    );
    let made = AttributeValue::update_for_context(&mut ctx, value.id, component, None).unwrap();
    assert_eq!(
        AttributeValue::update_for_context(&mut ctx, value.id, component, None),
        Err(AttributeValueError::AttributeContextBuilder(
            AttributeContextBuilderError::ContextInUse(component)
        ))
    );
    assert_eq!(ctx.value_count(), 2);
    assert_eq!(ctx.pending_roots(), &vec![made]);
    assert_eq!(
        AttributeValue::update_for_context(
            &mut ctx,
            made,
            component,
            Some(FuncBindingReturnValueId(1))
        ),
        Ok(made)
    );
}
