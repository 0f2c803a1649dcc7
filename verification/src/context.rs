//! The context of an attribute: the key that decides which stored value applies
//! to a combination of schema, schema variant, component and carrier.
//!
//! A context names at most one carrier (a prop, an internal provider or an
//! external provider) and a scope. The scope has three fields, from the least
//! to the most specific: schema, schema variant, component. A context that sets
//! fewer scope fields is less specific; a lookup prefers the most specific
//! context that still agrees with what was asked for.

use vstd::prelude::*;
use vstd::std_specs::convert::FromSpecImpl;
use crate::ids::{
    ComponentId, ExternalProviderId, InternalProviderId, PropId, SchemaId, SchemaVariantId,
};

verus! {

/// What a context addresses. Being one value, it cannot name two carriers.
#[derive(Debug, Clone, Copy, PartialEq, Eq, Structural)]
pub enum AttributeCarrier {
    /// No carrier: the context only names a scope, and serves range queries.
    Unset,
    Prop(PropId),
    InternalProvider(InternalProviderId),
    ExternalProvider(ExternalProviderId),
}

/// The specificity key of a value or of a prototype.
#[derive(Debug, Clone, Copy, PartialEq, Eq, Structural)]
pub struct AttributeContext {
    pub carrier: AttributeCarrier,
    pub schema_id: Option<SchemaId>,
    pub schema_variant_id: Option<SchemaVariantId>,
    pub component_id: Option<ComponentId>,
}

/// Why a builder could not produce a context, or why a context could not be used.
#[derive(Debug, Clone, Copy, PartialEq, Eq, Structural)]
pub enum AttributeContextBuilderError {
    /// More than one of prop, internal provider and external provider was set.
    MultipleLeastSpecificFieldsSpecified,
    /// A value already occupies this context with the same key and parent.
    ContextInUse(AttributeContext),
}

impl AttributeContext {
    pub open spec fn spec_prop_id(&self) -> Option<PropId> {
        match self.carrier {
            AttributeCarrier::Prop(id) => Some(id),
            _ => None,
        }
    }

    pub open spec fn spec_internal_provider_id(&self) -> Option<InternalProviderId> {
        match self.carrier {
            AttributeCarrier::InternalProvider(id) => Some(id),
            _ => None,
        }
    }

    pub open spec fn spec_external_provider_id(&self) -> Option<ExternalProviderId> {
        match self.carrier {
            AttributeCarrier::ExternalProvider(id) => Some(id),
            _ => None,
        }
    }

    /// The rank of the scope: the component counts four, the schema variant two,
    /// the schema one. Two scopes that set different fields have different ranks,
    /// and setting a more specific field always outranks any set of less specific ones.
    pub open spec fn spec_specificity(&self) -> u8 {
        ((if self.component_id is Some { 4int } else { 0int })
            + (if self.schema_variant_id is Some { 2int } else { 0int })
            + (if self.schema_id is Some { 1int } else { 0int })) as u8
    }

    pub open spec fn spec_is_least_specific(&self) -> bool {
        self.schema_id is None && self.schema_variant_id is None && self.component_id is None
    }

    /// `self` can stand in where `other` is asked for: same carrier, and every
    /// scope field of `self` is either unset or the one of `other`.
    pub open spec fn spec_is_at_or_below(&self, other: &AttributeContext) -> bool {
        &&& self.carrier == other.carrier
        &&& (self.schema_id is None || self.schema_id == other.schema_id)
        &&& (self.schema_variant_id is None || self.schema_variant_id == other.schema_variant_id)
        &&& (self.component_id is None || self.component_id == other.component_id)
    }

    pub open spec fn spec_is_less_specific_than(&self, other: &AttributeContext) -> bool {
        self.spec_is_at_or_below(other) && *self != *other
    }

    /// A builder with no field set.
    pub fn builder() -> (builder: AttributeContextBuilder)
        ensures
            builder == AttributeContextBuilder::spec_new(),
    {
        AttributeContextBuilder::new()
    }

    #[verifier::when_used_as_spec(spec_prop_id)]
    pub fn prop_id(&self) -> (id: Option<PropId>)
        ensures
            id == self.spec_prop_id(),
    {
        match self.carrier {
            AttributeCarrier::Prop(id) => Some(id),
            _ => None,
        }
    }

    #[verifier::when_used_as_spec(spec_internal_provider_id)]
    pub fn internal_provider_id(&self) -> (id: Option<InternalProviderId>)
        ensures
            id == self.spec_internal_provider_id(),
    {
        match self.carrier {
            AttributeCarrier::InternalProvider(id) => Some(id),
            _ => None,
        }
    }

    #[verifier::when_used_as_spec(spec_external_provider_id)]
    pub fn external_provider_id(&self) -> (id: Option<ExternalProviderId>)
        ensures
            id == self.spec_external_provider_id(),
    {
        match self.carrier {
            AttributeCarrier::ExternalProvider(id) => Some(id),
            _ => None,
        }
    }

    pub fn schema_id(&self) -> (id: Option<SchemaId>)
        ensures
            id == self.schema_id,
    {
        self.schema_id
    }

    pub fn schema_variant_id(&self) -> (id: Option<SchemaVariantId>)
        ensures
            id == self.schema_variant_id,
    {
        self.schema_variant_id
    }

    pub fn component_id(&self) -> (id: Option<ComponentId>)
        ensures
            id == self.component_id,
    {
        self.component_id
    }

    /// The rank of this context's scope, from 0 (global) to 7.
    #[verifier::when_used_as_spec(spec_specificity)]
    pub fn specificity(&self) -> (rank: u8)
        ensures
            rank == self.spec_specificity(),
    {
        let component: u8 = if self.component_id.is_some() { 4 } else { 0 };
        let variant: u8 = if self.schema_variant_id.is_some() { 2 } else { 0 };
        let schema: u8 = if self.schema_id.is_some() { 1 } else { 0 };
        component + variant + schema
    }

    /// Whether no scope field is set, so that nothing less specific exists.
    #[verifier::when_used_as_spec(spec_is_least_specific)]
    pub fn is_least_specific(&self) -> (least: bool)
        ensures
            least == self.spec_is_least_specific(),
    {
        self.schema_id.is_none() && self.schema_variant_id.is_none()
            && self.component_id.is_none()
    }

    /// Whether this context can stand in where `other` is asked for.
    #[verifier::when_used_as_spec(spec_is_at_or_below)]
    pub fn is_at_or_below(&self, other: &AttributeContext) -> (below: bool)
        ensures
            below == self.spec_is_at_or_below(other),
    {
        self.carrier == other.carrier
            && (self.schema_id.is_none() || self.schema_id == other.schema_id)
            && (self.schema_variant_id.is_none()
                || self.schema_variant_id == other.schema_variant_id)
            && (self.component_id.is_none() || self.component_id == other.component_id)
    }

    /// Whether this context can stand in where `other` is asked for and is not `other` itself.
    #[verifier::when_used_as_spec(spec_is_less_specific_than)]
    pub fn is_less_specific_than(&self, other: &AttributeContext) -> (less: bool)
        ensures
            less == self.spec_is_less_specific_than(other),
    {
        self.is_at_or_below(other) && *self != *other
    }

    /// A context that can stand in for another never outranks it, and has the
    /// same rank only when the two are equal.
    pub proof fn lemma_at_or_below_ranks_lower(&self, other: &AttributeContext)
        requires
            self.spec_is_at_or_below(other),
        ensures
            self.spec_specificity() <= other.spec_specificity(),
            self.spec_specificity() == other.spec_specificity() ==> *self == *other,
    {
    }
}

/// One field of a read context: what a lookup asks of one field of a stored context.
#[derive(Debug, PartialEq, Eq, Structural)]
pub enum Filter<T> {
    /// The field is not looked at.
    Any,
    /// The field must be unset.
    Unset,
    /// The field must be this identifier; for a scope field, an unset field is
    /// admitted too, as the less specific fallback.
    Is(T),
}

impl<T: Copy> Clone for Filter<T> {
    fn clone(&self) -> (copy: Self)
        ensures
            copy == *self,
    {
        *self
    }
}

impl<T: Copy> Copy for Filter<T> {

}

impl<T> Filter<T> {
    /// What the filter asks of a carrier field: no fallback.
    pub open spec fn admits_exactly(self, field: Option<T>) -> bool {
        match self {
            Filter::Any => true,
            Filter::Unset => field is None,
            Filter::Is(id) => field == Some(id),
        }
    }

    /// What the filter asks of a scope field: an unset field is a fallback for any identifier.
    pub open spec fn admits_at_or_below(self, field: Option<T>) -> bool {
        match self {
            Filter::Any => true,
            Filter::Unset => field is None,
            Filter::Is(id) => field is None || field == Some(id),
        }
    }

    /// The filter that admits exactly this field of a stored context.
    pub open spec fn exactly(field: Option<T>) -> Filter<T> {
        match field {
            Some(id) => Filter::Is(id),
            None => Filter::Unset,
        }
    }

    /// The field that a builder takes from this filter.
    pub open spec fn as_field(self) -> Option<T> {
        match self {
            Filter::Is(id) => Some(id),
            _ => None,
        }
    }
}

/// A context widened for searching: each field may be left open, and several
/// carriers may be probed by one lookup.
#[derive(Debug, Clone, Copy, PartialEq, Eq, Structural)]
pub struct AttributeReadContext {
    pub prop_id: Filter<PropId>,
    pub internal_provider_id: Filter<InternalProviderId>,
    pub external_provider_id: Filter<ExternalProviderId>,
    pub schema_id: Filter<SchemaId>,
    pub schema_variant_id: Filter<SchemaVariantId>,
    pub component_id: Filter<ComponentId>,
}

impl AttributeReadContext {
    /// The read context that admits every stored context.
    pub open spec fn spec_any() -> AttributeReadContext {
        AttributeReadContext {
            prop_id: Filter::Any,
            internal_provider_id: Filter::Any,
            external_provider_id: Filter::Any,
            schema_id: Filter::Any,
            schema_variant_id: Filter::Any,
            component_id: Filter::Any,
        }
    }

    /// Whether a value stored under `context` is a candidate for this lookup.
    pub open spec fn spec_admits(&self, context: &AttributeContext) -> bool {
        &&& self.prop_id.admits_exactly(context.spec_prop_id())
        &&& self.internal_provider_id.admits_exactly(context.spec_internal_provider_id())
        &&& self.external_provider_id.admits_exactly(context.spec_external_provider_id())
        &&& self.schema_id.admits_at_or_below(context.schema_id)
        &&& self.schema_variant_id.admits_at_or_below(context.schema_variant_id)
        &&& self.component_id.admits_at_or_below(context.component_id)
    }

    /// The read context that asks for `context` or for what can stand in for it.
    pub open spec fn spec_exactly(context: AttributeContext) -> AttributeReadContext {
        AttributeReadContext {
            prop_id: Filter::exactly(context.spec_prop_id()),
            internal_provider_id: Filter::exactly(context.spec_internal_provider_id()),
            external_provider_id: Filter::exactly(context.spec_external_provider_id()),
            schema_id: Filter::exactly(context.schema_id),
            schema_variant_id: Filter::exactly(context.schema_variant_id),
            component_id: Filter::exactly(context.component_id),
        }
    }

    /// The read context that admits every stored context.
    #[verifier::when_used_as_spec(spec_any)]
    pub fn any() -> (read_context: AttributeReadContext)
        ensures
            read_context == AttributeReadContext::spec_any(),
    {
        AttributeReadContext {
            prop_id: Filter::Any,
            internal_provider_id: Filter::Any,
            external_provider_id: Filter::Any,
            schema_id: Filter::Any,
            schema_variant_id: Filter::Any,
            component_id: Filter::Any,
        }
    }

    /// Whether a value stored under `context` is a candidate for this lookup.
    #[verifier::when_used_as_spec(spec_admits)]
    pub fn admits(&self, context: &AttributeContext) -> (admitted: bool)
        ensures
            admitted == self.spec_admits(context),
    {
        let prop_ok = match self.prop_id {
            Filter::Any => true,
            Filter::Unset => context.prop_id().is_none(),
            Filter::Is(id) => context.prop_id() == Some(id),
        };
        let internal_ok = match self.internal_provider_id {
            Filter::Any => true,
            Filter::Unset => context.internal_provider_id().is_none(),
            Filter::Is(id) => context.internal_provider_id() == Some(id),
        };
        let external_ok = match self.external_provider_id {
            Filter::Any => true,
            Filter::Unset => context.external_provider_id().is_none(),
            Filter::Is(id) => context.external_provider_id() == Some(id),
        };
        let schema_ok = match self.schema_id {
            Filter::Any => true,
            Filter::Unset => context.schema_id.is_none(),
            Filter::Is(id) => context.schema_id.is_none() || context.schema_id == Some(id),
        };
        let variant_ok = match self.schema_variant_id {
            Filter::Any => true,
            Filter::Unset => context.schema_variant_id.is_none(),
            Filter::Is(id) => context.schema_variant_id.is_none()
                || context.schema_variant_id == Some(id),
        };
        let component_ok = match self.component_id {
            Filter::Any => true,
            Filter::Unset => context.component_id.is_none(),
            Filter::Is(id) => context.component_id.is_none() || context.component_id == Some(id),
        };
        prop_ok && internal_ok && external_ok && schema_ok && variant_ok && component_ok
    }

    /// A read context made from a context admits exactly the contexts that can
    /// stand in for it.
    pub proof fn lemma_exactly_admits_at_or_below(
        context: AttributeContext,
        stored: AttributeContext,
    )
        ensures
            AttributeReadContext::spec_exactly(context).spec_admits(&stored)
                <==> stored.spec_is_at_or_below(&context),
    {
    }
}

impl Default for AttributeReadContext {
    fn default() -> (read_context: AttributeReadContext)
        ensures
            read_context == AttributeReadContext::spec_any(),
    {
        AttributeReadContext::any()
    }
}

impl From<AttributeContext> for AttributeReadContext {
    fn from(context: AttributeContext) -> (read_context: AttributeReadContext) {
        AttributeReadContext {
            prop_id: match context.prop_id() {
                Some(id) => Filter::Is(id),
                None => Filter::Unset,
            },
            internal_provider_id: match context.internal_provider_id() {
                Some(id) => Filter::Is(id),
                None => Filter::Unset,
            },
            external_provider_id: match context.external_provider_id() {
                Some(id) => Filter::Is(id),
                None => Filter::Unset,
            },
            schema_id: match context.schema_id {
                Some(id) => Filter::Is(id),
                None => Filter::Unset,
            },
            schema_variant_id: match context.schema_variant_id {
                Some(id) => Filter::Is(id),
                None => Filter::Unset,
            },
            component_id: match context.component_id {
                Some(id) => Filter::Is(id),
                None => Filter::Unset,
            },
        }
    }
}

impl FromSpecImpl<AttributeContext> for AttributeReadContext {
    open spec fn obeys_from_spec() -> bool {
        true
    }

    open spec fn from_spec(context: AttributeContext) -> AttributeReadContext {
        AttributeReadContext::spec_exactly(context)
    }
}

/// Collects the fields of a context one by one; `to_context` checks them.
#[derive(Debug, Clone, Copy, PartialEq, Eq, Structural)]
pub struct AttributeContextBuilder {
    pub prop_id: Option<PropId>,
    pub internal_provider_id: Option<InternalProviderId>,
    pub external_provider_id: Option<ExternalProviderId>,
    pub schema_id: Option<SchemaId>,
    pub schema_variant_id: Option<SchemaVariantId>,
    pub component_id: Option<ComponentId>,
}

impl AttributeContextBuilder {
    pub open spec fn spec_new() -> AttributeContextBuilder {
        AttributeContextBuilder {
            prop_id: None,
            internal_provider_id: None,
            external_provider_id: None,
            schema_id: None,
            schema_variant_id: None,
            component_id: None,
        }
    }

    /// How many of the three carrier fields are set.
    pub open spec fn carriers_set(&self) -> nat {
        ((if self.prop_id is Some { 1int } else { 0int })
            + (if self.internal_provider_id is Some { 1int } else { 0int })
            + (if self.external_provider_id is Some { 1int } else { 0int })) as nat
    }

    /// The carrier that the fields name, where at most one of them is set.
    pub open spec fn carrier(&self) -> AttributeCarrier {
        match (self.prop_id, self.internal_provider_id, self.external_provider_id) {
            (Some(id), _, _) => AttributeCarrier::Prop(id),
            (None, Some(id), _) => AttributeCarrier::InternalProvider(id),
            (None, None, Some(id)) => AttributeCarrier::ExternalProvider(id),
            (None, None, None) => AttributeCarrier::Unset,
        }
    }

    /// What `to_context` returns.
    pub open spec fn spec_to_context(&self) -> Result<
        AttributeContext,
        AttributeContextBuilderError,
    > {
        if self.carriers_set() <= 1 {
            Ok(
                AttributeContext {
                    carrier: self.carrier(),
                    schema_id: self.schema_id,
                    schema_variant_id: self.schema_variant_id,
                    component_id: self.component_id,
                },
            )
        } else {
            Err(AttributeContextBuilderError::MultipleLeastSpecificFieldsSpecified)
        }
    }

    /// The builder that holds the fields of a context.
    pub open spec fn spec_of_context(context: AttributeContext) -> AttributeContextBuilder {
        AttributeContextBuilder {
            prop_id: context.spec_prop_id(),
            internal_provider_id: context.spec_internal_provider_id(),
            external_provider_id: context.spec_external_provider_id(),
            schema_id: context.schema_id,
            schema_variant_id: context.schema_variant_id,
            component_id: context.component_id,
        }
    }

    /// The builder that holds the identifiers that a read context asks for.
    pub open spec fn spec_of_read_context(
        read_context: AttributeReadContext,
    ) -> AttributeContextBuilder {
        AttributeContextBuilder {
            prop_id: read_context.prop_id.as_field(),
            internal_provider_id: read_context.internal_provider_id.as_field(),
            external_provider_id: read_context.external_provider_id.as_field(),
            schema_id: read_context.schema_id.as_field(),
            schema_variant_id: read_context.schema_variant_id.as_field(),
            component_id: read_context.component_id.as_field(),
        }
    }

    /// A builder with no field set.
    #[verifier::when_used_as_spec(spec_new)]
    pub fn new() -> (builder: AttributeContextBuilder)
        ensures
            builder == AttributeContextBuilder::spec_new(),
    {
        AttributeContextBuilder {
            prop_id: None,
            internal_provider_id: None,
            external_provider_id: None,
            schema_id: None,
            schema_variant_id: None,
            component_id: None,
        }
    }

    /// The context that the fields describe. It exists if and only if at most
    /// one of prop, internal provider and external provider is set.
    #[verifier::when_used_as_spec(spec_to_context)]
    pub fn to_context(&self) -> (built: Result<AttributeContext, AttributeContextBuilderError>)
        ensures
            built == self.spec_to_context(),
            built is Ok <==> self.carriers_set() <= 1,
            built matches Ok(context) ==> {
                &&& context.spec_prop_id() == self.prop_id
                &&& context.spec_internal_provider_id() == self.internal_provider_id
                &&& context.spec_external_provider_id() == self.external_provider_id
                &&& context.schema_id == self.schema_id
                &&& context.schema_variant_id == self.schema_variant_id
                &&& context.component_id == self.component_id
            },
    {
        let carrier = match (self.prop_id, self.internal_provider_id, self.external_provider_id) {
            (Some(id), None, None) => AttributeCarrier::Prop(id),
            (None, Some(id), None) => AttributeCarrier::InternalProvider(id),
            (None, None, Some(id)) => AttributeCarrier::ExternalProvider(id),
            (None, None, None) => AttributeCarrier::Unset,
            _ => {
                return Err(AttributeContextBuilderError::MultipleLeastSpecificFieldsSpecified);
            },
        };
        Ok(
            AttributeContext {
                carrier,
                schema_id: self.schema_id,
                schema_variant_id: self.schema_variant_id,
                component_id: self.component_id,
            },
        )
    }

    pub fn set_prop_id(&mut self, prop_id: PropId) -> (builder: &mut Self)
        ensures
            *builder == (AttributeContextBuilder { prop_id: Some(prop_id), ..*old(self) }),
            *final(self) == *final(builder),
    {
        self.prop_id = Some(prop_id);
        self
    }

    pub fn unset_prop_id(&mut self) -> (builder: &mut Self)
        ensures
            *builder == (AttributeContextBuilder { prop_id: None, ..*old(self) }),
            *final(self) == *final(builder),
    {
        self.prop_id = None;
        self
    }

    pub fn set_internal_provider_id(&mut self, internal_provider_id: InternalProviderId) -> (builder:
        &mut Self)
        ensures
            *builder == (AttributeContextBuilder {
                internal_provider_id: Some(internal_provider_id),
                ..*old(self)
            }),
            *final(self) == *final(builder),
    {
        self.internal_provider_id = Some(internal_provider_id);
        self
    }

    pub fn unset_internal_provider_id(&mut self) -> (builder: &mut Self)
        ensures
            *builder == (AttributeContextBuilder { internal_provider_id: None, ..*old(self) }),
            *final(self) == *final(builder),
    {
        self.internal_provider_id = None;
        self
    }

    pub fn set_external_provider_id(&mut self, external_provider_id: ExternalProviderId) -> (builder:
        &mut Self)
        ensures
            *builder == (AttributeContextBuilder {
                external_provider_id: Some(external_provider_id),
                ..*old(self)
            }),
            *final(self) == *final(builder),
    {
        self.external_provider_id = Some(external_provider_id);
        self
    }

    pub fn unset_external_provider_id(&mut self) -> (builder: &mut Self)
        ensures
            *builder == (AttributeContextBuilder { external_provider_id: None, ..*old(self) }),
            *final(self) == *final(builder),
    {
        self.external_provider_id = None;
        self
    }

    pub fn set_schema_id(&mut self, schema_id: SchemaId) -> (builder: &mut Self)
        ensures
            *builder == (AttributeContextBuilder { schema_id: Some(schema_id), ..*old(self) }),
            *final(self) == *final(builder),
    {
        self.schema_id = Some(schema_id);
        self
    }

    pub fn unset_schema_id(&mut self) -> (builder: &mut Self)
        ensures
            *builder == (AttributeContextBuilder { schema_id: None, ..*old(self) }),
            *final(self) == *final(builder),
    {
        self.schema_id = None;
        self
    }

    pub fn set_schema_variant_id(&mut self, schema_variant_id: SchemaVariantId) -> (builder:
        &mut Self)
        ensures
            *builder == (AttributeContextBuilder {
                schema_variant_id: Some(schema_variant_id),
                ..*old(self)
            }),
            *final(self) == *final(builder),
    {
        self.schema_variant_id = Some(schema_variant_id);
        self
    }

    pub fn unset_schema_variant_id(&mut self) -> (builder: &mut Self)
        ensures
            *builder == (AttributeContextBuilder { schema_variant_id: None, ..*old(self) }),
            *final(self) == *final(builder),
    {
        self.schema_variant_id = None;
        self
    }

    pub fn set_component_id(&mut self, component_id: ComponentId) -> (builder: &mut Self)
        ensures
            *builder == (AttributeContextBuilder { component_id: Some(component_id), ..*old(self) }),
            *final(self) == *final(builder),
    {
        self.component_id = Some(component_id);
        self
    }

    pub fn unset_component_id(&mut self) -> (builder: &mut Self)
        ensures
            *builder == (AttributeContextBuilder { component_id: None, ..*old(self) }),
            *final(self) == *final(builder),
    {
        self.component_id = None;
        self
    }

    /// Taking a context apart and building it again gives the same context.
    pub proof fn lemma_context_round_trip(context: AttributeContext)
        ensures
            AttributeContextBuilder::spec_of_context(context).spec_to_context() == Ok::<
                AttributeContext,
                AttributeContextBuilderError,
            >(context),
    {
    }
}

impl From<AttributeContext> for AttributeContextBuilder {
    fn from(context: AttributeContext) -> (builder: AttributeContextBuilder) {
        AttributeContextBuilder {
            prop_id: context.prop_id(),
            internal_provider_id: context.internal_provider_id(),
            external_provider_id: context.external_provider_id(),
            schema_id: context.schema_id,
            schema_variant_id: context.schema_variant_id,
            component_id: context.component_id,
        }
    }
}

impl FromSpecImpl<AttributeContext> for AttributeContextBuilder {
    open spec fn obeys_from_spec() -> bool {
        true
    }

    open spec fn from_spec(context: AttributeContext) -> AttributeContextBuilder {
        AttributeContextBuilder::spec_of_context(context)
    }
}

impl From<AttributeReadContext> for AttributeContextBuilder {
    fn from(read_context: AttributeReadContext) -> (builder: AttributeContextBuilder) {
        AttributeContextBuilder {
            prop_id: match read_context.prop_id {
                Filter::Is(id) => Some(id),
                _ => None,
            },
            internal_provider_id: match read_context.internal_provider_id {
                Filter::Is(id) => Some(id),
                _ => None,
            },
            external_provider_id: match read_context.external_provider_id {
                Filter::Is(id) => Some(id),
                _ => None,
            },
            schema_id: match read_context.schema_id {
                Filter::Is(id) => Some(id),
                _ => None,
            },
            schema_variant_id: match read_context.schema_variant_id {
                Filter::Is(id) => Some(id),
                _ => None,
            },
            component_id: match read_context.component_id {
                Filter::Is(id) => Some(id),
                _ => None,
            },
        }
    }
}

impl FromSpecImpl<AttributeReadContext> for AttributeContextBuilder {
    open spec fn obeys_from_spec() -> bool {
        true
    }

    open spec fn from_spec(read_context: AttributeReadContext) -> AttributeContextBuilder {
        AttributeContextBuilder::spec_of_read_context(read_context)
    }
}

} // verus!
