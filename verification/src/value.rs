//! Attribute values: the stored or computed value of an attribute in a context.
//!
//! A lookup in a context finds the value with the most specific context that
//! still agrees with what is asked for, so that a value stored for a schema
//! variant serves every component of the variant until a component gets a
//! value of its own.
//!
//! A value may be a proxy for a value under a less specific context. A live
//! proxy reads the result of the value it stands in for, through a chain of
//! proxies if need be, at the moment of the reading. A sealed proxy reads its
//! own result: it is an override, and a seal is never taken off. Only the
//! result is read through a proxy; the index of children is each value's own.
//!
//! The operations that an editor uses, `insert_for_context` and
//! `update_for_context`, queue the value that they wrote as a root. The
//! operations below them, such as writing a result after a computation, queue
//! nothing: else the computation would queue what it has just computed.

use vstd::prelude::*;
use vstd::pervasive::unreached;
use crate::context::{
    AttributeCarrier, AttributeContext, AttributeContextBuilderError, AttributeReadContext, Filter,
};
use crate::graph::{Graph, GraphView};
use crate::ids::{
    AttributePrototypeId, AttributeValueId, ComponentId, FuncBindingReturnValueId, PropId, SchemaId,
    SchemaVariantId,
};
use crate::index_map::{distinct, pushed, IndexEntryView, IndexMap};
use crate::text::{copy_text, same_text, text_of};
use crate::prop::{PropError, PropKind};

verus! {

/// Why an operation on attribute values failed.
#[derive(Debug, Clone, Copy, PartialEq, Eq, Structural)]
pub enum AttributeValueError {
    /// The context could not be built, or it is already in use.
    AttributeContextBuilder(AttributeContextBuilderError),
    /// No prototype has this identifier.
    AttributePrototypeNotFound(AttributePrototypeId),
    /// The target of a proxy must be stored under a less specific context
    /// than the proxy: here the second value is no such target for the first.
    InvalidProxy(AttributeValueId, AttributeValueId),
    /// No value has this identifier.
    NotFound(AttributeValueId),
    /// No value is stored under a context that the read context admits.
    NotFoundForContext(AttributeReadContext),
    /// The parent must be the value of an array, map or object prop: this one
    /// is the value of a prop of the given kind.
    ParentNotAllowed(AttributeValueId, PropKind),
    /// The parent must be the value of a prop: this one is the value of a provider.
    ParentWithoutProp(AttributeValueId),
    /// The prop of the parent could not be used.
    Prop(PropError),
    /// A value and its prototype must have the same context: these two differ.
    PrototypeContextMismatch(AttributeValueId, AttributePrototypeId),
    /// A value is written in its own context or in a more specific one: the
    /// context is neither for this value.
    ContextNotReachable(AttributeValueId, AttributeContext),
}

/// The value of an attribute in one context.
#[derive(Debug, PartialEq, Eq)]
pub struct AttributeValue {
    pub id: AttributeValueId,
    /// The output of the last evaluation of the prototype's function; `None`
    /// until the function has produced one. This is the result that the value
    /// holds itself. A live proxy reads the result of the value it stands in
    /// for instead: `resolved_func_binding_return_value_id` reads through.
    pub func_binding_return_value_id: Option<FuncBindingReturnValueId>,
    /// The value, stored under a less specific context, that this value stands
    /// in for.
    pub proxy_for_attribute_value_id: Option<AttributeValueId>,
    /// A sealed proxy no longer follows the value it stands in for.
    pub sealed_proxy: bool,
    /// The children, in order, where the value is an array or a map.
    pub index_map: Option<IndexMap>,
    /// The key under which a map holds this value.
    pub key: Option<String>,
    pub context: AttributeContext,
    /// The array, map or object value that this value is a child of.
    pub parent_attribute_value_id: Option<AttributeValueId>,
    /// The prototype that computes this value.
    pub attribute_prototype_id: Option<AttributePrototypeId>,
}

/// The mathematical value of an attribute value.
pub struct AttributeValueView {
    pub id: AttributeValueId,
    pub func_binding_return_value_id: Option<FuncBindingReturnValueId>,
    pub proxy_for_attribute_value_id: Option<AttributeValueId>,
    pub sealed_proxy: bool,
    pub index_map: Option<Seq<IndexEntryView>>,
    pub key: Option<Seq<char>>,
    pub context: AttributeContext,
    pub parent_attribute_value_id: Option<AttributeValueId>,
    pub attribute_prototype_id: Option<AttributePrototypeId>,
}

impl View for AttributeValue {
    type V = AttributeValueView;

    open spec fn view(&self) -> AttributeValueView {
        AttributeValueView {
            id: self.id,
            func_binding_return_value_id: self.func_binding_return_value_id,
            proxy_for_attribute_value_id: self.proxy_for_attribute_value_id,
            sealed_proxy: self.sealed_proxy,
            index_map: match self.index_map {
                Some(index_map) => Some(index_map@),
                None => None,
            },
            key: text_of(self.key),
            context: self.context,
            parent_attribute_value_id: self.parent_attribute_value_id,
            attribute_prototype_id: self.attribute_prototype_id,
        }
    }
}

impl AttributeValueView {
    /// An override as it is when it is made: a sealed proxy that stands in a
    /// more specific context for `target`, with the key and parent of `target`
    /// and a result of its own.
    pub open spec fn sealed_override(
        id: AttributeValueId,
        func_binding_return_value_id: Option<FuncBindingReturnValueId>,
        context: AttributeContext,
        target: AttributeValueView,
    ) -> AttributeValueView {
        AttributeValueView {
            id,
            func_binding_return_value_id,
            proxy_for_attribute_value_id: Some(target.id),
            sealed_proxy: true,
            index_map: None,
            key: target.key,
            context,
            parent_attribute_value_id: target.parent_attribute_value_id,
            attribute_prototype_id: None,
        }
    }

    /// A live proxy follows the value it stands in for.
    pub open spec fn is_live_proxy(self) -> bool {
        self.proxy_for_attribute_value_id is Some && !self.sealed_proxy
    }

    /// Two values may not share context, key and parent.
    pub open spec fn same_place(self, other: AttributeValueView) -> bool {
        &&& self.context == other.context
        &&& self.key == other.key
        &&& self.parent_attribute_value_id == other.parent_attribute_value_id
    }

    /// A value as it is when it is made.
    pub open spec fn fresh(
        id: AttributeValueId,
        func_binding_return_value_id: Option<FuncBindingReturnValueId>,
        context: AttributeContext,
        key: Option<Seq<char>>,
        parent_attribute_value_id: Option<AttributeValueId>,
        attribute_prototype_id: Option<AttributePrototypeId>,
    ) -> AttributeValueView {
        AttributeValueView {
            id,
            func_binding_return_value_id,
            proxy_for_attribute_value_id: None,
            sealed_proxy: false,
            index_map: None,
            key,
            context,
            parent_attribute_value_id,
            attribute_prototype_id,
        }
    }
}

/// Which values a search looks at.
#[derive(Debug, Clone, Copy, PartialEq, Eq, Structural)]
pub struct ValueQuery {
    pub read_context: AttributeReadContext,
    /// Where set, only values with this parent (or, for `Some(None)`, without
    /// a parent) are looked at.
    pub parent_attribute_value_id: Option<Option<AttributeValueId>>,
    /// Where set, only values of this prototype are looked at.
    pub attribute_prototype_id: Option<AttributePrototypeId>,
}

impl ValueQuery {
    /// Whether the search looks at a value.
    pub open spec fn spec_admits(&self, value: AttributeValueView) -> bool {
        &&& self.read_context.spec_admits(&value.context)
        &&& (self.parent_attribute_value_id matches Some(parent)
            ==> value.parent_attribute_value_id == parent)
        &&& (self.attribute_prototype_id matches Some(prototype) ==> value.attribute_prototype_id
            == Some(prototype))
    }

    /// The search for what a read context admits, whatever the parent and the prototype.
    pub open spec fn for_context(read_context: AttributeReadContext) -> ValueQuery {
        ValueQuery { read_context, parent_attribute_value_id: None, attribute_prototype_id: None }
    }

    fn admits(&self, value: &AttributeValue) -> (admitted: bool)
        ensures
            admitted == self.spec_admits(value@),
    {
        let parent_ok = match self.parent_attribute_value_id {
            Some(parent) => value.parent_attribute_value_id == parent,
            None => true,
        };
        let prototype_ok = match self.attribute_prototype_id {
            Some(prototype) => value.attribute_prototype_id == Some(prototype),
            None => true,
        };
        self.read_context.admits(&value.context) && parent_ok && prototype_ok
    }
}

impl GraphView {
    /// Whether a value with this identifier is stored.
    pub open spec fn has_value(self, id: AttributeValueId) -> bool {
        id.0 < self.values.len()
    }

    /// The stored value with this identifier.
    pub open spec fn value(self, id: AttributeValueId) -> AttributeValueView {
        self.values[id.0 as int]
    }

    /// The identifier that the next value gets.
    pub open spec fn next_value_id(self) -> AttributeValueId {
        AttributeValueId(self.values.len() as u64)
    }

    /// Whether a value already has this context, key and parent.
    pub open spec fn place_in_use(
        self,
        context: AttributeContext,
        key: Option<Seq<char>>,
        parent_attribute_value_id: Option<AttributeValueId>,
    ) -> bool {
        exists|i: int|
            0 <= i < self.values.len() && (#[trigger] self.values[i]).context == context
                && self.values[i].key == key && self.values[i].parent_attribute_value_id
                == parent_attribute_value_id
    }

    /// The value at position `i` is one that the search looks at.
    pub open spec fn is_candidate(self, query: ValueQuery, i: int) -> bool {
        0 <= i < self.values.len() && query.spec_admits(self.values[i])
    }

    /// The value at position `i` is the one that the search finds: among the
    /// values that the search looks at, it has the most specific context, and
    /// of those with that context it was made first.
    pub open spec fn is_best_candidate(self, query: ValueQuery, i: int) -> bool {
        &&& self.is_candidate(query, i)
        &&& forall|j: int| #[trigger]
            self.is_candidate(query, j) ==> {
                ||| self.values[j].context.spec_specificity()
                    < self.values[i].context.spec_specificity()
                ||| (self.values[j].context.spec_specificity()
                    == self.values[i].context.spec_specificity() && i <= j)
            }
    }

    /// The value that a search finds, if it looks at any value.
    pub open spec fn found(self, query: ValueQuery) -> Option<AttributeValueId> {
        if exists|i: int| self.is_best_candidate(query, i) {
            Some(AttributeValueId((choose|i: int| self.is_best_candidate(query, i)) as u64))
        } else {
            None
        }
    }

    /// The graph with one more value.
    pub open spec fn with_value(self, value: AttributeValueView) -> GraphView {
        GraphView { values: self.values.push(value), ..self }
    }

    /// The graph with the value at `id` replaced.
    pub open spec fn with_value_at(self, id: AttributeValueId, value: AttributeValueView) -> GraphView {
        GraphView { values: self.values.update(id.0 as int, value), ..self }
    }

    /// A graph stays well formed when it gets a value that has the next
    /// identifier, a free place, a parent and a prototype of the graph, and is
    /// no proxy or a proxy for a value of the graph under a less specific context.
    pub proof fn lemma_with_value_wf(self, value: AttributeValueView)
        requires
            self.wf(),
            self.values.len() <= u64::MAX,
            value.id == self.next_value_id(),
            value.index_map matches Some(entries) ==> distinct(entries),
            value.proxy_for_attribute_value_id matches Some(target) ==> self.has_value(target)
                && self.value(target).context.spec_is_less_specific_than(&value.context),
            !self.place_in_use(value.context, value.key, value.parent_attribute_value_id),
            value.parent_attribute_value_id matches Some(parent) ==> self.has_value(parent),
            value.attribute_prototype_id matches Some(prototype) ==> prototype.0
                < self.prototypes.len() && self.prototypes[prototype.0 as int].context
                == value.context,
        ensures
            self.with_value(value).wf(),
            self.scaffolded() ==> self.with_value(value).scaffolded(),
    {
        let after = self.with_value(value);
        assert forall|i: int| 0 <= i < after.values.len() implies #[trigger] after.value_wf(i) by {
            if i < self.values.len() {
                assert(self.value_wf(i));
            }
        }
        assert forall|i: int, j: int| 0 <= i < j < after.values.len() implies #[trigger]
            after.places_differ(i, j) by {
            if j < self.values.len() {
                assert(self.places_differ(i, j));
            }
        }
        assert forall|i: int| 0 <= i < after.pending.len() implies #[trigger]
            after.pending_root_wf(i) by {
            assert(self.pending_root_wf(i));
        }
        self.lemma_same_props_wf(after);
        self.lemma_same_prototypes_wf(after);
        self.lemma_same_diagram_wf(after);
    }

    /// The value at position `b` is the one that the search finds among the
    /// first `count` values.
    pub open spec fn is_best_among(self, query: ValueQuery, b: int, count: int) -> bool {
        &&& b < count
        &&& self.is_candidate(query, b)
        &&& forall|j: int|
            j < count && #[trigger] self.is_candidate(query, j) ==> {
                ||| self.values[j].context.spec_specificity()
                    < self.values[b].context.spec_specificity()
                ||| (self.values[j].context.spec_specificity()
                    == self.values[b].context.spec_specificity() && b <= j)
            }
    }

    /// Where the search looks at one of the first `count` values, it finds
    /// one among them.
    pub proof fn lemma_best_among_exists(self, query: ValueQuery, count: int)
        ensures
            (exists|j: int| j < count && #[trigger] self.is_candidate(query, j)) ==> exists|b: int|
                self.is_best_among(query, b, count),
        decreases count,
    {
        if exists|j: int| j < count && #[trigger] self.is_candidate(query, j) {
            let last = count - 1;
            self.lemma_best_among_exists(query, last);
            if exists|j: int| j < last && #[trigger] self.is_candidate(query, j) {
                let b = choose|b: int| self.is_best_among(query, b, last);
                if self.is_candidate(query, last) && self.values[last].context.spec_specificity()
                    > self.values[b].context.spec_specificity() {
                    assert(self.is_best_among(query, last, count));
                } else {
                    assert(self.is_best_among(query, b, count));
                }
            } else {
                assert(self.is_best_among(query, last, count));
            }
        }
    }

    /// A search that looks at a value finds a value.
    pub proof fn lemma_candidate_is_found(self, query: ValueQuery, i: int)
        requires
            self.is_candidate(query, i),
        ensures
            self.found(query) is Some,
    {
        let count = self.values.len() as int;
        self.lemma_best_among_exists(query, count);
        let b = choose|b: int| self.is_best_among(query, b, count);
        assert(self.is_best_candidate(query, b));
    }

    /// A search finds at most one value.
    pub proof fn lemma_best_candidate_is_unique(self, query: ValueQuery, i: int, j: int)
        requires
            self.is_best_candidate(query, i),
            self.is_best_candidate(query, j),
        ensures
            i == j,
    {
    }
}

impl Clone for AttributeValue {
    /// A value with the same contents.
    fn clone(&self) -> (copy: AttributeValue)
        ensures
            copy@ == self@,
    {
        AttributeValue {
            id: self.id,
            func_binding_return_value_id: self.func_binding_return_value_id,
            proxy_for_attribute_value_id: self.proxy_for_attribute_value_id,
            sealed_proxy: self.sealed_proxy,
            index_map: match &self.index_map {
                Some(index_map) => Some(index_map.clone()),
                None => None,
            },
            key: copy_text(&self.key),
            context: self.context,
            parent_attribute_value_id: self.parent_attribute_value_id,
            attribute_prototype_id: self.attribute_prototype_id,
        }
    }
}

impl AttributeValue {
    /// The stored value with this identifier. Fails when no value has it.
    pub fn get_by_id(ctx: &Graph, id: AttributeValueId) -> (found: Result<
        AttributeValue,
        AttributeValueError,
    >)
        ensures
            match found {
                Ok(value) => ctx@.has_value(id) && value@ == ctx@.value(id),
                Err(error) => !ctx@.has_value(id) && error == AttributeValueError::NotFound(id),
            },
    {
        match Graph::position(id.0, ctx.values.len()) {
            Some(i) => Ok(ctx.values[i].clone()),
            None => Err(AttributeValueError::NotFound(id)),
        }
    }

    /// Whether a value already has this context, key and parent.
    pub(crate) fn place_in_use(
        ctx: &Graph,
        context: &AttributeContext,
        key: &Option<String>,
        parent_attribute_value_id: Option<AttributeValueId>,
    ) -> (in_use: bool)
        ensures
            in_use == ctx@.place_in_use(*context, text_of(*key), parent_attribute_value_id),
    {
        let mut i: usize = 0;
        while i < ctx.values.len()
            invariant
                i <= ctx.values.len(),
                forall|k: int|
                    0 <= k < i ==> !((#[trigger] ctx@.values[k]).context == *context
                        && ctx@.values[k].key == text_of(*key)
                        && ctx@.values[k].parent_attribute_value_id == parent_attribute_value_id),
            decreases ctx.values.len() - i,
        {
            let value = &ctx.values[i];
            if value.context == *context && same_text(&value.key, key)
                && value.parent_attribute_value_id == parent_attribute_value_id {
                assert(ctx@.values[i as int] == value@);
                return true;
            }
            i = i + 1;
        }
        false
    }

    /// Stores a value that no stored value shares its place with.
    pub(crate) fn store_value(ctx: &mut Graph, value: AttributeValue)
        requires
            old(ctx).wf(),
            value@.id.0 == old(ctx)@.values.len(),
            !old(ctx)@.place_in_use(value@.context, value@.key, value@.parent_attribute_value_id),
            value@.parent_attribute_value_id matches Some(parent) ==> old(ctx)@.has_value(parent),
            value@.attribute_prototype_id matches Some(prototype) ==> prototype.0 < old(
                ctx,
            )@.prototypes.len() && old(ctx)@.prototypes[prototype.0 as int].context
                == value@.context,
            value@.proxy_for_attribute_value_id matches Some(target) ==> old(ctx)@.has_value(target)
                && old(ctx)@.value(target).context.spec_is_less_specific_than(&value@.context),
        ensures
            final(ctx).wf(),
            old(ctx).scaffolded() ==> final(ctx).scaffolded(),
            final(ctx)@ == old(ctx)@.with_value(value@),
    {
        proof {
            if let Some(index_map) = &value.index_map {
                use_type_invariant(index_map);
            }
        }
        ctx.values.push(value);
        proof {
            let before = old(ctx)@;
            assert(ctx@.values =~= before.values.push(value@));
            before.lemma_with_value_wf(value@);
        }
    }

    /// Stores a new value that is no proxy.
    pub(crate) fn store(
        ctx: &mut Graph,
        func_binding_return_value_id: Option<FuncBindingReturnValueId>,
        context: AttributeContext,
        key: Option<String>,
        parent_attribute_value_id: Option<AttributeValueId>,
        attribute_prototype_id: Option<AttributePrototypeId>,
    ) -> (id: AttributeValueId)
        requires
            old(ctx).wf(),
            !old(ctx)@.place_in_use(context, text_of(key), parent_attribute_value_id),
            parent_attribute_value_id matches Some(parent) ==> old(ctx)@.has_value(parent),
            attribute_prototype_id matches Some(prototype) ==> prototype.0 < old(ctx)@.prototypes.len()
                && old(ctx)@.prototypes[prototype.0 as int].context == context,
        ensures
            final(ctx).wf(),
            old(ctx).scaffolded() ==> final(ctx).scaffolded(),
            id == old(ctx)@.next_value_id(),
            id.0 == old(ctx)@.values.len(),
            final(ctx)@ == old(ctx)@.with_value(
                AttributeValueView::fresh(
                    id,
                    func_binding_return_value_id,
                    context,
                    text_of(key),
                    parent_attribute_value_id,
                    attribute_prototype_id,
                ),
            ),
    {
        let id = AttributeValueId(ctx.value_count() as u64);
        AttributeValue::store_value(
            ctx,
            AttributeValue {
                id,
                func_binding_return_value_id,
                proxy_for_attribute_value_id: None,
                sealed_proxy: false,
                index_map: None,
                key,
                context,
                parent_attribute_value_id,
                attribute_prototype_id,
            },
        );
        id
    }

    /// Lists a child at the end of the index of its parent.
    pub(crate) fn list_child(
        ctx: &mut Graph,
        parent: AttributeValueId,
        child: AttributeValueId,
        key: Option<String>,
    )
        requires
            old(ctx).wf(),
            old(ctx)@.has_value(parent),
        ensures
            final(ctx).wf(),
            old(ctx).scaffolded() ==> final(ctx).scaffolded(),
            final(ctx)@ == old(ctx)@.with_listed_child(parent, child, text_of(key)),
    {
        let count = ctx.value_count();
        let position = match Graph::position(parent.0, count) {
            Some(i) => i,
            None => unreached(),
        };
        let mut index_map = match ctx.values[position].index_map.take() {
            Some(index_map) => index_map,
            None => IndexMap::new(),
        };
        index_map.push(child, key);
        ctx.values[position].index_map = Some(index_map);
        proof {
            let before = old(ctx)@;
            let listed = AttributeValueView { index_map: Some(index_map@), ..before.value(parent) };
            assert(ctx@.values =~= before.values.update(position as int, listed));
            assert(before.value_wf(position as int));
            before.lemma_with_value_at_wf(parent, listed);
        }
    }

    /// Makes a value without a parent in a context. No other parentless value
    /// may have the same context and key.
    pub fn new(
        ctx: &mut Graph,
        func_binding_return_value_id: Option<FuncBindingReturnValueId>,
        context: AttributeContext,
        key: Option<String>,
    ) -> (made: Result<AttributeValue, AttributeValueError>)
        requires
            old(ctx).wf(),
        ensures
            final(ctx).wf(),
            old(ctx).scaffolded() ==> final(ctx).scaffolded(),
            match made {
                Ok(value) => {
                    &&& !old(ctx)@.place_in_use(context, text_of(key), None)
                    &&& value@ == AttributeValueView::fresh(
                        old(ctx)@.next_value_id(),
                        func_binding_return_value_id,
                        context,
                        text_of(key),
                        None,
                        None,
                    )
                    &&& value@.id.0 == old(ctx)@.values.len()
                    &&& final(ctx)@ == old(ctx)@.with_value(value@)
                },
                Err(error) => {
                    &&& old(ctx)@.place_in_use(context, text_of(key), None)
                    &&& error == AttributeValueError::AttributeContextBuilder(
                        AttributeContextBuilderError::ContextInUse(context),
                    )
                    &&& final(ctx)@ == old(ctx)@
                },
            },
    {
        if AttributeValue::place_in_use(ctx, &context, &key, None) {
            return Err(
                AttributeValueError::AttributeContextBuilder(
                    AttributeContextBuilderError::ContextInUse(context),
                ),
            );
        }
        AttributeValue::store(ctx, func_binding_return_value_id, context, key, None, None);
        let value = ctx.value_at(ctx.value_count() - 1).clone();
        Ok(value)
    }

    /// The position of the value that a search finds, if any value is looked at.
    pub(crate) fn search(ctx: &Graph, query: &ValueQuery) -> (found: Option<usize>)
        ensures
            match found {
                Some(i) => ctx@.is_best_candidate(*query, i as int) && ctx@.found(*query) == Some(
                    AttributeValueId(i as u64),
                ),
                None => ctx@.found(*query) is None && forall|i: int| !ctx@.is_candidate(*query, i),
            },
    {
        let mut best: Option<usize> = None;
        let mut best_rank: u8 = 0;
        let mut i: usize = 0;
        while i < ctx.values.len()
            invariant
                i <= ctx.values.len(),
                match best {
                    Some(b) => {
                        &&& b < i
                        &&& ctx@.is_candidate(*query, b as int)
                        &&& best_rank == ctx@.values[b as int].context.spec_specificity()
                        &&& forall|j: int|
                            0 <= j < i && #[trigger] ctx@.is_candidate(*query, j) ==> {
                                ||| ctx@.values[j].context.spec_specificity() < best_rank
                                ||| (ctx@.values[j].context.spec_specificity() == best_rank && b
                                    <= j)
                            }
                    },
                    None => forall|j: int| 0 <= j < i ==> !ctx@.is_candidate(*query, j),
                },
            decreases ctx.values.len() - i,
        {
            let value = &ctx.values[i];
            if query.admits(value) {
                let rank = value.context.specificity();
                if best.is_none() || rank > best_rank {
                    best = Some(i);
                    best_rank = rank;
                }
            }
            i = i + 1;
        }
        proof {
            if let Some(b) = best {
                let chosen = choose|i: int| ctx@.is_best_candidate(*query, i);
                ctx@.lemma_best_candidate_is_unique(*query, b as int, chosen);
            }
        }
        best
    }

    /// The identifier of the value that applies in a read context: of the
    /// values stored under a context that the read context admits, the one
    /// with the most specific context, and of those with that context the one
    /// made first. Fails when no stored value is admitted.
    pub fn find_id_for_context(ctx: &Graph, read_context: AttributeReadContext) -> (found: Result<
        AttributeValueId,
        AttributeValueError,
    >)
        ensures
            match found {
                Ok(id) => ctx@.found(ValueQuery::for_context(read_context)) == Some(id)
                    && ctx@.is_best_candidate(ValueQuery::for_context(read_context), id.0 as int),
                Err(error) => {
                    &&& error == AttributeValueError::NotFoundForContext(read_context)
                    &&& ctx@.found(ValueQuery::for_context(read_context)) is None
                    &&& forall|i: int|
                        !ctx@.is_candidate(ValueQuery::for_context(read_context), i)
                },
            },
    {
        let query = ValueQuery {
            read_context,
            parent_attribute_value_id: None,
            attribute_prototype_id: None,
        };
        match AttributeValue::search(ctx, &query) {
            Some(i) => Ok(AttributeValueId(i as u64)),
            None => Err(AttributeValueError::NotFoundForContext(read_context)),
        }
    }

    /// The value that applies in a read context: of the values stored under a
    /// context that the read context admits, the one with the most specific
    /// context, and of those with that context the one made first. Fails when no
    /// stored value is admitted.
    pub fn find_for_context(ctx: &Graph, read_context: AttributeReadContext) -> (found: Result<
        AttributeValue,
        AttributeValueError,
    >)
        requires
            ctx.wf(),
        ensures
            match found {
                Ok(value) => {
                    &&& ctx@.has_value(value@.id)
                    &&& value@ == ctx@.value(value@.id)
                    &&& ctx@.is_best_candidate(
                        ValueQuery::for_context(read_context),
                        value@.id.0 as int,
                    )
                    &&& ctx@.found(ValueQuery::for_context(read_context)) == Some(value@.id)
                },
                Err(error) => {
                    &&& error == AttributeValueError::NotFoundForContext(read_context)
                    &&& ctx@.found(ValueQuery::for_context(read_context)) is None
                    &&& forall|i: int|
                        !ctx@.is_candidate(ValueQuery::for_context(read_context), i)
                },
            },
    {
        let query = ValueQuery {
            read_context,
            parent_attribute_value_id: None,
            attribute_prototype_id: None,
        };
        match AttributeValue::search(ctx, &query) {
            Some(i) => {
                assert(ctx@.value_wf(i as int));
                Ok(ctx.values[i].clone())
            },
            None => Err(AttributeValueError::NotFoundForContext(read_context)),
        }
    }
}

impl GraphView {
    /// What a value reads as its computed result: a live proxy reads what the
    /// value it stands in for reads, every other value reads its own result.
    pub open spec fn resolved(self, id: AttributeValueId) -> Option<FuncBindingReturnValueId>
        decreases self.value(id).context.spec_specificity(),
    {
        let value = self.value(id);
        if value.is_live_proxy() && self.value(
            value.proxy_for_attribute_value_id.unwrap(),
        ).context.spec_specificity() < value.context.spec_specificity() {
            self.resolved(value.proxy_for_attribute_value_id.unwrap())
        } else {
            value.func_binding_return_value_id
        }
    }

    /// The graph after a result was written to a value. Writing to a proxy
    /// seals it: the value is overridden from then on.
    pub open spec fn with_result(
        self,
        id: AttributeValueId,
        func_binding_return_value_id: Option<FuncBindingReturnValueId>,
    ) -> GraphView {
        self.with_value_at(
            id,
            AttributeValueView {
                func_binding_return_value_id,
                sealed_proxy: self.value(id).sealed_proxy || self.value(
                    id,
                ).proxy_for_attribute_value_id is Some,
                ..self.value(id)
            },
        )
    }

    /// The graph after a value was sealed: the value keeps what it read at that
    /// moment as its own result.
    pub open spec fn with_seal(self, id: AttributeValueId) -> GraphView {
        self.with_value_at(
            id,
            AttributeValueView {
                func_binding_return_value_id: self.resolved(id),
                sealed_proxy: true,
                ..self.value(id)
            },
        )
    }

    /// The graph after a value was made a proxy for `target`, or was made to
    /// stand for itself again.
    pub open spec fn with_proxy(
        self,
        id: AttributeValueId,
        target: Option<AttributeValueId>,
    ) -> GraphView {
        self.with_value_at(
            id,
            AttributeValueView { proxy_for_attribute_value_id: target, ..self.value(id) },
        )
    }

    /// Whether a value may become a child of `parent` in a context and under a key.
    pub open spec fn child_allowed(
        self,
        context: AttributeContext,
        parent: AttributeValueId,
        key: Option<Seq<char>>,
    ) -> Result<(), AttributeValueError> {
        if !self.has_value(parent) {
            Err(AttributeValueError::NotFound(parent))
        } else {
            match self.value(parent).context.spec_prop_id() {
                None => Err(AttributeValueError::ParentWithoutProp(parent)),
                Some(prop_id) => if prop_id.0 >= self.props.len() {
                    Err(AttributeValueError::Prop(PropError::NotFound(prop_id)))
                } else if !self.props[prop_id.0 as int].kind.spec_allows_children() {
                    Err(
                        AttributeValueError::ParentNotAllowed(
                            parent,
                            self.props[prop_id.0 as int].kind,
                        ),
                    )
                } else if self.place_in_use(context, key, Some(parent)) {
                    Err(
                        AttributeValueError::AttributeContextBuilder(
                            AttributeContextBuilderError::ContextInUse(context),
                        ),
                    )
                } else {
                    Ok(())
                },
            }
        }
    }

    /// The graph after `parent` listed a child at the end of its index.
    pub open spec fn with_listed_child(
        self,
        parent: AttributeValueId,
        child: AttributeValueId,
        key: Option<Seq<char>>,
    ) -> GraphView {
        let entries = match self.value(parent).index_map {
            Some(entries) => entries,
            None => Seq::empty(),
        };
        self.with_value_at(
            parent,
            AttributeValueView {
                index_map: Some(pushed(entries, child, key)),
                ..self.value(parent)
            },
        )
    }

    /// The graph after a child was inserted under `parent`: the child is
    /// stored, the parent lists it at the end of its index, and the child is
    /// queued as a root.
    pub open spec fn with_child(
        self,
        func_binding_return_value_id: Option<FuncBindingReturnValueId>,
        context: AttributeContext,
        parent: AttributeValueId,
        key: Option<Seq<char>>,
    ) -> GraphView {
        let id = self.next_value_id();
        self.with_value(
            AttributeValueView::fresh(
                id,
                func_binding_return_value_id,
                context,
                key,
                Some(parent),
                None,
            ),
        ).with_listed_child(parent, id, key).with_pending(id)
    }

    /// Whether a value may be written in a context: the value is stored, and
    /// the context is its own or a more specific one in which no value has
    /// the key and parent of the value yet.
    pub open spec fn update_allowed(
        self,
        id: AttributeValueId,
        context: AttributeContext,
    ) -> Result<(), AttributeValueError> {
        if !self.has_value(id) {
            Err(AttributeValueError::NotFound(id))
        } else if self.value(id).context == context {
            Ok(())
        } else if !self.value(id).context.spec_is_less_specific_than(&context) {
            Err(AttributeValueError::ContextNotReachable(id, context))
        } else if self.place_in_use(
            context,
            self.value(id).key,
            self.value(id).parent_attribute_value_id,
        ) {
            Err(
                AttributeValueError::AttributeContextBuilder(
                    AttributeContextBuilderError::ContextInUse(context),
                ),
            )
        } else {
            Ok(())
        }
    }

    /// The value that holds the result after a value was written in a context:
    /// the value itself in its own context, a new override in a more specific one.
    pub open spec fn updated_value_id(
        self,
        id: AttributeValueId,
        context: AttributeContext,
    ) -> AttributeValueId {
        if self.value(id).context == context {
            id
        } else {
            self.next_value_id()
        }
    }

    /// The graph after a value was written in a context. In the context of the
    /// value, the value takes the result, and is sealed if it is a proxy. In a
    /// more specific context, a sealed override is made that stands in for the
    /// value, and the parent of the value lists it. The value that holds the
    /// result is queued as a root.
    pub open spec fn with_update(
        self,
        id: AttributeValueId,
        context: AttributeContext,
        func_binding_return_value_id: Option<FuncBindingReturnValueId>,
    ) -> GraphView {
        if self.value(id).context == context {
            self.with_result(id, func_binding_return_value_id).with_pending(id)
        } else {
            let made = self.with_value(
                AttributeValueView::sealed_override(
                    self.next_value_id(),
                    func_binding_return_value_id,
                    context,
                    self.value(id),
                ),
            );
            let listed = match self.value(id).parent_attribute_value_id {
                Some(parent) => made.with_listed_child(
                    parent,
                    self.next_value_id(),
                    self.value(id).key,
                ),
                None => made,
            };
            listed.with_pending(self.next_value_id())
        }
    }

    /// A graph stays well formed when a stored value is replaced by one with
    /// the same identifier, context, key and parent, whose prototype and proxy
    /// target are as a well-formed graph wants them.
    pub proof fn lemma_with_value_at_wf(self, id: AttributeValueId, value: AttributeValueView)
        requires
            self.wf(),
            self.has_value(id),
            value.id == id,
            value.index_map matches Some(entries) ==> distinct(entries),
            value.same_place(self.value(id)),
            value.attribute_prototype_id matches Some(prototype) ==> prototype.0
                < self.prototypes.len() && self.prototypes[prototype.0 as int].context
                == value.context,
            value.proxy_for_attribute_value_id matches Some(target) ==> self.has_value(target)
                && self.value(target).context.spec_is_less_specific_than(&value.context),
        ensures
            self.with_value_at(id, value).wf(),
            self.scaffolded() ==> self.with_value_at(id, value).scaffolded(),
    {
        let after = self.with_value_at(id, value);
        assert forall|i: int| 0 <= i < after.values.len() implies #[trigger] after.value_wf(i) by {
            assert(self.value_wf(i));
        }
        assert forall|i: int, j: int| 0 <= i < j < after.values.len() implies #[trigger]
            after.places_differ(i, j) by {
            assert(self.places_differ(i, j));
        }
        assert forall|i: int| 0 <= i < after.pending.len() implies #[trigger]
            after.pending_root_wf(i) by {
            assert(self.pending_root_wf(i));
        }
        self.lemma_same_props_wf(after);
        self.lemma_same_prototypes_wf(after);
        self.lemma_same_diagram_wf(after);
    }

    /// A live proxy reads what the value it stands in for reads.
    pub proof fn lemma_live_proxy_follows_target(self, id: AttributeValueId)
        requires
            self.wf(),
            self.has_value(id),
            self.value(id).is_live_proxy(),
        ensures
            self.resolved(id) == self.resolved(self.value(id).proxy_for_attribute_value_id.unwrap()),
    {
        assert(self.value_wf(id.0 as int));
        let target = self.value(id).proxy_for_attribute_value_id.unwrap();
        self.value(target).context.lemma_at_or_below_ranks_lower(&self.value(id).context);
    }

    /// A value that is sealed, or that is no proxy, reads its own result,
    /// whatever the other values of the graph hold.
    pub proof fn lemma_sealed_value_reads_own_result(self, id: AttributeValueId)
        requires
            !self.value(id).is_live_proxy(),
        ensures
            self.resolved(id) == self.value(id).func_binding_return_value_id,
    {
    }

    /// Sealing a value does not change what it reads, and from then on the
    /// value reads the same whatever is written to another value, the one it
    /// was a proxy for included.
    pub proof fn lemma_sealed_proxy_ignores_target(
        self,
        id: AttributeValueId,
        other: AttributeValueId,
        func_binding_return_value_id: Option<FuncBindingReturnValueId>,
    )
        requires
            self.has_value(id),
            self.has_value(other),
            id != other,
        ensures
            self.with_seal(id).resolved(id) == self.resolved(id),
            self.with_seal(id).with_result(other, func_binding_return_value_id).resolved(id)
                == self.resolved(id),
    {
        let sealed = self.with_seal(id);
        sealed.lemma_sealed_value_reads_own_result(id);
        let written = sealed.with_result(other, func_binding_return_value_id);
        written.lemma_sealed_value_reads_own_result(id);
    }

    /// No operation on values unseals a value: writing a result, sealing,
    /// changing a proxy target, storing a value, listing or inserting a child
    /// and writing in a context all leave a sealed value sealed.
    pub proof fn lemma_seal_is_permanent(
        self,
        id: AttributeValueId,
        other: AttributeValueId,
        func_binding_return_value_id: Option<FuncBindingReturnValueId>,
        target: Option<AttributeValueId>,
        value: AttributeValueView,
        context: AttributeContext,
        key: Option<Seq<char>>,
    )
        requires
            self.wf(),
            self.has_value(id),
            self.has_value(other),
            self.value(id).sealed_proxy,
        ensures
            self.with_result(other, func_binding_return_value_id).value(id).sealed_proxy,
            self.with_seal(other).value(id).sealed_proxy,
            self.with_proxy(other, target).value(id).sealed_proxy,
            self.with_value(value).value(id).sealed_proxy,
            self.with_listed_child(other, value.id, key).value(id).sealed_proxy,
            self.with_child(func_binding_return_value_id, context, other, key).value(
                id,
            ).sealed_proxy,
            self.with_update(other, context, func_binding_return_value_id).value(id).sealed_proxy,
    {
        assert(self.value_wf(other.0 as int));
    }

    /// Once a value is made in a context, a search for that context finds a
    /// value of exactly that context; it finds the new value if no value had
    /// the context before.
    pub proof fn lemma_search_finds_created(self, value: AttributeValueView, found: int)
        requires
            self.with_value(value).is_best_candidate(
                ValueQuery::for_context(AttributeReadContext::spec_exactly(value.context)),
                found,
            ),
        ensures
            self.with_value(value).values[found].context == value.context,
            (forall|i: int| 0 <= i < self.values.len() ==> (#[trigger] self.values[i]).context
                != value.context) ==> found == self.values.len(),
    {
        let after = self.with_value(value);
        let query = ValueQuery::for_context(AttributeReadContext::spec_exactly(value.context));
        let made = self.values.len() as int;
        AttributeReadContext::lemma_exactly_admits_at_or_below(value.context, value.context);
        assert(after.is_candidate(query, made));
        AttributeReadContext::lemma_exactly_admits_at_or_below(
            value.context,
            after.values[found].context,
        );
        after.values[found].context.lemma_at_or_below_ranks_lower(&value.context);
    }

    /// Specificity does not leak upward: a search never looks at a value whose
    /// context sets a scope field that the read context wants unset, or sets it
    /// to another identifier than the read context asks for.
    pub proof fn lemma_search_stays_at_or_below(self, read_context: AttributeReadContext, i: int)
        requires
            self.is_candidate(ValueQuery::for_context(read_context), i),
        ensures
            read_context.component_id == Filter::<ComponentId>::Unset
                ==> self.values[i].context.component_id is None,
            read_context.schema_variant_id == Filter::<SchemaVariantId>::Unset
                ==> self.values[i].context.schema_variant_id is None,
            read_context.schema_id == Filter::<SchemaId>::Unset
                ==> self.values[i].context.schema_id is None,
            forall|context: AttributeContext|
                read_context == AttributeReadContext::spec_exactly(context)
                    ==> self.values[i].context.spec_is_at_or_below(&context),
    {
        assert forall|context: AttributeContext|
            read_context == AttributeReadContext::spec_exactly(
                context,
            ) implies self.values[i].context.spec_is_at_or_below(&context) by {
            AttributeReadContext::lemma_exactly_admits_at_or_below(
                context,
                self.values[i].context,
            );
        }
    }
}

impl AttributeValue {
    /// The search for the values at or below a context that have a given
    /// parent and a given prototype.
    pub open spec fn for_parent_and_prototype(
        parent_attribute_value_id: Option<AttributeValueId>,
        attribute_prototype_id: AttributePrototypeId,
        context: AttributeContext,
    ) -> ValueQuery {
        ValueQuery {
            read_context: AttributeReadContext::spec_exactly(context),
            parent_attribute_value_id: Some(parent_attribute_value_id),
            attribute_prototype_id: Some(attribute_prototype_id),
        }
    }

    /// The most specific value at or below a context that has the given
    /// parent and the given prototype; of several with the same context, the
    /// one made first. The value may stand in a less specific context than the
    /// one asked for; it has the context of the prototype. Fails when no value
    /// with that parent and that prototype is at or below the context.
    pub fn find_with_parent_and_prototype_for_context(
        ctx: &Graph,
        parent_attribute_value_id: Option<AttributeValueId>,
        attribute_prototype_id: AttributePrototypeId,
        context: AttributeContext,
    ) -> (found: Result<AttributeValue, AttributeValueError>)
        requires
            ctx.wf(),
        ensures
            match found {
                Ok(value) => {
                    &&& ctx@.has_value(value@.id)
                    &&& value@ == ctx@.value(value@.id)
                    &&& ctx@.is_best_candidate(
                        AttributeValue::for_parent_and_prototype(
                            parent_attribute_value_id,
                            attribute_prototype_id,
                            context,
                        ),
                        value@.id.0 as int,
                    )
                    &&& value@.parent_attribute_value_id == parent_attribute_value_id
                    &&& value@.attribute_prototype_id == Some(attribute_prototype_id)
                    &&& value@.context.spec_is_at_or_below(&context)
                    &&& ctx@.has_prototype(attribute_prototype_id)
                    &&& value@.context == ctx@.prototype(attribute_prototype_id).context
                },
                Err(error) => {
                    &&& error == AttributeValueError::NotFoundForContext(
                        AttributeReadContext::spec_exactly(context),
                    )
                    &&& forall|i: int|
                        !ctx@.is_candidate(
                            AttributeValue::for_parent_and_prototype(
                                parent_attribute_value_id,
                                attribute_prototype_id,
                                context,
                            ),
                            i,
                        )
                },
            },
    {
        let read_context = AttributeReadContext::from(context);
        let query = ValueQuery {
            read_context,
            parent_attribute_value_id: Some(parent_attribute_value_id),
            attribute_prototype_id: Some(attribute_prototype_id),
        };
        match AttributeValue::search(ctx, &query) {
            Some(i) => {
                proof {
                    assert(ctx@.value_wf(i as int));
                    AttributeReadContext::lemma_exactly_admits_at_or_below(
                        context,
                        ctx@.values[i as int].context,
                    );
                }
                Ok(ctx.value_at(i).clone())
            },
            None => Err(AttributeValueError::NotFoundForContext(read_context)),
        }
    }

    /// The context of the value that a prop has where no schema, schema
    /// variant or component is named.
    pub open spec fn prop_context(prop_id: PropId) -> AttributeContext {
        AttributeContext {
            carrier: AttributeCarrier::Prop(prop_id),
            schema_id: None,
            schema_variant_id: None,
            component_id: None,
        }
    }

    /// The value of a prop in the least specific context: the first value made
    /// for the prop without schema, schema variant or component. Fails when
    /// the prop has no such value.
    pub fn find_for_prop(ctx: &Graph, prop_id: PropId) -> (found: Result<
        AttributeValue,
        AttributeValueError,
    >)
        requires
            ctx.wf(),
        ensures
            match found {
                Ok(value) => {
                    &&& ctx@.has_value(value@.id)
                    &&& value@ == ctx@.value(value@.id)
                    &&& value@.context == AttributeValue::prop_context(prop_id)
                    &&& forall|i: int|
                        0 <= i < value@.id.0 ==> (#[trigger] ctx@.values[i]).context
                            != AttributeValue::prop_context(prop_id)
                },
                Err(error) => {
                    &&& error == AttributeValueError::NotFoundForContext(
                        AttributeReadContext::spec_exactly(AttributeValue::prop_context(prop_id)),
                    )
                    &&& forall|i: int|
                        0 <= i < ctx@.values.len() ==> (#[trigger] ctx@.values[i]).context
                            != AttributeValue::prop_context(prop_id)
                },
            },
    {
        let mut builder = AttributeContext::builder();
        builder.set_prop_id(prop_id);
        let prop_context = match builder.to_context() {
            Ok(context) => context,
            Err(_) => unreached(),
        };
        let read_context = AttributeReadContext::from(prop_context);
        let found = AttributeValue::find_for_context(ctx, read_context);
        proof {
            let query = ValueQuery::for_context(read_context);
            assert forall|i: int| 0 <= i < ctx@.values.len() implies (ctx@.is_candidate(query, i)
                <==> (#[trigger] ctx@.values[i]).context == prop_context) by {
                AttributeReadContext::lemma_exactly_admits_at_or_below(
                    prop_context,
                    ctx@.values[i].context,
                );
            }
        }
        found
    }

    /// Inserts a child under an array, map or object value: stores the child
    /// in `context` under `key`, and lists it at the end of the parent's index.
    pub fn insert_for_context(
        ctx: &mut Graph,
        context: AttributeContext,
        parent_attribute_value_id: AttributeValueId,
        func_binding_return_value_id: Option<FuncBindingReturnValueId>,
        key: Option<String>,
    ) -> (inserted: Result<AttributeValueId, AttributeValueError>)
        requires
            old(ctx).wf(),
        ensures
            final(ctx).wf(),
            old(ctx).scaffolded() ==> final(ctx).scaffolded(),
            match inserted {
                Ok(id) => {
                    &&& old(ctx)@.child_allowed(context, parent_attribute_value_id, text_of(key)) is Ok
                    &&& id == old(ctx)@.next_value_id()
                    &&& id.0 == old(ctx)@.values.len()
                    &&& final(ctx)@ == old(ctx)@.with_child(
                        func_binding_return_value_id,
                        context,
                        parent_attribute_value_id,
                        text_of(key),
                    )
                },
                Err(error) => {
                    &&& old(ctx)@.child_allowed(context, parent_attribute_value_id, text_of(key))
                        == Err::<(), AttributeValueError>(error)
                    &&& final(ctx)@ == old(ctx)@
                },
            },
    {
        let parent_position = match Graph::position(
            parent_attribute_value_id.0,
            ctx.value_count(),
        ) {
            Some(i) => i,
            None => {
                return Err(AttributeValueError::NotFound(parent_attribute_value_id));
            },
        };
        let prop_id = match ctx.value_at(parent_position).context.prop_id() {
            Some(prop_id) => prop_id,
            None => {
                return Err(AttributeValueError::ParentWithoutProp(parent_attribute_value_id));
            },
        };
        let kind = match Graph::position(prop_id.0, ctx.prop_count()) {
            Some(i) => ctx.prop_at(i).kind,
            None => {
                return Err(AttributeValueError::Prop(PropError::NotFound(prop_id)));
            },
        };
        if !kind.allows_children() {
            return Err(AttributeValueError::ParentNotAllowed(parent_attribute_value_id, kind));
        }
        if AttributeValue::place_in_use(ctx, &context, &key, Some(parent_attribute_value_id)) {
            return Err(
                AttributeValueError::AttributeContextBuilder(
                    AttributeContextBuilderError::ContextInUse(context),
                ),
            );
        }
        let entry_key = copy_text(&key);
        let id = AttributeValue::store(
            ctx,
            func_binding_return_value_id,
            context,
            key,
            Some(parent_attribute_value_id),
            None,
        );
        AttributeValue::list_child(ctx, parent_attribute_value_id, id, entry_key);
        ctx.enqueue_dependent_values_update(id);
        Ok(id)
    }

    /// Writes a result for a value in a context, as an editor does.
    ///
    /// In the context of the value itself the value takes the result; if it is
    /// a proxy, this seals it. In a more specific context an override is made:
    /// a new value in that context, with the key and parent of the value, that
    /// stands in for the value as a sealed proxy and holds the result. The
    /// parent lists the override at the end of its index. The value that holds
    /// the result is queued as a root, and its identifier is returned.
    pub fn update_for_context(
        ctx: &mut Graph,
        attribute_value_id: AttributeValueId,
        context: AttributeContext,
        func_binding_return_value_id: Option<FuncBindingReturnValueId>,
    ) -> (updated: Result<AttributeValueId, AttributeValueError>)
        requires
            old(ctx).wf(),
        ensures
            final(ctx).wf(),
            old(ctx).scaffolded() ==> final(ctx).scaffolded(),
            match updated {
                Ok(id) => {
                    &&& old(ctx)@.update_allowed(attribute_value_id, context) is Ok
                    &&& id == old(ctx)@.updated_value_id(attribute_value_id, context)
                    &&& final(ctx)@ == old(ctx)@.with_update(
                        attribute_value_id,
                        context,
                        func_binding_return_value_id,
                    )
                    &&& final(ctx)@.has_value(id)
                    &&& final(ctx)@.resolved(id) == func_binding_return_value_id
                    &&& final(ctx)@.pending.contains(id)
                },
                Err(error) => {
                    &&& old(ctx)@.update_allowed(attribute_value_id, context) == Err::<
                        (),
                        AttributeValueError,
                    >(error)
                    &&& final(ctx)@ == old(ctx)@
                },
            },
    {
        let position = match Graph::position(attribute_value_id.0, ctx.value_count()) {
            Some(i) => i,
            None => {
                return Err(AttributeValueError::NotFound(attribute_value_id));
            },
        };
        let target_context = ctx.value_at(position).context;
        if target_context == context {
            match AttributeValue::set_func_binding_return_value_id(
                ctx,
                attribute_value_id,
                func_binding_return_value_id,
            ) {
                Ok(()) => {},
                Err(_) => unreached(),
            }
            proof {
                ctx@.lemma_sealed_value_reads_own_result(attribute_value_id);
                ctx@.lemma_with_pending_wf(attribute_value_id);
                ctx@.with_pending(attribute_value_id).lemma_sealed_value_reads_own_result(
                    attribute_value_id,
                );
            }
            ctx.enqueue_dependent_values_update(attribute_value_id);
            return Ok(attribute_value_id);
        }
        if !target_context.is_less_specific_than(&context) {
            return Err(AttributeValueError::ContextNotReachable(attribute_value_id, context));
        }
        let key = copy_text(&ctx.value_at(position).key);
        let parent = ctx.value_at(position).parent_attribute_value_id;
        if AttributeValue::place_in_use(ctx, &context, &key, parent) {
            return Err(
                AttributeValueError::AttributeContextBuilder(
                    AttributeContextBuilderError::ContextInUse(context),
                ),
            );
        }
        proof {
            assert(ctx@.value_wf(position as int));
        }
        let entry_key = copy_text(&key);
        let id = AttributeValueId(ctx.value_count() as u64);
        AttributeValue::store_value(
            ctx,
            AttributeValue {
                id,
                func_binding_return_value_id,
                proxy_for_attribute_value_id: Some(attribute_value_id),
                sealed_proxy: true,
                index_map: None,
                key,
                context,
                parent_attribute_value_id: parent,
                attribute_prototype_id: None,
            },
        );
        if let Some(parent) = parent {
            AttributeValue::list_child(ctx, parent, id, entry_key);
        }
        proof {
            ctx@.lemma_sealed_value_reads_own_result(id);
            ctx@.lemma_with_pending_wf(id);
            ctx@.with_pending(id).lemma_sealed_value_reads_own_result(id);
        }
        ctx.enqueue_dependent_values_update(id);
        Ok(id)
    }

    /// The index of the children of this value, to change it in place.
    pub fn index_map_mut(&mut self) -> (index_map: Option<&mut IndexMap>)
        ensures
            match index_map {
                Some(index_map) => old(self).index_map == Some(*index_map) && *final(self) == (
                AttributeValue { index_map: Some(*final(index_map)), ..*old(self) }),
                None => old(self).index_map is None && *final(self) == *old(self),
            },
    {
        match &mut self.index_map {
            Some(index_map) => Some(index_map),
            None => None,
        }
    }

    /// Writes the index of this value over the index of the stored value with
    /// the same identifier.
    pub fn update_stored_index_map(&self, ctx: &mut Graph) -> (updated: Result<
        (),
        AttributeValueError,
    >)
        requires
            old(ctx).wf(),
        ensures
            final(ctx).wf(),
            old(ctx).scaffolded() ==> final(ctx).scaffolded(),
            match updated {
                Ok(()) => old(ctx)@.has_value(self.id) && final(ctx)@ == old(ctx)@.with_value_at(
                    self.id,
                    AttributeValueView { index_map: self@.index_map, ..old(ctx)@.value(self.id) },
                ),
                Err(error) => !old(ctx)@.has_value(self.id) && error
                    == AttributeValueError::NotFound(self.id) && final(ctx)@ == old(ctx)@,
            },
    {
        let position = match Graph::position(self.id.0, ctx.value_count()) {
            Some(i) => i,
            None => {
                return Err(AttributeValueError::NotFound(self.id));
            },
        };
        let index_map = match &self.index_map {
            Some(index_map) => Some(index_map.clone()),
            None => None,
        };
        ctx.values[position].index_map = index_map;
        proof {
            let before = old(ctx)@;
            let value = AttributeValueView { index_map: self@.index_map, ..before.value(self.id) };
            assert(ctx@.values =~= before.values.update(position as int, value));
            assert(before.value_wf(position as int));
            before.lemma_with_value_at_wf(self.id, value);
        }
        Ok(())
    }

    /// What a value reads as its computed result: a live proxy reads what the
    /// value it stands in for reads at this moment, every other value reads its
    /// own result.
    pub fn resolved_func_binding_return_value_id(ctx: &Graph, id: AttributeValueId) -> (read: Result<
        Option<FuncBindingReturnValueId>,
        AttributeValueError,
    >)
        requires
            ctx.wf(),
        ensures
            match read {
                Ok(result) => ctx@.has_value(id) && result == ctx@.resolved(id),
                Err(error) => !ctx@.has_value(id) && error == AttributeValueError::NotFound(id),
            },
    {
        let mut current = match Graph::position(id.0, ctx.value_count()) {
            Some(i) => i,
            None => {
                return Err(AttributeValueError::NotFound(id));
            },
        };
        let count = ctx.value_count();
        loop
            invariant
                ctx.wf(),
                ctx@.has_value(id),
                count == ctx@.values.len(),
                current < ctx@.values.len(),
                ctx@.resolved(AttributeValueId(current as u64)) == ctx@.resolved(id),
            decreases ctx@.values[current as int].context.spec_specificity(),
        {
            let value = ctx.value_at(current);
            proof {
                assert(ctx@.value_wf(current as int));
            }
            match value.proxy_for_attribute_value_id {
                Some(target) => {
                    if value.sealed_proxy {
                        return Ok(value.func_binding_return_value_id);
                    }
                    proof {
                        ctx@.lemma_live_proxy_follows_target(AttributeValueId(current as u64));
                        ctx@.value(target).context.lemma_at_or_below_ranks_lower(&value@.context);
                    }
                    current = target.0 as usize;
                },
                None => {
                    return Ok(value.func_binding_return_value_id);
                },
            }
        }
    }

    /// Writes the computed result of a value. Written to a proxy, the result
    /// overrides what the proxy stood in for: the proxy is sealed.
    pub fn set_func_binding_return_value_id(
        ctx: &mut Graph,
        id: AttributeValueId,
        func_binding_return_value_id: Option<FuncBindingReturnValueId>,
    ) -> (written: Result<(), AttributeValueError>)
        requires
            old(ctx).wf(),
        ensures
            final(ctx).wf(),
            old(ctx).scaffolded() ==> final(ctx).scaffolded(),
            match written {
                Ok(()) => old(ctx)@.has_value(id) && final(ctx)@ == old(ctx)@.with_result(
                    id,
                    func_binding_return_value_id,
                ),
                Err(error) => !old(ctx)@.has_value(id) && error == AttributeValueError::NotFound(
                    id,
                ) && final(ctx)@ == old(ctx)@,
            },
    {
        let position = match Graph::position(id.0, ctx.value_count()) {
            Some(i) => i,
            None => {
                return Err(AttributeValueError::NotFound(id));
            },
        };
        ctx.values[position].func_binding_return_value_id = func_binding_return_value_id;
        if ctx.values[position].proxy_for_attribute_value_id.is_some() {
            ctx.values[position].sealed_proxy = true;
        }
        proof {
            let before = old(ctx)@;
            let after = before.with_result(id, func_binding_return_value_id);
            assert(ctx@.values =~= after.values);
            assert(before.value_wf(position as int));
            before.lemma_with_value_at_wf(id, after.value(id));
        }
        Ok(())
    }

    /// Seals a value: it keeps what it reads at this moment as its own result
    /// and no longer follows the value that it stood in for. A seal is never
    /// taken off.
    pub fn seal_proxy(ctx: &mut Graph, id: AttributeValueId) -> (sealed: Result<
        (),
        AttributeValueError,
    >)
        requires
            old(ctx).wf(),
        ensures
            final(ctx).wf(),
            old(ctx).scaffolded() ==> final(ctx).scaffolded(),
            match sealed {
                Ok(()) => old(ctx)@.has_value(id) && final(ctx)@ == old(ctx)@.with_seal(id),
                Err(error) => !old(ctx)@.has_value(id) && error == AttributeValueError::NotFound(
                    id,
                ) && final(ctx)@ == old(ctx)@,
            },
    {
        let position = match Graph::position(id.0, ctx.value_count()) {
            Some(i) => i,
            None => {
                return Err(AttributeValueError::NotFound(id));
            },
        };
        let result = match AttributeValue::resolved_func_binding_return_value_id(ctx, id) {
            Ok(result) => result,
            Err(error) => {
                return Err(error);
            },
        };
        ctx.values[position].func_binding_return_value_id = result;
        ctx.values[position].sealed_proxy = true;
        proof {
            let before = old(ctx)@;
            let after = before.with_seal(id);
            assert(ctx@.values =~= after.values);
            assert(before.value_wf(position as int));
            before.lemma_with_value_at_wf(id, after.value(id));
        }
        Ok(())
    }

    /// Makes a value a proxy for `target`, which must be stored under a less
    /// specific context, or with `None` makes it stand for itself again.
    pub fn set_proxy_for_attribute_value_id(
        ctx: &mut Graph,
        id: AttributeValueId,
        target: Option<AttributeValueId>,
    ) -> (set: Result<(), AttributeValueError>)
        requires
            old(ctx).wf(),
        ensures
            final(ctx).wf(),
            old(ctx).scaffolded() ==> final(ctx).scaffolded(),
            match set {
                Ok(()) => {
                    &&& old(ctx)@.has_value(id)
                    &&& (target matches Some(target) ==> old(ctx)@.has_value(target) && old(
                        ctx,
                    )@.value(target).context.spec_is_less_specific_than(
                        &old(ctx)@.value(id).context,
                    ))
                    &&& final(ctx)@ == old(ctx)@.with_proxy(id, target)
                },
                Err(error) => {
                    &&& final(ctx)@ == old(ctx)@
                    &&& error == (if !old(ctx)@.has_value(id) {
                        AttributeValueError::NotFound(id)
                    } else if !old(ctx)@.has_value(target.unwrap()) {
                        AttributeValueError::NotFound(target.unwrap())
                    } else {
                        AttributeValueError::InvalidProxy(id, target.unwrap())
                    })
                    &&& (old(ctx)@.has_value(id) ==> target is Some && (old(ctx)@.has_value(
                        target.unwrap(),
                    ) ==> !old(ctx)@.value(target.unwrap()).context.spec_is_less_specific_than(
                        &old(ctx)@.value(id).context,
                    )))
                },
            },
    {
        let position = match Graph::position(id.0, ctx.value_count()) {
            Some(i) => i,
            None => {
                return Err(AttributeValueError::NotFound(id));
            },
        };
        if let Some(target_id) = target {
            let target_position = match Graph::position(target_id.0, ctx.value_count()) {
                Some(i) => i,
                None => {
                    return Err(AttributeValueError::NotFound(target_id));
                },
            };
            let target_context = ctx.value_at(target_position).context;
            if !target_context.is_less_specific_than(&ctx.value_at(position).context) {
                return Err(AttributeValueError::InvalidProxy(id, target_id));
            }
        }
        ctx.values[position].proxy_for_attribute_value_id = target;
        proof {
            let before = old(ctx)@;
            let after = before.with_proxy(id, target);
            assert(ctx@.values =~= after.values);
            assert(before.value_wf(position as int));
            before.lemma_with_value_at_wf(id, after.value(id));
        }
        Ok(())
    }

    /// Puts a value under a prototype, which must have the context of the value.
    pub fn set_attribute_prototype(
        ctx: &mut Graph,
        id: AttributeValueId,
        attribute_prototype_id: AttributePrototypeId,
    ) -> (set: Result<(), AttributeValueError>)
        requires
            old(ctx).wf(),
        ensures
            final(ctx).wf(),
            old(ctx).scaffolded() ==> final(ctx).scaffolded(),
            match set {
                Ok(()) => {
                    &&& old(ctx)@.has_value(id)
                    &&& attribute_prototype_id.0 < old(ctx)@.prototypes.len()
                    &&& old(ctx)@.prototypes[attribute_prototype_id.0 as int].context == old(
                        ctx,
                    )@.value(id).context
                    &&& final(ctx)@ == old(ctx)@.with_value_at(
                        id,
                        AttributeValueView {
                            attribute_prototype_id: Some(attribute_prototype_id),
                            ..old(ctx)@.value(id)
                        },
                    )
                },
                Err(error) => {
                    &&& final(ctx)@ == old(ctx)@
                    &&& error == (if !old(ctx)@.has_value(id) {
                        AttributeValueError::NotFound(id)
                    } else if attribute_prototype_id.0 >= old(ctx)@.prototypes.len() {
                        AttributeValueError::AttributePrototypeNotFound(attribute_prototype_id)
                    } else {
                        AttributeValueError::PrototypeContextMismatch(id, attribute_prototype_id)
                    })
                    &&& (old(ctx)@.has_value(id) && attribute_prototype_id.0 < old(
                        ctx,
                    )@.prototypes.len() ==> old(
                        ctx,
                    )@.prototypes[attribute_prototype_id.0 as int].context != old(ctx)@.value(
                        id,
                    ).context)
                },
            },
    {
        let position = match Graph::position(id.0, ctx.value_count()) {
            Some(i) => i,
            None => {
                return Err(AttributeValueError::NotFound(id));
            },
        };
        let prototype_position = match Graph::position(
            attribute_prototype_id.0,
            ctx.prototype_count(),
        ) {
            Some(i) => i,
            None => {
                return Err(AttributeValueError::AttributePrototypeNotFound(attribute_prototype_id));
            },
        };
        if ctx.prototype_at(prototype_position).context != ctx.value_at(position).context {
            return Err(AttributeValueError::PrototypeContextMismatch(id, attribute_prototype_id));
        }
        ctx.values[position].attribute_prototype_id = Some(attribute_prototype_id);
        proof {
            let before = old(ctx)@;
            let value = AttributeValueView {
                attribute_prototype_id: Some(attribute_prototype_id),
                ..before.value(id)
            };
            assert(ctx@.values =~= before.values.update(position as int, value));
            assert(before.value_wf(position as int));
            before.lemma_with_value_at_wf(id, value);
        }
        Ok(())
    }
}

} // verus!
