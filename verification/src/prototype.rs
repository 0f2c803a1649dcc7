//! Attribute prototypes: the rules that compute attribute values.
//!
//! A prototype binds a function to a context. Its arguments say which provider
//! supplies each parameter of the function when the function is evaluated.

use vstd::prelude::*;
use vstd::pervasive::unreached;
use crate::context::{AttributeContext, AttributeContextBuilderError};
use crate::graph::{Graph, GraphView};
use crate::ids::{
    AttributePrototypeId, AttributeValueId, ComponentId, FuncArgumentId, FuncBindingId,
    FuncBindingReturnValueId, FuncId,
};
use crate::text::text_of;
use crate::provider::ProviderId;
use crate::value::{AttributeValue, AttributeValueError, AttributeValueView};

verus! {

/// One parameter of a prototype's function, bound to the provider that supplies it.
#[derive(Debug, Clone, Copy, PartialEq, Eq, Structural)]
pub struct AttributePrototypeArgument {
    pub func_argument_id: FuncArgumentId,
    pub provider_id: ProviderId,
    /// The component that receives the value, where the value crosses from one
    /// component to another.
    pub head_component_id: Option<ComponentId>,
    /// The component that the value comes from, where it crosses.
    pub tail_component_id: Option<ComponentId>,
}

impl AttributePrototypeArgument {
    /// The argument stays within one component.
    pub open spec fn spec_is_intra_component(&self) -> bool {
        self.head_component_id is None && self.tail_component_id is None
    }

    /// Whether `self` gives way when `new` is bound. Within a component a
    /// parameter has one source, so an argument for the same parameter gives
    /// way. Between components a parameter may have many sources, and only an
    /// argument equal to `new` gives way.
    pub open spec fn spec_gives_way_to(&self, new: &AttributePrototypeArgument) -> bool {
        if new.spec_is_intra_component() {
            self.spec_is_intra_component() && self.func_argument_id == new.func_argument_id
        } else {
            *self == *new
        }
    }

    #[verifier::when_used_as_spec(spec_is_intra_component)]
    pub fn is_intra_component(&self) -> (intra: bool)
        ensures
            intra == self.spec_is_intra_component(),
    {
        self.head_component_id.is_none() && self.tail_component_id.is_none()
    }

    #[verifier::when_used_as_spec(spec_gives_way_to)]
    pub fn gives_way_to(&self, new: &AttributePrototypeArgument) -> (gives_way: bool)
        ensures
            gives_way == self.spec_gives_way_to(new),
    {
        if new.is_intra_component() {
            self.is_intra_component() && self.func_argument_id == new.func_argument_id
        } else {
            *self == *new
        }
    }
}

/// The arguments that stay when `new` is bound, in their order.
pub open spec fn staying(
    arguments: Seq<AttributePrototypeArgument>,
    new: AttributePrototypeArgument,
) -> Seq<AttributePrototypeArgument>
    decreases arguments.len(),
{
    if arguments.len() == 0 {
        arguments
    } else {
        let rest = staying(arguments.drop_last(), new);
        if arguments.last().spec_gives_way_to(&new) {
            rest
        } else {
            rest.push(arguments.last())
        }
    }
}

/// The arguments after `new` is bound: those that stay, then `new`.
pub open spec fn bound(
    arguments: Seq<AttributePrototypeArgument>,
    new: AttributePrototypeArgument,
) -> Seq<AttributePrototypeArgument> {
    staying(arguments, new).push(new)
}

/// A computation rule: a function, its static arguments, the context it
/// computes for, and the providers that supply its parameters.
#[derive(Debug, PartialEq, Eq)]
pub struct AttributePrototype {
    pub id: AttributePrototypeId,
    pub func_id: FuncId,
    pub func_binding_id: FuncBindingId,
    pub context: AttributeContext,
    pub arguments: Vec<AttributePrototypeArgument>,
}

/// The mathematical value of a prototype.
pub struct AttributePrototypeView {
    pub id: AttributePrototypeId,
    pub func_id: FuncId,
    pub func_binding_id: FuncBindingId,
    pub context: AttributeContext,
    pub arguments: Seq<AttributePrototypeArgument>,
}

impl View for AttributePrototype {
    type V = AttributePrototypeView;

    open spec fn view(&self) -> AttributePrototypeView {
        AttributePrototypeView {
            id: self.id,
            func_id: self.func_id,
            func_binding_id: self.func_binding_id,
            context: self.context,
            arguments: self.arguments@,
        }
    }
}

/// Why a prototype operation failed.
#[derive(Debug, Clone, Copy, PartialEq, Eq, Structural)]
pub enum AttributePrototypeError {
    /// The value of the prototype could not be made.
    AttributeValue(AttributeValueError),
    /// No prototype has this identifier.
    NotFound(AttributePrototypeId),
}

impl GraphView {
    /// Whether a prototype with this identifier is stored.
    pub open spec fn has_prototype(self, id: AttributePrototypeId) -> bool {
        id.0 < self.prototypes.len()
    }

    /// The stored prototype with this identifier.
    pub open spec fn prototype(self, id: AttributePrototypeId) -> AttributePrototypeView {
        self.prototypes[id.0 as int]
    }

    /// The identifier that the next prototype gets.
    pub open spec fn next_prototype_id(self) -> AttributePrototypeId {
        AttributePrototypeId(self.prototypes.len() as u64)
    }

    /// The graph with one more prototype.
    pub open spec fn with_prototype(self, prototype: AttributePrototypeView) -> GraphView {
        GraphView { prototypes: self.prototypes.push(prototype), ..self }
    }

    /// The graph with the prototype at `id` replaced.
    pub open spec fn with_prototype_at(
        self,
        id: AttributePrototypeId,
        prototype: AttributePrototypeView,
    ) -> GraphView {
        GraphView { prototypes: self.prototypes.update(id.0 as int, prototype), ..self }
    }

    /// The graph after a prototype got another function.
    pub open spec fn with_function(self, id: AttributePrototypeId, func_id: FuncId) -> GraphView {
        self.with_prototype_at(id, AttributePrototypeView { func_id, ..self.prototype(id) })
    }

    /// The graph after an argument was bound to a prototype. Binding to a
    /// prototype that is not stored changes nothing.
    pub open spec fn with_argument(
        self,
        id: AttributePrototypeId,
        argument: AttributePrototypeArgument,
    ) -> GraphView {
        if self.has_prototype(id) {
            self.with_prototype_at(
                id,
                AttributePrototypeView {
                    arguments: bound(self.prototype(id).arguments, argument),
                    ..self.prototype(id)
                },
            )
        } else {
            self
        }
    }

    /// The graph with a new prototype and the value that it computes.
    pub open spec fn with_prototype_and_value(
        self,
        func_id: FuncId,
        func_binding_id: FuncBindingId,
        func_binding_return_value_id: Option<FuncBindingReturnValueId>,
        context: AttributeContext,
        key: Option<Seq<char>>,
    ) -> GraphView {
        self.with_prototype(
            AttributePrototypeView {
                id: self.next_prototype_id(),
                func_id,
                func_binding_id,
                context,
                arguments: Seq::empty(),
            },
        ).with_value(
            AttributeValueView::fresh(
                self.next_value_id(),
                func_binding_return_value_id,
                context,
                key,
                None,
                Some(self.next_prototype_id()),
            ),
        )
    }

    /// The graph with a new prototype for a stored value: the prototype has the
    /// context of the value, and the value is computed by it from then on.
    pub open spec fn with_prototype_for_value(
        self,
        func_id: FuncId,
        func_binding_id: FuncBindingId,
        attribute_value_id: AttributeValueId,
    ) -> GraphView {
        self.with_prototype(
            AttributePrototypeView {
                id: self.next_prototype_id(),
                func_id,
                func_binding_id,
                context: self.value(attribute_value_id).context,
                arguments: Seq::empty(),
            },
        ).with_value_at(
            attribute_value_id,
            AttributeValueView {
                attribute_prototype_id: Some(self.next_prototype_id()),
                ..self.value(attribute_value_id)
            },
        )
    }

    /// A graph stays well formed when it gets a prototype that has the next
    /// identifier, and scaffolded when the context of the prototype holds a value.
    pub proof fn lemma_with_prototype_wf(self, prototype: AttributePrototypeView)
        requires
            self.wf(),
            prototype.id.0 == self.prototypes.len(),
            one_source_each(prototype.arguments),
        ensures
            self.with_prototype(prototype).wf(),
            self.scaffolded() && self.has_value_in_context(prototype.context) ==> self.with_prototype(
                prototype,
            ).scaffolded(),
    {
        let after = self.with_prototype(prototype);
        assert forall|i: int| 0 <= i < after.prototypes.len() implies #[trigger]
            after.prototype_wf(i) by {
            if i < self.prototypes.len() {
                assert(self.prototype_wf(i));
            }
        }
        self.lemma_same_props_wf(after);
        self.lemma_same_values_wf(after);
        self.lemma_same_diagram_wf(after);
        if self.has_value_in_context(prototype.context) {
            assert(after.prototype_has_value(self.prototypes.len() as int));
            self.lemma_keeps_scaffolded(after);
        }
    }

    /// A graph stays well formed when a stored prototype is replaced by one
    /// with the same identifier and context.
    pub proof fn lemma_with_prototype_at_wf(
        self,
        id: AttributePrototypeId,
        prototype: AttributePrototypeView,
    )
        requires
            self.wf(),
            self.has_prototype(id),
            prototype.id == id,
            prototype.context == self.prototype(id).context,
            one_source_each(prototype.arguments),
        ensures
            self.with_prototype_at(id, prototype).wf(),
            self.scaffolded() ==> self.with_prototype_at(id, prototype).scaffolded(),
    {
        let after = self.with_prototype_at(id, prototype);
        assert forall|i: int| 0 <= i < after.prototypes.len() implies #[trigger]
            after.prototype_wf(i) by {
            assert(self.prototype_wf(i));
        }
        self.lemma_same_props_wf(after);
        self.lemma_same_values_wf(after);
        self.lemma_same_diagram_wf(after);
        self.lemma_keeps_scaffolded(after);
    }

    /// Binding an argument keeps a graph well formed.
    pub proof fn lemma_with_argument_wf(
        self,
        id: AttributePrototypeId,
        argument: AttributePrototypeArgument,
    )
        requires
            self.wf(),
        ensures
            self.with_argument(id, argument).wf(),
            self.scaffolded() ==> self.with_argument(id, argument).scaffolded(),
    {
        if self.has_prototype(id) {
            assert(self.prototype_wf(id.0 as int));
            lemma_bound_keeps_one_source_each(self.prototype(id).arguments, argument);
            self.lemma_with_prototype_at_wf(
                id,
                AttributePrototypeView {
                    arguments: bound(self.prototype(id).arguments, argument),
                    ..self.prototype(id)
                },
            );
        }
    }
}

/// Within a component each parameter has one source, and between components
/// no source is bound twice.
pub open spec fn one_source_each(arguments: Seq<AttributePrototypeArgument>) -> bool {
    forall|i: int, j: int|
        0 <= i < j < arguments.len() ==> !#[trigger] gives_way_at(arguments, i, j)
}

/// Whether the argument at position `i` would give way to the one at position `j`.
pub open spec fn gives_way_at(arguments: Seq<AttributePrototypeArgument>, i: int, j: int) -> bool {
    arguments[i].spec_gives_way_to(&arguments[j])
}

/// Every argument that stays was bound before, in the same order as before,
/// and does not give way to the new one.
pub proof fn lemma_staying_members(
    arguments: Seq<AttributePrototypeArgument>,
    new: AttributePrototypeArgument,
)
    ensures
        staying(arguments, new).len() <= arguments.len(),
        forall|i: int|
            0 <= i < staying(arguments, new).len() ==> !(#[trigger] staying(
                arguments,
                new,
            )[i]).spec_gives_way_to(&new),
        forall|i: int, j: int|
            0 <= i < j < staying(arguments, new).len() ==> exists|k: int, l: int|
                0 <= k < l < arguments.len() && arguments[k] == #[trigger] staying(
                    arguments,
                    new,
                )[i] && arguments[l] == #[trigger] staying(arguments, new)[j],
        forall|i: int|
            0 <= i < staying(arguments, new).len() ==> exists|k: int|
                0 <= k < arguments.len() && arguments[k] == #[trigger] staying(arguments, new)[i],
    decreases arguments.len(),
{
    if arguments.len() > 0 {
        let front = arguments.drop_last();
        lemma_staying_members(front, new);
        let rest = staying(front, new);
        let kept = staying(arguments, new);
        assert forall|i: int| 0 <= i < kept.len() implies exists|k: int|
            0 <= k < arguments.len() && arguments[k] == #[trigger] kept[i] by {
            if i < rest.len() {
                let k = choose|k: int| 0 <= k < front.len() && front[k] == rest[i];
                assert(arguments[k] == kept[i]);
            } else {
                assert(arguments[arguments.len() - 1] == kept[i]);
            }
        }
        assert forall|i: int, j: int| 0 <= i < j < kept.len() implies exists|k: int, l: int|
            0 <= k < l < arguments.len() && arguments[k] == #[trigger] kept[i] && arguments[l]
                == #[trigger] kept[j] by {
            if j < rest.len() {
                let (k, l) = choose|k: int, l: int|
                    0 <= k < l < front.len() && front[k] == rest[i] && front[l] == rest[j];
                assert(arguments[k] == kept[i] && arguments[l] == kept[j]);
            } else {
                let k = choose|k: int| 0 <= k < front.len() && front[k] == rest[i];
                assert(arguments[k] == kept[i] && arguments[arguments.len() - 1] == kept[j]);
            }
        }
    }
}

/// Binding an argument keeps one source for each parameter within a
/// component, and no source twice between components.
pub proof fn lemma_bound_keeps_one_source_each(
    arguments: Seq<AttributePrototypeArgument>,
    new: AttributePrototypeArgument,
)
    requires
        one_source_each(arguments),
    ensures
        one_source_each(bound(arguments, new)),
        bound(arguments, new).last() == new,
{
    lemma_staying_members(arguments, new);
    let kept = staying(arguments, new);
    let all = bound(arguments, new);
    assert forall|i: int, j: int| 0 <= i < j < all.len() implies !#[trigger] gives_way_at(
        all,
        i,
        j,
    ) by {
        if j < kept.len() {
            let (k, l) = choose|k: int, l: int|
                0 <= k < l < arguments.len() && arguments[k] == kept[i] && arguments[l] == kept[j];
            assert(!gives_way_at(arguments, k, l));
        } else {
            assert(all[i] == kept[i]);
        }
    }
}

impl AttributePrototype {
    /// The stored prototype with this identifier, if there is one.
    pub fn get_by_id(ctx: &Graph, id: AttributePrototypeId) -> (found: Option<&AttributePrototype>)
        ensures
            match found {
                Some(prototype) => ctx@.has_prototype(id) && prototype@ == ctx@.prototype(id),
                None => !ctx@.has_prototype(id),
            },
    {
        match Graph::position(id.0, ctx.prototype_count()) {
            Some(i) => Some(ctx.prototype_at(i)),
            None => None,
        }
    }

    /// Stores a prototype without arguments, for a context that holds a value.
    pub(crate) fn store(
        ctx: &mut Graph,
        func_id: FuncId,
        func_binding_id: FuncBindingId,
        context: AttributeContext,
    ) -> (id: AttributePrototypeId)
        requires
            old(ctx).wf(),
            old(ctx)@.has_value_in_context(context),
        ensures
            final(ctx).wf(),
            old(ctx).scaffolded() ==> final(ctx).scaffolded(),
            id == old(ctx)@.next_prototype_id(),
            id.0 == old(ctx)@.prototypes.len(),
            final(ctx)@ == old(ctx)@.with_prototype(
                AttributePrototypeView {
                    id,
                    func_id,
                    func_binding_id,
                    context,
                    arguments: Seq::empty(),
                },
            ),
    {
        let id = AttributePrototypeId(ctx.prototype_count() as u64);
        ctx.prototypes.push(
            AttributePrototype { id, func_id, func_binding_id, context, arguments: Vec::new() },
        );
        proof {
            let before = old(ctx)@;
            let prototype = AttributePrototypeView {
                id,
                func_id,
                func_binding_id,
                context,
                arguments: Seq::empty(),
            };
            assert(ctx@.prototypes =~= before.prototypes.push(prototype));
            before.lemma_with_prototype_wf(prototype);
        }
        id
    }

    /// Attaches a function to a context: makes the prototype and, with it, the
    /// value that it computes. Fails, and makes neither, when a value without
    /// a parent already has this context and key.
    pub fn new(
        ctx: &mut Graph,
        func_id: FuncId,
        func_binding_id: FuncBindingId,
        func_binding_return_value_id: Option<FuncBindingReturnValueId>,
        context: AttributeContext,
        key: Option<String>,
    ) -> (made: Result<AttributePrototypeId, AttributePrototypeError>)
        requires
            old(ctx).wf(),
        ensures
            final(ctx).wf(),
            old(ctx).scaffolded() ==> final(ctx).scaffolded(),
            match made {
                Ok(id) => {
                    &&& !old(ctx)@.place_in_use(context, text_of(key), None)
                    &&& id == old(ctx)@.next_prototype_id()
                    &&& id.0 == old(ctx)@.prototypes.len()
                    &&& final(ctx)@ == old(ctx)@.with_prototype_and_value(
                        func_id,
                        func_binding_id,
                        func_binding_return_value_id,
                        context,
                        text_of(key),
                    )
                },
                Err(error) => {
                    &&& old(ctx)@.place_in_use(context, text_of(key), None)
                    &&& error == AttributePrototypeError::AttributeValue(
                        AttributeValueError::AttributeContextBuilder(
                            AttributeContextBuilderError::ContextInUse(context),
                        ),
                    )
                    &&& final(ctx)@ == old(ctx)@
                },
            },
    {
        if AttributeValue::place_in_use(ctx, &context, &key, None) {
            return Err(
                AttributePrototypeError::AttributeValue(
                    AttributeValueError::AttributeContextBuilder(
                        AttributeContextBuilderError::ContextInUse(context),
                    ),
                ),
            );
        }
        let value_id = AttributeValue::store(
            ctx,
            func_binding_return_value_id,
            context,
            key,
            None,
            None,
        );
        proof {
            assert(ctx@.values[value_id.0 as int].context == context);
        }
        let id = AttributePrototype::store(ctx, func_id, func_binding_id, context);
        match AttributeValue::set_attribute_prototype(ctx, value_id, id) {
            Ok(()) => {},
            Err(_) => unreached(),
        }
        proof {
            let after = old(ctx)@.with_prototype_and_value(
                func_id,
                func_binding_id,
                func_binding_return_value_id,
                context,
                text_of(key),
            );
            assert(ctx@.values =~= after.values);
            assert(ctx@.prototypes =~= after.prototypes);
        }
        Ok(id)
    }

    /// Attaches a function to a stored value: makes a prototype with the
    /// context of the value, and puts the value under it.
    pub fn new_with_existing_value(
        ctx: &mut Graph,
        func_id: FuncId,
        func_binding_id: FuncBindingId,
        attribute_value_id: AttributeValueId,
    ) -> (made: Result<AttributePrototypeId, AttributePrototypeError>)
        requires
            old(ctx).wf(),
        ensures
            final(ctx).wf(),
            old(ctx).scaffolded() ==> final(ctx).scaffolded(),
            match made {
                Ok(id) => {
                    &&& old(ctx)@.has_value(attribute_value_id)
                    &&& id == old(ctx)@.next_prototype_id()
                    &&& id.0 == old(ctx)@.prototypes.len()
                    &&& final(ctx)@ == old(ctx)@.with_prototype_for_value(
                        func_id,
                        func_binding_id,
                        attribute_value_id,
                    )
                },
                Err(error) => {
                    &&& !old(ctx)@.has_value(attribute_value_id)
                    &&& error == AttributePrototypeError::AttributeValue(
                        AttributeValueError::NotFound(attribute_value_id),
                    )
                    &&& final(ctx)@ == old(ctx)@
                },
            },
    {
        let context = match Graph::position(attribute_value_id.0, ctx.value_count()) {
            Some(i) => ctx.value_at(i).context,
            None => {
                return Err(
                    AttributePrototypeError::AttributeValue(
                        AttributeValueError::NotFound(attribute_value_id),
                    ),
                );
            },
        };
        proof {
            assert(ctx@.values[attribute_value_id.0 as int].context == context);
        }
        let id = AttributePrototype::store(ctx, func_id, func_binding_id, context);
        match AttributeValue::set_attribute_prototype(ctx, attribute_value_id, id) {
            Ok(()) => {},
            Err(_) => unreached(),
        }
        Ok(id)
    }

    /// Changes the function that computes the values of a prototype. The
    /// context and the arguments stay.
    pub fn set_func_id(ctx: &mut Graph, id: AttributePrototypeId, func_id: FuncId) -> (set: Result<
        (),
        AttributePrototypeError,
    >)
        requires
            old(ctx).wf(),
        ensures
            final(ctx).wf(),
            old(ctx).scaffolded() ==> final(ctx).scaffolded(),
            match set {
                Ok(()) => old(ctx)@.has_prototype(id) && final(ctx)@ == old(ctx)@.with_function(
                    id,
                    func_id,
                ),
                Err(error) => !old(ctx)@.has_prototype(id) && error
                    == AttributePrototypeError::NotFound(id) && final(ctx)@ == old(ctx)@,
            },
    {
        let position = match Graph::position(id.0, ctx.prototype_count()) {
            Some(i) => i,
            None => {
                return Err(AttributePrototypeError::NotFound(id));
            },
        };
        ctx.prototypes[position].func_id = func_id;
        proof {
            let before = old(ctx)@;
            let after = before.with_function(id, func_id);
            assert(ctx@.prototypes =~= after.prototypes);
            assert(before.prototype_wf(position as int));
            before.lemma_with_prototype_at_wf(id, after.prototype(id));
        }
        Ok(())
    }
}

impl AttributePrototypeArgument {
    /// Takes out of `arguments` those that give way to `new`, and puts `new` at the end.
    fn put(arguments: &mut Vec<AttributePrototypeArgument>, new: AttributePrototypeArgument)
        ensures
            final(arguments)@ == bound(old(arguments)@, new),
    {
        let ghost before = arguments@;
        let ghost seen: int = 0;
        let mut next: usize = 0;
        assert(arguments@ == before.skip(0));
        while next < arguments.len()
            invariant
                0 <= seen <= before.len(),
                next == staying(before.take(seen), new).len(),
                arguments@.len() == next + before.len() - seen,
                arguments@ == staying(before.take(seen), new) + before.skip(seen),
            decreases before.len() - seen,
        {
            assert(before.take(seen + 1).drop_last() == before.take(seen));
            if arguments[next].gives_way_to(&new) {
                arguments.remove(next);
            } else {
                next = next + 1;
            }
            proof {
                seen = seen + 1;
            }
        }
        arguments.push(new);
    }

    /// Binds an argument to a stored prototype.
    pub(crate) fn attach(
        ctx: &mut Graph,
        attribute_prototype_id: AttributePrototypeId,
        argument: AttributePrototypeArgument,
    )
        requires
            old(ctx).wf(),
        ensures
            final(ctx).wf(),
            old(ctx).scaffolded() ==> final(ctx).scaffolded(),
            final(ctx)@ == old(ctx)@.with_argument(attribute_prototype_id, argument),
    {
        proof {
            old(ctx)@.lemma_with_argument_wf(attribute_prototype_id, argument);
        }
        if let Some(position) = Graph::position(attribute_prototype_id.0, ctx.prototype_count()) {
            AttributePrototypeArgument::put(&mut ctx.prototypes[position].arguments, argument);
            proof {
                let before = old(ctx)@;
                let after = before.with_argument(attribute_prototype_id, argument);
                assert(ctx@.prototypes =~= after.prototypes);
            }
        }
    }

    /// Binds a parameter of a prototype's function to a provider of the same
    /// component. The parameter has one such source: an earlier binding of the
    /// parameter within the component gives way.
    pub fn bind(
        ctx: &mut Graph,
        attribute_prototype_id: AttributePrototypeId,
        func_argument_id: FuncArgumentId,
        source_provider_id: ProviderId,
    ) -> (made: Result<AttributePrototypeArgument, AttributePrototypeError>)
        requires
            old(ctx).wf(),
        ensures
            final(ctx).wf(),
            old(ctx).scaffolded() ==> final(ctx).scaffolded(),
            match made {
                Ok(argument) => {
                    &&& old(ctx)@.has_prototype(attribute_prototype_id)
                    &&& argument == (AttributePrototypeArgument {
                        func_argument_id,
                        provider_id: source_provider_id,
                        head_component_id: None,
                        tail_component_id: None,
                    })
                    &&& final(ctx)@ == old(ctx)@.with_argument(attribute_prototype_id, argument)
                },
                Err(error) => {
                    &&& !old(ctx)@.has_prototype(attribute_prototype_id)
                    &&& error == AttributePrototypeError::NotFound(attribute_prototype_id)
                    &&& final(ctx)@ == old(ctx)@
                },
            },
    {
        if Graph::position(attribute_prototype_id.0, ctx.prototype_count()).is_none() {
            return Err(AttributePrototypeError::NotFound(attribute_prototype_id));
        }
        let argument = AttributePrototypeArgument {
            func_argument_id,
            provider_id: source_provider_id,
            head_component_id: None,
            tail_component_id: None,
        };
        AttributePrototypeArgument::attach(ctx, attribute_prototype_id, argument);
        Ok(argument)
    }

    /// Binds a parameter of a prototype's function to a provider whose value
    /// crosses from the tail component to the head component. A parameter may
    /// have many such sources; binding the same source again changes nothing
    /// but its place, which becomes the last.
    pub fn bind_between_components(
        ctx: &mut Graph,
        attribute_prototype_id: AttributePrototypeId,
        func_argument_id: FuncArgumentId,
        source_provider_id: ProviderId,
        head_component_id: ComponentId,
        tail_component_id: ComponentId,
    ) -> (made: Result<AttributePrototypeArgument, AttributePrototypeError>)
        requires
            old(ctx).wf(),
        ensures
            final(ctx).wf(),
            old(ctx).scaffolded() ==> final(ctx).scaffolded(),
            match made {
                Ok(argument) => {
                    &&& old(ctx)@.has_prototype(attribute_prototype_id)
                    &&& argument == (AttributePrototypeArgument {
                        func_argument_id,
                        provider_id: source_provider_id,
                        head_component_id: Some(head_component_id),
                        tail_component_id: Some(tail_component_id),
                    })
                    &&& final(ctx)@ == old(ctx)@.with_argument(attribute_prototype_id, argument)
                },
                Err(error) => {
                    &&& !old(ctx)@.has_prototype(attribute_prototype_id)
                    &&& error == AttributePrototypeError::NotFound(attribute_prototype_id)
                    &&& final(ctx)@ == old(ctx)@
                },
            },
    {
        if Graph::position(attribute_prototype_id.0, ctx.prototype_count()).is_none() {
            return Err(AttributePrototypeError::NotFound(attribute_prototype_id));
        }
        let argument = AttributePrototypeArgument {
            func_argument_id,
            provider_id: source_provider_id,
            head_component_id: Some(head_component_id),
            tail_component_id: Some(tail_component_id),
        };
        AttributePrototypeArgument::attach(ctx, attribute_prototype_id, argument);
        Ok(argument)
    }
}

impl Clone for AttributePrototype {
    /// A prototype with the same contents.
    fn clone(&self) -> (copy: AttributePrototype)
        ensures
            copy@ == self@,
    {
        let mut arguments: Vec<AttributePrototypeArgument> = Vec::new();
        let mut i: usize = 0;
        while i < self.arguments.len()
            invariant
                i <= self.arguments.len(),
                arguments@ == self.arguments@.take(i as int),
            decreases self.arguments.len() - i,
        {
            arguments.push(self.arguments[i]);
            assert(self.arguments@.take(i + 1) == self.arguments@.take(i as int).push(
                self.arguments@[i as int],
            ));
            i = i + 1;
        }
        assert(self.arguments@.take(i as int) == self.arguments@);
        AttributePrototype {
            id: self.id,
            func_id: self.func_id,
            func_binding_id: self.func_binding_id,
            context: self.context,
            arguments,
        }
    }
}

} // verus!
