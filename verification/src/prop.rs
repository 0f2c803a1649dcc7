//! Props: the typed nodes of the schema of a resource.

use vstd::prelude::*;
use crate::graph::{Graph, GraphView};
use crate::ids::PropId;

verus! {

/// The type of a prop.
#[derive(Debug, Clone, Copy, PartialEq, Eq, Structural)]
pub enum PropKind {
    String,
    Integer,
    Boolean,
    Object,
    Array,
    /// A map from string keys to entries of one type.
    KeyedMap,
}

impl PropKind {
    /// Only an object, an array or a map has children.
    pub open spec fn spec_allows_children(&self) -> bool {
        *self == PropKind::Object || *self == PropKind::Array || *self == PropKind::KeyedMap
    }

    /// An array or a map has one child, which gives the type of its entries.
    pub open spec fn spec_has_single_child(&self) -> bool {
        *self == PropKind::Array || *self == PropKind::KeyedMap
    }

    #[verifier::when_used_as_spec(spec_allows_children)]
    pub fn allows_children(&self) -> (allowed: bool)
        ensures
            allowed == self.spec_allows_children(),
    {
        match self {
            PropKind::Object | PropKind::Array | PropKind::KeyedMap => true,
            _ => false,
        }
    }

    #[verifier::when_used_as_spec(spec_has_single_child)]
    pub fn has_single_child(&self) -> (single: bool)
        ensures
            single == self.spec_has_single_child(),
    {
        match self {
            PropKind::Array | PropKind::KeyedMap => true,
            _ => false,
        }
    }
}

/// A node of the prop tree of a schema variant.
#[derive(Debug, PartialEq, Eq)]
pub struct Prop {
    pub id: PropId,
    pub name: String,
    pub kind: PropKind,
    pub parent_prop_id: Option<PropId>,
}

/// The mathematical value of a prop.
pub struct PropView {
    pub id: PropId,
    pub name: Seq<char>,
    pub kind: PropKind,
    pub parent_prop_id: Option<PropId>,
}

impl View for Prop {
    type V = PropView;

    open spec fn view(&self) -> PropView {
        PropView {
            id: self.id,
            name: self.name@,
            kind: self.kind,
            parent_prop_id: self.parent_prop_id,
        }
    }
}

/// Why a prop could not be made.
#[derive(Debug, Clone, Copy, PartialEq, Eq, Structural)]
pub enum PropError {
    /// No prop has this identifier.
    NotFound(PropId),
    /// The parent is of a kind that has no children.
    ParentNotAllowed(PropId, PropKind),
    /// The parent is an array or a map and already has its one child.
    SingleChildOnly(PropId),
    /// The parent is an object and already has a child of this name.
    NameInUse(PropId),
}

impl GraphView {
    /// Whether a prop with this identifier is stored.
    pub open spec fn has_prop(self, id: PropId) -> bool {
        id.0 < self.props.len()
    }

    /// The stored prop with this identifier.
    pub open spec fn prop(self, id: PropId) -> PropView {
        self.props[id.0 as int]
    }

    /// Whether the prop at position `i` is a child of `parent`.
    pub open spec fn is_child_prop(self, parent: PropId, i: int) -> bool {
        0 <= i < self.props.len() && self.props[i].parent_prop_id == Some(parent)
    }

    /// Whether `parent` has a child.
    pub open spec fn has_child_prop(self, parent: PropId) -> bool {
        exists|i: int| #[trigger] self.is_child_prop(parent, i)
    }

    /// Whether `parent` has a child of this name.
    pub open spec fn has_child_prop_named(self, parent: PropId, name: Seq<char>) -> bool {
        exists|i: int| #[trigger] self.is_child_prop(parent, i) && self.props[i].name == name
    }

    /// Whether a prop of this name may be made under `parent`.
    pub open spec fn prop_allowed(self, name: Seq<char>, parent: Option<PropId>) -> Result<
        (),
        PropError,
    > {
        match parent {
            None => Ok(()),
            Some(parent) => if !self.has_prop(parent) {
                Err(PropError::NotFound(parent))
            } else if !self.prop(parent).kind.spec_allows_children() {
                Err(PropError::ParentNotAllowed(parent, self.prop(parent).kind))
            } else if self.prop(parent).kind.spec_has_single_child() && self.has_child_prop(
                parent,
            ) {
                Err(PropError::SingleChildOnly(parent))
            } else if self.has_child_prop_named(parent, name) {
                Err(PropError::NameInUse(parent))
            } else {
                Ok(())
            },
        }
    }

    /// The graph with one more prop.
    pub open spec fn with_prop(self, prop: PropView) -> GraphView {
        GraphView { props: self.props.push(prop), ..self }
    }

    /// A graph stays well formed when it gets a prop that has the next
    /// identifier and a parent that may have children.
    pub proof fn lemma_with_prop_wf(self, prop: PropView)
        requires
            self.wf(),
            prop.id.0 == self.props.len(),
            prop.parent_prop_id matches Some(parent) ==> self.has_prop(parent) && self.prop(
                parent,
            ).kind.spec_allows_children(),
        ensures
            self.with_prop(prop).wf(),
            self.scaffolded() ==> self.with_prop(prop).scaffolded(),
    {
        let after = self.with_prop(prop);
        assert forall|i: int| 0 <= i < after.props.len() implies #[trigger] after.prop_wf(i) by {
            if i < self.props.len() {
                assert(self.prop_wf(i));
            }
        }
        self.lemma_same_values_wf(after);
        self.lemma_same_prototypes_wf(after);
        self.lemma_same_diagram_wf(after);
    }
}

impl Prop {
    /// The stored prop with this identifier, if there is one.
    pub fn get_by_id(ctx: &Graph, id: PropId) -> (found: Option<&Prop>)
        ensures
            match found {
                Some(prop) => ctx@.has_prop(id) && prop@ == ctx@.prop(id),
                None => !ctx@.has_prop(id),
            },
    {
        match Graph::position(id.0, ctx.prop_count()) {
            Some(i) => Some(ctx.prop_at(i)),
            None => None,
        }
    }

    /// The first child of `parent` of this name, if it has one.
    pub fn find_child_prop_by_name(ctx: &Graph, parent: PropId, name: &String) -> (found: Option<
        PropId,
    >)
        requires
            ctx.wf(),
        ensures
            match found {
                Some(id) => {
                    &&& ctx@.is_child_prop(parent, id.0 as int)
                    &&& ctx@.prop(id).name == name@
                    &&& forall|i: int|
                        0 <= i < id.0 && #[trigger] ctx@.is_child_prop(parent, i)
                            ==> ctx@.props[i].name != name@
                },
                None => !ctx@.has_child_prop_named(parent, name@),
            },
    {
        let mut i: usize = 0;
        while i < ctx.prop_count()
            invariant
                ctx.wf(),
                i <= ctx@.props.len(),
                forall|k: int|
                    0 <= k < i && #[trigger] ctx@.is_child_prop(parent, k) ==> ctx@.props[k].name
                        != name@,
            decreases ctx@.props.len() - i,
        {
            let prop = ctx.prop_at(i);
            if prop.parent_prop_id == Some(parent) && prop.name == *name {
                proof {
                    assert(ctx@.prop_wf(i as int));
                }
                return Some(prop.id);
            }
            i = i + 1;
        }
        None
    }

    /// Whether `parent` has a child.
    fn has_child(ctx: &Graph, parent: PropId) -> (has: bool)
        ensures
            has == ctx@.has_child_prop(parent),
    {
        let mut i: usize = 0;
        while i < ctx.prop_count()
            invariant
                i <= ctx@.props.len(),
                forall|k: int| 0 <= k < i ==> !#[trigger] ctx@.is_child_prop(parent, k),
            decreases ctx@.props.len() - i,
        {
            if ctx.prop_at(i).parent_prop_id == Some(parent) {
                assert(ctx@.is_child_prop(parent, i as int));
                return true;
            }
            i = i + 1;
        }
        false
    }

    /// Makes a prop, at the root of a tree or under a parent. The parent must
    /// be an object, an array or a map; an array or a map takes one child, and
    /// an object takes one child of each name.
    pub fn new(ctx: &mut Graph, name: String, kind: PropKind, parent_prop_id: Option<PropId>) -> (made:
        Result<PropId, PropError>)
        requires
            old(ctx).wf(),
        ensures
            final(ctx).wf(),
            old(ctx).scaffolded() ==> final(ctx).scaffolded(),
            match made {
                Ok(id) => {
                    &&& old(ctx)@.prop_allowed(name@, parent_prop_id) is Ok
                    &&& id.0 == old(ctx)@.props.len()
                    &&& final(ctx)@ == old(ctx)@.with_prop(
                        PropView { id, name: name@, kind, parent_prop_id },
                    )
                },
                Err(error) => {
                    &&& old(ctx)@.prop_allowed(name@, parent_prop_id) == Err::<(), PropError>(error)
                    &&& final(ctx)@ == old(ctx)@
                },
            },
    {
        if let Some(parent) = parent_prop_id {
            let parent_kind = match Graph::position(parent.0, ctx.prop_count()) {
                Some(i) => ctx.prop_at(i).kind,
                None => {
                    return Err(PropError::NotFound(parent));
                },
            };
            if !parent_kind.allows_children() {
                return Err(PropError::ParentNotAllowed(parent, parent_kind));
            }
            if parent_kind.has_single_child() && Prop::has_child(ctx, parent) {
                return Err(PropError::SingleChildOnly(parent));
            }
            if Prop::find_child_prop_by_name(ctx, parent, &name).is_some() {
                return Err(PropError::NameInUse(parent));
            }
        }
        let id = PropId(ctx.prop_count() as u64);
        ctx.props.push(Prop { id, name, kind, parent_prop_id });
        proof {
            let before = old(ctx)@;
            let prop = PropView { id, name: name@, kind, parent_prop_id };
            assert(ctx@.props =~= before.props.push(prop));
            before.lemma_with_prop_wf(prop);
        }
        Ok(id)
    }
}

impl Clone for Prop {
    /// A prop with the same contents.
    fn clone(&self) -> (copy: Prop)
        ensures
            copy@ == self@,
    {
        Prop {
            id: self.id,
            name: self.name.clone(),
            kind: self.kind,
            parent_prop_id: self.parent_prop_id,
        }
    }
}

} // verus!
