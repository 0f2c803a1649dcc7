//! Identifiers of the entities of the graph.
//!
//! Each kind of entity has an identifier type of its own, so that an identifier
//! of one kind cannot stand where another kind is expected. Where an identifier
//! may be absent, the library writes `Option`, never a reserved number.

use vstd::prelude::*;

verus! {

/// Identifies a prop: a typed node in the schema of a resource.
#[derive(Debug, Clone, Copy, PartialEq, Eq, Structural)]
pub struct PropId(pub u64);

/// Identifies an internal provider: a consumer-facing endpoint.
#[derive(Debug, Clone, Copy, PartialEq, Eq, Structural)]
pub struct InternalProviderId(pub u64);

/// Identifies an external provider: a producer-facing endpoint.
#[derive(Debug, Clone, Copy, PartialEq, Eq, Structural)]
pub struct ExternalProviderId(pub u64);

/// Identifies a schema.
#[derive(Debug, Clone, Copy, PartialEq, Eq, Structural)]
pub struct SchemaId(pub u64);

/// Identifies a variant of a schema.
#[derive(Debug, Clone, Copy, PartialEq, Eq, Structural)]
pub struct SchemaVariantId(pub u64);

/// Identifies a component: an instantiated resource.
#[derive(Debug, Clone, Copy, PartialEq, Eq, Structural)]
pub struct ComponentId(pub u64);

/// Identifies a node: the place of a component on the diagram.
#[derive(Debug, Clone, Copy, PartialEq, Eq, Structural)]
pub struct NodeId(pub u64);

/// Identifies an attribute value.
#[derive(Debug, Clone, Copy, PartialEq, Eq, Structural)]
pub struct AttributeValueId(pub u64);

/// Identifies an attribute prototype.
#[derive(Debug, Clone, Copy, PartialEq, Eq, Structural)]
pub struct AttributePrototypeId(pub u64);

/// Identifies a function known to the function evaluator.
#[derive(Debug, Clone, Copy, PartialEq, Eq, Structural)]
pub struct FuncId(pub u64);

/// Identifies a binding of a function to its static arguments.
#[derive(Debug, Clone, Copy, PartialEq, Eq, Structural)]
pub struct FuncBindingId(pub u64);

/// Identifies a parameter of a function.
#[derive(Debug, Clone, Copy, PartialEq, Eq, Structural)]
pub struct FuncArgumentId(pub u64);

/// Identifies the materialised output of one evaluation of a function.
#[derive(Debug, Clone, Copy, PartialEq, Eq, Structural)]
pub struct FuncBindingReturnValueId(pub u64);

/// Identifies a socket.
#[derive(Debug, Clone, Copy, PartialEq, Eq, Structural)]
pub struct SocketId(pub u64);

/// Identifies an edge of the diagram.
#[derive(Debug, Clone, Copy, PartialEq, Eq, Structural)]
pub struct EdgeId(pub u64);

/// Identifies the record of an installed package.
#[derive(Debug, Clone, Copy, PartialEq, Eq, Structural)]
pub struct InstalledPkgId(pub u64);

} // verus!
