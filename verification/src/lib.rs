//! An in-memory engine for the attributes of infrastructure components: it
//! decides which stored value applies in a context, lets a value in a more
//! specific context stand in for and override one in a less specific context,
//! binds the functions that compute values to the providers that feed them,
//! and wires components together through sockets, also when one component is
//! put into another as into a frame.
//!
//! The state of the engine is one [`graph::Graph`]. Its mathematical value, a
//! [`graph::GraphView`], is what the contracts of the operations speak of: each
//! operation says which view it leaves behind, or that it fails and leaves
//! the view as it was.
//!
//! Every lookup of a value fails closed: where no value is found, the caller
//! gets an error that names what was looked for, never an empty value.
//!
//! The engine does not compute values and does not walk dependencies. It
//! queues the values whose dependents have to be computed again, and hands
//! the queue to whoever runs the computation.
//!
//! A graph can be copied. A unit of work is done on the copy, which takes
//! the place of the graph when the work has succeeded.

pub mod component;
pub mod component_type;
pub mod context;
pub mod edge;
pub mod frame;
pub mod graph;
pub mod ids;
pub mod index_map;
pub mod installed_pkg;
pub mod prop;
pub mod prototype;
pub mod provider;
pub mod socket;
pub mod text;
pub mod value;
