//! Control-plane core for emulated container networks: the topology
//! builder, the request catalogue and its execution against a snapshot of
//! the graph store, and the decisions of the connection driver and of the
//! race that ends a connection.

pub mod driver;
pub mod graph;
pub mod message;
pub mod store;
