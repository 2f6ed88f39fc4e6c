//! Moves tabular result sets from relational sources into in-memory columnar
//! destination buffers, using partitioned query execution and a typed
//! transport layer.
//!
//! The core is the Source/Destination/Transport/Dispatcher abstraction: a
//! `Source` yields typed rows in canonical form, a `Destination` owns
//! preallocated column buffers scoped by row range, a `Transport` converts
//! each canonical value into a destination cell, and the `Dispatcher`
//! partitions the queries, executes them, and commits or aborts the run.

pub mod destination;
pub mod dispatcher;
pub mod errors;
pub mod fed;
pub mod query;
pub mod source;
pub mod strutil;
pub mod transport;
pub mod types;
