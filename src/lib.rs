//! Loading a city-geography dataset into a spatial table, and the
//! decisions of a nearest-neighbour benchmark over it.
//!
//! The library holds what the loader and the benchmark decide: how a CSV
//! header binds to record fields, how a row becomes an insertable city,
//! how rows are cut into bulk-insert batches, and the benchmark's state
//! machine. Reading files, talking to the database and drawing random
//! numbers happen around it.
pub mod batch;
pub mod bench;
pub mod header;
pub mod record;
pub mod text;
