//! An incremental command registry: command descriptors and their bound
//! handlers are appended one at a time and finalized into a lookup table.
//! Beside it stand the computations of the quiz commands that the registry
//! serves: the tag-filter query, the stored form of a question, and the text
//! that lists one.
pub mod descriptor;
pub mod phrase;
pub mod builder;
pub mod quiz;
pub mod store;
