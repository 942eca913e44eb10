//! A claim registry: three keyed stores of bounded-field metadata records,
//! each operated on by first-writer-wins creation and owner-only revocation.

pub mod config;
pub mod errors;
pub mod events;
pub mod model;
pub mod records;
pub mod registry;
pub mod store;
