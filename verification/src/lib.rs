//! Local-development bootstrapper core: a catalog of optional services,
//! a compiler from user selections to a normalized configuration, a
//! verified text codec for persisting that configuration, and a planner
//! plus state machine for the provisioning pipeline.
pub mod catalog;
pub mod compiler;
pub mod selection;
pub mod pipeline;
pub mod store;
