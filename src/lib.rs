//! Inventory core: stock-lot allocation over a semi-structured document, and
//! the lifecycle rules for the worker process that serves it.

pub mod quantity;
pub mod record;
pub mod document;
pub mod allocator;
pub mod supervisor;
