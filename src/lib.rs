//! Streaming execution core: messages and barriers, dispatchers and mergers,
//! actors and the fragment graph that wires them, and the global memory
//! manager. Beside it stand the pieces those parts exchange with the rest of
//! a database: primitive arrays, change-data-capture splits, window function
//! kinds, plan nodes and development services.

pub mod actor;
pub mod array;
pub mod dispatch;
pub mod expr;
pub mod graph;
pub mod memory;
pub mod merge;
pub mod message;
pub mod nginx;
pub mod plan;
pub mod registry;
pub mod split;
pub mod window;
