//! Orchestration of ephemeral multi-container test environments: handle
//! resolution, start scheduling and teardown planning, with their contracts.

pub mod composition;
pub mod container;
pub mod daemon;
pub mod env;
pub mod error;
pub mod injection;
pub mod keeper;
pub mod logs;
pub mod operations;
pub mod pool;
pub mod resolution;
pub mod schedule;
pub mod teardown;
pub mod text;
