//! Request-handling core of an agent runtime: message routing, task
//! orchestration, linear workflows, a bounded conversation buffer and a
//! tool execution pipeline with a concurrency gate and a result cache.

pub mod text;
pub mod keyed;
pub mod ids;
pub mod json;

pub mod router;
pub mod state;
pub mod orchestration;
pub mod workflow;
pub mod tools;

pub mod agent;
pub mod mcp;
pub mod memory;
pub mod providers;
