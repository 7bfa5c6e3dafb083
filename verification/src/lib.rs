//! Interceptor pipelines and strategic task flows.
//!
//! A pipeline wraps a core step in a chain of interceptors: the interceptors
//! added `1, 2, 3` run as `Z1(Z2(Z3(next)))(context)`. State lives only in the
//! context that travels through the chain. Task flows build on the pipeline:
//! sequences of tasks with retry, catch and rollback policies, fallback chains
//! and parallel branches.

pub mod error;
pub mod aspect;
pub mod interceptor;
pub mod tasks;

pub use error::{PipelineError, PipelineResult};
pub use aspect::{AspectContext, EmptyTask, IContext, Pipeline};
