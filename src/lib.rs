//! A composable request/response pipeline: stages with a readiness probe and
//! an invocation, decorators that time out or append headers, transport
//! adapters, and trace-context propagation over header carriers.

pub mod headers;
pub mod pipeline;
pub mod propagation;
pub mod stage;
