//! The distributed-tracing core: trace-context propagation, sampling, span
//! lifecycle, per-execution active contexts and batched export.

pub mod codec;
pub mod ids;
pub mod sampler;
pub mod span;
pub mod exporter;
pub mod recorder;
pub mod interceptor;
