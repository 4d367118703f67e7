//! Random identifiers, drawn by the OpenTelemetry SDK's id generator.

use vstd::prelude::*;

verus! {

/// Relies on opentelemetry's `sdk::trace::IdGenerator::new_trace_id`: 128
/// random bits, read back big-endian through `TraceId::to_bytes`.
#[verifier::external_body]
pub(crate) fn draw_trace_id() -> (r: u128) {
    let g = opentelemetry::sdk::trace::IdGenerator::default();
    u128::from_be_bytes(opentelemetry::trace::IdGenerator::new_trace_id(&g).to_bytes())
}

/// Relies on opentelemetry's `sdk::trace::IdGenerator::new_span_id`: 64
/// random bits, read back big-endian through `SpanId::to_bytes`.
#[verifier::external_body]
pub(crate) fn draw_span_id() -> (r: u64) {
    let g = opentelemetry::sdk::trace::IdGenerator::default();
    u64::from_be_bytes(opentelemetry::trace::IdGenerator::new_span_id(&g).to_bytes())
}

} // verus!
