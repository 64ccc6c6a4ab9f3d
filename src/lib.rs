//! Trace and span identifiers: random generation, including a legacy
//! 64-bit trace-id shape, and the B3 header encodings that carry them
//! between services.
pub mod codec;
pub mod generator;
pub mod hex;
pub mod ids;

pub use codec::{
    decode_multi, decode_single, encode_multi, encode_single, incoming_multi, incoming_single,
    DecodeError, MultiHeaders, PropagatedContext, SamplingFlag, B3_PARENT_SPAN_ID_HEADER,
    B3_SINGLE_HEADER, B3_SPAN_ID_HEADER, B3_TRACE_ID_HEADER,
};
pub use generator::{legacy_trace_id, IdGenerator, RandomIdGenerator, LEGACY_TRACE_ID_BOUND};
pub use ids::{SpanId, TraceId};
