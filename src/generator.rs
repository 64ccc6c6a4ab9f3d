use vstd::prelude::*;

use crate::hex::{lemma_hex_digits_shape, lemma_hex_value_of_digits, lemma_pow16_16};
use crate::ids::{parse_trace_id, SpanId, TraceId};

verus! {

/// The largest value that fits in 64 bits, plus one.
pub const LEGACY_TRACE_ID_BOUND: u128 = 0x1_0000_0000_0000_0000;

/// Relies on rand's `Rng::gen_range` on `thread_rng()`, the generator of the
/// calling thread: a value in `lo..=hi`, which must not be empty (it panics
/// on an empty range).
#[verifier::external_body]
fn draw_u64(lo: u64, hi: u64) -> (r: u64)
    requires
        lo <= hi,
    ensures
        lo <= r <= hi,
{
    rand::Rng::gen_range(&mut rand::thread_rng(), lo..=hi)
}

/// Relies on rand's `Rng::gen_range` on `thread_rng()`, the generator of the
/// calling thread: a value in `lo..=hi`, which must not be empty (it panics
/// on an empty range).
#[verifier::external_body]
fn draw_u128(lo: u128, hi: u128) -> (r: u128)
    requires
        lo <= hi,
    ensures
        lo <= r <= hi,
{
    rand::Rng::gen_range(&mut rand::thread_rng(), lo..=hi)
}

/// The trace id of the legacy 64-bit shape that carries `span`'s value:
/// the span id is rendered as 16 hex digits and read back as a trace id,
/// so the upper 64 bits are zero and the lower 64 hold the span's value.
pub fn legacy_trace_id(span: SpanId) -> (r: TraceId)
    ensures
        r.value == span.value as u128,
{
    let hex = span.to_hex();
    proof {
        lemma_hex_digits_shape(span.value as nat, 16);
        lemma_pow16_16();
        lemma_hex_value_of_digits(span.value as nat, 16);
    }
    let v = parse_trace_id(hex.as_str());
    TraceId { value: v }
}

/// Produces fresh trace and span ids.
pub trait IdGenerator: Send + Sync + core::fmt::Debug {
    /// A new, valid trace id. With `Some(true)` it has the legacy shape:
    /// its upper 64 bits are zero.
    fn new_trace_id(&self, backward_compatible: Option<bool>) -> (r: TraceId)
        ensures
            r.is_valid(),
            backward_compatible == Some(true) ==> r.value < LEGACY_TRACE_ID_BOUND,
    ;

    /// A new, valid span id.
    fn new_span_id(&self) -> (r: SpanId)
        ensures
            r.is_valid(),
    ;
}

/// Generates trace and span ids uniformly at random from the calling
/// thread's random number generator, never drawing zero.
#[derive(Clone, Debug, Default)]
pub struct RandomIdGenerator;

impl RandomIdGenerator {
    pub fn new() -> Self {
        RandomIdGenerator
    }
}

impl IdGenerator for RandomIdGenerator {
    fn new_trace_id(&self, backward_compatible: Option<bool>) -> (r: TraceId) {
        let backward_compatible_val: bool = match backward_compatible {
            Some(b) => b,
            None => false,
        };
        if backward_compatible_val {
            let span = self.new_span_id();
            return legacy_trace_id(span);
        }
        TraceId { value: draw_u128(1, u128::MAX) }
    }

    fn new_span_id(&self) -> (r: SpanId) {
        SpanId { value: draw_u64(1, u64::MAX) }
    }
}

} // verus!
