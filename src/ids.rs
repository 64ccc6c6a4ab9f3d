use vstd::prelude::*;
use vstd::string::StrSliceExecFns;

use crate::hex::{
    hex_digits, hex_value, is_hex_digit, is_hex_of_width, lemma_hex_value_bound, lemma_pow16_16,
};

verus! {

/// A 128-bit identifier of a whole distributed operation. The value zero
/// stands for "no trace".
#[derive(Clone, Copy, Debug, PartialEq, Eq, Structural, Hash)]
pub struct TraceId {
    pub value: u128,
}

/// A 64-bit identifier of one unit of work within a trace. The value zero
/// stands for "no span".
#[derive(Clone, Copy, Debug, PartialEq, Eq, Structural, Hash)]
pub struct SpanId {
    pub value: u64,
}

/// Relies on opentelemetry_api's `Display for TraceId`, which writes the
/// value with `{:032x}`: 32 lowercase hex digits, zero-padded.
#[verifier::external_body]
fn render_trace_id(v: u128) -> (r: String)
    ensures
        r@ == hex_digits(v as nat, 32),
{
    opentelemetry_api::trace::TraceId::from(v).to_string()
}

/// Relies on opentelemetry_api's `Display for SpanId`, which writes the
/// value with `{:016x}`: 16 lowercase hex digits, zero-padded.
#[verifier::external_body]
fn render_span_id(v: u64) -> (r: String)
    ensures
        r@ == hex_digits(v as nat, 16),
{
    opentelemetry_api::trace::SpanId::from(v).to_string()
}

/// Relies on opentelemetry_api's `TraceId::from_hex`, which is
/// `u128::from_str_radix(hex, 16)`: on one to 32 hex digits of either case
/// it succeeds with the value they spell. `to_bytes` gives the value back
/// big-endian.
#[verifier::external_body]
pub(crate) fn parse_trace_id(s: &str) -> (r: u128)
    requires
        1 <= s@.len() <= 32,
        forall|i: int| 0 <= i < s@.len() ==> is_hex_digit(#[trigger] s@[i]),
    ensures
        r as nat == hex_value(s@),
{
    u128::from_be_bytes(opentelemetry_api::trace::TraceId::from_hex(s).unwrap().to_bytes())
}

/// Relies on opentelemetry_api's `SpanId::from_hex`, which is
/// `u64::from_str_radix(hex, 16)`: on one to 16 hex digits of either case
/// it succeeds with the value they spell. `to_bytes` gives the value back
/// big-endian.
#[verifier::external_body]
fn parse_span_id(s: &str) -> (r: u64)
    requires
        1 <= s@.len() <= 16,
        forall|i: int| 0 <= i < s@.len() ==> is_hex_digit(#[trigger] s@[i]),
    ensures
        r as nat == hex_value(s@),
{
    u64::from_be_bytes(opentelemetry_api::trace::SpanId::from_hex(s).unwrap().to_bytes())
}

/// Whether `s` is exactly `width` hexadecimal digits.
fn check_hex_width(s: &str, width: usize) -> (r: bool)
    ensures
        r == is_hex_of_width(s@, width as nat),
{
    let n = s.unicode_len();
    if n != width {
        return false;
    }
    let mut i: usize = 0;
    while i < n
        invariant
            n == s@.len(),
            i <= n,
            forall|j: int| 0 <= j < i ==> is_hex_digit(#[trigger] s@[j]),
        decreases n - i,
    {
        let c = s.get_char(i);
        if !(('0' <= c && c <= '9') || ('a' <= c && c <= 'f') || ('A' <= c && c <= 'F')) {
            return false;
        }
        i = i + 1;
    }
    true
}

impl TraceId {
    /// A trace id is valid when it is not zero.
    pub open spec fn spec_is_valid(&self) -> bool {
        self.value != 0
    }

    #[verifier::when_used_as_spec(spec_is_valid)]
    pub fn is_valid(&self) -> (r: bool)
        ensures
            r == self.spec_is_valid(),
    {
        self.value != 0
    }

    /// The canonical rendering: 32 lowercase hex digits.
    pub fn to_hex(&self) -> (r: String)
        ensures
            r@ == hex_digits(self.value as nat, 32),
    {
        render_trace_id(self.value)
    }

    /// Reads exactly 32 hex digits, in either case; `None` for anything else.
    pub fn from_hex(s: &str) -> (r: Option<TraceId>)
        ensures
            r == (if is_hex_of_width(s@, 32) {
                Some(TraceId { value: hex_value(s@) as u128 })
            } else {
                None
            }),
    {
        if !check_hex_width(s, 32) {
            return None;
        }
        let v = parse_trace_id(s);
        proof {
            lemma_hex_value_bound(s@);
            lemma_pow16_16();
        }
        Some(TraceId { value: v })
    }
}

impl SpanId {
    /// A span id is valid when it is not zero.
    pub open spec fn spec_is_valid(&self) -> bool {
        self.value != 0
    }

    #[verifier::when_used_as_spec(spec_is_valid)]
    pub fn is_valid(&self) -> (r: bool)
        ensures
            r == self.spec_is_valid(),
    {
        self.value != 0
    }

    /// The canonical rendering: 16 lowercase hex digits.
    pub fn to_hex(&self) -> (r: String)
        ensures
            r@ == hex_digits(self.value as nat, 16),
    {
        render_span_id(self.value)
    }

    /// Reads exactly 16 hex digits, in either case; `None` for anything else.
    pub fn from_hex(s: &str) -> (r: Option<SpanId>)
        ensures
            r == (if is_hex_of_width(s@, 16) {
                Some(SpanId { value: hex_value(s@) as u64 })
            } else {
                None
            }),
    {
        if !check_hex_width(s, 16) {
            return None;
        }
        let v = parse_span_id(s);
        proof {
            lemma_hex_value_bound(s@);
            lemma_pow16_16();
        }
        Some(SpanId { value: v })
    }
}

} // verus!
