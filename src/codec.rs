use vstd::prelude::*;
use vstd::string::{StrSliceExecFns, StringExecFns};

use crate::hex::{
    hex_digits, hex_value, is_hex_digit, is_hex_of_width, lemma_hex_digits_shape,
    lemma_hex_value_of_digits, lemma_pow16_16,
};
use crate::ids::{SpanId, TraceId};

verus! {

broadcast use vstd::string::group_string_axioms;

/// Name of the header of the single-header format.
pub const B3_SINGLE_HEADER: &'static str = "B3";

/// Name of the trace-id header of the multi-header format.
pub const B3_TRACE_ID_HEADER: &'static str = "X-B3-TraceId";

/// Name of the span-id header of the multi-header format.
pub const B3_SPAN_ID_HEADER: &'static str = "X-B3-SpanId";

/// Name of the parent-span-id header of the multi-header format.
pub const B3_PARENT_SPAN_ID_HEADER: &'static str = "X-B3-ParentSpanId";

/// Whether the traced operation was sampled.
#[derive(Clone, Copy, Debug, PartialEq, Eq, Structural, Hash)]
pub enum SamplingFlag {
    NotSampled,
    Sampled,
}

/// The identifiers that travel with one outbound request: the trace, the
/// current span and, unless the span is a root, its parent.
#[derive(Clone, Copy, Debug, PartialEq, Eq, Structural, Hash)]
pub struct PropagatedContext {
    pub trace_id: TraceId,
    pub span_id: SpanId,
    pub parent_span_id: Option<SpanId>,
}

/// Why a header set could not be read.
#[derive(Clone, Copy, Debug, PartialEq, Eq, Structural, Hash)]
pub enum DecodeError {
    /// Wrong number of fields, or a required header is missing.
    MalformedHeader,
    /// A field is not hexadecimal of the expected width (or, for the
    /// sampling flag, not `0` or `1`).
    HexDecodeError,
}

/// The three headers of the multi-header format; `None` is an absent header.
#[derive(Clone, Debug, PartialEq, Eq)]
pub struct MultiHeaders {
    pub trace_id: Option<String>,
    pub span_id: Option<String>,
    pub parent_span_id: Option<String>,
}

pub open spec fn opt_view(o: Option<String>) -> Option<Seq<char>> {
    match o {
        Some(s) => Some(s@),
        None => None,
    }
}

impl View for MultiHeaders {
    type V = (Option<Seq<char>>, Option<Seq<char>>, Option<Seq<char>>);

    open spec fn view(&self) -> Self::V {
        (opt_view(self.trace_id), opt_view(self.span_id), opt_view(self.parent_span_id))
    }
}

/// The fields of `s` between the `-` characters, in order; a string with
/// `k` dashes has `k + 1` fields, some of which may be empty.
pub open spec fn split_dash(s: Seq<char>) -> Seq<Seq<char>>
    decreases s.len(),
{
    if s.len() == 0 {
        seq![Seq::empty()]
    } else {
        let fields = split_dash(s.drop_last());
        if s.last() == '-' {
            fields.push(Seq::empty())
        } else {
            fields.update(fields.len() - 1, fields.last().push(s.last()))
        }
    }
}

pub open spec fn flag_char(flag: SamplingFlag) -> char {
    match flag {
        SamplingFlag::NotSampled => '0',
        SamplingFlag::Sampled => '1',
    }
}

/// The flag that a flag field spells: exactly `0` or `1`.
pub open spec fn flag_of(f: Seq<char>) -> Option<SamplingFlag> {
    if f == seq!['0'] {
        Some(SamplingFlag::NotSampled)
    } else if f == seq!['1'] {
        Some(SamplingFlag::Sampled)
    } else {
        None
    }
}

/// `{trace}-{span}-{flag}` followed by `-{parent}` when there is a parent.
pub open spec fn encode_single_spec(ctx: PropagatedContext, flag: SamplingFlag) -> Seq<char> {
    let head = hex_digits(ctx.trace_id.value as nat, 32) + seq!['-'] + hex_digits(
        ctx.span_id.value as nat,
        16,
    ) + seq!['-'] + seq![flag_char(flag)];
    match ctx.parent_span_id {
        Some(p) => head + seq!['-'] + hex_digits(p.value as nat, 16),
        None => head,
    }
}

pub open spec fn decode_single_spec(s: Seq<char>) -> Result<
    (PropagatedContext, SamplingFlag),
    DecodeError,
> {
    let f = split_dash(s);
    if f.len() != 3 && f.len() != 4 {
        Err(DecodeError::MalformedHeader)
    } else if !is_hex_of_width(f[0], 32) || !is_hex_of_width(f[1], 16) || flag_of(f[2]) is None
        || (f.len() == 4 && !is_hex_of_width(f[3], 16)) {
        Err(DecodeError::HexDecodeError)
    } else {
        Ok(
            (
                PropagatedContext {
                    trace_id: TraceId { value: hex_value(f[0]) as u128 },
                    span_id: SpanId { value: hex_value(f[1]) as u64 },
                    parent_span_id: if f.len() == 4 {
                        Some(SpanId { value: hex_value(f[3]) as u64 })
                    } else {
                        None
                    },
                },
                flag_of(f[2]).unwrap(),
            ),
        )
    }
}

pub open spec fn encode_multi_spec(ctx: PropagatedContext) -> (
    Option<Seq<char>>,
    Option<Seq<char>>,
    Option<Seq<char>>,
) {
    (
        Some(hex_digits(ctx.trace_id.value as nat, 32)),
        Some(hex_digits(ctx.span_id.value as nat, 16)),
        match ctx.parent_span_id {
            Some(p) => Some(hex_digits(p.value as nat, 16)),
            None => None,
        },
    )
}

pub open spec fn decode_multi_spec(
    h: (Option<Seq<char>>, Option<Seq<char>>, Option<Seq<char>>),
) -> Result<PropagatedContext, DecodeError> {
    match (h.0, h.1) {
        (Some(t), Some(s)) => {
            let parent_ok = match h.2 {
                Some(p) => is_hex_of_width(p, 16),
                None => true,
            };
            if !is_hex_of_width(t, 32) || !is_hex_of_width(s, 16) || !parent_ok {
                Err(DecodeError::HexDecodeError)
            } else {
                Ok(
                    PropagatedContext {
                        trace_id: TraceId { value: hex_value(t) as u128 },
                        span_id: SpanId { value: hex_value(s) as u64 },
                        parent_span_id: match h.2 {
                            Some(p) => Some(SpanId { value: hex_value(p) as u64 }),
                            None => None,
                        },
                    },
                )
            }
        },
        _ => Err(DecodeError::MalformedHeader),
    }
}

fn chars_of(s: &str) -> (r: Vec<char>)
    ensures
        r@ == s@,
{
    let mut r: Vec<char> = Vec::new();
    for c in it: s.chars()
        invariant
            it.seq() == s@,
            r@ == it.seq().take(it.index() as int),
    {
        r.push(c);
    }
    r
}

/// The bounds of the `-`-separated fields of `s`.
fn dash_fields(s: &Vec<char>) -> (r: Vec<(usize, usize)>)
    ensures
        r@.len() == split_dash(s@).len(),
        forall|k: int| 0 <= k < r@.len() ==> (#[trigger] r@[k]).0 <= r@[k].1 <= s@.len(),
        forall|k: int|
            0 <= k < r@.len() ==> s@.subrange(r@[k].0 as int, r@[k].1 as int)
                == #[trigger] split_dash(s@)[k],
{
    let mut r: Vec<(usize, usize)> = Vec::new();
    let mut start: usize = 0;
    let mut i: usize = 0;
    assert(s@.take(0) =~= Seq::<char>::empty());
    while i < s.len()
        invariant
            start <= i <= s@.len(),
            r@.len() + 1 == split_dash(s@.take(i as int)).len(),
            forall|k: int| 0 <= k < r@.len() ==> (#[trigger] r@[k]).0 <= r@[k].1 <= i,
            forall|k: int|
                0 <= k < r@.len() ==> s@.subrange(r@[k].0 as int, r@[k].1 as int)
                    == #[trigger] split_dash(s@.take(i as int))[k],
            s@.subrange(start as int, i as int) == split_dash(s@.take(i as int)).last(),
        decreases s@.len() - i,
    {
        let ghost before = split_dash(s@.take(i as int));
        let ghost old_r = r@;
        let ghost old_start = start;
        assert(s@.take(i + 1).drop_last() =~= s@.take(i as int));
        assert(s@.take(i + 1).last() == s@[i as int]);
        if s[i] == '-' {
            r.push((start, i));
            start = i + 1;
            assert(s@.subrange(start as int, i + 1) =~= Seq::<char>::empty());
            let ghost after = split_dash(s@.take(i + 1));
            assert(after == before.push(Seq::empty()));
            assert forall|k: int| 0 <= k < r@.len() implies r@[k].0 <= r@[k].1 <= i + 1
                && #[trigger] s@.subrange(r@[k].0 as int, r@[k].1 as int) == #[trigger] after[k] by {
                if k < old_r.len() {
                    assert(r@[k] == old_r[k]);
                    assert(after[k] == before[k]);
                } else {
                    assert(r@[k] == (old_start, i));
                }
            }
        } else {
            assert(s@.subrange(start as int, i + 1) =~= s@.subrange(start as int, i as int).push(
                s@[i as int],
            ));
            let ghost after = split_dash(s@.take(i + 1));
            assert(after == before.update(before.len() - 1, before.last().push(s@[i as int])));
            assert forall|k: int| 0 <= k < r@.len() implies r@[k].0 <= r@[k].1 <= i + 1
                && #[trigger] s@.subrange(r@[k].0 as int, r@[k].1 as int) == #[trigger] after[k] by {
                assert(after[k] == before[k]);
            }
        }
        i = i + 1;
    }
    assert(s@.take(i as int) =~= s@);
    let ghost old_r = r@;
    r.push((start, i));
    assert forall|k: int| 0 <= k < r@.len() implies r@[k].0 <= r@[k].1 <= s@.len()
        && s@.subrange(r@[k].0 as int, r@[k].1 as int) == #[trigger] split_dash(s@)[k] by {
        if k < old_r.len() {
            assert(r@[k] == old_r[k]);
        }
    }
    r
}

fn parse_flag(s: &str) -> (r: Option<SamplingFlag>)
    ensures
        r == flag_of(s@),
{
    if s.unicode_len() != 1 {
        return None;
    }
    let c = s.get_char(0);
    if c == '0' {
        assert(s@ =~= seq!['0']);
        Some(SamplingFlag::NotSampled)
    } else if c == '1' {
        assert(s@ =~= seq!['1']);
        Some(SamplingFlag::Sampled)
    } else {
        assert(s@ != seq!['0']) by {
            assert(seq!['0'][0] == '0');
        }
        assert(s@ != seq!['1']) by {
            assert(seq!['1'][0] == '1');
        }
        None
    }
}

/// Reads the single-header format: three or four `-`-separated fields,
/// trace id (32 hex digits), span id (16), sampling flag (`0` or `1`) and
/// an optional parent span id (16). Hex digits may be of either case.
pub fn decode_single(header: &str) -> (r: Result<(PropagatedContext, SamplingFlag), DecodeError>)
    ensures
        r == decode_single_spec(header@),
{
    let chars = chars_of(header);
    let fields = dash_fields(&chars);
    let ghost f = split_dash(header@);
    let n = fields.len();
    if n != 3 && n != 4 {
        return Err(DecodeError::MalformedHeader);
    }
    assert(f[0] == split_dash(chars@)[0]);
    assert(f[1] == split_dash(chars@)[1]);
    assert(f[2] == split_dash(chars@)[2]);
    let trace_id = TraceId::from_hex(header.substring_char(fields[0].0, fields[0].1));
    let span_id = SpanId::from_hex(header.substring_char(fields[1].0, fields[1].1));
    let flag = parse_flag(header.substring_char(fields[2].0, fields[2].1));
    let parent_span_id = if n == 4 {
        assert(f[3] == split_dash(chars@)[3]);
        match SpanId::from_hex(header.substring_char(fields[3].0, fields[3].1)) {
            Some(p) => Some(Some(p)),
            None => None,
        }
    } else {
        Some(None)
    };
    match (trace_id, span_id, flag, parent_span_id) {
        (Some(trace_id), Some(span_id), Some(flag), Some(parent_span_id)) => Ok(
            (PropagatedContext { trace_id, span_id, parent_span_id }, flag),
        ),
        _ => Err(DecodeError::HexDecodeError),
    }
}

/// Renders the single-header format, `{trace}-{span}-{flag}[-{parent}]`,
/// in lowercase hex; the parent field is left out for a root span.
pub fn encode_single(ctx: &PropagatedContext, flag: SamplingFlag) -> (r: String)
    ensures
        r@ == encode_single_spec(*ctx, flag),
{
    proof {
        reveal_strlit("-");
        reveal_strlit("0");
        reveal_strlit("1");
    }
    let mut out = ctx.trace_id.to_hex();
    out.append("-");
    out.append(ctx.span_id.to_hex().as_str());
    out.append("-");
    match flag {
        SamplingFlag::NotSampled => out.append("0"),
        SamplingFlag::Sampled => out.append("1"),
    }
    match ctx.parent_span_id {
        Some(p) => {
            out.append("-");
            out.append(p.to_hex().as_str());
        },
        None => {},
    }
    out
}

/// Renders the multi-header format: one lowercase hex value per header,
/// and no parent header for a root span.
pub fn encode_multi(ctx: &PropagatedContext) -> (r: MultiHeaders)
    ensures
        r@ == encode_multi_spec(*ctx),
{
    let parent_span_id = match ctx.parent_span_id {
        Some(p) => Some(p.to_hex()),
        None => None,
    };
    MultiHeaders {
        trace_id: Some(ctx.trace_id.to_hex()),
        span_id: Some(ctx.span_id.to_hex()),
        parent_span_id,
    }
}

/// Reads the multi-header format: the trace-id and span-id headers are
/// required, the parent header is optional; each present value must be hex
/// of its width (32, 16, 16), in either case.
pub fn decode_multi(headers: &MultiHeaders) -> (r: Result<PropagatedContext, DecodeError>)
    ensures
        r == decode_multi_spec(headers@),
{
    let (t, s) = match (&headers.trace_id, &headers.span_id) {
        (Some(t), Some(s)) => (t, s),
        _ => {
            return Err(DecodeError::MalformedHeader);
        },
    };
    let trace_id = TraceId::from_hex(t.as_str());
    let span_id = SpanId::from_hex(s.as_str());
    let parent_span_id = match &headers.parent_span_id {
        Some(p) => match SpanId::from_hex(p.as_str()) {
            Some(p) => Some(Some(p)),
            None => None,
        },
        None => Some(None),
    };
    match (trace_id, span_id, parent_span_id) {
        (Some(trace_id), Some(span_id), Some(parent_span_id)) => Ok(
            PropagatedContext { trace_id, span_id, parent_span_id },
        ),
        _ => Err(DecodeError::HexDecodeError),
    }
}

/// The context that an incoming single header continues, if any: a
/// missing or unreadable header means a fresh root trace, never an error.
pub fn incoming_single(header: Option<&str>) -> (r: Option<(PropagatedContext, SamplingFlag)>)
    ensures
        r == (match header {
            Some(h) => match decode_single_spec(h@) {
                Ok(v) => Some(v),
                Err(_) => None,
            },
            None => None,
        }),
{
    match header {
        Some(h) => match decode_single(h) {
            Ok(v) => Some(v),
            Err(_) => None,
        },
        None => None,
    }
}

/// The context that incoming multi headers continue, if any: missing or
/// unreadable headers mean a fresh root trace, never an error.
pub fn incoming_multi(headers: &MultiHeaders) -> (r: Option<PropagatedContext>)
    ensures
        r == (match decode_multi_spec(headers@) {
            Ok(v) => Some(v),
            Err(_) => None,
        }),
{
    match decode_multi(headers) {
        Ok(v) => Some(v),
        Err(_) => None,
    }
}

pub open spec fn has_no_dash(s: Seq<char>) -> bool {
    forall|i: int| 0 <= i < s.len() ==> #[trigger] s[i] != '-'
}

proof fn lemma_split_dash_len(s: Seq<char>)
    ensures
        split_dash(s).len() >= 1,
    decreases s.len(),
{
    if s.len() > 0 {
        lemma_split_dash_len(s.drop_last());
    }
}

/// Appending text without a dash extends the last field.
proof fn lemma_split_dash_append_plain(p: Seq<char>, q: Seq<char>)
    requires
        has_no_dash(q),
    ensures
        split_dash(p + q) == split_dash(p).update(
            split_dash(p).len() - 1,
            split_dash(p).last() + q,
        ),
    decreases q.len(),
{
    lemma_split_dash_len(p);
    let f = split_dash(p);
    if q.len() == 0 {
        assert(p + q =~= p);
        assert(f.last() + q =~= f.last());
        assert(f.update(f.len() - 1, f.last() + q) =~= f);
    } else {
        let q0 = q.drop_last();
        let c = q.last();
        assert(c != '-');
        assert(has_no_dash(q0)) by {
            assert forall|i: int| 0 <= i < q0.len() implies #[trigger] q0[i] != '-' by {
                assert(q0[i] == q[i]);
            }
        }
        lemma_split_dash_append_plain(p, q0);
        assert((p + q).drop_last() =~= p + q0);
        assert((p + q).last() == c);
        assert((f.last() + q0).push(c) =~= f.last() + q);
        assert(split_dash(p + q) =~= f.update(f.len() - 1, f.last() + q));
    }
}

/// Appending a dash opens a new, empty field.
proof fn lemma_split_dash_push_dash(p: Seq<char>)
    ensures
        split_dash(p + seq!['-']) == split_dash(p).push(Seq::empty()),
{
    assert((p + seq!['-']).drop_last() =~= p);
}

proof fn lemma_hex_field(v: nat, n: nat)
    requires
        v < crate::hex::pow16(n),
    ensures
        is_hex_of_width(hex_digits(v, n), n),
        has_no_dash(hex_digits(v, n)),
        hex_value(hex_digits(v, n)) == v,
{
    lemma_hex_digits_shape(v, n);
    lemma_hex_value_of_digits(v, n);
    let s = hex_digits(v, n);
    assert forall|i: int| 0 <= i < s.len() implies #[trigger] s[i] != '-' by {
        assert(is_hex_digit(s[i]));
    }
}

proof fn lemma_flag_field(flag: SamplingFlag)
    ensures
        flag_of(seq![flag_char(flag)]) == Some(flag),
        has_no_dash(seq![flag_char(flag)]),
{
    if flag == SamplingFlag::Sampled {
        assert(seq!['1'] != seq!['0']) by {
            assert(seq!['1'][0] != seq!['0'][0]);
        }
    }
}

/// Decoding an encoded single header gives back the context and the flag,
/// with or without a parent span.
pub proof fn lemma_single_round_trip(ctx: PropagatedContext, flag: SamplingFlag)
    ensures
        decode_single_spec(encode_single_spec(ctx, flag)) == Ok::<
            (PropagatedContext, SamplingFlag),
            DecodeError,
        >((ctx, flag)),
{
    lemma_pow16_16();
    let t = hex_digits(ctx.trace_id.value as nat, 32);
    let s = hex_digits(ctx.span_id.value as nat, 16);
    let c = seq![flag_char(flag)];
    lemma_hex_field(ctx.trace_id.value as nat, 32);
    lemma_hex_field(ctx.span_id.value as nat, 16);
    lemma_flag_field(flag);
    let e0 = Seq::<char>::empty() + t;
    let e1 = t + seq!['-'];
    let e2 = e1 + s;
    let e3 = e2 + seq!['-'];
    let e4 = e3 + c;
    lemma_split_dash_append_plain(Seq::empty(), t);
    assert(e0 =~= t);
    assert(split_dash(Seq::<char>::empty()) == seq![Seq::<char>::empty()]);
    assert(split_dash(t) =~= seq![t]);
    lemma_split_dash_push_dash(t);
    lemma_split_dash_append_plain(e1, s);
    assert(split_dash(e2) =~= seq![t, s]);
    lemma_split_dash_push_dash(e2);
    lemma_split_dash_append_plain(e3, c);
    assert(split_dash(e4) =~= seq![t, s, c]);
    match ctx.parent_span_id {
        Some(p) => {
            let ps = hex_digits(p.value as nat, 16);
            lemma_hex_field(p.value as nat, 16);
            let e5 = e4 + seq!['-'];
            lemma_split_dash_push_dash(e4);
            lemma_split_dash_append_plain(e5, ps);
            assert(split_dash(e5 + ps) =~= seq![t, s, c, ps]);
        },
        None => {},
    }
}

/// Decoding encoded multi headers gives back the context, with or without
/// a parent span.
pub proof fn lemma_multi_round_trip(ctx: PropagatedContext)
    ensures
        decode_multi_spec(encode_multi_spec(ctx)) == Ok::<PropagatedContext, DecodeError>(ctx),
{
    lemma_pow16_16();
    lemma_hex_field(ctx.trace_id.value as nat, 32);
    lemma_hex_field(ctx.span_id.value as nat, 16);
    match ctx.parent_span_id {
        Some(p) => {
            lemma_hex_field(p.value as nat, 16);
        },
        None => {},
    }
}

/// Multi headers without a parent header decode, when the other two are
/// well formed, to a context without a parent; without a trace-id header
/// they never decode.
pub proof fn lemma_multi_missing_headers(
    trace_id: Option<Seq<char>>,
    span_id: Option<Seq<char>>,
    parent_span_id: Option<Seq<char>>,
)
    ensures
        trace_id is Some && span_id is Some && is_hex_of_width(trace_id.unwrap(), 32)
            && is_hex_of_width(span_id.unwrap(), 16) ==> (decode_multi_spec(
            (trace_id, span_id, None),
        ) is Ok && decode_multi_spec((trace_id, span_id, None)).unwrap().parent_span_id is None),
        decode_multi_spec((None, span_id, parent_span_id)) == Err::<PropagatedContext, DecodeError>(
            DecodeError::MalformedHeader,
        ),
{
}

} // verus!
