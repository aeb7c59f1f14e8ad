//! Trace and span identifiers and the immutable span context that carries
//! them across process boundaries.

use crate::encoding::{
    all_hex_digits, be_bytes, be_value, byte_pow, encode_hex, hex_digit_value, hex_encode,
    hex_value, lemma_be_bytes_value, lemma_be_value_bound, lemma_byte_pow_monotone,
    lemma_byte_pow_positive, lemma_byte_pow_widths, lemma_hex_encode_value, lenient_hex,
    parse_hex_lenient,
};
use crate::trace_state::{keys_unique, Members, TraceState};
use vstd::arithmetic::div_mod::lemma_div_denominator;
use vstd::prelude::*;

verus! {

/// No trace flag set: the span is not sampled.
pub const TRACE_FLAG_NOT_SAMPLED: u8 = 0x00;

/// Bitmask of the sampled flag.
pub const TRACE_FLAG_SAMPLED: u8 = 0x01;

/// Bitmask of the deferred flag: the sampling decision is left to the receiver.
pub const TRACE_FLAG_DEFERRED: u8 = 0x02;

/// Bitmask of the debug flag.
pub const TRACE_FLAG_DEBUG: u8 = 0x04;

/// A 16-byte identifier shared by every span of one trace. Zero is the
/// invalid identifier.
#[derive(Clone, Copy, Debug, PartialEq, Eq, Structural, Hash)]
pub struct TraceId(u128);

impl View for TraceId {
    type V = u128;

    closed spec fn view(&self) -> u128 {
        self.0
    }
}

impl TraceId {
    /// The invalid (zero) trace id.
    pub fn invalid() -> (r: Self)
        ensures
            r@ == 0,
    {
        TraceId(0)
    }

    /// Wraps a raw 128-bit value; zero is accepted.
    pub fn from_u128(item: u128) -> (r: Self)
        ensures
            r@ == item,
    {
        TraceId(item)
    }

    pub fn to_u128(self) -> (r: u128)
        ensures
            r == self@,
    {
        self.0
    }

    /// Thirty-two lowercase hexadecimal digits, zero-padded.
    pub fn to_hex(self) -> (r: String)
        ensures
            r@ == hex_encode(be_bytes(self@ as nat, 16)),
            r@.len() == 32,
    {
        let bytes = self.to_byte_array();
        proof {
            crate::encoding::lemma_hex_encode_value(bytes@);
        }
        encode_hex(bytes.as_slice())
    }

    /// The sixteen big-endian bytes of the id.
    pub fn to_byte_array(self) -> (r: [u8; 16])
        ensures
            r@ == be_bytes(self@ as nat, 16),
    {
        let ghost v = self.0 as nat;
        let mut out = [0u8; 16];
        let mut rest: u128 = self.0;
        let mut i: usize = 16;
        assert(byte_pow(0) == 1);
        assert(v / 1 == v);
        while i > 0
            invariant
                i <= 16,
                out@.len() == 16,
                rest as nat == v / byte_pow((16 - i) as nat),
                forall|k: int| i <= k < 16 ==> out@[k] == #[trigger] be_bytes(v, 16)[k],
            decreases i,
        {
            i = i - 1;
            out[i] = (rest % 256) as u8;
            proof {
                let e = (15 - i) as nat;
                lemma_byte_pow_positive(e);
                lemma_div_denominator(v as int, byte_pow(e) as int, 256);
                assert(byte_pow((16 - i) as nat) == 256 * byte_pow(e));
            }
            rest = rest / 256;
        }
        assert(out@ =~= be_bytes(v, 16));
        out
    }

    /// Parses hexadecimal text; any text that is not a base-16 numeral that
    /// fits in 128 bits gives the invalid id.
    pub fn from_hex(hex: &str) -> (r: Self)
        ensures
            r@ == lenient_hex(hex@, u128::MAX as nat),
    {
        TraceId(parse_hex_lenient(hex, u128::MAX))
    }

    /// The id whose big-endian bytes are `byte_array`.
    pub fn from_byte_array(byte_array: [u8; 16]) -> (r: Self)
        ensures
            r@ == be_value(byte_array@),
    {
        TraceId(read_be_u128(&byte_array))
    }
}

fn read_be_u128(bytes: &[u8; 16]) -> (r: u128)
    ensures
        r == be_value(bytes@),
{
    let mut v: u128 = 0;
    let mut i: usize = 0;
    while i < 16
        invariant
            i <= 16,
            bytes@.len() == 16,
            v == be_value(bytes@.subrange(0, i as int)),
        decreases 16 - i,
    {
        let ghost next = bytes@.subrange(0, i + 1);
        proof {
            assert(next.drop_last() =~= bytes@.subrange(0, i as int));
            lemma_be_value_bound(next);
            lemma_byte_pow_monotone((i + 1) as nat, 16);
            lemma_byte_pow_widths();
        }
        v = v * 256 + bytes[i] as u128;
        i = i + 1;
    }
    assert(bytes@.subrange(0, 16) =~= bytes@);
    v
}

fn read_be_u64(bytes: &[u8; 8]) -> (r: u64)
    ensures
        r == be_value(bytes@),
{
    let mut v: u64 = 0;
    let mut i: usize = 0;
    while i < 8
        invariant
            i <= 8,
            bytes@.len() == 8,
            v == be_value(bytes@.subrange(0, i as int)),
        decreases 8 - i,
    {
        let ghost next = bytes@.subrange(0, i + 1);
        proof {
            assert(next.drop_last() =~= bytes@.subrange(0, i as int));
            lemma_be_value_bound(next);
            lemma_byte_pow_monotone((i + 1) as nat, 8);
            lemma_byte_pow_widths();
        }
        v = v * 256 + bytes[i] as u64;
        i = i + 1;
    }
    assert(bytes@.subrange(0, 8) =~= bytes@);
    v
}

/// An 8-byte identifier of one span within a trace. Zero is the invalid
/// identifier.
#[derive(Clone, Copy, Debug, PartialEq, Eq, Structural, Hash)]
pub struct SpanId(u64);

impl View for SpanId {
    type V = u64;

    closed spec fn view(&self) -> u64 {
        self.0
    }
}

impl SpanId {
    /// The invalid (zero) span id.
    pub fn invalid() -> (r: Self)
        ensures
            r@ == 0,
    {
        SpanId(0)
    }

    /// Wraps a raw 64-bit value; zero is accepted.
    pub fn from_u64(item: u64) -> (r: Self)
        ensures
            r@ == item,
    {
        SpanId(item)
    }

    pub fn to_u64(self) -> (r: u64)
        ensures
            r == self@,
    {
        self.0
    }

    /// Sixteen lowercase hexadecimal digits, zero-padded.
    pub fn to_hex(self) -> (r: String)
        ensures
            r@ == hex_encode(be_bytes(self@ as nat, 8)),
            r@.len() == 16,
    {
        let bytes = self.to_byte_array();
        proof {
            crate::encoding::lemma_hex_encode_value(bytes@);
        }
        encode_hex(bytes.as_slice())
    }

    /// The eight big-endian bytes of the id.
    pub fn to_byte_array(self) -> (r: [u8; 8])
        ensures
            r@ == be_bytes(self@ as nat, 8),
    {
        let ghost v = self.0 as nat;
        let mut out = [0u8; 8];
        let mut rest: u64 = self.0;
        let mut i: usize = 8;
        assert(byte_pow(0) == 1);
        assert(v / 1 == v);
        while i > 0
            invariant
                i <= 8,
                out@.len() == 8,
                rest as nat == v / byte_pow((8 - i) as nat),
                forall|k: int| i <= k < 8 ==> out@[k] == #[trigger] be_bytes(v, 8)[k],
            decreases i,
        {
            i = i - 1;
            out[i] = (rest % 256) as u8;
            proof {
                let e = (7 - i) as nat;
                lemma_byte_pow_positive(e);
                lemma_div_denominator(v as int, byte_pow(e) as int, 256);
                assert(byte_pow((8 - i) as nat) == 256 * byte_pow(e));
            }
            rest = rest / 256;
        }
        assert(out@ =~= be_bytes(v, 8));
        out
    }

    /// Parses hexadecimal text; any text that is not a base-16 numeral that
    /// fits in 64 bits gives the invalid id.
    pub fn from_hex(hex: &str) -> (r: Self)
        ensures
            r@ == lenient_hex(hex@, u64::MAX as nat),
    {
        let v = parse_hex_lenient(hex, u64::MAX as u128);
        SpanId(v as u64)
    }

    /// The id whose big-endian bytes are `byte_array`.
    pub fn from_byte_array(byte_array: [u8; 8]) -> (r: Self)
        ensures
            r@ == be_value(byte_array@),
    {
        SpanId(read_be_u64(&byte_array))
    }
}

proof fn lemma_id_round_trip(x: nat, width: nat, max: nat)
    requires
        width > 0,
        x <= max,
        max < byte_pow(width),
    ensures
        be_value(be_bytes(x, width)) == x,
        lenient_hex(hex_encode(be_bytes(x, width)), max) == x,
{
    let bytes = be_bytes(x, width);
    lemma_be_bytes_value(x, width);
    lemma_hex_encode_value(bytes);
}

/// A trace id read back from its big-endian bytes, or parsed back from its
/// hexadecimal text, is the id it was written from.
pub proof fn lemma_trace_id_round_trip(x: u128)
    ensures
        be_value(be_bytes(x as nat, 16)) == x,
        lenient_hex(hex_encode(be_bytes(x as nat, 16)), u128::MAX as nat) == x,
{
    lemma_byte_pow_widths();
    lemma_id_round_trip(x as nat, 16, u128::MAX as nat);
}

/// A span id read back from its big-endian bytes, or parsed back from its
/// hexadecimal text, is the id it was written from.
pub proof fn lemma_span_id_round_trip(x: u64)
    ensures
        be_value(be_bytes(x as nat, 8)) == x,
        lenient_hex(hex_encode(be_bytes(x as nat, 8)), u64::MAX as nat) == x,
{
    lemma_byte_pow_widths();
    lemma_id_round_trip(x as nat, 8, u64::MAX as nat);
}

/// Text with a character that is not a hexadecimal digit, a sign
/// included, parses leniently to zero, the invalid id.
pub proof fn lemma_non_hex_text_is_invalid(s: Seq<char>, i: int, max: nat)
    requires
        0 <= i < s.len(),
        hex_digit_value(s[i]) is None,
    ensures
        lenient_hex(s, max) == 0,
{
    assert(!all_hex_digits(s));
}

/// Empty text, and text whose value exceeds `max`, parse leniently to zero.
pub proof fn lemma_empty_or_large_hex_is_invalid(s: Seq<char>, max: nat)
    requires
        s.len() == 0 || hex_value(s) > max,
    ensures
        lenient_hex(s, max) == 0,
{
}

/// The fields of a span context as plain values.
pub struct SpanContextView {
    pub trace_id: u128,
    pub span_id: u64,
    pub trace_flags: u8,
    pub is_remote: bool,
    pub trace_state: Members,
}

/// The immutable part of a span that is propagated: trace id, span id,
/// trace flags, whether it came from a remote parent, and the trace state.
#[derive(Debug)]
pub struct SpanContext {
    trace_id: TraceId,
    span_id: SpanId,
    trace_flags: u8,
    is_remote: bool,
    trace_state: TraceState,
}

impl View for SpanContext {
    type V = SpanContextView;

    closed spec fn view(&self) -> SpanContextView {
        SpanContextView {
            trace_id: self.trace_id@,
            span_id: self.span_id@,
            trace_flags: self.trace_flags,
            is_remote: self.is_remote,
            trace_state: self.trace_state@,
        }
    }
}

/// Both identifiers are non-zero.
pub open spec fn ids_valid(trace_id: u128, span_id: u64) -> bool {
    trace_id != 0 && span_id != 0
}

/// The bits of `mask` are all set in `flags`.
pub open spec fn flag_set(flags: u8, mask: u8) -> bool {
    flags & mask == mask
}

impl SpanContext {
    /// The invalid context: zero ids, no flags, local, empty trace state.
    pub fn empty_context() -> (r: Self)
        ensures
            r@.trace_id == 0,
            r@.span_id == 0,
            r@.trace_flags == 0,
            !r@.is_remote,
            r@.trace_state == Seq::<(Seq<char>, Seq<char>)>::empty(),
    {
        SpanContext::new(TraceId::invalid(), SpanId::invalid(), 0, false, TraceState::default())
    }

    /// Gathers the parts as given; nothing is checked.
    pub fn new(
        trace_id: TraceId,
        span_id: SpanId,
        trace_flags: u8,
        is_remote: bool,
        trace_state: TraceState,
    ) -> (r: Self)
        ensures
            r@.trace_id == trace_id@,
            r@.span_id == span_id@,
            r@.trace_flags == trace_flags,
            r@.is_remote == is_remote,
            r@.trace_state == trace_state@,
    {
        SpanContext { trace_id, span_id, trace_flags, is_remote, trace_state }
    }

    pub fn trace_id(&self) -> (r: TraceId)
        ensures
            r@ == self@.trace_id,
    {
        self.trace_id
    }

    pub fn span_id(&self) -> (r: SpanId)
        ensures
            r@ == self@.span_id,
    {
        self.span_id
    }

    pub fn trace_flags(&self) -> (r: u8)
        ensures
            r == self@.trace_flags,
    {
        self.trace_flags
    }

    /// Both the trace id and the span id are non-zero.
    pub fn is_valid(&self) -> (r: bool)
        ensures
            r == ids_valid(self@.trace_id, self@.span_id),
    {
        self.trace_id.0 != 0 && self.span_id.0 != 0
    }

    /// The context was propagated from a remote parent.
    pub fn is_remote(&self) -> (r: bool)
        ensures
            r == self@.is_remote,
    {
        self.is_remote
    }

    pub fn is_deferred(&self) -> (r: bool)
        ensures
            r == flag_set(self@.trace_flags, TRACE_FLAG_DEFERRED),
    {
        (self.trace_flags & TRACE_FLAG_DEFERRED) == TRACE_FLAG_DEFERRED
    }

    pub fn is_debug(&self) -> (r: bool)
        ensures
            r == flag_set(self@.trace_flags, TRACE_FLAG_DEBUG),
    {
        (self.trace_flags & TRACE_FLAG_DEBUG) == TRACE_FLAG_DEBUG
    }

    pub fn is_sampled(&self) -> (r: bool)
        ensures
            r == flag_set(self@.trace_flags, TRACE_FLAG_SAMPLED),
    {
        (self.trace_flags & TRACE_FLAG_SAMPLED) == TRACE_FLAG_SAMPLED
    }

    /// A copy of the context's trace state.
    pub fn trace_state(&self) -> (r: TraceState)
        ensures
            r@ == self@.trace_state,
            keys_unique(r@),
    {
        self.trace_state.copied()
    }
}

impl Clone for SpanContext {
    fn clone(&self) -> (r: SpanContext)
        ensures
            r@ == self@,
    {
        SpanContext {
            trace_id: self.trace_id,
            span_id: self.span_id,
            trace_flags: self.trace_flags,
            is_remote: self.is_remote,
            trace_state: self.trace_state.copied(),
        }
    }
}

impl PartialEq for SpanContext {
    fn eq(&self, other: &SpanContext) -> (r: bool) {
        self.trace_id.0 == other.trace_id.0 && self.span_id.0 == other.span_id.0
            && self.trace_flags == other.trace_flags && self.is_remote == other.is_remote
            && self.trace_state == other.trace_state
    }
}

impl vstd::std_specs::cmp::PartialEqSpecImpl for SpanContext {
    open spec fn obeys_eq_spec() -> bool {
        true
    }

    open spec fn eq_spec(&self, other: &SpanContext) -> bool {
        self@ == other@
    }
}

} // verus!
