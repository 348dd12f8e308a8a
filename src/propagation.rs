//! Trace-context propagation across a network hop through a header carrier,
//! and the parent/child linkage of the spans on either side.

use std::collections::HashMap;

use opentelemetry::propagation::TextMapPropagator;
use opentelemetry::trace::{SpanContext, SpanId, TraceContextExt, TraceFlags, TraceId, TraceState};
use opentelemetry::Context;
use opentelemetry_sdk::propagation::TraceContextPropagator;
use vstd::prelude::*;

use crate::headers::{HeaderMap, HeaderSeq, first_value, lemma_without_has_no_name, without};

verus! {

/// The header that carries the trace context.
pub open spec fn traceparent_name() -> Seq<char> {
    seq!['t', 'r', 'a', 'c', 'e', 'p', 'a', 'r', 'e', 'n', 't']
}

pub open spec fn hex_digit(n: nat) -> char {
    seq!['0', '1', '2', '3', '4', '5', '6', '7', '8', '9', 'a', 'b', 'c', 'd', 'e', 'f'][n as int]
}

/// The lowest `width` hexadecimal digits of `n`, lower case, most
/// significant first.
pub open spec fn hex_text(n: nat, width: nat) -> Seq<char>
    decreases width,
{
    if width == 0 {
        Seq::empty()
    } else {
        hex_text(n / 16, (width - 1) as nat).push(hex_digit(n % 16))
    }
}

/// The version-0 header value: `00-<trace id>-<span id>-<flags>`, with 32, 16
/// and 2 hexadecimal digits.
pub open spec fn traceparent_text(trace_id: u128, span_id: u64, flags: u8) -> Seq<char> {
    seq!['0', '0', '-'] + hex_text(trace_id as nat, 32) + seq!['-'] + hex_text(span_id as nat, 16)
        + seq!['-'] + hex_text(flags as nat, 2)
}

/// How many `-` a header value holds.
pub open spec fn dash_count(s: Seq<char>) -> nat
    decreases s.len(),
{
    if s.len() == 0 {
        0
    } else {
        dash_count(s.drop_last()) + if s.last() == '-' {
            1nat
        } else {
            0nat
        }
    }
}

/// What the trace-context propagator reads from a header value: trace id,
/// span id and flags, all zero when it rejects the value.
pub uninterp spec fn traceparent_decoded(header: Seq<char>) -> (u128, u64, u8);

/// Relies on `TraceContextPropagator::inject_context` of opentelemetry_sdk:
/// for a span context with non-zero trace and span ids it sets `traceparent`
/// to `00-{trace:032x}-{span:016x}-{flags & SAMPLED:02x}`; for any other it
/// sets nothing.
#[verifier::external_body]
fn otel_inject(trace_id: u128, span_id: u64, flags: u8) -> (r: Option<String>)
    ensures
        trace_id != 0 && span_id != 0 ==> r is Some && r->Some_0@ == traceparent_text(
            trace_id,
            span_id,
            flags & 1,
        ),
        !(trace_id != 0 && span_id != 0) ==> r is None,
{
    let sc = SpanContext::new(
        TraceId::from(trace_id),
        SpanId::from(span_id),
        TraceFlags::new(flags),
        false,
        TraceState::default(),
    );
    let cx = Context::new().with_remote_span_context(sc);
    let mut carrier: HashMap<String, String> = HashMap::new();
    TraceContextPropagator::new().inject_context(&cx, &mut carrier);
    carrier.remove("traceparent")
}

/// Relies on `TraceContextPropagator::extract_with_context` of
/// opentelemetry_sdk, given an empty context and a carrier whose only header
/// is `traceparent`: the ids of the remote span
/// context it finds, or the empty span context (all zero) when it rejects
/// the value. It splits the value at `-` and rejects fewer than four parts;
/// it reads back a version-0 value with lower-case digits and flags at most
/// 1; it keeps only the sampled bit of the flags; a span context it accepts
/// has non-zero ids.
#[verifier::external_body]
fn otel_extract(header: &str) -> (r: (u128, u64, u8))
    ensures
        r == traceparent_decoded(header@),
        (r.0 == 0) == (r.1 == 0),
        r.2 <= 1,
        dash_count(header@) < 3 ==> r == (0u128, 0u64, 0u8),
        forall|t: u128, s: u64, f: u8|
            t != 0 && s != 0 && f <= 1 && header@ == #[trigger] traceparent_text(t, s, f) ==> r == (
            t,
            s,
            f,
        ),
{
    let mut carrier: HashMap<String, String> = HashMap::new();
    carrier.insert("traceparent".to_string(), header.to_string());
    let cx = TraceContextPropagator::new().extract_with_context(&Context::new(), &carrier);
    let span = cx.span();
    let sc = span.span_context();
    (
        u128::from_be_bytes(sc.trace_id().to_bytes()),
        u64::from_be_bytes(sc.span_id().to_bytes()),
        sc.trace_flags().to_u8(),
    )
}

/// A trace context: the trace a span belongs to, the span, and its flags
/// (bit 0: sampled).
#[derive(Debug, Clone, Copy, PartialEq, Eq, Structural)]
pub struct TraceContext {
    pub trace_id: u128,
    pub span_id: u64,
    pub flags: u8,
}

impl TraceContext {
    pub open spec fn valid(&self) -> bool {
        self.trace_id != 0 && self.span_id != 0
    }

    /// Whether both ids are non-zero.
    pub fn is_valid(&self) -> (r: bool)
        ensures
            r == self.valid(),
    {
        self.trace_id != 0 && self.span_id != 0
    }
}

/// One span as recorded: its trace, its id, and the span it descends from.
#[derive(Debug, Clone, Copy, PartialEq, Eq, Structural)]
pub struct SpanRecord {
    pub trace_id: u128,
    pub span_id: u64,
    pub parent_span_id: Option<u64>,
}

/// The span a handler starts: a child of `parent` when there is one, else
/// the root of a fresh trace.
pub open spec fn start_span_spec(parent: Option<TraceContext>, fresh_trace_id: u128, fresh_span_id: u64) -> SpanRecord {
    match parent {
        Some(p) => SpanRecord { trace_id: p.trace_id, span_id: fresh_span_id, parent_span_id: Some(p.span_id) },
        None => SpanRecord { trace_id: fresh_trace_id, span_id: fresh_span_id, parent_span_id: None },
    }
}

impl SpanRecord {
    /// Starts a span under `parent`, or a new root; the fresh ids come from
    /// the caller's id generator.
    pub fn start(parent: Option<TraceContext>, fresh_trace_id: u128, fresh_span_id: u64) -> (r: SpanRecord)
        ensures
            r == start_span_spec(parent, fresh_trace_id, fresh_span_id),
    {
        match parent {
            Some(p) => SpanRecord { trace_id: p.trace_id, span_id: fresh_span_id, parent_span_id: Some(p.span_id) },
            None => SpanRecord { trace_id: fresh_trace_id, span_id: fresh_span_id, parent_span_id: None },
        }
    }

    /// The context to hand on for this span.
    pub fn context(&self, sampled: bool) -> (r: TraceContext)
        ensures
            r == (TraceContext { trace_id: self.trace_id, span_id: self.span_id, flags: if sampled { 1u8 } else { 0u8 } }),
    {
        TraceContext { trace_id: self.trace_id, span_id: self.span_id, flags: if sampled { 1u8 } else { 0u8 } }
    }

    /// Whether this span is a direct child of `other`.
    pub fn is_child_of(&self, other: &SpanRecord) -> (r: bool)
        ensures
            r == (self.trace_id == other.trace_id && self.parent_span_id == Some(other.span_id)),
    {
        self.trace_id == other.trace_id && match self.parent_span_id {
            Some(p) => p == other.span_id,
            None => false,
        }
    }
}

/// The carrier after injecting `c`: a valid context replaces any
/// `traceparent` by its own; an invalid one leaves the carrier as it was.
pub open spec fn inject_spec(h: HeaderSeq, c: TraceContext) -> HeaderSeq {
    if c.valid() {
        without(h, traceparent_name()).push(
            (traceparent_name(), traceparent_text(c.trace_id, c.span_id, c.flags & 1)),
        )
    } else {
        h
    }
}

/// The parent a decoded triple stands for: none when the ids are zero.
pub open spec fn parent_of(d: (u128, u64, u8)) -> Option<TraceContext> {
    if d.0 != 0 && d.1 != 0 {
        Some(TraceContext { trace_id: d.0, span_id: d.1, flags: d.2 })
    } else {
        None
    }
}

/// The parent context a carrier yields.
pub open spec fn extract_spec(h: HeaderSeq) -> Option<TraceContext> {
    match first_value(h, traceparent_name()) {
        None => None,
        Some(v) => parent_of(traceparent_decoded(v)),
    }
}

/// The propagation configuration: set up once, then shared read-only by
/// every task that injects or extracts.
#[derive(Debug, Clone, Copy)]
pub struct Propagator;

impl Propagator {
    pub fn new() -> (r: Propagator) {
        Propagator
    }

    /// Writes `cx` into `carrier` as its `traceparent` header; an invalid
    /// context writes nothing. It never fails.
    pub fn inject(&self, cx: &TraceContext, carrier: &mut HeaderMap)
        ensures
            final(carrier)@ == inject_spec(old(carrier)@, *cx),
    {
        match otel_inject(cx.trace_id, cx.span_id, cx.flags) {
            Some(v) => {
                let name = "traceparent".to_owned();
                proof {
                    reveal_strlit("traceparent");
                }
                assert(name@ =~= traceparent_name());
                carrier.insert(name, v);
            },
            None => {},
        }
    }

    /// Reads the parent context from `carrier`. A missing, empty or malformed
    /// header gives `None` ("no parent"); it never fails.
    pub fn extract(&self, carrier: &HeaderMap) -> (r: Option<TraceContext>)
        ensures
            r == extract_spec(carrier@),
            r matches Some(c) ==> c.valid() && c.flags <= 1,
            first_value(carrier@, traceparent_name()) is None ==> r is None,
            first_value(carrier@, traceparent_name()) matches Some(v) && dash_count(v) < 3 ==> r is None,
            forall|c: TraceContext|
                c.valid() && c.flags <= 1 && first_value(carrier@, traceparent_name()) == Some(
                    #[trigger] traceparent_text(c.trace_id, c.span_id, c.flags),
                ) ==> r == Some(c),
    {
        let name = "traceparent".to_owned();
        proof {
            reveal_strlit("traceparent");
        }
        assert(name@ =~= traceparent_name());
        match carrier.get(&name) {
            None => None,
            Some(v) => {
                let d = otel_extract(v.as_str());
                if d.0 != 0 && d.1 != 0 {
                    Some(TraceContext { trace_id: d.0, span_id: d.1, flags: d.2 })
                } else {
                    None
                }
            },
        }
    }

    /// The server side of a hop: the span a handler starts for a request
    /// carrying `incoming`, a child of the caller's span when the headers
    /// name one, else a fresh root.
    pub fn continue_trace(&self, incoming: &HeaderMap, fresh_trace_id: u128, fresh_span_id: u64) -> (r: SpanRecord)
        ensures
            r == start_span_spec(extract_spec(incoming@), fresh_trace_id, fresh_span_id),
    {
        let parent = self.extract(incoming);
        SpanRecord::start(parent, fresh_trace_id, fresh_span_id)
    }
}

/// After injecting a valid context, the first `traceparent` of the carrier
/// is the one written for that context, whatever the carrier held before.
pub proof fn law_injected_header_is_read_first(h: HeaderSeq, c: TraceContext)
    requires
        c.valid(),
    ensures
        first_value(inject_spec(h, c), traceparent_name()) == Some(
            traceparent_text(c.trace_id, c.span_id, c.flags & 1),
        ),
{
    let w = without(h, traceparent_name());
    lemma_without_has_no_name(h, traceparent_name());
    let v = traceparent_text(c.trace_id, c.span_id, c.flags & 1);
    assert(w.push((traceparent_name(), v)).drop_last() =~= w);
}

/// A span started under an extracted parent belongs to the parent's trace and
/// records the parent's span as its own parent.
pub proof fn law_child_links_to_parent(p: TraceContext, fresh_trace_id: u128, fresh_span_id: u64)
    ensures
        start_span_spec(Some(p), fresh_trace_id, fresh_span_id).trace_id == p.trace_id,
        start_span_spec(Some(p), fresh_trace_id, fresh_span_id).parent_span_id == Some(p.span_id),
{
}

/// A carrier with no `traceparent` yields no parent.
pub proof fn law_absent_header_gives_no_parent(h: HeaderSeq)
    requires
        first_value(h, traceparent_name()) is None,
    ensures
        extract_spec(h) is None,
{
}

} // verus!
