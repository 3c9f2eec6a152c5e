//! The decisions that the tracing layer makes for each request: which
//! context the request continues, what header goes downstream, which span is
//! built when the work ends, and what became of it at the sink.
use crate::id::{Flags, Id, SPAN_ID_LEN, TRACE_ID_LEN};
use crate::propagation::{
    all_hex, decode, decode_spec, encode, encode_spec, field_error, fields_error,
    lemma_decode_lengths, lemma_round_trip, split_fields, DecodeError, SUPPORTED_VERSION,
};
use crate::span::{SinkError, Span, SpanSink};
use vstd::prelude::*;

verus! {

/// How the layer behaves where nothing is inherited.
pub struct Config {
    /// Whether a trace that this proxy originates is sampled.
    pub default_sampled: bool,
    /// Name of the header that carries the context.
    pub header_name: String,
}

/// The flags byte of a trace that this proxy originates.
pub open spec fn default_flags(sampled: bool) -> u8 {
    if sampled {
        1
    } else {
        0
    }
}

/// What a request inherits from its incoming header: (version, trace id,
/// parent id, flags), or nothing where the header is absent or malformed.
pub open spec fn inherited(header: Option<&str>) -> Option<(u8, Seq<u8>, Seq<u8>, u8)> {
    match header {
        Some(h) => match decode_spec(h@) {
            Ok(c) => Some(c),
            Err(_) => None,
        },
        None => None,
    }
}

/// The trace context of one request as it passes this proxy.
#[derive(Debug)]
pub struct RequestContext {
    pub trace_id: Id,
    pub span_id: Id,
    pub parent_id: Id,
    pub flags: Flags,
}

/// What became of a request's span.
#[derive(Debug, Clone, Copy, PartialEq, Eq, Structural)]
pub enum Emission {
    /// The trace is not sampled: no span was built.
    Skipped,
    /// The sink took the span.
    Emitted,
    /// The sink refused the span, which is dropped.
    Dropped(SinkError),
}

/// The context of a request, given its incoming header, a trace id to use if
/// it starts a new trace, and the span id of this hop.
pub fn child_context(config: &Config, header: Option<&str>, fresh_trace_id: Id, span_id: Id) -> (r:
    RequestContext)
    ensures
        r.span_id@ == span_id@,
        match inherited(header) {
            Some(c) => r.trace_id@ == c.1 && r.parent_id@ == c.2 && r.flags.0 == c.3,
            None => r.trace_id@ == fresh_trace_id@ && r.parent_id@.len() == 0 && r.flags.0
                == default_flags(config.default_sampled),
        },
{
    if let Some(h) = header {
        if let Ok(c) = decode(h) {
            return RequestContext {
                trace_id: c.trace_id,
                span_id,
                parent_id: c.parent_id,
                flags: c.flags,
            };
        }
    }
    let flags = if config.default_sampled {
        Flags(1)
    } else {
        Flags(0)
    };
    RequestContext { trace_id: fresh_trace_id, span_id, parent_id: Id::empty(), flags }
}

/// The context of a request: inherited from its header where that decodes,
/// else a new trace with a random trace id; always a random span id.
pub fn resolve_context(config: &Config, header: Option<&str>) -> (r: RequestContext)
    ensures
        r.span_id@.len() == SPAN_ID_LEN,
        match inherited(header) {
            Some(c) => r.trace_id@ == c.1 && r.parent_id@ == c.2 && r.flags.0 == c.3,
            None => r.trace_id@.len() == TRACE_ID_LEN && r.parent_id@.len() == 0 && r.flags.0
                == default_flags(config.default_sampled),
        },
{
    child_context(config, header, Id::new_trace_id(), Id::new_span_id())
}

impl RequestContext {
    /// The header for requests sent downstream: same trace and flags, with
    /// this hop's span as the parent.
    pub fn outgoing_header(&self) -> (r: String)
        ensures
            r@ == encode_spec(SUPPORTED_VERSION, self.trace_id@, self.span_id@, self.flags.0),
    {
        encode(SUPPORTED_VERSION, &self.trace_id, &self.span_id, self.flags)
    }

    /// The finished span of this hop, or `None` where the trace is not
    /// sampled. A clock that went back is read as no time passing.
    pub fn finish(self, span_name: String, start: u64, end: u64) -> (r: Option<Span>)
        ensures
            self.flags.0 % 2 == 0 ==> r is None,
            self.flags.0 % 2 == 1 ==> (r matches Some(s) && s.trace_id@ == self.trace_id@
                && s.span_id@ == self.span_id@ && s.parent_id@ == self.parent_id@ && s.span_name@
                == span_name@ && s.start == start && s.end == (if end >= start {
                end
            } else {
                start
            })),
            r matches Some(s) ==> s.wf(),
    {
        if !self.flags.is_sampled() {
            return None;
        }
        let end = if end >= start {
            end
        } else {
            start
        };
        Some(
            Span {
                trace_id: self.trace_id,
                span_id: self.span_id,
                parent_id: self.parent_id,
                span_name,
                start,
                end,
            },
        )
    }
}

impl Emission {
    /// The outcome of a span that was offered to a sink, given the sink's answer.
    pub fn from_send(sent: Result<(), SinkError>) -> (r: Emission)
        ensures
            match sent {
                Ok(()) => r == Emission::Emitted,
                Err(e) => r == Emission::Dropped(e),
            },
    {
        match sent {
            Ok(()) => Emission::Emitted,
            Err(e) => Emission::Dropped(e),
        }
    }
}

/// Hands a finished span, if any, to the sink. A refusal is reported, never
/// propagated: the request's own result does not depend on it.
pub fn emit<S: SpanSink>(sink: &mut S, span: Option<Span>) -> (r: Emission)
    ensures
        span is None <==> r == Emission::Skipped,
{
    match span {
        None => Emission::Skipped,
        Some(s) => Emission::from_send(sink.try_send(s)),
    }
}

/// The width in hexadecimal digits of the `k`-th header field.
pub open spec fn field_width(k: int) -> nat {
    if k == 1 {
        32
    } else if k == 2 {
        16
    } else {
        2
    }
}

/// A header with the wrong number of fields, a field of the wrong width, or
/// a character that is not a lowercase hexadecimal digit fails to decode, so
/// the request has nothing to inherit and starts a new trace.
pub proof fn lemma_malformed_header_starts_new_trace(h: &str)
    requires
        split_fields(h@).len() != 4 || (exists|k: int|
            0 <= k < 4 && #[trigger] split_fields(h@)[k].len() != field_width(k)) || (exists|
            k: int,
        |
            0 <= k < 4 && !all_hex(#[trigger] split_fields(h@)[k])),
    ensures
        decode_spec(h@) is Err,
        inherited(Some(h)) is None,
{
    let f = split_fields(h@);
    if f.len() == 4 {
        if exists|k: int| 0 <= k < 4 && #[trigger] f[k].len() != field_width(k) {
            let k = choose|k: int| 0 <= k < 4 && #[trigger] f[k].len() != field_width(k);
            assert(field_error(f[k], field_width(k)) is Some);
        } else {
            let k = choose|k: int| 0 <= k < 4 && !all_hex(#[trigger] f[k]);
            assert(f[k].len() == field_width(k));
            assert(field_error(f[k], field_width(k)) is Some);
        }
        assert(fields_error(f) is Some);
    }
}

/// A request whose header decodes continues that trace, and the header it
/// sends on decodes to the same trace id and flags, with this hop's span id
/// as the parent.
pub proof fn lemma_context_propagates(
    header: Option<&str>,
    default_sampled: bool,
    ctx_trace: Seq<u8>,
    ctx_span: Seq<u8>,
    ctx_flags: u8,
)
    requires
        ctx_span.len() == SPAN_ID_LEN,
        match inherited(header) {
            Some(c) => ctx_trace == c.1 && ctx_flags == c.3,
            None => ctx_trace.len() == TRACE_ID_LEN && ctx_flags == default_flags(default_sampled),
        },
    ensures
        decode_spec(encode_spec(SUPPORTED_VERSION, ctx_trace, ctx_span, ctx_flags)) == Ok::<
            (u8, Seq<u8>, Seq<u8>, u8),
            DecodeError,
        >((SUPPORTED_VERSION, ctx_trace, ctx_span, ctx_flags)),
{
    if let Some(c) = inherited(header) {
        let h = header.unwrap();
        assert(decode_spec(h@) == Ok::<(u8, Seq<u8>, Seq<u8>, u8), DecodeError>(c));
        lemma_decode_lengths(h@);
    }
    lemma_round_trip(SUPPORTED_VERSION, ctx_trace, ctx_span, ctx_flags);
}

} // verus!
