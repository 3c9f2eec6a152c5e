//! Distributed-tracing context: identifiers and flags, the propagation
//! header codec, and the per-request decisions of the tracing layer.
use vstd::prelude::*;

pub mod id;
pub mod layer;
pub mod propagation;
pub mod span;

pub use id::{Flags, Id};
pub use layer::{child_context, emit, resolve_context, Config, Emission, RequestContext};
pub use propagation::{decode, encode, Context, DecodeError};
pub use span::{BoundedSink, SinkError, Span, SpanSink};

verus! {

} // verus!
