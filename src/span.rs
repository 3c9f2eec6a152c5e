//! Completed spans and the sinks that accept them.
use crate::id::Id;
use vstd::prelude::*;

verus! {

/// One completed unit of work. Times are nanoseconds since the Unix epoch.
#[derive(Debug)]
pub struct Span {
    pub trace_id: Id,
    pub span_id: Id,
    pub parent_id: Id,
    pub span_name: String,
    pub start: u64,
    pub end: u64,
}

impl Span {
    /// A span never ends before it starts.
    pub open spec fn wf(&self) -> bool {
        self.start <= self.end
    }
}

/// Why a sink did not take a span.
#[derive(Debug, Clone, Copy, PartialEq, Eq, Structural)]
pub enum SinkError {
    /// The sink is at capacity for now; the span is dropped.
    Full,
    /// The sink is gone for good.
    Closed,
}

/// A consumer of completed spans. `try_send` never waits: it takes the span
/// or reports at once why it did not.
pub trait SpanSink {
    fn try_send(&mut self, span: Span) -> Result<(), SinkError>;
}

/// A sink that buffers up to a fixed number of spans in memory.
pub struct BoundedSink {
    spans: Vec<Span>,
    capacity: usize,
    closed: bool,
}

impl BoundedSink {
    /// The spans held, oldest first.
    pub closed spec fn spans(&self) -> Seq<Span> {
        self.spans@
    }

    pub closed spec fn capacity(&self) -> nat {
        self.capacity as nat
    }

    pub closed spec fn is_closed(&self) -> bool {
        self.closed
    }

    /// The sink never holds more spans than its capacity.
    pub open spec fn wf(&self) -> bool {
        self.spans().len() <= self.capacity()
    }

    /// An open, empty sink that holds at most `capacity` spans.
    pub fn new(capacity: usize) -> (r: BoundedSink)
        ensures
            r.spans().len() == 0,
            r.capacity() == capacity,
            !r.is_closed(),
            r.wf(),
    {
        BoundedSink { spans: Vec::new(), capacity, closed: false }
    }

    /// Number of spans held.
    pub fn len(&self) -> (r: usize)
        ensures
            r == self.spans().len(),
    {
        self.spans.len()
    }

    /// Whether the sink has been closed.
    pub fn closed(&self) -> (r: bool)
        ensures
            r == self.is_closed(),
    {
        self.closed
    }

    /// Closes the sink: every later send fails with `Closed`.
    pub fn close(&mut self)
        ensures
            final(self).is_closed(),
            final(self).spans() == old(self).spans(),
            final(self).capacity() == old(self).capacity(),
    {
        self.closed = true;
    }

    /// Takes the span if the sink is open and below capacity.
    pub fn push(&mut self, span: Span) -> (r: Result<(), SinkError>)
        ensures
            final(self).capacity() == old(self).capacity(),
            final(self).is_closed() == old(self).is_closed(),
            old(self).is_closed() ==> r == Err::<(), SinkError>(SinkError::Closed)
                && final(self).spans() == old(self).spans(),
            !old(self).is_closed() && old(self).spans().len() >= old(self).capacity() ==> r
                == Err::<(), SinkError>(SinkError::Full) && final(self).spans() == old(
                self,
            ).spans(),
            !old(self).is_closed() && old(self).spans().len() < old(self).capacity() ==> r
                == Ok::<(), SinkError>(()) && final(self).spans() == old(self).spans().push(span),
            old(self).wf() ==> final(self).wf(),
    {
        if self.closed {
            Err(SinkError::Closed)
        } else if self.spans.len() >= self.capacity {
            Err(SinkError::Full)
        } else {
            self.spans.push(span);
            Ok(())
        }
    }

    /// Removes and returns every span held, oldest first.
    pub fn take_spans(&mut self) -> (r: Vec<Span>)
        ensures
            r@ == old(self).spans(),
            final(self).spans().len() == 0,
            final(self).capacity() == old(self).capacity(),
            final(self).is_closed() == old(self).is_closed(),
            final(self).wf(),
    {
        let mut out: Vec<Span> = Vec::new();
        core::mem::swap(&mut out, &mut self.spans);
        out
    }
}

impl SpanSink for BoundedSink {
    fn try_send(&mut self, span: Span) -> Result<(), SinkError> {
        self.push(span)
    }
}

} // verus!
