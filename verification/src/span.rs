//! Spans and their identifiers.
use vstd::prelude::*;

verus! {

/// Identifier of a trace: drawn once for a root span and copied to every
/// descendant.
#[derive(Clone, Copy, Debug, PartialEq, Eq, Hash, Structural)]
pub struct TraceId {
    pub value: u128,
}

/// Identifier of one span within its trace.
#[derive(Clone, Copy, Debug, PartialEq, Eq, Hash, Structural)]
pub struct SpanId {
    pub value: u64,
}

impl TraceId {
    /// The identifier with the value `value`.
    pub fn new(value: u128) -> (id: TraceId)
        ensures
            id.value == value,
    {
        TraceId { value }
    }
}

impl SpanId {
    /// The identifier with the value `value`.
    pub fn new(value: u64) -> (id: SpanId)
        ensures
            id.value == value,
    {
        SpanId { value }
    }
}

/// What a span is, as a mathematical value.
pub struct SpanView {
    pub trace_id: TraceId,
    pub id: SpanId,
    pub parent_id: Option<SpanId>,
    pub name: Option<Seq<char>>,
}

impl SpanView {
    /// The first span of the trace `trace_id`.
    pub open spec fn root(trace_id: TraceId, id: SpanId) -> SpanView {
        SpanView { trace_id, id, parent_id: None, name: None }
    }

    /// A span directly below `self` in the same trace.
    pub open spec fn child(self, id: SpanId) -> SpanView {
        SpanView { trace_id: self.trace_id, id, parent_id: Some(self.id), name: None }
    }

    /// `self` under the name `name`.
    pub open spec fn named(self, name: Seq<char>) -> SpanView {
        SpanView { name: Some(name), ..self }
    }

    /// `self` is a trace root.
    pub open spec fn is_root(self) -> bool {
        self.parent_id is None
    }

    /// `self` was created while `parent` was current.
    pub open spec fn follows(self, parent: SpanView) -> bool {
        self.trace_id == parent.trace_id && self.parent_id == Some(parent.id)
    }
}

/// A unit of traced work. Its identity never changes; its name can be set
/// until the span is handed to a sink.
#[derive(Debug)]
pub struct Span {
    trace_id: TraceId,
    id: SpanId,
    parent_id: Option<SpanId>,
    name: Option<String>,
}

impl View for Span {
    type V = SpanView;

    closed spec fn view(&self) -> SpanView {
        SpanView {
            trace_id: self.trace_id,
            id: self.id,
            parent_id: self.parent_id,
            name: match self.name {
                Some(name) => Some(name@),
                None => None,
            },
        }
    }
}

impl Span {
    /// Starts a new trace.
    pub fn root(trace_id: TraceId, id: SpanId) -> (span: Span)
        ensures
            span@ == SpanView::root(trace_id, id),
    {
        Span { trace_id, id, parent_id: None, name: None }
    }

    /// Creates a span below `self`, in the trace of `self`.
    pub fn child(&self, id: SpanId) -> (span: Span)
        ensures
            span@ == self@.child(id),
    {
        Span { trace_id: self.trace_id, id, parent_id: Some(self.id), name: None }
    }

    /// Sets the name, replacing an earlier one.
    pub fn with_name(self, name: &str) -> (span: Span)
        ensures
            span@ == self@.named(name@),
    {
        Span { trace_id: self.trace_id, id: self.id, parent_id: self.parent_id, name: Some(name.to_owned()) }
    }

    /// The trace that the span belongs to.
    pub fn trace_id(&self) -> (trace_id: TraceId)
        ensures
            trace_id == self@.trace_id,
    {
        self.trace_id
    }

    /// The identifier of the span.
    pub fn id(&self) -> (id: SpanId)
        ensures
            id == self@.id,
    {
        self.id
    }

    /// The identifier of the span below which this one was created, or
    /// `None` for the root of a trace.
    pub fn parent_id(&self) -> (parent_id: Option<SpanId>)
        ensures
            parent_id == self@.parent_id,
    {
        self.parent_id
    }

    /// The name of the span, if one was set.
    pub fn name(&self) -> (name: Option<&str>)
        ensures
            match name {
                Some(text) => self@.name == Some(text@),
                None => self@.name is None,
            },
    {
        match &self.name {
            Some(name) => Some(name.as_str()),
            None => None,
        }
    }
}

/// The views of a run of spans, in the same order.
pub open spec fn views(spans: Seq<Span>) -> Seq<SpanView> {
    spans.map_values(|span: Span| span@)
}

} // verus!
