//! The spans that are in progress in one execution context.
use crate::span::{views, Span, SpanId, SpanView, TraceId};
use vstd::prelude::*;

verus! {

/// The span that is created while `stack` holds the spans in progress,
/// outermost first: a child of the innermost one, or, with none in progress,
/// the root of the trace `fresh_trace`.
pub open spec fn next_after(stack: Seq<SpanView>, fresh_trace: TraceId, fresh_id: SpanId) -> SpanView {
    if stack.len() == 0 {
        SpanView::root(fresh_trace, fresh_id)
    } else {
        stack.last().child(fresh_id)
    }
}

/// Every span of `stack` but the outermost was created while the one below
/// it was current.
pub open spec fn is_lineage(stack: Seq<SpanView>) -> bool {
    forall|i: int| 0 < i < stack.len() ==> (#[trigger] stack[i]).follows(stack[i - 1])
}

/// Proof that a span was pushed, to be given back when it is popped.
#[derive(Debug)]
pub struct CurrentGuard {
    depth: usize,
    trace_id: TraceId,
    id: SpanId,
}

impl CurrentGuard {
    /// Number of spans that were in progress below the guarded one.
    pub closed spec fn depth(&self) -> nat {
        self.depth as nat
    }

    /// Trace of the guarded span.
    pub closed spec fn trace_id(&self) -> TraceId {
        self.trace_id
    }

    /// Identifier of the guarded span.
    pub closed spec fn id(&self) -> SpanId {
        self.id
    }

    /// The guarded span is the innermost of `stack`.
    pub open spec fn on_top_of(&self, stack: Seq<SpanView>) -> bool {
        &&& stack.len() == self.depth() + 1
        &&& stack.last().trace_id == self.trace_id()
        &&& stack.last().id == self.id()
    }
}

/// The spans in progress in one execution context, outermost first. The
/// innermost is the current span: the parent of whatever is created next.
pub struct ActiveContext {
    stack: Vec<Span>,
}

impl View for ActiveContext {
    type V = Seq<SpanView>;

    closed spec fn view(&self) -> Seq<SpanView> {
        views(self.stack@)
    }
}

impl ActiveContext {
    /// A context with nothing in progress.
    pub fn new() -> (context: ActiveContext)
        ensures
            context@ == Seq::<SpanView>::empty(),
    {
        ActiveContext { stack: Vec::new() }
    }

    /// Number of spans in progress.
    pub fn depth(&self) -> (depth: usize)
        ensures
            depth == self@.len(),
    {
        self.stack.len()
    }

    /// The current span, if any.
    pub fn current(&self) -> (current: Option<&Span>)
        ensures
            match current {
                Some(span) => self@.len() > 0 && span@ == self@.last(),
                None => self@.len() == 0,
            },
    {
        let depth = self.stack.len();
        if depth == 0 {
            None
        } else {
            Some(&self.stack[depth - 1])
        }
    }

    /// Creates the next span of this context without entering it: a child of
    /// the current span, or a root of the trace `fresh_trace` where nothing is
    /// current. `fresh_id` becomes its identifier.
    pub fn next_span(&self, fresh_trace: TraceId, fresh_id: SpanId) -> (span: Span)
        ensures
            span@ == next_after(self@, fresh_trace, fresh_id),
    {
        match self.current() {
            Some(parent) => parent.child(fresh_id),
            None => Span::root(fresh_trace, fresh_id),
        }
    }

    /// Makes `span` the current span.
    pub fn enter(&mut self, span: Span) -> (guard: CurrentGuard)
        ensures
            final(self)@ == old(self)@.push(span@),
            guard.depth() == old(self)@.len(),
            guard.trace_id() == span@.trace_id,
            guard.id() == span@.id,
            guard.on_top_of(final(self)@),
    {
        let guard = CurrentGuard { depth: self.stack.len(), trace_id: span.trace_id(), id: span.id() };
        proof {
            assert(views(self.stack@.push(span)) =~= views(self.stack@).push(span@));
        }
        self.stack.push(span);
        guard
    }

    /// Whether the span behind `guard` is the current one, so that `exit` may
    /// take it.
    pub fn holds(&self, guard: &CurrentGuard) -> (held: bool)
        ensures
            held == guard.on_top_of(self@),
    {
        let depth = self.stack.len();
        depth > 0 && depth - 1 == guard.depth && self.stack[depth - 1].trace_id() == guard.trace_id
            && self.stack[depth - 1].id() == guard.id
    }

    /// Takes the current span off again. The span behind `guard` must be the
    /// current one: spans leave in the reverse of the order in which they
    /// entered.
    pub fn exit(&mut self, guard: CurrentGuard) -> (span: Span)
        requires
            guard.on_top_of(old(self)@),
        ensures
            final(self)@ == old(self)@.drop_last(),
            span@ == old(self)@.last(),
    {
        proof {
            assert(views(self.stack@.drop_last()) =~= views(self.stack@).drop_last());
        }
        self.stack.pop().unwrap()
    }
}

/// All spans of a lineage are in one trace.
pub proof fn lemma_lineage_shares_trace_id(stack: Seq<SpanView>, i: int, j: int)
    requires
        is_lineage(stack),
        0 <= i < stack.len(),
        0 <= j < stack.len(),
    ensures
        stack[i].trace_id == stack[j].trace_id,
{
    lemma_lineage_is_in_trace_of_outermost(stack, i);
    lemma_lineage_is_in_trace_of_outermost(stack, j);
}

/// Every span of a lineage is in the trace of the outermost one.
pub proof fn lemma_lineage_is_in_trace_of_outermost(stack: Seq<SpanView>, i: int)
    requires
        is_lineage(stack),
        0 <= i < stack.len(),
    ensures
        stack[i].trace_id == stack[0].trace_id,
    decreases i,
{
    if i > 0 {
        assert(stack[i].follows(stack[i - 1]));
        lemma_lineage_is_in_trace_of_outermost(stack, i - 1);
    }
}

/// A span that is created while a lineage is in progress, and then entered,
/// extends the lineage: it is a child of the span that was current and lies
/// in the trace of every span in progress. With nothing in progress it is a
/// root, and a lineage of its own.
pub proof fn lemma_next_span_extends_lineage(stack: Seq<SpanView>, fresh_trace: TraceId, fresh_id: SpanId)
    requires
        is_lineage(stack),
    ensures
        is_lineage(stack.push(next_after(stack, fresh_trace, fresh_id))),
        stack.len() == 0 ==> next_after(stack, fresh_trace, fresh_id).is_root() && next_after(
            stack,
            fresh_trace,
            fresh_id,
        ).trace_id == fresh_trace,
        stack.len() > 0 ==> next_after(stack, fresh_trace, fresh_id).follows(stack.last()),
        forall|i: int|
            0 <= i < stack.len() ==> next_after(stack, fresh_trace, fresh_id).trace_id == (#[trigger] stack[i]).trace_id,
{
    let next = next_after(stack, fresh_trace, fresh_id);
    let grown = stack.push(next);
    assert forall|i: int| 0 < i < grown.len() implies (#[trigger] grown[i]).follows(grown[i - 1]) by {
        if i < stack.len() {
            assert(stack[i].follows(stack[i - 1]));
        }
    }
    assert forall|i: int| 0 <= i < stack.len() implies next.trace_id == (#[trigger] stack[i]).trace_id by {
        lemma_lineage_shares_trace_id(stack, i, stack.len() - 1);
    }
}

} // verus!
