//! Spans around code that runs to its end on one stack.
use crate::context::{next_after, ActiveContext, CurrentGuard};
use crate::sink::Sink;
use crate::span::{SpanId, SpanView, TraceId};
use vstd::prelude::*;

verus! {

/// What finishing the current span leaves behind: the spans still in
/// progress, and what the sink has been handed.
pub open spec fn finished(stack: Seq<SpanView>, delivered: Seq<SpanView>) -> (Seq<SpanView>, Seq<SpanView>) {
    (stack.drop_last(), delivered.push(stack.last()))
}

/// `finished`, `count` times over.
pub open spec fn unwound(stack: Seq<SpanView>, delivered: Seq<SpanView>, count: nat) -> (Seq<SpanView>, Seq<SpanView>)
    decreases count,
{
    if count == 0 {
        (stack, delivered)
    } else {
        let (rest, handed) = finished(stack, delivered);
        unwound(rest, handed, (count - 1) as nat)
    }
}

/// Finishes the current span: takes it off `context`, then hands it to
/// `sink`, once. The span behind `guard` must be the current one.
pub fn finish<R: Sink>(context: &mut ActiveContext, sink: &mut R, guard: CurrentGuard)
    requires
        guard.on_top_of(old(context)@),
    ensures
        (final(context)@, final(sink).delivered()) == finished(old(context)@, old(sink).delivered()),
{
    let span = context.exit(guard);
    sink.deliver(span);
}

/// The span that `spanned` puts around a body: the next span of the context,
/// under the name `name`.
pub open spec fn span_around(stack: Seq<SpanView>, name: Seq<char>, fresh_trace: TraceId, fresh_id: SpanId) -> SpanView {
    next_after(stack, fresh_trace, fresh_id).named(name)
}

/// Runs `body` inside a new span called `name`: creates the next span of
/// `context`, enters it, runs `body`, and finishes the span when `body`
/// returns. `body` must leave the context as it found it.
pub fn spanned<R, T, F>(
    context: &mut ActiveContext,
    sink: &mut R,
    name: &str,
    fresh_trace: TraceId,
    fresh_id: SpanId,
    body: F,
) -> (out: T) where R: Sink, F: FnOnce(&mut ActiveContext, &mut R) -> T
    requires
        forall|c: &mut ActiveContext, r: &mut R|
            (*c)@ == old(context)@.push(span_around(old(context)@, name@, fresh_trace, fresh_id)) && *r == *old(
                sink,
            ) ==> call_requires(body, (c, r)),
        forall|c: &mut ActiveContext, r: &mut R, out: T|
            (*c)@ == old(context)@.push(span_around(old(context)@, name@, fresh_trace, fresh_id))
                && call_ensures(body, (c, r), out) ==> (*final(c))@ == (*c)@,
    ensures
        final(context)@ == old(context)@,
        exists|c: &mut ActiveContext, r: &mut R|
            {
                &&& (*c)@ == old(context)@.push(span_around(old(context)@, name@, fresh_trace, fresh_id))
                &&& *r == *old(sink)
                &&& call_ensures(body, (c, r), out)
                &&& final(sink).delivered() == (*final(r)).delivered().push(
                    span_around(old(context)@, name@, fresh_trace, fresh_id),
                )
            },
{
    let span = context.next_span(fresh_trace, fresh_id).with_name(name);
    let guard = context.enter(span);
    let out = body(context, sink);
    finish(context, sink, guard);
    out
}

/// Spans finish in the reverse of the order in which they entered: taking
/// the `count` innermost spans off one after another reports them innermost
/// first, after whatever was reported before, and leaves the others in
/// progress.
pub proof fn lemma_spans_finish_innermost_first(stack: Seq<SpanView>, delivered: Seq<SpanView>, count: nat)
    requires
        count <= stack.len(),
    ensures
        unwound(stack, delivered, count) == (
            stack.take(stack.len() - count),
            delivered + stack.skip(stack.len() - count).reverse(),
        ),
    decreases count,
{
    if count == 0 {
        assert(stack.take(stack.len() as int) =~= stack);
        assert(delivered + stack.skip(stack.len() as int).reverse() =~= delivered);
    } else {
        let (rest, handed) = finished(stack, delivered);
        lemma_spans_finish_innermost_first(rest, handed, (count - 1) as nat);
        let keep = stack.len() - count;
        assert(rest.take(rest.len() - (count - 1)) =~= stack.take(keep));
        assert(handed + rest.skip(rest.len() - (count - 1)).reverse() =~= delivered + stack.skip(keep).reverse());
    }
}

/// With `outer` entered and then `inner` entered above it, only `inner` can
/// leave; once both are finished, the report of `inner` stands directly
/// before that of `outer`, and the context is as it was.
pub proof fn lemma_inner_span_is_reported_first(
    stack: Seq<SpanView>,
    delivered: Seq<SpanView>,
    outer: SpanView,
    inner: SpanView,
    outer_guard: CurrentGuard,
    inner_guard: CurrentGuard,
)
    requires
        outer_guard.on_top_of(stack.push(outer)),
        inner_guard.on_top_of(stack.push(outer).push(inner)),
    ensures
        !outer_guard.on_top_of(stack.push(outer).push(inner)),
        inner_guard.on_top_of(stack.push(outer).push(inner)),
        outer_guard.on_top_of(finished(stack.push(outer).push(inner), delivered).0),
        unwound(stack.push(outer).push(inner), delivered, 2) == (stack, delivered.push(inner).push(outer)),
{
    let both = stack.push(outer).push(inner);
    let (rest, handed) = finished(both, delivered);
    assert(rest =~= stack.push(outer));
    assert(finished(rest, handed).0 =~= stack);
    assert(unwound(both, delivered, 2) == unwound(rest, handed, 1)) by {
        reveal_with_fuel(unwound, 3);
    }
    assert(unwound(rest, handed, 1) == finished(rest, handed)) by {
        reveal_with_fuel(unwound, 3);
    }
}

} // verus!
