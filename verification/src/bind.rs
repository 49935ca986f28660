//! Spans around computations that are driven step by step.
//!
//! Such a computation may be resumed by another execution context than the
//! one that suspended it, so its span cannot stay current between two steps.
//! The span travels with the computation instead: it is made current in
//! whatever context drives a step, for that step only, and is finished when
//! the computation completes or is abandoned.
use crate::context::{next_after, ActiveContext, CurrentGuard};
use crate::sink::Sink;
use crate::span::{Span, SpanId, SpanView, TraceId};
use vstd::prelude::*;

verus! {

/// A span that is attached to no context and can move between them.
#[derive(Debug)]
pub struct DetachedSpan {
    span: Span,
}

impl View for DetachedSpan {
    type V = SpanView;

    closed spec fn view(&self) -> SpanView {
        self.span@
    }
}

impl Span {
    /// Converts a span that was not entered into one that can travel.
    pub fn detach(self) -> (detached: DetachedSpan)
        ensures
            detached@ == self@,
    {
        DetachedSpan { span: self }
    }
}

impl DetachedSpan {
    /// The span itself.
    pub fn span(&self) -> (span: &Span)
        ensures
            span@ == self@,
    {
        &self.span
    }

    /// Ties the span to a computation that has not been driven yet.
    pub fn bind(self) -> (bound: Bind)
        ensures
            bound@ == BindView::Suspended(self@),
    {
        Bind { state: State::Suspended(self.span) }
    }
}

/// What one step of a computation yields.
#[derive(Debug)]
pub enum Progress<T> {
    /// The computation has completed with this result.
    Ready(T),
    /// The computation is not complete yet.
    Pending,
}

/// Where a bound span is in its life.
pub enum BindView {
    /// Between two steps: the span waits, attached to no context.
    Suspended(SpanView),
    /// During a step: the span is current in the context that drives it.
    Running(CurrentGuard),
    /// The span has been handed to a sink.
    Finished,
}

impl BindView {
    /// A step begins in a context that has `stack` in progress.
    pub open spec fn begun(self, stack: Seq<SpanView>, guard: CurrentGuard) -> (BindView, Seq<SpanView>) {
        match self {
            BindView::Suspended(span) => (BindView::Running(guard), stack.push(span)),
            _ => (self, stack),
        }
    }

    /// A step ends in the context that has `stack` in progress, with the
    /// computation complete (`ready`) or not.
    pub open spec fn ended(self, stack: Seq<SpanView>, delivered: Seq<SpanView>, ready: bool) -> (
        BindView,
        Seq<SpanView>,
        Seq<SpanView>,
    ) {
        match self {
            BindView::Running(_) => if ready {
                (BindView::Finished, stack.drop_last(), delivered.push(stack.last()))
            } else {
                (BindView::Suspended(stack.last()), stack.drop_last(), delivered)
            },
            _ => (self, stack, delivered),
        }
    }

    /// The span that waits for the next step.
    pub open spec fn waiting(self) -> SpanView {
        self->Suspended_0
    }

    /// A whole step has been driven, during which the sink came to hold
    /// `delivered`, and the computation is complete (`ready`) or not.
    pub open spec fn stepped(self, delivered: Seq<SpanView>, ready: bool) -> (BindView, Seq<SpanView>) {
        match self {
            BindView::Suspended(span) => if ready {
                (BindView::Finished, delivered.push(span))
            } else {
                (self, delivered)
            },
            _ => (self, delivered),
        }
    }

    /// The computation is given up between two steps, or dropped after its
    /// last one.
    pub open spec fn abandoned(self, delivered: Seq<SpanView>) -> Seq<SpanView> {
        match self {
            BindView::Suspended(span) => delivered.push(span),
            _ => delivered,
        }
    }
}

enum State {
    Suspended(Span),
    Running(CurrentGuard),
    Finished,
}

/// The span of a computation that is driven step by step.
pub struct Bind {
    state: State,
}

impl View for Bind {
    type V = BindView;

    closed spec fn view(&self) -> BindView {
        match self.state {
            State::Suspended(span) => BindView::Suspended(span@),
            State::Running(guard) => BindView::Running(guard),
            State::Finished => BindView::Finished,
        }
    }
}

impl Bind {
    /// Whether a step can begin: the computation is neither complete nor in
    /// the middle of a step.
    pub fn is_suspended(&self) -> (suspended: bool)
        ensures
            suspended == (self@ is Suspended),
    {
        match &self.state {
            State::Suspended(_) => true,
            _ => false,
        }
    }

    /// Whether a step is under way.
    pub fn is_running(&self) -> (running: bool)
        ensures
            running == (self@ is Running),
    {
        match &self.state {
            State::Running(_) => true,
            _ => false,
        }
    }

    /// Whether the span has been handed to a sink.
    pub fn is_finished(&self) -> (finished: bool)
        ensures
            finished == (self@ is Finished),
    {
        match &self.state {
            State::Finished => true,
            _ => false,
        }
    }

    /// Whether the step under way was begun in `context` and nothing else is
    /// in the way of ending it there.
    pub fn can_end_in(&self, context: &ActiveContext) -> (held: bool)
        ensures
            held == (self@ matches BindView::Running(guard) && guard.on_top_of(context@)),
    {
        match &self.state {
            State::Running(guard) => context.holds(guard),
            _ => false,
        }
    }

    /// Begins a step: makes the span current in `context`, the context of
    /// whoever drives this step.
    pub fn begin_step(&mut self, context: &mut ActiveContext)
        requires
            old(self)@ is Suspended,
        ensures
            final(self)@ matches BindView::Running(guard) && guard.on_top_of(final(context)@) && (
            final(self)@,
            final(context)@,
            ) == old(self)@.begun(old(context)@, guard),
    {
        let mut state = State::Finished;
        std::mem::swap(&mut self.state, &mut state);
        match state {
            State::Suspended(span) => {
                let guard = context.enter(span);
                self.state = State::Running(guard);
            },
            other => {
                self.state = other;
            },
        }
    }

    /// Ends a step: takes the span off `context` again, whatever the step
    /// yielded. If the computation is complete (`ready`), the span is then
    /// handed to `sink`, once; if not, it is kept for the next step.
    pub fn end_step<S: Sink>(&mut self, context: &mut ActiveContext, sink: &mut S, ready: bool)
        requires
            old(self)@ matches BindView::Running(guard) && guard.on_top_of(old(context)@),
        ensures
            (final(self)@, final(context)@, final(sink).delivered()) == old(self)@.ended(
                old(context)@,
                old(sink).delivered(),
                ready,
            ),
            !ready ==> *final(sink) == *old(sink),
    {
        let mut state = State::Finished;
        std::mem::swap(&mut self.state, &mut state);
        match state {
            State::Running(guard) => {
                let span = context.exit(guard);
                if ready {
                    sink.deliver(span);
                } else {
                    self.state = State::Suspended(span);
                }
            },
            other => {
                self.state = other;
            },
        }
    }

    /// Drives the computation one step in `context`: begins a step, lets
    /// `drive` advance the computation once, and ends the step with what
    /// `drive` yielded. `drive` must leave the context as it found it.
    pub fn step<S, T, F>(&mut self, context: &mut ActiveContext, sink: &mut S, drive: F) -> (out: Progress<T>) where
        S: Sink,
        F: FnOnce(&mut ActiveContext, &mut S) -> Progress<T>,

        requires
            old(self)@ is Suspended,
            forall|c: &mut ActiveContext, r: &mut S|
                (*c)@ == old(context)@.push(old(self)@.waiting()) && *r == *old(sink) ==> call_requires(
                    drive,
                    (c, r),
                ),
            forall|c: &mut ActiveContext, r: &mut S, out: Progress<T>|
                (*c)@ == old(context)@.push(old(self)@.waiting()) && call_ensures(drive, (c, r), out)
                    ==> (*final(c))@ == (*c)@,
        ensures
            final(context)@ == old(context)@,
            exists|c: &mut ActiveContext, r: &mut S|
                {
                    &&& (*c)@ == old(context)@.push(old(self)@.waiting())
                    &&& *r == *old(sink)
                    &&& call_ensures(drive, (c, r), out)
                    &&& (final(self)@, final(sink).delivered()) == old(self)@.stepped(
                        (*final(r)).delivered(),
                        out is Ready,
                    )
                    &&& out is Pending ==> *final(sink) == *final(r)
                },
    {
        self.begin_step(context);
        let out = drive(context, sink);
        let ready = match &out {
            Progress::Ready(_) => true,
            Progress::Pending => false,
        };
        self.end_step(context, sink, ready);
        out
    }

    /// Gives the computation up. A span that is still waiting is handed to
    /// `sink`, once; one that was handed over before is not handed over
    /// again.
    pub fn abandon<S: Sink>(self, sink: &mut S)
        requires
            !(self@ is Running),
        ensures
            final(sink).delivered() == self@.abandoned(old(sink).delivered()),
            self@ is Finished ==> *final(sink) == *old(sink),
    {
        match self.state {
            State::Suspended(span) => {
                sink.deliver(span);
            },
            _ => {},
        }
    }
}

/// One step that leaves the computation incomplete: by whom it is driven,
/// and what the computation itself hands to the sink meanwhile.
pub struct Round {
    /// What the driving context has in progress when the step begins.
    pub stack: Seq<SpanView>,
    /// The guard that the step is given.
    pub guard: CurrentGuard,
    /// What the computation hands to the sink during the step.
    pub inner: Seq<SpanView>,
}

/// Where the span is and what the sink holds after `rounds`, one after
/// another.
pub open spec fn after_rounds(bind: BindView, delivered: Seq<SpanView>, rounds: Seq<Round>) -> (
    BindView,
    Seq<SpanView>,
)
    decreases rounds.len(),
{
    if rounds.len() == 0 {
        (bind, delivered)
    } else {
        let round = rounds.first();
        let (running, entered) = bind.begun(round.stack, round.guard);
        let (suspended, _, handed) = running.ended(entered, delivered + round.inner, false);
        after_rounds(suspended, handed, rounds.drop_first())
    }
}

/// Everything that the computation itself hands to the sink during
/// `rounds`, in order.
pub open spec fn inner_deliveries(rounds: Seq<Round>) -> Seq<SpanView>
    decreases rounds.len(),
{
    if rounds.len() == 0 {
        Seq::empty()
    } else {
        rounds.first().inner + inner_deliveries(rounds.drop_first())
    }
}

/// A span created during a step is a child of the bound span, in the trace
/// of the bound span, whatever the driving context had in progress: just as
/// if the bound span had been entered on the spot.
pub proof fn lemma_bound_span_is_parent_in_every_context(
    span: SpanView,
    stack: Seq<SpanView>,
    guard: CurrentGuard,
    other_stack: Seq<SpanView>,
    fresh_trace: TraceId,
    other_trace: TraceId,
    fresh_id: SpanId,
)
    ensures
        next_after(BindView::Suspended(span).begun(stack, guard).1, fresh_trace, fresh_id) == span.child(fresh_id),
        next_after(BindView::Suspended(span).begun(stack, guard).1, fresh_trace, fresh_id).follows(span),
        next_after(BindView::Suspended(span).begun(stack, guard).1, fresh_trace, fresh_id) == next_after(
            other_stack.push(span),
            other_trace,
            fresh_id,
        ),
{
}

/// Driving a whole step is beginning it and ending it in the same context,
/// which is then as it was before.
pub proof fn lemma_step_begins_and_ends(
    span: SpanView,
    stack: Seq<SpanView>,
    guard: CurrentGuard,
    delivered: Seq<SpanView>,
    ready: bool,
)
    ensures
        ({
            let (running, entered) = BindView::Suspended(span).begun(stack, guard);
            let (bind, handed) = BindView::Suspended(span).stepped(delivered, ready);
            running.ended(entered, delivered, ready) == (bind, stack, handed)
        }),
{
    assert(stack.push(span).drop_last() =~= stack);
}

/// A step that leaves the computation incomplete leaves the driving context
/// as it was and the span waiting as before, and hands the span to nobody.
pub proof fn lemma_pending_step_keeps_span(span: SpanView, delivered: Seq<SpanView>, round: Round)
    ensures
        ({
            let (running, entered) = BindView::Suspended(span).begun(round.stack, round.guard);
            running.ended(entered, delivered, false) == (BindView::Suspended(span), round.stack, delivered)
        }),
{
    lemma_step_begins_and_ends(span, round.stack, round.guard, delivered, false);
}

/// However many steps leave the computation incomplete, and whichever
/// contexts drive them, the span is handed to the sink exactly once when the
/// computation is then abandoned, after everything that the computation
/// handed over itself; and nothing follows if it is abandoned once more.
pub proof fn lemma_abandoned_span_is_reported_once(span: SpanView, delivered: Seq<SpanView>, rounds: Seq<Round>)
    ensures
        after_rounds(BindView::Suspended(span), delivered, rounds) == (
            BindView::Suspended(span),
            delivered + inner_deliveries(rounds),
        ),
        after_rounds(BindView::Suspended(span), delivered, rounds).0.abandoned(
            after_rounds(BindView::Suspended(span), delivered, rounds).1,
        ) == (delivered + inner_deliveries(rounds)).push(span),
        BindView::Finished.abandoned((delivered + inner_deliveries(rounds)).push(span)) == (delivered
            + inner_deliveries(rounds)).push(span),
    decreases rounds.len(),
{
    if rounds.len() == 0 {
        assert(delivered + inner_deliveries(rounds) =~= delivered);
    } else {
        let round = rounds.first();
        lemma_pending_step_keeps_span(span, delivered + round.inner, round);
        lemma_abandoned_span_is_reported_once(span, delivered + round.inner, rounds.drop_first());
        assert((delivered + round.inner) + inner_deliveries(rounds.drop_first()) =~= delivered + inner_deliveries(
            rounds,
        ));
    }
}

/// The step that completes the computation hands the span to the sink
/// exactly once, after everything that the computation handed over itself,
/// and abandoning the computation afterwards hands over nothing more.
pub proof fn lemma_completed_span_is_reported_once(
    span: SpanView,
    delivered: Seq<SpanView>,
    rounds: Seq<Round>,
    last: Round,
)
    ensures
        ({
            let (bind, handed) = after_rounds(BindView::Suspended(span), delivered, rounds);
            let (running, entered) = bind.begun(last.stack, last.guard);
            let (finished, stack, all) = running.ended(entered, handed + last.inner, true);
            &&& finished == BindView::Finished
            &&& stack == last.stack
            &&& all == (delivered + inner_deliveries(rounds) + last.inner).push(span)
            &&& finished.abandoned(all) == all
        }),
{
    lemma_abandoned_span_is_reported_once(span, delivered, rounds);
    lemma_step_begins_and_ends(
        span,
        last.stack,
        last.guard,
        delivered + inner_deliveries(rounds) + last.inner,
        true,
    );
}

} // verus!
