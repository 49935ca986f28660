//! A sink that keeps what it is handed, for tests to look at.
use crate::sink::Sink;
use crate::span::{views, Span, SpanView};
use vstd::prelude::*;

verus! {

/// Keeps every span that it is handed, in the order in which they came,
/// until `take` hands them out.
pub struct Capture {
    spans: Vec<Span>,
}

/// What a capture holds that held `held` and was then handed `spans`, one
/// after another.
pub open spec fn after_deliveries(held: Seq<SpanView>, spans: Seq<SpanView>) -> Seq<SpanView>
    decreases spans.len(),
{
    if spans.len() == 0 {
        held
    } else {
        after_deliveries(held.push(spans.first()), spans.drop_first())
    }
}

impl Capture {
    /// A capture that holds nothing.
    pub fn init() -> (capture: Capture)
        ensures
            capture.delivered() == Seq::<SpanView>::empty(),
    {
        let capture = Capture { spans: Vec::new() };
        proof {
            assert(capture.delivered() =~= Seq::<SpanView>::empty());
        }
        capture
    }

    /// Hands out the spans delivered since `init` or the last `take`, in the
    /// order in which they came, and keeps none of them.
    pub fn take(&mut self) -> (spans: Vec<Span>)
        ensures
            views(spans@) == old(self).delivered(),
            final(self).delivered() == Seq::<SpanView>::empty(),
    {
        let mut spans: Vec<Span> = Vec::new();
        std::mem::swap(&mut self.spans, &mut spans);
        proof {
            assert(self.delivered() =~= Seq::<SpanView>::empty());
        }
        spans
    }
}

impl Sink for Capture {
    /// The spans delivered since `init` or the last `take`, oldest first.
    closed spec fn delivered(&self) -> Seq<SpanView> {
        views(self.spans@)
    }

    fn deliver(&mut self, span: Span) {
        proof {
            assert(views(self.spans@.push(span)) =~= views(self.spans@).push(span@));
        }
        self.spans.push(span);
    }
}

/// Deliveries are appended to what a capture holds, in their order.
pub proof fn lemma_deliveries_append(held: Seq<SpanView>, spans: Seq<SpanView>)
    ensures
        after_deliveries(held, spans) == held + spans,
    decreases spans.len(),
{
    if spans.len() == 0 {
        assert(held + spans =~= held);
    } else {
        lemma_deliveries_append(held.push(spans.first()), spans.drop_first());
        assert(held.push(spans.first()) + spans.drop_first() =~= held + spans);
    }
}

/// A capture that has just been set up, or just been emptied by `take`,
/// holds nothing; after any number of deliveries it holds exactly the
/// delivered spans, in the order in which they came.
pub proof fn lemma_capture_keeps_deliveries_in_order(spans: Seq<SpanView>)
    ensures
        after_deliveries(Seq::empty(), Seq::empty()) == Seq::<SpanView>::empty(),
        after_deliveries(Seq::empty(), spans) == spans,
{
    lemma_deliveries_append(Seq::empty(), spans);
    assert(Seq::<SpanView>::empty() + spans =~= spans);
}

} // verus!
