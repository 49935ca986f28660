//! Where finished spans go.
use crate::report::Report;
use crate::span::{Span, SpanView};
use vstd::prelude::*;

verus! {

/// A destination for finished spans that keeps account of what it was
/// handed.
pub trait Sink {
    /// The spans that this sink was handed and has on its account, oldest
    /// first. `deliver` adds to it; what else does is up to the sink.
    spec fn delivered(&self) -> Seq<SpanView>;

    /// Hands `span` to the sink.
    fn deliver(&mut self, span: Span)
        ensures
            final(self).delivered() == old(self).delivered().push(span@),
    ;
}

/// The sink in front of a reporter: each span that it is handed goes to the
/// reporter at once, and the account of them is kept here.
pub struct ReporterSink<R: Report> {
    reporter: R,
    handed: Ghost<Seq<SpanView>>,
}

impl<R: Report> ReporterSink<R> {
    /// A sink that has handed nothing to `reporter` yet.
    pub fn new(reporter: R) -> (sink: ReporterSink<R>)
        ensures
            sink.delivered() == Seq::<SpanView>::empty(),
            sink.reporter() == reporter,
    {
        ReporterSink { reporter, handed: Ghost(Seq::empty()) }
    }

    /// The reporter behind this sink.
    pub closed spec fn reporter(&self) -> R {
        self.reporter
    }

    /// Gives the reporter back.
    pub fn into_inner(self) -> (reporter: R)
        ensures
            reporter == self.reporter(),
    {
        self.reporter
    }
}

impl<R: Report> Sink for ReporterSink<R> {
    closed spec fn delivered(&self) -> Seq<SpanView> {
        self.handed@
    }

    fn deliver(&mut self, span: Span)
        ensures
            final(self).reporter() == old(self).reporter(),
            call_ensures(R::report, (&old(self).reporter(), span), ()),
    {
        self.handed = Ghost(self.handed@.push(span@));
        self.reporter.report(span);
    }
}

} // verus!
