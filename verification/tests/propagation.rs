use zipkin::{
    finish, spanned, ActiveContext, Bind, Capture, Progress, Sink, Span, SpanId, TraceId,
};

fn trace(value: u128) -> TraceId {
    TraceId::new(value)
}

fn id(value: u64) -> SpanId {
    SpanId::new(value)
}

#[test]
fn identifiers_keep_their_value() {
    assert_eq!(trace(0).value, 0);
    assert_eq!(trace(u128::MAX).value, u128::MAX);
    assert_eq!(id(0).value, 0);
    assert_eq!(id(u64::MAX).value, u64::MAX);
    assert_eq!(trace(3), trace(3));
    assert_ne!(trace(3), trace(4));
    assert_ne!(id(3), id(4));
}

#[test]
fn root_span_has_no_parent_and_no_name() {
    let span = Span::root(trace(11), id(22));
    assert_eq!(span.trace_id(), trace(11));
    assert_eq!(span.id(), id(22));
    assert_eq!(span.parent_id(), None);
    assert_eq!(span.name(), None);
}

#[test]
fn child_span_copies_trace_and_points_at_parent() {
    let parent = Span::root(trace(11), id(22)).with_name("parent");
    let child = parent.child(id(33));
    assert_eq!(child.trace_id(), trace(11));
    assert_eq!(child.id(), id(33));
    assert_eq!(child.parent_id(), Some(id(22)));
    assert_eq!(child.name(), None);
}

#[test]
fn with_name_replaces_the_name_only() {
    let span = Span::root(trace(1), id(2)).child(id(3)).with_name("first");
    assert_eq!(span.name(), Some("first"));
    let span = span.with_name("");
    assert_eq!(span.name(), Some(""));
    let span = span.with_name("second");
    assert_eq!(span.name(), Some("second"));
    assert_eq!(span.trace_id(), trace(1));
    assert_eq!(span.id(), id(3));
    assert_eq!(span.parent_id(), Some(id(2)));
}

#[test]
fn next_span_with_nothing_current_is_a_root() {
    let context = ActiveContext::new();
    assert_eq!(context.depth(), 0);
    assert!(context.current().is_none());
    let span = context.next_span(trace(5), id(6));
    assert_eq!(span.trace_id(), trace(5));
    assert_eq!(span.id(), id(6));
    assert_eq!(span.parent_id(), None);
    // Creating a span enters nothing.
    assert_eq!(context.depth(), 0);
}

#[test]
fn next_span_is_a_child_of_the_current_span() {
    let mut context = ActiveContext::new();
    let guard = context.enter(Span::root(trace(5), id(6)).with_name("p"));
    assert_eq!(context.current().unwrap().name(), Some("p"));
    let span = context.next_span(trace(99), id(7));
    assert_eq!(span.trace_id(), trace(5));
    assert_eq!(span.id(), id(7));
    assert_eq!(span.parent_id(), Some(id(6)));
    let sibling = context.next_span(trace(98), id(8));
    assert_eq!(sibling.trace_id(), trace(5));
    assert_eq!(sibling.parent_id(), Some(id(6)));
    assert!(context.holds(&guard));
    let left = context.exit(guard);
    assert_eq!(left.id(), id(6));
    assert_eq!(context.depth(), 0);
}

#[test]
fn nested_entries_share_one_trace_id() {
    let mut context = ActiveContext::new();
    let mut sink = Capture::init();
    let mut guards = Vec::new();
    for n in 1..=5u64 {
        let span = context.next_span(trace(u128::from(n) * 1000), id(n));
        guards.push(context.enter(span));
    }
    assert_eq!(context.depth(), 5);
    while let Some(guard) = guards.pop() {
        assert!(context.holds(&guard));
        finish(&mut context, &mut sink, guard);
    }
    let spans = sink.take();
    assert_eq!(spans.len(), 5);
    for (at, span) in spans.iter().enumerate() {
        assert_eq!(span.trace_id(), trace(1000));
        assert_eq!(span.id(), id(5 - at as u64));
    }
    for at in 0..4 {
        assert_eq!(spans[at].parent_id(), Some(spans[at + 1].id()));
    }
    assert_eq!(spans[4].parent_id(), None);
}

#[test]
fn only_the_innermost_guard_holds() {
    let mut context = ActiveContext::new();
    let outer = context.enter(Span::root(trace(1), id(1)));
    assert!(context.holds(&outer));
    let inner = context.enter(Span::root(trace(2), id(2)));
    assert!(!context.holds(&outer));
    assert!(context.holds(&inner));

    let other = ActiveContext::new();
    assert!(!other.holds(&inner));
    let mut same_depth = ActiveContext::new();
    let _first = same_depth.enter(Span::root(trace(1), id(1)));
    let _second = same_depth.enter(Span::root(trace(2), id(3)));
    assert!(!same_depth.holds(&inner));

    assert_eq!(context.exit(inner).id(), id(2));
    assert!(context.holds(&outer));
    assert_eq!(context.exit(outer).id(), id(1));
}

#[test]
fn inner_span_is_reported_before_outer_span() {
    let mut context = ActiveContext::new();
    let mut sink = Capture::init();
    let a = context.enter(Span::root(trace(1), id(1)).with_name("A"));
    let b_span = context.next_span(trace(2), id(2)).with_name("B");
    let b = context.enter(b_span);
    finish(&mut context, &mut sink, b);
    finish(&mut context, &mut sink, a);
    let spans = sink.take();
    assert_eq!(spans.len(), 2);
    assert_eq!(spans[0].name(), Some("B"));
    assert_eq!(spans[1].name(), Some("A"));
}

#[test]
fn spanned_returns_what_the_body_returns() {
    let mut context = ActiveContext::new();
    let mut sink = Capture::init();
    let out = spanned(
        &mut context,
        &mut sink,
        "sum",
        trace(7),
        id(8),
        |context: &mut ActiveContext, _: &mut Capture| {
            let current = context.current().unwrap();
            assert_eq!(current.name(), Some("sum"));
            assert_eq!(current.trace_id(), trace(7));
            assert_eq!(current.id(), id(8));
            assert_eq!(current.parent_id(), None);
            2 + 3
        },
    );
    assert_eq!(out, 5);
    assert_eq!(context.depth(), 0);
    let spans = sink.take();
    assert_eq!(spans.len(), 1);
    assert_eq!(spans[0].name(), Some("sum"));
}

#[test]
fn spanned_finishes_on_early_return() {
    fn checked(context: &mut ActiveContext, sink: &mut Capture, input: i32) -> Result<i32, String> {
        spanned(
            context,
            sink,
            "checked",
            trace(1),
            id(1),
            |_: &mut ActiveContext, _: &mut Capture| {
                if input < 0 {
                    return Err("negative".to_string());
                }
                Ok(input * 2)
            },
        )
    }

    let mut context = ActiveContext::new();
    let mut sink = Capture::init();
    assert_eq!(checked(&mut context, &mut sink, -1), Err("negative".to_string()));
    assert_eq!(context.depth(), 0);
    assert_eq!(sink.take().len(), 1);
    assert_eq!(checked(&mut context, &mut sink, 4), Ok(8));
    assert_eq!(sink.take().len(), 1);
}

#[test]
fn capture_hands_out_reports_in_order() {
    let mut sink = Capture::init();
    assert_eq!(sink.take().len(), 0);
    assert_eq!(sink.take().len(), 0);
    for n in 0..10u64 {
        sink.deliver(Span::root(trace(1), id(n)));
    }
    let spans = sink.take();
    assert_eq!(spans.len(), 10);
    for (at, span) in spans.iter().enumerate() {
        assert_eq!(span.id(), id(at as u64));
    }
    assert_eq!(sink.take().len(), 0);
    sink.deliver(Span::root(trace(1), id(77)));
    let spans = sink.take();
    assert_eq!(spans.len(), 1);
    assert_eq!(spans[0].id(), id(77));
}

#[test]
fn detached_span_is_the_same_span() {
    let detached = Span::root(trace(4), id(5)).with_name("moves").detach();
    assert_eq!(detached.span().name(), Some("moves"));
    assert_eq!(detached.span().trace_id(), trace(4));
    assert_eq!(detached.span().id(), id(5));
    assert_eq!(detached.span().parent_id(), None);
    let bound = detached.bind();
    assert!(bound.is_suspended());
    assert!(!bound.is_running());
    assert!(!bound.is_finished());
}

#[test]
fn steps_in_different_contexts_see_the_bound_span_as_parent() {
    let mut first = ActiveContext::new();
    let mut second = ActiveContext::new();
    let busy = second.enter(Span::root(trace(50), id(50)).with_name("busy"));
    let mut sink = Capture::init();

    let mut bound: Bind = Span::root(trace(1), id(1)).with_name("bound").detach().bind();

    let out: Progress<u8> = bound.step(
        &mut first,
        &mut sink,
        |context: &mut ActiveContext, sink: &mut Capture| {
            let span = context.next_span(trace(60), id(2)).with_name("in first");
            sink.deliver(span);
            Progress::Pending
        },
    );
    assert!(matches!(out, Progress::Pending));
    assert!(bound.is_suspended());
    assert_eq!(first.depth(), 0);

    let out: Progress<u8> = bound.step(
        &mut second,
        &mut sink,
        |context: &mut ActiveContext, sink: &mut Capture| {
            assert_eq!(context.depth(), 2);
            let span = context.next_span(trace(61), id(3)).with_name("in second");
            sink.deliver(span);
            Progress::Ready(9)
        },
    );
    assert!(matches!(out, Progress::Ready(9)));
    assert!(bound.is_finished());
    assert_eq!(second.depth(), 1);
    assert!(second.holds(&busy));

    // The same nesting on one stack.
    let mut plain = ActiveContext::new();
    let guard = plain.enter(Span::root(trace(1), id(1)).with_name("bound"));
    let expected = plain.next_span(trace(62), id(2));
    plain.exit(guard);

    let spans = sink.take();
    assert_eq!(spans.len(), 3);
    assert_eq!(spans[0].name(), Some("in first"));
    assert_eq!(spans[1].name(), Some("in second"));
    assert_eq!(spans[2].name(), Some("bound"));
    for span in &spans[..2] {
        assert_eq!(span.trace_id(), expected.trace_id());
        assert_eq!(span.parent_id(), expected.parent_id());
        assert_eq!(span.parent_id(), Some(id(1)));
        assert_eq!(span.trace_id(), trace(1));
    }

    bound.abandon(&mut sink);
    assert_eq!(sink.take().len(), 0);
}

#[test]
fn span_is_current_only_during_a_step() {
    let mut context = ActiveContext::new();
    let mut sink = Capture::init();
    let mut bound = Span::root(trace(1), id(1)).detach().bind();
    assert!(!bound.can_end_in(&context));

    bound.begin_step(&mut context);
    assert!(bound.is_running());
    assert!(bound.can_end_in(&context));
    assert_eq!(context.current().unwrap().id(), id(1));
    let other = ActiveContext::new();
    assert!(!bound.can_end_in(&other));

    bound.end_step(&mut context, &mut sink, false);
    assert!(bound.is_suspended());
    assert!(context.current().is_none());
    assert_eq!(sink.take().len(), 0);

    bound.begin_step(&mut context);
    bound.end_step(&mut context, &mut sink, true);
    assert!(bound.is_finished());
    assert!(context.current().is_none());
    let spans = sink.take();
    assert_eq!(spans.len(), 1);
    assert_eq!(spans[0].id(), id(1));
}

#[test]
fn abandoned_computation_reports_its_span_once() {
    let mut context = ActiveContext::new();
    let mut sink = Capture::init();

    let never_driven = Span::root(trace(1), id(1)).with_name("never driven").detach().bind();
    never_driven.abandon(&mut sink);
    let spans = sink.take();
    assert_eq!(spans.len(), 1);
    assert_eq!(spans[0].name(), Some("never driven"));

    let mut bound = Span::root(trace(2), id(2)).with_name("driven twice").detach().bind();
    for _ in 0..2 {
        let out: Progress<()> = bound.step(
            &mut context,
            &mut sink,
            |_: &mut ActiveContext, _: &mut Capture| Progress::Pending,
        );
        assert!(matches!(out, Progress::Pending));
    }
    assert_eq!(sink.take().len(), 0);
    bound.abandon(&mut sink);
    let spans = sink.take();
    assert_eq!(spans.len(), 1);
    assert_eq!(spans[0].name(), Some("driven twice"));
    assert_eq!(context.depth(), 0);
}
