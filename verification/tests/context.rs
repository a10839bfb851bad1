use observer::context::Context;
use observer::span::{Span, SpanItem};
use observer::time::{Interval, Timestamp};
use observer::value::FieldValue;

fn at(secs: i64, nanos: u32) -> Timestamp {
    Timestamp::new(1_600_000_000 + secs, nanos)
}

fn fixed(id: &str) -> Context {
    Context::new_at(id.to_string(), "key".to_string(), at(0, 0))
}

fn child_names(span: &Span) -> Vec<String> {
    let mut names = Vec::new();
    for item in span.items().iter() {
        if let SpanItem::Frame { frame, .. } = item {
            names.push(frame.id().clone());
        }
    }
    names
}

#[test]
fn new_context_holds_the_root_frame() {
    let ctx = Context::new("c1".to_string());
    assert_eq!(ctx.id(), "c1");
    assert_eq!(ctx.depth(), 1);
    let root = &ctx.span_stack()[0];
    assert_eq!(root.id(), "main");
    assert_eq!(root.created_on(), ctx.created_on());
    assert!(root.items().is_empty());
    assert!(!root.has_ended());
    assert_eq!(root.success(), None);
    assert_eq!(root.result(), &None);
    assert_eq!(root.err(), &None);
    assert!(!root.is_critical());
}

#[test]
fn new_context_has_a_fresh_key() {
    let first = Context::new("c1".to_string());
    let second = Context::new("c1".to_string());
    assert_eq!(first.get_key().chars().count(), 36);
    assert_eq!(second.get_key().chars().count(), 36);
    assert_ne!(first.get_key(), second.get_key());
    assert_ne!(first.get_key(), first.id());
}

#[test]
fn new_at_keeps_what_it_is_given() {
    let ctx = Context::new_at("c1".to_string(), "k-1".to_string(), at(5, 7));
    assert_eq!(ctx.id(), "c1");
    assert_eq!(ctx.get_key(), "k-1");
    assert_eq!(ctx.created_on(), at(5, 7));
    assert_eq!(ctx.span_stack()[0].created_on(), at(5, 7));
}

#[test]
fn start_span_pushes_a_frame() {
    let mut ctx = fixed("c1");
    ctx.start_span_at("create_policy", at(1, 0));
    assert_eq!(ctx.depth(), 2);
    let top = &ctx.span_stack()[1];
    assert_eq!(top.id(), "create_policy");
    assert_eq!(top.created_on(), at(1, 0));
    assert!(top.items().is_empty());
    assert_eq!(ctx.span_stack()[0].id(), "main");
}

#[test]
fn matched_spans_leave_the_depth_as_it_was() {
    let mut ctx = Context::new("c1".to_string());
    ctx.start_span("outer");
    let before = ctx.depth();
    for round in 0..50 {
        ctx.start_span("a");
        ctx.start_span("b");
        ctx.span_log("in b");
        ctx.end_span(false, None);
        ctx.observe_span_field("round", FieldValue::number(round));
        ctx.start_span("c");
        ctx.end_span(true, Some("failed".to_string()));
        ctx.end_span(false, None);
        assert_eq!(ctx.depth(), before);
    }
    assert_eq!(ctx.depth(), 2);
}

#[test]
fn deep_nesting_is_balanced() {
    let mut ctx = fixed("c1");
    for level in 0..1_000 {
        ctx.start_span_at("level", at(level, 0));
    }
    assert_eq!(ctx.depth(), 1_001);
    for level in 0..1_000 {
        ctx.end_span_at(false, None, at(1_000 + level, 0));
    }
    assert_eq!(ctx.depth(), 1);
    assert_eq!(ctx.span_stack()[0].items().len(), 1);
}

#[test]
fn a_field_goes_to_the_frame_on_top() {
    let mut ctx = fixed("c1");
    ctx.start_span_at("a", at(1, 0));
    ctx.start_span_at("b", at(2, 0));
    ctx.observe_span_field_at("inner", FieldValue::number(1), at(3, 0));
    ctx.end_span_at(false, None, at(4, 0));
    ctx.observe_span_field_at("outer", FieldValue::text("x"), at(5, 0));
    assert_eq!(ctx.depth(), 2);
    assert!(ctx.span_stack()[0].items().is_empty());
    let a = &ctx.span_stack()[1];
    assert_eq!(a.items().len(), 2);
    match &a.items()[0] {
        SpanItem::Frame { frame, offset } => {
            assert_eq!(frame.id(), "b");
            assert_eq!(*offset, Interval::new(1, 0));
            assert_eq!(frame.items().len(), 1);
            match &frame.items()[0] {
                SpanItem::Field { name, value, offset } => {
                    assert_eq!(name, "inner");
                    assert_eq!(value, &FieldValue::number(1));
                    assert_eq!(*offset, Interval::new(1, 0));
                }
                other => panic!("not a field: {:?}", other),
            }
        }
        other => panic!("not a frame: {:?}", other),
    }
    match &a.items()[1] {
        SpanItem::Field { name, value, offset } => {
            assert_eq!(name, "outer");
            assert_eq!(value, &FieldValue::text("x"));
            assert_eq!(*offset, Interval::new(4, 0));
        }
        other => panic!("not a field: {:?}", other),
    }
}

#[test]
fn a_log_line_goes_to_the_frame_on_top() {
    let mut ctx = fixed("c1");
    ctx.span_log_at("in main", at(0, 500));
    ctx.start_span_at("a", at(1, 0));
    ctx.span_log_at("Message: 1 from create policy", at(1, 250));
    let root = &ctx.span_stack()[0];
    assert_eq!(root.items().len(), 1);
    match &root.items()[0] {
        SpanItem::Log { message, offset } => {
            assert_eq!(message, "in main");
            assert_eq!(*offset, Interval::new(0, 500));
        }
        other => panic!("not a log line: {:?}", other),
    }
    let a = &ctx.span_stack()[1];
    assert_eq!(a.items().len(), 1);
    match &a.items()[0] {
        SpanItem::Log { message, offset } => {
            assert_eq!(message, "Message: 1 from create policy");
            assert_eq!(*offset, Interval::new(0, 250));
        }
        other => panic!("not a log line: {:?}", other),
    }
}

#[test]
fn the_result_goes_to_the_frame_on_top() {
    let mut ctx = fixed("c1");
    ctx.start_span_at("a", at(1, 0));
    ctx.observe_span_result(FieldValue::number(1234));
    assert_eq!(ctx.span_stack()[1].result(), &Some("1234".to_string()));
    assert_eq!(ctx.span_stack()[0].result(), &None);
    ctx.observe_span_result(FieldValue::text("R"));
    assert_eq!(ctx.span_stack()[1].result(), &Some("R".to_string()));
}

#[test]
fn renaming_keeps_the_place_and_the_children() {
    let mut ctx = fixed("c1");
    ctx.start_span_at("execute", at(1, 0));
    ctx.start_span_at("inner", at(2, 0));
    ctx.end_span_at(false, None, at(3, 0));
    ctx.observe_span_id("db__select__policy");
    assert_eq!(ctx.depth(), 2);
    assert_eq!(ctx.span_stack()[0].id(), "main");
    let top = &ctx.span_stack()[1];
    assert_eq!(top.id(), "db__select__policy");
    assert_eq!(child_names(top), vec!["inner".to_string()]);
    assert_eq!(top.created_on(), at(1, 0));
}

#[test]
fn end_span_closes_the_child_and_attaches_it() {
    let mut ctx = fixed("c1");
    ctx.start_span_at("a", at(1, 0));
    ctx.end_span_at(true, Some("boom".to_string()), at(3, 500));
    assert_eq!(ctx.depth(), 1);
    let root = &ctx.span_stack()[0];
    assert!(!root.has_ended());
    assert_eq!(root.items().len(), 1);
    match &root.items()[0] {
        SpanItem::Frame { frame, offset } => {
            assert_eq!(*offset, Interval::new(1, 0));
            assert_eq!(frame.id(), "a");
            assert!(frame.has_ended());
            assert_eq!(frame.duration(), Interval::new(2, 500));
            assert_eq!(frame.success(), Some(false));
            assert_eq!(frame.err(), &Some("boom".to_string()));
            assert_eq!(frame.result(), &None);
            assert!(frame.is_critical());
        }
        other => panic!("not a frame: {:?}", other),
    }
}

#[test]
fn end_span_without_an_error_is_a_success() {
    let mut ctx = fixed("c1");
    ctx.start_span_at("a", at(1, 0));
    ctx.end_span_at(false, None, at(2, 0));
    match &ctx.span_stack()[0].items()[0] {
        SpanItem::Frame { frame, .. } => {
            assert_eq!(frame.success(), Some(true));
            assert_eq!(frame.err(), &None);
            assert!(!frame.is_critical());
        }
        other => panic!("not a frame: {:?}", other),
    }
}

#[test]
fn end_span_on_the_root_keeps_it_on_the_stack() {
    let mut ctx = fixed("c1");
    ctx.end_span_at(false, None, at(2, 0));
    assert_eq!(ctx.depth(), 1);
    let root = &ctx.span_stack()[0];
    assert!(root.has_ended());
    assert_eq!(root.duration(), Interval::new(2, 0));
    assert_eq!(root.success(), Some(true));
}

#[test]
fn children_stand_in_the_order_of_their_creation() {
    let mut ctx = fixed("c1");
    ctx.start_span_at("parent", at(1, 0));
    for (i, name) in ["first", "second", "third"].iter().enumerate() {
        let t = 2 + 2 * i as i64;
        ctx.start_span_at(name, at(t, 0));
        ctx.span_log_at("working", at(t, 500));
        ctx.end_span_at(false, None, at(t + 1, 0));
    }
    ctx.end_span_at(false, None, at(9, 0));
    assert_eq!(ctx.depth(), 1);
    match &ctx.span_stack()[0].items()[0] {
        SpanItem::Frame { frame: parent, .. } => {
            assert_eq!(
                child_names(parent),
                vec!["first".to_string(), "second".to_string(), "third".to_string()]
            );
            let offsets: Vec<Interval> = parent.items().iter().map(|item| item.offset()).collect();
            assert_eq!(offsets, vec![Interval::new(1, 0), Interval::new(3, 0), Interval::new(5, 0)]);
            assert_eq!(parent.duration(), Interval::new(8, 0));
            for offset in offsets.iter() {
                assert!(!offset.exceeds(&parent.duration()));
            }
        }
        other => panic!("not a frame: {:?}", other),
    }
}

#[test]
fn a_clock_that_runs_backwards_does_not_reorder() {
    let mut ctx = fixed("c1");
    ctx.start_span_at("parent", at(10, 0));
    ctx.span_log_at("late", at(15, 0));
    ctx.start_span_at("child", at(12, 0));
    ctx.end_span_at(false, None, at(11, 0));
    ctx.end_span_at(false, None, at(13, 0));
    match &ctx.span_stack()[0].items()[0] {
        SpanItem::Frame { frame: parent, offset } => {
            assert_eq!(*offset, Interval::new(10, 0));
            let offsets: Vec<Interval> = parent.items().iter().map(|item| item.offset()).collect();
            assert_eq!(offsets, vec![Interval::new(5, 0), Interval::new(5, 0)]);
            assert_eq!(parent.duration(), Interval::new(5, 0));
            match &parent.items()[1] {
                SpanItem::Frame { frame: child, .. } => {
                    assert_eq!(child.duration(), Interval::zero());
                }
                other => panic!("not a frame: {:?}", other),
            }
        }
        other => panic!("not a frame: {:?}", other),
    }
}

#[test]
fn finalise_freezes_the_root() {
    let mut ctx = fixed("c1");
    ctx.span_log_at("hello", at(1, 0));
    ctx.finalise_at(at(2, 0));
    assert_eq!(ctx.depth(), 1);
    let root = &ctx.span_stack()[0];
    assert!(root.has_ended());
    assert_eq!(root.duration(), Interval::new(2, 0));
    assert_eq!(root.success(), None);

    ctx.finalise_at(at(9, 0));
    ctx.end_span_at(true, Some("late".to_string()), at(10, 0));
    ctx.span_log_at("late", at(11, 0));
    ctx.observe_span_field_at("late", FieldValue::null(), at(12, 0));
    ctx.observe_span_result(FieldValue::text("late"));
    ctx.observe_span_id("late");
    let root = &ctx.span_stack()[0];
    assert_eq!(root.id(), "main");
    assert_eq!(root.duration(), Interval::new(2, 0));
    assert_eq!(root.success(), None);
    assert_eq!(root.err(), &None);
    assert_eq!(root.result(), &None);
    assert_eq!(root.items().len(), 1);
    assert!(!root.is_critical());
}

#[test]
fn end_ctx_frame_ends_without_closing() {
    let mut ctx = fixed("c1");
    ctx.start_span_at("a", at(1, 0));
    ctx.end_ctx_frame(at(4, 0));
    assert_eq!(ctx.depth(), 2);
    let top = &ctx.span_stack()[1];
    assert!(top.has_ended());
    assert_eq!(top.duration(), Interval::new(3, 0));
    assert_eq!(top.success(), None);
    assert!(!ctx.span_stack()[0].has_ended());
}

#[test]
fn finalise_reads_the_clock() {
    let mut ctx = Context::new("c1".to_string());
    ctx.finalise();
    let root = &ctx.span_stack()[0];
    assert!(root.has_ended());
    assert!(!root.duration().exceeds(&Interval::new(60, 0)));
}

#[test]
fn an_ended_span_does_not_change() {
    let mut span = Span::new("a", at(0, 0));
    span.set_success(true);
    span.end(at(1, 0));
    span.set_success(false);
    span.set_err(Some("late".to_string()));
    span.set_result("late");
    span.set_id("late");
    span.set_critical(true);
    span.add_log("late", at(2, 0));
    span.add_breadcrumbs("late", FieldValue::null(), at(2, 0));
    span.add_sub_frame(Span::new("late", at(2, 0)));
    span.end(at(3, 0));
    assert_eq!(span.id(), "a");
    assert_eq!(span.duration(), Interval::new(1, 0));
    assert_eq!(span.success(), Some(true));
    assert_eq!(span.err(), &None);
    assert_eq!(span.result(), &None);
    assert!(span.items().is_empty());
    assert!(!span.is_critical());
}

#[test]
fn an_open_span_has_no_duration() {
    let mut span = Span::new("a", at(0, 0));
    span.add_log("x", at(5, 0));
    assert!(!span.has_ended());
    assert_eq!(span.duration(), Interval::zero());
}
