use observer::backend::{end_context, end_context_at, Backend};
use observer::context::Context;
use observer::logger::{decoration, print_context, print_span, Decoration, Logger, Mark};
use observer::span::Span;
use observer::time::Timestamp;
use observer::value::FieldValue;
use std::cell::RefCell;
use std::rc::Rc;

fn at(secs: i64, nanos: u32) -> Timestamp {
    Timestamp::new(1_600_000_000 + secs, nanos)
}

struct Recorder {
    name: &'static str,
    seen: Rc<RefCell<Vec<String>>>,
}

impl Backend for Recorder {
    fn context_ended(&self, ctx: &Context) {
        let ended = ctx.span_stack().last().map(|top| top.has_ended()).unwrap_or(false);
        self.seen.borrow_mut().push(format!("{}:{}:{}", self.name, ctx.id(), ended));
    }
}

fn scenario() -> Context {
    let mut ctx = Context::new_at("c1".to_string(), "key".to_string(), at(0, 0));
    ctx.start_span_at("create_policy", at(0, 1_000));
    ctx.observe_span_field_at("pid", FieldValue::text("X"), at(0, 2_000));
    ctx.start_span_at("update_policy", at(0, 3_000));
    ctx.observe_span_result(FieldValue::text("R"));
    ctx.end_span_at(false, None, at(0, 3_500));
    ctx.end_span_at(false, Some("boom".to_string()), at(0, 5_000_000));
    ctx
}

#[test]
fn the_scenario_renders_as_a_tree() {
    colored::control::set_override(false);
    let mut ctx = scenario();
    ctx.finalise_at(at(2, 0));
    let expected = "context: c1 [2020-09-13T12:26:40+00:00] main: 2.000s\n\
                    - 1\u{b5}s: create_policy: 5ms\n\
                    \x20   - 1\u{b5}s: pid=X\n\
                    \x20   - 2\u{b5}s: update_policy: 500ns\n\
                    \x20         result: R\n\
                    \x20     error: boom\n";
    assert_eq!(print_context(&ctx), expected);
}

#[test]
fn the_scenario_notifies_the_backend_once() {
    colored::control::set_override(false);
    let mut ctx = Context::new("c1".to_string());
    ctx.start_span("create_policy");
    ctx.observe_span_field("pid", FieldValue::text("X"));
    ctx.start_span("update_policy");
    ctx.observe_span_result(FieldValue::text("R"));
    ctx.end_span(false, None);
    ctx.end_span(false, Some("boom".to_string()));
    let seen = Rc::new(RefCell::new(Vec::new()));
    let backends = vec![Recorder { name: "only", seen: seen.clone() }];
    end_context(&mut ctx, &backends);
    assert_eq!(*seen.borrow(), vec!["only:c1:true".to_string()]);

    let text = Logger::builder().with_stdout().render(&ctx);
    let lines: Vec<&str> = text.lines().collect();
    assert_eq!(lines.len(), 6);
    assert!(lines[0].starts_with("context: c1 ["));
    assert!(lines[0].contains("] main: "));
    assert!(lines[1].starts_with("- "));
    assert!(lines[1].contains(": create_policy: "));
    assert!(lines[2].starts_with("    - "));
    assert!(lines[2].ends_with(": pid=X"));
    assert!(lines[3].starts_with("    - "));
    assert!(lines[3].contains(": update_policy: "));
    assert_eq!(lines[4], "          result: R");
    assert_eq!(lines[5], "      error: boom");
    let create_policy = match &ctx.span_stack()[0].items()[0] {
        observer::span::SpanItem::Frame { frame, .. } => frame,
        other => panic!("not a frame: {:?}", other),
    };
    assert_eq!(decoration(create_policy).mark, Mark::Failed);
    assert_eq!(create_policy.success(), Some(false));
}

#[test]
fn backends_are_told_in_their_order() {
    let seen = Rc::new(RefCell::new(Vec::new()));
    let backends = vec![
        Recorder { name: "first", seen: seen.clone() },
        Recorder { name: "second", seen: seen.clone() },
        Recorder { name: "third", seen: seen.clone() },
    ];
    let mut ctx = scenario();
    end_context_at(&mut ctx, &backends, at(2, 0));
    assert_eq!(
        *seen.borrow(),
        vec!["first:c1:true".to_string(), "second:c1:true".to_string(), "third:c1:true".to_string()]
    );
    assert!(ctx.span_stack()[0].has_ended());
}

#[test]
fn no_backend_is_no_notification() {
    let backends: Vec<Recorder> = Vec::new();
    let mut ctx = scenario();
    end_context_at(&mut ctx, &backends, at(2, 0));
    assert!(ctx.span_stack()[0].has_ended());
}

#[test]
fn print_span_indents_by_the_space_given() {
    colored::control::set_override(false);
    let mut span = Span::new("outer", at(0, 0));
    span.add_log("started", at(0, 10));
    span.add_breadcrumbs("qid", FieldValue::number(4839), at(0, 20));
    let mut inner = Span::new("inner", at(0, 30));
    inner.add_breadcrumbs("ok", FieldValue::boolean(true), at(1, 30));
    inner.set_result("1234");
    inner.set_success(true);
    inner.end(at(61, 30));
    span.add_sub_frame(inner);
    span.set_result("done");
    span.set_success(true);
    span.end(at(3_600, 0));
    let mut buffer = String::from(">");
    print_span(&mut buffer, &span, 2);
    let expected = ">outer: 1h 0m\n\
                    \x20 - 10ns: started\n\
                    \x20 - 20ns: qid=4839\n\
                    \x20 - 30ns: inner: 1m 1s\n\
                    \x20     - 1.000s: ok=true\n\
                    \x20       result: 1234\n\
                    \x20   result: done\n";
    assert_eq!(buffer, expected);
}

#[test]
fn print_context_shows_every_open_frame() {
    colored::control::set_override(false);
    let mut ctx = Context::new_at("c2".to_string(), "key".to_string(), at(0, 120_000_000));
    ctx.start_span_at("open", at(1, 0));
    ctx.span_log_at("still running", at(1, 5));
    let expected = "context: c2 [2020-09-13T12:26:40.120+00:00] main: 0ns\n\
                    open: 0ns\n\
                    - 5ns: still running\n";
    assert_eq!(print_context(&ctx), expected);
}

#[test]
fn decoration_tells_slow_from_normal() {
    let mut quick = Span::new("quick", at(0, 0));
    quick.end(at(0, 1_000_000));
    assert!(!decoration(&quick).slow);
    let mut slow = Span::new("slow", at(0, 0));
    slow.end(at(0, 1_000_001));
    assert!(decoration(&slow).slow);
    let open = Span::new("open", at(0, 0));
    assert!(!decoration(&open).slow);
}

#[test]
fn decoration_tells_failed_from_unknown() {
    let mut span = Span::new("a", at(0, 0));
    assert_eq!(decoration(&span).mark, Mark::Unknown);
    span.set_success(false);
    assert_eq!(decoration(&span).mark, Mark::Failed);
    span.set_success(true);
    assert_eq!(decoration(&span).mark, Mark::Succeeded);
    assert_eq!(decoration(&span), Decoration { slow: false, mark: Mark::Succeeded });
}

#[test]
fn logger_builder_sets_the_sinks() {
    let plain = Logger::builder();
    assert_eq!(plain.path(), &None);
    assert!(!plain.to_stdout());
    assert!(!plain.to_stderr());
    let full = Logger::builder().with_stdout().with_stderr().with_path("/tmp/requests.log");
    assert_eq!(full.path(), &Some("/tmp/requests.log".to_string()));
    assert!(full.to_stdout());
    assert!(full.to_stderr());
    let errors = Logger::builder().with_stderr();
    assert!(!errors.to_stdout());
    assert!(errors.to_stderr());
    assert_eq!(errors.path(), &None);
}

#[test]
fn logger_renders_only_for_a_sink_that_is_written() {
    colored::control::set_override(false);
    let mut ctx = scenario();
    ctx.finalise_at(at(2, 0));
    let text = print_context(&ctx);
    assert_eq!(Logger::builder().render(&ctx), "");
    assert_eq!(Logger::builder().with_stderr().render(&ctx), "");
    assert_eq!(Logger::builder().with_stdout().render(&ctx), text);
    assert_eq!(Logger::builder().with_path("requests.log").render(&ctx), text);
}
