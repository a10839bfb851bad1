use observer::context::Context;
use observer::observe::{observe, record_outcome_at, Resulty};
use observer::span::{Span, SpanItem};
use observer::time::{Interval, Timestamp};

struct Policy {
    id: String,
}

impl Resulty for Policy {
    fn to_result_string(&self) -> String {
        self.id.clone()
    }
}

fn last_child(ctx: &Context) -> &Span {
    let top = ctx.span_stack().last().unwrap();
    match top.items().last() {
        Some(SpanItem::Frame { frame, .. }) => frame,
        other => panic!("not a frame: {:?}", other),
    }
}

#[test]
fn observe_records_the_value_and_hands_it_back() {
    let mut ctx = Context::new("c1".to_string());
    let out = observe(&mut ctx, "update_policy", false, || Ok(1234u64));
    assert_eq!(out.unwrap(), 1234);
    assert_eq!(ctx.depth(), 1);
    let frame = last_child(&ctx);
    assert_eq!(frame.id(), "update_policy");
    assert_eq!(frame.result(), &Some("1234".to_string()));
    assert_eq!(frame.err(), &None);
    assert_eq!(frame.success(), Some(true));
    assert!(frame.has_ended());
    assert!(!frame.is_critical());
}

#[test]
fn observe_records_the_error_and_hands_it_back() {
    let mut ctx = Context::new("c1".to_string());
    let out: Result<u64, failure::Error> =
        observe(&mut ctx, "create_policy", true, || Err(failure::err_msg("boom")));
    let error = out.unwrap_err();
    assert_eq!(error.to_string(), "boom");
    assert_eq!(ctx.depth(), 1);
    let frame = last_child(&ctx);
    assert_eq!(frame.id(), "create_policy");
    assert_eq!(frame.result(), &None);
    assert_eq!(frame.success(), Some(false));
    assert!(frame.has_ended());
    assert!(frame.is_critical());
    match frame.err() {
        Some(text) => {
            assert!(text.contains("boom"));
            assert!(text.starts_with(&format!("{:?}", failure::err_msg("boom"))[..12]));
        }
        None => panic!("no error was recorded"),
    }
}

#[test]
fn observe_uses_the_text_that_the_value_gives() {
    let mut ctx = Context::new("c1".to_string());
    let out = observe(&mut ctx, "get_by_id", false, || Ok(Policy { id: "policy_id1".to_string() }));
    assert_eq!(out.unwrap().id, "policy_id1");
    assert_eq!(last_child(&ctx).result(), &Some("policy_id1".to_string()));
}

#[test]
fn observe_brackets_the_operation() {
    let mut ctx = Context::new("c1".to_string());
    let depth_inside = std::cell::Cell::new(0usize);
    ctx.start_span("outer");
    let before = ctx.depth();
    let out = observe(&mut ctx, "inner", false, || {
        depth_inside.set(1);
        Ok(true)
    });
    assert!(out.unwrap());
    assert_eq!(depth_inside.get(), 1);
    assert_eq!(ctx.depth(), before);
    assert_eq!(last_child(&ctx).id(), "inner");
    assert!(ctx.span_stack()[0].items().is_empty());
}

#[test]
fn observe_nests() {
    let mut ctx = Context::new("c1".to_string());
    ctx.start_span("create_policy");
    let _ = observe(&mut ctx, "first", false, || Ok(1u64));
    let _: Result<u64, failure::Error> =
        observe(&mut ctx, "second", false, || Err(failure::err_msg("no")));
    let _ = observe(&mut ctx, "third", false, || Ok("done".to_string()));
    ctx.end_span(false, None);
    let outer = last_child(&ctx);
    let mut seen = Vec::new();
    for item in outer.items().iter() {
        if let SpanItem::Frame { frame, .. } = item {
            seen.push((frame.id().clone(), frame.success()));
        }
    }
    assert_eq!(
        seen,
        vec![
            ("first".to_string(), Some(true)),
            ("second".to_string(), Some(false)),
            ("third".to_string(), Some(true)),
        ]
    );
}

#[test]
fn record_outcome_closes_with_a_result() {
    let mut ctx =
        Context::new_at("c1".to_string(), "k".to_string(), Timestamp::new(100, 0));
    ctx.start_span_at("a", Timestamp::new(101, 0));
    record_outcome_at(&mut ctx, false, Ok("R".to_string()), Timestamp::new(103, 0));
    let frame = last_child(&ctx);
    assert_eq!(frame.result(), &Some("R".to_string()));
    assert_eq!(frame.err(), &None);
    assert_eq!(frame.success(), Some(true));
    assert_eq!(frame.duration(), Interval::new(2, 0));
}

#[test]
fn record_outcome_closes_with_an_error() {
    let mut ctx =
        Context::new_at("c1".to_string(), "k".to_string(), Timestamp::new(100, 0));
    ctx.start_span_at("a", Timestamp::new(101, 0));
    record_outcome_at(&mut ctx, true, Err("boom".to_string()), Timestamp::new(103, 0));
    let frame = last_child(&ctx);
    assert_eq!(frame.result(), &None);
    assert_eq!(frame.err(), &Some("boom".to_string()));
    assert_eq!(frame.success(), Some(false));
    assert!(frame.is_critical());
}

#[test]
fn results_of_plain_values() {
    assert_eq!(0u64.to_result_string(), "0");
    assert_eq!(u64::MAX.to_result_string(), "18446744073709551615");
    assert_eq!(42usize.to_result_string(), "42");
    assert_eq!((-7i64).to_result_string(), "-7");
    assert_eq!(i64::MIN.to_result_string(), "-9223372036854775808");
    assert_eq!(true.to_result_string(), "true");
    assert_eq!(false.to_result_string(), "false");
    assert_eq!("policy".to_string().to_result_string(), "policy");
}
