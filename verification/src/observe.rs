//! Running a fallible operation inside a frame of its own.

use vstd::prelude::*;
use crate::context::{Context, ContextView};
use crate::text::{decimal, push_decimal, push_signed_decimal, signed_decimal};
use crate::time::Timestamp;
use crate::value::{FieldValue, ValueView};

verus! {

/// A value that can say what it is recorded as when an operation returns it.
pub trait Resulty {
    /// The text that the value is recorded as. A type that does not say
    /// what it is leaves it open.
    open spec fn result_text(&self) -> Seq<char> {
        arbitrary()
    }

    /// The text that the value is recorded as. The same value always gives the
    /// same text.
    fn to_result_string(&self) -> (text: String)
        ensures
            text@ == self.result_text(),
    ;
}

impl Resulty for u64 {
    open spec fn result_text(&self) -> Seq<char> {
        decimal(*self as nat)
    }

    fn to_result_string(&self) -> (text: String) {
        let mut text = String::new();
        push_decimal(&mut text, *self as u128);
        assert(text@ =~= decimal(*self as nat));
        text
    }
}

impl Resulty for usize {
    open spec fn result_text(&self) -> Seq<char> {
        decimal(*self as nat)
    }

    fn to_result_string(&self) -> (text: String) {
        let mut text = String::new();
        push_decimal(&mut text, *self as u128);
        assert(text@ =~= decimal(*self as nat));
        text
    }
}

impl Resulty for i64 {
    open spec fn result_text(&self) -> Seq<char> {
        signed_decimal(*self as int)
    }

    fn to_result_string(&self) -> (text: String) {
        let mut text = String::new();
        push_signed_decimal(&mut text, *self as i128);
        assert(text@ =~= signed_decimal(*self as int));
        text
    }
}

impl Resulty for bool {
    open spec fn result_text(&self) -> Seq<char> {
        if *self {
            "true"@
        } else {
            "false"@
        }
    }

    fn to_result_string(&self) -> (text: String) {
        if *self {
            "true".to_owned()
        } else {
            "false".to_owned()
        }
    }
}

impl Resulty for String {
    open spec fn result_text(&self) -> Seq<char> {
        self@
    }

    fn to_result_string(&self) -> (text: String) {
        self.clone()
    }
}

impl ContextView {
    /// The context after an operation was run in a frame named `name`,
    /// opened at `start` and closed at `end`. `outcome` is the text of the
    /// value that the operation returned, or the text of its error.
    pub open spec fn observed(
        self,
        name: Seq<char>,
        critical: bool,
        outcome: Result<Seq<char>, Seq<char>>,
        start: int,
        end: int,
    ) -> ContextView {
        match outcome {
            Ok(text) => self.start_span(name, start).span_result(ValueView::Text(text)).end_span(
                critical,
                None,
                end,
            ),
            Err(text) => self.start_span(name, start).end_span(critical, Some(text), end),
        }
    }
}

/// `failure::Error`: the error of an operation. It is handed back to the
/// caller as it came and never looked into.
#[verifier::external_type_specification]
#[verifier::external_body]
pub struct ExError(failure::Error);

/// The text of an error in its `Debug` form. It may hold a backtrace, which
/// depends on the environment the program runs in, so nothing is claimed of
/// it.
#[verifier::external_body]
fn error_text(error: &failure::Error) -> (text: String) {
    format!("{:?}", error)
}

/// Closes the frame on top at `now` with the outcome of an operation: the
/// text of its value becomes the frame's result, the text of its error the
/// frame's error.
pub fn record_outcome_at(
    ctx: &mut Context,
    critical: bool,
    outcome: Result<String, String>,
    now: Timestamp,
)
    ensures
        final(ctx)@ == (match outcome {
            Ok(text) => old(ctx)@.span_result(ValueView::Text(text@)).end_span(critical, None, now@),
            Err(text) => old(ctx)@.end_span(critical, Some(text@), now@),
        }),
        old(ctx)@.wf() ==> final(ctx)@.wf(),
{
    match outcome {
        Ok(text) => {
            ctx.observe_span_result(FieldValue::Text(text));
            ctx.end_span_at(critical, None, now);
        },
        Err(text) => {
            ctx.end_span_at(critical, Some(text), now);
        },
    }
}

/// Runs `operation` in a frame named `name`: opens the frame, runs the
/// operation, records the text of its value as the frame's result or the
/// text of its error as the frame's error, closes the frame, and hands back
/// what the operation returned.
pub fn observe<F, T>(ctx: &mut Context, name: &str, critical: bool, operation: F) -> (out: Result<
    T,
    failure::Error,
>) where F: FnOnce() -> Result<T, failure::Error>, T: Resulty
    requires
        operation.requires(()),
    ensures
        operation.ensures((), out),
        old(ctx)@.wf() ==> final(ctx)@.wf(),
        out matches Ok(value) ==> exists|start: int, end: int| #[trigger]
            old(ctx)@.observed(name@, critical, Ok(value.result_text()), start, end) == final(ctx)@,
        out is Err ==> exists|start: int, end: int, text: Seq<char>| #[trigger]
            old(ctx)@.observed(name@, critical, Err(text), start, end) == final(ctx)@,
{
    let start = Timestamp::now();
    ctx.start_span_at(name, start);
    let out = operation();
    let outcome = match &out {
        Ok(value) => Ok(value.to_result_string()),
        Err(error) => Err(error_text(error)),
    };
    let end = Timestamp::now();
    let ghost told: Result<Seq<char>, Seq<char>> = match &outcome {
        Ok(text) => Ok(text@),
        Err(text) => Err(text@),
    };
    record_outcome_at(ctx, critical, outcome, end);
    assert(old(ctx)@.observed(name@, critical, told, start@, end@) == ctx@);
    out
}

} // verus!
