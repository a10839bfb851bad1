//! Recording a database query under the frame on top: the frame is named
//! after the operation and the table, and the query's text, the number of
//! rows and an error become fields.

use vstd::prelude::*;
use vstd::string::StringExecFns;
use crate::context::{Context, ContextView};
use crate::time::Timestamp;
use crate::value::{FieldValue, ValueView};

verus! {

/// `text` without the characters that are `unwanted`.
pub open spec fn without(text: Seq<char>, unwanted: char) -> Seq<char>
    decreases text.len(),
{
    if text.len() == 0 {
        text
    } else if text.last() == unwanted {
        without(text.drop_last(), unwanted)
    } else {
        without(text.drop_last(), unwanted).push(text.last())
    }
}

/// The name of the frame of a query: `db__`, the operation, `__`, and the
/// table without double quotes.
pub open spec fn query_span_name(operation: Seq<char>, table: Seq<char>) -> Seq<char> {
    "db__"@ + operation + "__"@ + without(table, '"')
}

/// How a query ended.
#[derive(Debug, PartialEq, Eq)]
pub enum QueryOutcome {
    /// It changed this many rows.
    Modified(usize),
    /// It returned this many rows.
    Rows(usize),
    /// It failed with this error.
    Failed(String),
}

/// What a `QueryOutcome` stands for.
pub enum QueryOutcomeView {
    Modified(nat),
    Rows(nat),
    Failed(Seq<char>),
}

impl QueryOutcomeView {
    /// The error that the query failed with, if it failed.
    pub open spec fn error(self) -> Option<Seq<char>> {
        match self {
            QueryOutcomeView::Failed(text) => Some(text),
            _ => None,
        }
    }
}

impl View for QueryOutcome {
    type V = QueryOutcomeView;

    open spec fn view(&self) -> QueryOutcomeView {
        match self {
            QueryOutcome::Modified(n) => QueryOutcomeView::Modified(*n as nat),
            QueryOutcome::Rows(n) => QueryOutcomeView::Rows(*n as nat),
            QueryOutcome::Failed(text) => QueryOutcomeView::Failed(text@),
        }
    }
}

impl ContextView {
    /// The context after a query was recorded at `now`: its text without
    /// double quotes is the field `query`, and the frame on top is named
    /// after the operation and the table.
    pub open spec fn query(
        self,
        operation: Seq<char>,
        table: Seq<char>,
        query: Seq<char>,
        now: int,
    ) -> ContextView {
        self.span_field("query"@, ValueView::Text(without(query, '"')), now).span_id(
            query_span_name(operation, table),
        )
    }

    /// The context after a frame named `span` was opened at `now` and a query
    /// was recorded under it.
    pub open spec fn begin_query(
        self,
        span: Seq<char>,
        operation: Seq<char>,
        table: Seq<char>,
        query: Seq<char>,
        now: int,
    ) -> ContextView {
        self.start_span(span, now).query(operation, table, query, now)
    }

    /// The context after the outcome of a query was recorded at `now` and the
    /// frame on top was closed: with the error, if the query failed.
    pub open spec fn end_query(self, critical: bool, outcome: QueryOutcomeView, now: int) -> ContextView {
        self.query_outcome(outcome, now).end_span(critical, outcome.error(), now)
    }

    /// The context after the outcome of a query was recorded at `now`, as the
    /// field `modified`, `rows` or `error`.
    pub open spec fn query_outcome(self, outcome: QueryOutcomeView, now: int) -> ContextView {
        match outcome {
            QueryOutcomeView::Modified(n) => self.span_field(
                "modified"@,
                ValueView::Number(n as int),
                now,
            ),
            QueryOutcomeView::Rows(n) => self.span_field("rows"@, ValueView::Number(n as int), now),
            QueryOutcomeView::Failed(text) => self.span_field("error"@, ValueView::Text(text), now),
        }
    }
}

/// std's `str::replace` with a character as the pattern and the empty text
/// in its place: every occurrence of the character leaves, the rest stays in
/// its order.
#[verifier::external_body]
fn remove_char(text: &str, unwanted: char) -> (out: String)
    ensures
        out@ == without(text@, unwanted),
{
    text.replace(unwanted, "")
}

/// `text` without double quotes.
pub fn strip_quotes(text: &str) -> (out: String)
    ensures
        out@ == without(text@, '"'),
{
    remove_char(text, '"')
}

/// The name of the frame of a query on `table`.
pub fn query_span_id(operation: &str, table: &str) -> (id: String)
    ensures
        id@ == query_span_name(operation@, table@),
{
    let mut id = String::from_str("db__");
    id.append(operation);
    id.append("__");
    id.append(strip_quotes(table).as_str());
    id
}

/// Records a query under the frame on top, at `now`.
pub fn observe_query_at(
    ctx: &mut Context,
    operation: &str,
    table: &str,
    query: &str,
    now: Timestamp,
)
    ensures
        final(ctx)@ == old(ctx)@.query(operation@, table@, query@, now@),
        old(ctx)@.wf() ==> final(ctx)@.wf(),
{
    ctx.observe_span_field_at("query", FieldValue::Text(strip_quotes(query)), now);
    ctx.observe_span_id(query_span_id(operation, table).as_str());
}

/// Records the outcome of a query under the frame on top, at `now`.
pub fn observe_query_outcome_at(ctx: &mut Context, outcome: QueryOutcome, now: Timestamp)
    ensures
        final(ctx)@ == old(ctx)@.query_outcome(outcome@, now@),
        old(ctx)@.wf() ==> final(ctx)@.wf(),
{
    match outcome {
        QueryOutcome::Modified(n) => {
            ctx.observe_span_field_at("modified", FieldValue::Number(n as i128), now);
        },
        QueryOutcome::Rows(n) => {
            ctx.observe_span_field_at("rows", FieldValue::Number(n as i128), now);
        },
        QueryOutcome::Failed(text) => {
            ctx.observe_span_field_at("error", FieldValue::Text(text), now);
        },
    }
}

/// Opens a frame named `span` at `now` and records a query under it.
pub fn begin_query_at(
    ctx: &mut Context,
    span: &str,
    operation: &str,
    table: &str,
    query: &str,
    now: Timestamp,
)
    ensures
        final(ctx)@ == old(ctx)@.begin_query(span@, operation@, table@, query@, now@),
        old(ctx)@.wf() ==> final(ctx)@.wf(),
{
    ctx.start_span_at(span, now);
    observe_query_at(ctx, operation, table, query, now);
}

/// Opens a frame named `span` now and records a query under it.
pub fn begin_query(ctx: &mut Context, span: &str, operation: &str, table: &str, query: &str)
    ensures
        old(ctx)@.wf() ==> final(ctx)@.wf(),
        exists|now: int| #[trigger]
            old(ctx)@.begin_query(span@, operation@, table@, query@, now) == final(ctx)@,
{
    let now = Timestamp::now();
    begin_query_at(ctx, span, operation, table, query, now);
}

/// Records the outcome of a query at `now` and closes the frame on top: as
/// failed, with the error, if the query failed.
pub fn end_query_at(ctx: &mut Context, critical: bool, outcome: QueryOutcome, now: Timestamp)
    ensures
        final(ctx)@ == old(ctx)@.end_query(critical, outcome@, now@),
        old(ctx)@.wf() ==> final(ctx)@.wf(),
{
    let err = match &outcome {
        QueryOutcome::Failed(text) => Some(text.clone()),
        _ => None,
    };
    observe_query_outcome_at(ctx, outcome, now);
    ctx.end_span_at(critical, err, now);
}

/// Records the outcome of a query now and closes the frame on top.
pub fn end_query(ctx: &mut Context, critical: bool, outcome: QueryOutcome)
    ensures
        old(ctx)@.wf() ==> final(ctx)@.wf(),
        exists|now: int| #[trigger] old(ctx)@.end_query(critical, outcome@, now) == final(ctx)@,
{
    let now = Timestamp::now();
    end_query_at(ctx, critical, outcome, now);
}

} // verus!
