//! What holds of every context and every frame, whatever is recorded.

use vstd::prelude::*;
use crate::context::ContextView;
use crate::span::{ItemView, SpanView};
use crate::value::ValueView;

verus! {

/// One step in the life of a context.
pub enum Op {
    Start { name: Seq<char>, now: int },
    End { critical: bool, err: Option<Seq<char>>, now: int },
    Rename { id: Seq<char> },
    Field { name: Seq<char>, value: ValueView, now: int },
    Outcome { value: ValueView },
    Log { message: Seq<char>, now: int },
    Finalise { now: int },
}

impl ContextView {
    /// The context after one step.
    pub open spec fn apply(self, op: Op) -> ContextView {
        match op {
            Op::Start { name, now } => self.start_span(name, now),
            Op::End { critical, err, now } => self.end_span(critical, err, now),
            Op::Rename { id } => self.span_id(id),
            Op::Field { name, value, now } => self.span_field(name, value, now),
            Op::Outcome { value } => self.span_result(value),
            Op::Log { message, now } => self.span_log(message, now),
            Op::Finalise { now } => self.finalise(now),
        }
    }

    /// The context after the steps `ops`, taken in their order.
    pub open spec fn run(self, ops: Seq<Op>) -> ContextView
        decreases ops.len(),
    {
        if ops.len() == 0 {
            self
        } else {
            self.run(ops.drop_last()).apply(ops.last())
        }
    }
}

/// How many more frames `ops` opens than it closes.
pub open spec fn level(ops: Seq<Op>) -> int
    decreases ops.len(),
{
    if ops.len() == 0 {
        0
    } else {
        level(ops.drop_last()) + (match ops.last() {
            Op::Start { .. } => 1int,
            Op::End { .. } => -1int,
            _ => 0int,
        })
    }
}

/// No step of `ops` closes a frame that `ops` did not open before.
pub open spec fn nested(ops: Seq<Op>) -> bool {
    forall|k: int| 0 <= k <= ops.len() ==> level(#[trigger] ops.take(k)) >= 0
}

/// Every frame that `ops` opens it closes, and it closes no other.
pub open spec fn matched(ops: Seq<Op>) -> bool {
    nested(ops) && level(ops) == 0
}

/// Steps that close only frames of their own leave as many more frames open
/// as they open more than they close.
pub proof fn lemma_depth_follows_level(ctx: ContextView, ops: Seq<Op>)
    requires
        ctx.depth() >= 1,
        nested(ops),
    ensures
        ctx.run(ops).depth() == ctx.depth() + level(ops),
    decreases ops.len(),
{
    if ops.len() > 0 {
        let before = ops.drop_last();
        assert forall|k: int| 0 <= k <= before.len() implies level(#[trigger] before.take(k))
            >= 0 by {
            assert(before.take(k) =~= ops.take(k));
        }
        lemma_depth_follows_level(ctx, before);
        assert(ops.take(ops.len() as int) =~= ops);
        assert(before.take(before.len() as int) =~= before);
        assert(level(ops.take(ops.len() as int)) >= 0);
        assert(level(before.take(before.len() as int)) >= 0);
    }
}

/// Stack balance: after steps in which every opened frame is closed and no
/// other, as many frames are open as before.
pub proof fn law_stack_balance(ctx: ContextView, ops: Seq<Op>)
    requires
        ctx.depth() >= 1,
        matched(ops),
    ensures
        ctx.run(ops).depth() == ctx.depth(),
{
    lemma_depth_follows_level(ctx, ops);
}

/// Write locality of a field: it becomes the last item of the frame on top.
/// The items that the frame held, nested frames among them, stay as they
/// were, and so does every frame below.
pub proof fn law_field_goes_to_top(ctx: ContextView, name: Seq<char>, value: ValueView, now: int)
    requires
        ctx.depth() >= 1,
        !ctx.top().ended(),
    ensures
        ({
            let after = ctx.span_field(name, value, now);
            &&& after.depth() == ctx.depth()
            &&& after.below_top() == ctx.below_top()
            &&& after.top().items.len() == ctx.top().items.len() + 1
            &&& after.top().items.drop_last() == ctx.top().items
            &&& after.top().items.last() == (ItemView::Field {
                name,
                value,
                offset: ctx.top().offset_at(now),
            })
            &&& after.top() == (SpanView { items: after.top().items, ..ctx.top() })
        }),
{
    let after = ctx.span_field(name, value, now);
    assert(after.below_top() =~= ctx.below_top());
    assert(after.top().items.drop_last() =~= ctx.top().items);
}

/// Write locality of a log line: it becomes the last item of the frame on
/// top. The items that the frame held, nested frames among them, stay as
/// they were, and so does every frame below.
pub proof fn law_log_goes_to_top(ctx: ContextView, message: Seq<char>, now: int)
    requires
        ctx.depth() >= 1,
        !ctx.top().ended(),
    ensures
        ({
            let after = ctx.span_log(message, now);
            &&& after.depth() == ctx.depth()
            &&& after.below_top() == ctx.below_top()
            &&& after.top().items.len() == ctx.top().items.len() + 1
            &&& after.top().items.drop_last() == ctx.top().items
            &&& after.top().items.last() == (ItemView::Log {
                message,
                offset: ctx.top().offset_at(now),
            })
            &&& after.top() == (SpanView { items: after.top().items, ..ctx.top() })
        }),
{
    let after = ctx.span_log(message, now);
    assert(after.below_top() =~= ctx.below_top());
    assert(after.top().items.drop_last() =~= ctx.top().items);
}

/// Child order: whatever step is taken, and whatever the clock says, each
/// frame keeps its items in the order of their offsets, no item of an ended
/// frame lies beyond the frame's end, and the same holds of every nested
/// frame.
pub proof fn law_items_stay_chronological(ctx: ContextView, op: Op)
    requires
        ctx.wf(),
    ensures
        ctx.apply(op).wf(),
{
    let after = ctx.apply(op);
    let n = ctx.depth() as int;
    let top = ctx.top();
    assert(top.wf());
    match op {
        Op::Start { name, now } => {
            assert(SpanView::fresh(name, now).wf());
        },
        Op::End { critical, err, now } => {
            let child = top.concluded(critical, err, now);
            top.lemma_concluded_wf(critical, err, now);
            if n >= 2 {
                let parent = ctx.stack[n - 2];
                assert(parent.wf());
                parent.lemma_with_item_wf(
                    ItemView::Frame { frame: child, offset: parent.offset_at(child.created_on) },
                );
            }
        },
        Op::Rename { id } => {
            top.lemma_same_items_wf(top.renamed(id));
        },
        Op::Field { name, value, now } => {
            top.lemma_with_item_wf(ItemView::Field { name, value, offset: top.offset_at(now) });
        },
        Op::Outcome { value } => {
            top.lemma_same_items_wf(top.with_result(crate::value::value_text(value)));
        },
        Op::Log { message, now } => {
            top.lemma_with_item_wf(ItemView::Log { message, offset: top.offset_at(now) });
        },
        Op::Finalise { now } => {
            top.lemma_end_wf(now);
        },
    }
    assert forall|i: int| 0 <= i < after.stack.len() implies (#[trigger] after.stack[i]).wf() by {
        if i < after.stack.len() - 1 {
            assert(after.stack[i] == ctx.stack[i]);
        }
    }
}

/// Child order over a whole run: a well-formed context is well-formed after
/// any steps.
pub proof fn law_run_stays_chronological(ctx: ContextView, ops: Seq<Op>)
    requires
        ctx.wf(),
    ensures
        ctx.run(ops).wf(),
    decreases ops.len(),
{
    if ops.len() > 0 {
        law_run_stays_chronological(ctx, ops.drop_last());
        law_items_stay_chronological(ctx.run(ops.drop_last()), ops.last());
    }
}

/// Child order at the moment of closing: the closed frame becomes the last
/// item of the frame below it, after all that was recorded there, at an
/// offset that is no less than any before it. Where the clock did not run
/// backwards, the offset is the time from the parent's start to the child's.
pub proof fn law_child_is_appended(
    ctx: ContextView,
    critical: bool,
    err: Option<Seq<char>>,
    now: int,
)
    requires
        ctx.wf(),
        ctx.depth() >= 2,
        !ctx.stack[ctx.depth() - 2].ended(),
    ensures
        ({
            let parent = ctx.stack[ctx.depth() - 2];
            let child = ctx.top().concluded(critical, err, now);
            let after = ctx.end_span(critical, err, now);
            &&& after.depth() == ctx.depth() - 1
            &&& after.top().items.drop_last() == parent.items
            &&& after.top().items.last() matches ItemView::Frame { frame, offset }
            &&& frame == child
            &&& forall|i: int|
                0 <= i < parent.items.len() ==> (#[trigger] parent.items[i]).offset() <= offset
            &&& child.created_on - parent.created_on >= parent.last_offset() ==> offset
                == child.created_on - parent.created_on
        }),
{
    let parent = ctx.stack[ctx.depth() - 2];
    let after = ctx.end_span(critical, err, now);
    assert(parent.wf());
    assert(after.top().items.drop_last() =~= parent.items);
    assert forall|i: int| 0 <= i < parent.items.len() implies (#[trigger] parent.items[i]).offset()
        <= parent.last_offset() by {
        assert(parent.items[i].offset() <= parent.items[parent.items.len() - 1].offset());
    }
}

/// Child order in an ended frame: no item lies before an earlier one, and
/// none lies beyond the frame's length.
pub proof fn law_items_within_duration(span: SpanView, i: int, j: int)
    requires
        span.wf(),
        0 <= i <= j < span.items.len(),
    ensures
        0 <= span.items[i].offset() <= span.items[j].offset(),
        span.ended() ==> span.items[j].offset() <= span.elapsed(),
{
}

/// Terminal write-once: nothing changes a frame that has ended; its length
/// and its success least of all.
pub proof fn law_ended_frame_is_frozen(span: SpanView)
    requires
        span.ended(),
    ensures
        forall|message: Seq<char>, now: int| #[trigger] span.with_log(message, now) == span,
        forall|name: Seq<char>, value: ValueView, now: int| #[trigger]
            span.with_field(name, value, now) == span,
        forall|child: SpanView| #[trigger] span.with_child(child) == span,
        forall|id: Seq<char>| #[trigger] span.renamed(id) == span,
        forall|text: Seq<char>| #[trigger] span.with_result(text) == span,
        forall|success: bool| #[trigger] span.with_success(success) == span,
        forall|err: Option<Seq<char>>| #[trigger] span.with_err(err) == span,
        forall|critical: bool| #[trigger] span.with_critical(critical) == span,
        forall|now: int| #[trigger] span.end(now) == span,
        forall|critical: bool, err: Option<Seq<char>>, now: int| #[trigger]
            span.concluded(critical, err, now) == span,
{
}

/// Terminal write-once on the stack: a frame that has ended is the same
/// after any step, as long as it is open.
pub proof fn law_ended_frame_stays(ctx: ContextView, op: Op, i: int)
    requires
        0 <= i < ctx.depth(),
        ctx.stack[i].ended(),
        i < ctx.apply(op).depth(),
    ensures
        ctx.apply(op).stack[i] == ctx.stack[i],
{
    law_ended_frame_is_frozen(ctx.stack[i]);
}

/// Ending a frame sets its length once: the frame has then ended, and ending
/// it again changes nothing.
pub proof fn law_end_is_final(span: SpanView, first: int, second: int)
    ensures
        span.end(first).ended(),
        span.end(first).end(second) == span.end(first),
        span.concluded(false, None, first).ended(),
{
}

/// Error propagation: the frame of an operation that failed holds no result,
/// holds the error's text, and did not succeed. It is the last item of the
/// frame that was on top, unless that frame had ended.
pub proof fn law_failed_operation(
    ctx: ContextView,
    name: Seq<char>,
    critical: bool,
    text: Seq<char>,
    start: int,
    end: int,
)
    requires
        ctx.depth() >= 1,
    ensures
        ({
            let frame = SpanView::fresh(name, start).concluded(critical, Some(text), end);
            let after = ctx.observed(name, critical, Err(text), start, end);
            &&& frame.result.is_none()
            &&& frame.err == Some(text)
            &&& frame.success == Some(false)
            &&& frame.ended()
            &&& after.depth() == ctx.depth()
            &&& after.below_top() == ctx.below_top()
            &&& after.top() == ctx.top().with_child(frame)
            &&& !ctx.top().ended() ==> after.top().items.last() == (ItemView::Frame {
                frame,
                offset: ctx.top().offset_at(start),
            })
        }),
{
    let opened = ctx.start_span(name, start);
    let after = ctx.observed(name, critical, Err(text), start, end);
    assert(opened.stack.take(opened.depth() - 2) =~= ctx.below_top());
    assert(after.below_top() =~= ctx.below_top());
}

/// The frame of an operation that succeeded holds the text of its value as
/// result, holds no error, and succeeded.
pub proof fn law_succeeded_operation(
    ctx: ContextView,
    name: Seq<char>,
    critical: bool,
    text: Seq<char>,
    start: int,
    end: int,
)
    requires
        ctx.depth() >= 1,
    ensures
        ({
            let frame = SpanView::fresh(name, start).with_result(text).concluded(
                critical,
                None,
                end,
            );
            let after = ctx.observed(name, critical, Ok(text), start, end);
            &&& frame.result == Some(text)
            &&& frame.err.is_none()
            &&& frame.success == Some(true)
            &&& after.depth() == ctx.depth()
            &&& after.below_top() == ctx.below_top()
            &&& after.top() == ctx.top().with_child(frame)
        }),
{
    let opened = ctx.start_span(name, start);
    let recorded = opened.span_result(ValueView::Text(text));
    let after = ctx.observed(name, critical, Ok(text), start, end);
    assert(opened.below_top() =~= ctx.stack);
    assert(recorded.stack.take(recorded.depth() - 2) =~= ctx.below_top());
    assert(after.below_top() =~= ctx.below_top());
}

impl Op {
    /// The moment of the step, if it reads the clock.
    pub open spec fn time(self) -> Option<int> {
        match self {
            Op::Start { now, .. } => Some(now),
            Op::End { now, .. } => Some(now),
            Op::Field { now, .. } => Some(now),
            Op::Log { now, .. } => Some(now),
            Op::Finalise { now } => Some(now),
            Op::Rename { .. } => None,
            Op::Outcome { .. } => None,
        }
    }
}

/// The latest moment among `from` and the moments of `ops`.
pub open spec fn latest(ops: Seq<Op>, from: int) -> int
    decreases ops.len(),
{
    if ops.len() == 0 {
        from
    } else {
        let before = latest(ops.drop_last(), from);
        match ops.last().time() {
            Some(t) => if t > before {
                t
            } else {
                before
            },
            None => before,
        }
    }
}

/// The clock did not run backwards: no step of `ops` is earlier than `from`
/// or than a step before it.
pub open spec fn steady(ops: Seq<Op>, from: int) -> bool
    decreases ops.len(),
{
    ops.len() == 0 || (steady(ops.drop_last(), from) && (ops.last().time() matches Some(t) ==> t
        >= latest(ops.drop_last(), from)))
}

/// All that `span` holds happened by the moment `by`, in the order in which
/// it stands: the frame was started by then; its items stand in the order of
/// their offsets, none after `by`; each nested frame has ended, stands at the
/// offset of its own start, and is settled itself.
pub open spec fn settled(span: SpanView, by: int) -> bool
    decreases span,
{
    &&& span.created_on <= by
    &&& span.chronological()
    &&& span.duration matches Some(d) ==> span.created_on + d <= by
    &&& forall|i: int|
        0 <= i < span.items.len() ==> span.created_on + (#[trigger] span.items[i]).offset() <= by
    &&& forall|i: int|
        0 <= i < span.items.len() ==> (#[trigger] span.items[i] matches ItemView::Frame {
            frame,
            offset,
        } ==> frame.ended() && offset == frame.created_on - span.created_on && settled(frame, by))
}

/// Every open frame is settled by the start of the frame above it, and the
/// frame on top by the moment `now`.
pub open spec fn in_time(ctx: ContextView, now: int) -> bool {
    &&& ctx.depth() >= 1
    &&& forall|k: int|
        0 <= k < ctx.stack.len() ==> settled(
            #[trigger] ctx.stack[k],
            if k + 1 < ctx.stack.len() {
                ctx.stack[k + 1].created_on
            } else {
                now
            },
        )
}

/// What is settled by a moment is settled by any later one.
pub proof fn lemma_settled_later(span: SpanView, by: int, later: int)
    requires
        settled(span, by),
        by <= later,
    ensures
        settled(span, later),
    decreases span,
{
    assert forall|i: int| 0 <= i < span.items.len() implies (#[trigger] span.items[i] matches ItemView::Frame {
        frame,
        offset,
    } ==> frame.ended() && offset == frame.created_on - span.created_on && settled(
        frame,
        later,
    )) by {
        if let ItemView::Frame { frame, offset } = span.items[i] {
            lemma_settled_later(frame, by, later);
        }
    }
}

/// A settled frame is settled with the same items under other attributes.
proof fn lemma_settled_same_items(span: SpanView, other: SpanView, by: int)
    requires
        settled(span, by),
        other.items == span.items,
        other.duration == span.duration,
        other.created_on == span.created_on,
    ensures
        settled(other, by),
{
    assert forall|i: int| 0 <= i < other.items.len() implies other.created_on + (
    #[trigger] other.items[i]).offset() <= by by {
        assert(other.items[i] == span.items[i]);
    }
    assert forall|i: int| 0 <= i < other.items.len() implies (#[trigger] other.items[i] matches ItemView::Frame {
        frame,
        offset,
    } ==> frame.ended() && offset == frame.created_on - other.created_on && settled(frame, by)) by {
        assert(other.items[i] == span.items[i]);
    }
}

/// A frame settled by a moment is settled by a later moment `now` after an
/// item was recorded at `now`; the item stands at the time since the frame's
/// start.
proof fn lemma_settled_with_item(span: SpanView, item: ItemView, by: int, now: int)
    requires
        settled(span, by),
        by <= now,
        item.offset() == span.offset_at(now),
        item matches ItemView::Frame { frame, offset } ==> frame.ended() && frame.created_on == now
            && settled(frame, now),
    ensures
        settled(span.with_item(item), now),
        !span.ended() ==> item.offset() == now - span.created_on,
{
    lemma_settled_later(span, by, now);
    let after = span.with_item(item);
    if !span.ended() {
        let n = span.items.len() as int;
        if n > 0 {
            assert(span.created_on + span.items[n - 1].offset() <= by);
        }
        assert(item.offset() == now - span.created_on);
        assert forall|i: int, j: int| 0 <= i <= j < after.items.len() implies after.items[i].offset()
            <= after.items[j].offset() by {
            if j == n {
                if i < n {
                    assert(span.created_on + span.items[i].offset() <= by);
                }
            } else {
                assert(span.items[i].offset() <= span.items[j].offset());
            }
        }
        assert forall|i: int| 0 <= i < after.items.len() implies after.created_on + (
        #[trigger] after.items[i]).offset() <= now by {
            if i < n {
                assert(after.items[i] == span.items[i]);
            }
        }
        assert forall|i: int| 0 <= i < after.items.len() implies (#[trigger] after.items[i] matches ItemView::Frame {
            frame,
            offset,
        } ==> frame.ended() && offset == frame.created_on - after.created_on && settled(
            frame,
            now,
        )) by {
            if i < n {
                assert(after.items[i] == span.items[i]);
            }
        }
    }
}

/// A frame settled by a moment is settled by a later moment `now` after it
/// was ended at `now`.
proof fn lemma_settled_end(span: SpanView, by: int, now: int)
    requires
        settled(span, by),
        by <= now,
    ensures
        settled(span.end(now), now),
{
    lemma_settled_later(span, by, now);
    let after = span.end(now);
    if !span.ended() {
        let n = span.items.len() as int;
        if n > 0 {
            assert(span.created_on + span.items[n - 1].offset() <= by);
        }
        assert(span.offset_at(now) == now - span.created_on);
        assert forall|i: int| 0 <= i < after.items.len() implies #[trigger] after.items[i].offset()
            <= span.offset_at(now) by {
            assert(span.created_on + span.items[i].offset() <= by);
        }
        assert forall|i: int| 0 <= i < after.items.len() implies after.created_on + (
        #[trigger] after.items[i]).offset() <= now by {
            assert(after.items[i] == span.items[i]);
        }
        assert forall|i: int| 0 <= i < after.items.len() implies (#[trigger] after.items[i] matches ItemView::Frame {
            frame,
            offset,
        } ==> frame.ended() && offset == frame.created_on - after.created_on && settled(
            frame,
            now,
        )) by {
            assert(after.items[i] == span.items[i]);
        }
    }
}

/// One step under a clock that does not run backwards keeps the context in
/// time.
pub proof fn lemma_step_in_time(ctx: ContextView, op: Op, by: int)
    requires
        in_time(ctx, by),
        op.time() matches Some(t) ==> t >= by,
    ensures
        in_time(
            ctx.apply(op),
            match op.time() {
                Some(t) => t,
                None => by,
            },
        ),
{
    let after = ctx.apply(op);
    let n = ctx.depth() as int;
    let top = ctx.top();
    let now = match op.time() {
        Some(t) => t,
        None => by,
    };
    assert(settled(ctx.stack[n - 1], by));
    match op {
        Op::Start { name, now } => {
            lemma_settled_later(top, by, now);
            assert(settled(SpanView::fresh(name, now), now));
            assert forall|k: int| 0 <= k < after.stack.len() implies settled(
                #[trigger] after.stack[k],
                if k + 1 < after.stack.len() {
                    after.stack[k + 1].created_on
                } else {
                    now
                },
            ) by {
                if k < n {
                    assert(after.stack[k] == ctx.stack[k]);
                    assert(settled(ctx.stack[k], if k + 1 < n {
                        ctx.stack[k + 1].created_on
                    } else {
                        by
                    }));
                }
            }
        },
        Op::End { critical, err, now } => {
            let marked = top.with_critical(critical).with_success(err.is_none()).with_err(err);
            lemma_settled_same_items(top, marked, by);
            lemma_settled_end(marked, by, now);
            let child = top.concluded(critical, err, now);
            assert(settled(child, now));
            assert(child.created_on == top.created_on);
            if n >= 2 {
                let parent = ctx.stack[n - 2];
                assert(settled(parent, top.created_on));
                lemma_settled_with_child(parent, child, now);
                assert forall|k: int| 0 <= k < after.stack.len() implies settled(
                    #[trigger] after.stack[k],
                    if k + 1 < after.stack.len() {
                        after.stack[k + 1].created_on
                    } else {
                        now
                    },
                ) by {
                    if k < n - 2 {
                        assert(after.stack[k] == ctx.stack[k]);
                        assert(settled(ctx.stack[k], ctx.stack[k + 1].created_on));
                        if k + 1 == n - 2 {
                            assert(after.stack[k + 1].created_on == parent.created_on);
                        } else {
                            assert(after.stack[k + 1] == ctx.stack[k + 1]);
                        }
                    }
                }
            } else {
                assert(after.stack =~= seq![child]);
            }
        },
        Op::Rename { id } => {
            lemma_settled_same_items(top, top.renamed(id), by);
            lemma_on_top_in_time(ctx, top.renamed(id), by, by);
        },
        Op::Outcome { value } => {
            let text = crate::value::value_text(value);
            lemma_settled_same_items(top, top.with_result(text), by);
            lemma_on_top_in_time(ctx, top.with_result(text), by, by);
        },
        Op::Field { name, value, now } => {
            let item = ItemView::Field { name, value, offset: top.offset_at(now) };
            lemma_settled_with_item(top, item, by, now);
            lemma_on_top_in_time(ctx, top.with_item(item), by, now);
        },
        Op::Log { message, now } => {
            let item = ItemView::Log { message, offset: top.offset_at(now) };
            lemma_settled_with_item(top, item, by, now);
            lemma_on_top_in_time(ctx, top.with_item(item), by, now);
        },
        Op::Finalise { now } => {
            lemma_settled_end(top, by, now);
            lemma_on_top_in_time(ctx, top.end(now), by, now);
        },
    }
}

/// A context in time stays in time when the frame on top gives way to one
/// that was started at the same moment and is settled.
proof fn lemma_on_top_in_time(ctx: ContextView, frame: SpanView, by: int, now: int)
    requires
        in_time(ctx, by),
        frame.created_on == ctx.top().created_on,
        settled(frame, now),
    ensures
        in_time(ctx.on_top(frame), now),
{
    let after = ctx.on_top(frame);
    let n = ctx.depth() as int;
    assert forall|k: int| 0 <= k < after.stack.len() implies settled(
        #[trigger] after.stack[k],
        if k + 1 < after.stack.len() {
            after.stack[k + 1].created_on
        } else {
            now
        },
    ) by {
        if k < n - 1 {
            assert(after.stack[k] == ctx.stack[k]);
            assert(settled(ctx.stack[k], ctx.stack[k + 1].created_on));
            if k + 1 < n - 1 {
                assert(after.stack[k + 1] == ctx.stack[k + 1]);
            }
        }
    }
}

/// A frame settled by the start of `child` is settled by `now` after the
/// ended `child` was attached; the child stands at the offset of its start.
proof fn lemma_settled_with_child(parent: SpanView, child: SpanView, now: int)
    requires
        settled(parent, child.created_on),
        settled(child, now),
        child.ended(),
    ensures
        settled(parent.with_child(child), now),
        !parent.ended() ==> parent.offset_at(child.created_on) == child.created_on
            - parent.created_on,
{
    let started = child.created_on;
    let item = ItemView::Frame { frame: child, offset: parent.offset_at(started) };
    lemma_settled_later(parent, started, now);
    let after = parent.with_item(item);
    if !parent.ended() {
        let n = parent.items.len() as int;
        if n > 0 {
            assert(parent.created_on + parent.items[n - 1].offset() <= started);
        }
        assert(item.offset() == started - parent.created_on);
        assert forall|i: int, j: int| 0 <= i <= j < after.items.len() implies after.items[i].offset()
            <= after.items[j].offset() by {
            if j == n {
                if i < n {
                    assert(parent.created_on + parent.items[i].offset() <= started);
                }
            } else {
                assert(parent.items[i].offset() <= parent.items[j].offset());
            }
        }
        assert forall|i: int| 0 <= i < after.items.len() implies after.created_on + (
        #[trigger] after.items[i]).offset() <= now by {
            if i < n {
                assert(after.items[i] == parent.items[i]);
            }
        }
        assert forall|i: int| 0 <= i < after.items.len() implies (#[trigger] after.items[i] matches ItemView::Frame {
            frame,
            offset,
        } ==> frame.ended() && offset == frame.created_on - after.created_on && settled(
            frame,
            now,
        )) by {
            if i < n {
                assert(after.items[i] == parent.items[i]);
            }
        }
    }
}

/// Steps under a clock that does not run backwards keep the context in time.
pub proof fn lemma_run_in_time(ctx: ContextView, ops: Seq<Op>, from: int)
    requires
        in_time(ctx, from),
        steady(ops, from),
    ensures
        in_time(ctx.run(ops), latest(ops, from)),
        latest(ops, from) >= from,
    decreases ops.len(),
{
    if ops.len() > 0 {
        lemma_run_in_time(ctx, ops.drop_last(), from);
        lemma_step_in_time(ctx.run(ops.drop_last()), ops.last(), latest(ops.drop_last(), from));
    }
}

/// Child order under a clock that does not run backwards: in a context that
/// was made at `made` and has taken the steps `ops` since, the nested frames
/// of each open frame stand in the order in which they were started, each at
/// the time from the parent's start to its own, which is not negative; and
/// in an ended frame none stands beyond the frame's length.
pub proof fn law_children_in_creation_order(
    id: Seq<char>,
    key: Seq<char>,
    made: int,
    ops: Seq<Op>,
    k: int,
    i: int,
    j: int,
)
    requires
        steady(ops, made),
        0 <= k < ContextView::fresh(id, key, made).run(ops).depth(),
        0 <= i <= j < ContextView::fresh(id, key, made).run(ops).stack[k].items.len(),
        ContextView::fresh(id, key, made).run(ops).stack[k].items[i] is Frame,
        ContextView::fresh(id, key, made).run(ops).stack[k].items[j] is Frame,
    ensures
        ({
            let parent = ContextView::fresh(id, key, made).run(ops).stack[k];
            let first = parent.items[i]->Frame_frame;
            let second = parent.items[j]->Frame_frame;
            &&& parent.created_on <= first.created_on <= second.created_on
            &&& parent.items[i].offset() == first.created_on - parent.created_on
            &&& parent.items[j].offset() == second.created_on - parent.created_on
            &&& parent.duration matches Some(d) ==> parent.items[j].offset() <= d
        }),
{
    let ctx = ContextView::fresh(id, key, made);
    assert(settled(SpanView::fresh("main"@, made), made));
    assert(in_time(ctx, made));
    lemma_run_in_time(ctx, ops, made);
    let after = ctx.run(ops);
    let parent = after.stack[k];
    let by = if k + 1 < after.stack.len() {
        after.stack[k + 1].created_on
    } else {
        latest(ops, made)
    };
    assert(settled(parent, by));
    lemma_children_of_settled(parent, by, i, j);
}

/// In a settled frame the nested frames stand in the order in which they
/// were started, each at the time from the parent's start to its own; so do
/// the nested frames of each of them.
pub proof fn lemma_children_of_settled(parent: SpanView, by: int, i: int, j: int)
    requires
        settled(parent, by),
        0 <= i <= j < parent.items.len(),
        parent.items[i] is Frame,
        parent.items[j] is Frame,
    ensures
        ({
            let first = parent.items[i]->Frame_frame;
            let second = parent.items[j]->Frame_frame;
            &&& parent.created_on <= first.created_on <= second.created_on
            &&& parent.items[i].offset() == first.created_on - parent.created_on
            &&& parent.items[j].offset() == second.created_on - parent.created_on
            &&& parent.duration matches Some(d) ==> parent.items[j].offset() <= d
            &&& settled(first, by)
            &&& settled(second, by)
        }),
{
    assert(parent.items[i].offset() <= parent.items[j].offset());
}

} // verus!
