//! A context: one task's tracing session, which owns the stack of the frames
//! that are open.

use vstd::prelude::*;
use crate::laws::{law_items_stay_chronological, Op};
use crate::span::{text_view, Span, SpanView};
use crate::time::Timestamp;
use crate::value::{value_text, FieldValue, ValueView};

verus! {

/// What a `Context` stands for. The last frame of `stack` is the one on top.
pub struct ContextView {
    pub id: Seq<char>,
    pub key: Seq<char>,
    pub created_on: int,
    pub stack: Seq<SpanView>,
}

impl ContextView {
    /// A context made at `now`: its stack holds the root frame `main` alone.
    pub open spec fn fresh(id: Seq<char>, key: Seq<char>, now: int) -> ContextView {
        ContextView { id, key, created_on: now, stack: seq![SpanView::fresh("main"@, now)] }
    }

    /// How many frames are open.
    pub open spec fn depth(self) -> nat {
        self.stack.len()
    }

    /// The frame on top.
    pub open spec fn top(self) -> SpanView
        recommends
            self.depth() > 0,
    {
        self.stack.last()
    }

    /// The frames below the one on top.
    pub open spec fn below_top(self) -> Seq<SpanView>
        recommends
            self.depth() > 0,
    {
        self.stack.drop_last()
    }

    /// The context with `frame` in place of the frame on top; the context
    /// itself if no frame is open.
    pub open spec fn on_top(self, frame: SpanView) -> ContextView {
        if self.depth() == 0 {
            self
        } else {
            ContextView { stack: self.below_top().push(frame), ..self }
        }
    }

    /// The context after a frame named `id` was opened at `now`.
    pub open spec fn start_span(self, id: Seq<char>, now: int) -> ContextView {
        ContextView { stack: self.stack.push(SpanView::fresh(id, now)), ..self }
    }

    /// The context after the frame on top was renamed.
    pub open spec fn span_id(self, id: Seq<char>) -> ContextView {
        self.on_top(self.top().renamed(id))
    }

    /// The context after a field was recorded at `now`.
    pub open spec fn span_field(self, name: Seq<char>, value: ValueView, now: int) -> ContextView {
        self.on_top(self.top().with_field(name, value, now))
    }

    /// The context after `value` was recorded as the result of the frame on
    /// top.
    pub open spec fn span_result(self, value: ValueView) -> ContextView {
        self.on_top(self.top().with_result(value_text(value)))
    }

    /// The context after a log line was recorded at `now`.
    pub open spec fn span_log(self, message: Seq<char>, now: int) -> ContextView {
        self.on_top(self.top().with_log(message, now))
    }

    /// The context after the frame on top was closed at `now` with the
    /// outcome `err` and attached to the frame below it. The root frame has
    /// no frame below it and stays on the stack.
    pub open spec fn end_span(self, critical: bool, err: Option<Seq<char>>, now: int) -> ContextView {
        if self.depth() <= 1 {
            self.on_top(self.top().concluded(critical, err, now))
        } else {
            let child = self.top().concluded(critical, err, now);
            let parent = self.stack[self.depth() - 2];
            ContextView {
                stack: self.stack.take(self.depth() - 2).push(parent.with_child(child)),
                ..self
            }
        }
    }

    /// The context after the frame on top was ended at `now`.
    pub open spec fn finalise(self, now: int) -> ContextView {
        self.on_top(self.top().end(now))
    }

    /// A root frame exists, and every open frame is well-formed.
    pub open spec fn wf(self) -> bool {
        &&& self.depth() >= 1
        &&& forall|i: int| 0 <= i < self.stack.len() ==> (#[trigger] self.stack[i]).wf()
    }
}

/// One task's tracing session.
#[derive(Debug)]
pub struct Context {
    id: String,
    key: String,
    created_on: Timestamp,
    span_stack: Vec<Span>,
}

impl View for Context {
    type V = ContextView;

    closed spec fn view(&self) -> ContextView {
        ContextView {
            id: self.id@,
            key: self.key@,
            created_on: self.created_on@,
            stack: self.span_stack@.map_values(|s: Span| s@),
        }
    }
}

/// Makes a key with `uuid::Uuid::new_v4` and writes it with `to_string`: a
/// random key, of which only the length is claimed, the 36 characters of a
/// hyphenated UUID.
#[verifier::external_body]
fn fresh_key() -> (key: String)
    ensures
        key@.len() == 36,
{
    uuid::Uuid::new_v4().to_string()
}

impl Context {
    /// A context for the task `id`, with a fresh random key, made now.
    pub fn new(id: String) -> (ctx: Context)
        ensures
            ctx@ == ContextView::fresh(id@, ctx@.key, ctx@.created_on),
            ctx@.key.len() == 36,
            ctx@.wf(),
    {
        Context::new_at(id, fresh_key(), Timestamp::now())
    }

    /// A context for the task `id` with the key `key`, made at `now`.
    pub fn new_at(id: String, key: String, now: Timestamp) -> (ctx: Context)
        ensures
            ctx@ == ContextView::fresh(id@, key@, now@),
            ctx@.wf(),
    {
        let mut span_stack: Vec<Span> = Vec::new();
        span_stack.push(Span::new("main", now));
        let ctx = Context { id, key, created_on: now, span_stack };
        assert(ctx@.stack =~= seq![SpanView::fresh("main"@, now@)]);
        ctx
    }

    /// The task's name.
    pub fn id(&self) -> (id: String)
        ensures
            id@ == self@.id,
    {
        self.id.clone()
    }

    /// The context's key.
    pub fn get_key(&self) -> (key: String)
        ensures
            key@ == self@.key,
    {
        self.key.clone()
    }

    /// When the context was made.
    pub fn created_on(&self) -> (t: Timestamp)
        ensures
            t@ == self@.created_on,
    {
        self.created_on
    }

    /// The frames that are open, the one on top last.
    pub fn span_stack(&self) -> (stack: &Vec<Span>)
        ensures
            stack@.len() == self@.stack.len(),
            forall|i: int| 0 <= i < stack@.len() ==> (#[trigger] stack@[i])@ == self@.stack[i],
    {
        &self.span_stack
    }

    /// How many frames are open.
    pub fn depth(&self) -> (depth: usize)
        ensures
            depth == self@.depth(),
    {
        self.span_stack.len()
    }

    /// Opens a frame named `id` on top, started at `now`.
    pub fn start_span_at(&mut self, id: &str, now: Timestamp)
        ensures
            final(self)@ == old(self)@.start_span(id@, now@),
            old(self)@.wf() ==> final(self)@.wf(),
    {
        proof {
            if old(self)@.wf() {
                law_items_stay_chronological(old(self)@, Op::Start { name: id@, now: now@ });
            }
        }
        self.span_stack.push(Span::new(id, now));
        assert(self@.stack =~= old(self)@.stack.push(SpanView::fresh(id@, now@)));
    }

    /// Opens a frame named `id` on top, started now.
    pub fn start_span(&mut self, id: &str)
        ensures
            old(self)@.wf() ==> final(self)@.wf(),
            exists|now: int| #[trigger] old(self)@.start_span(id@, now) == final(self)@,
    {
        let now = Timestamp::now();
        self.start_span_at(id, now);
    }

    /// Renames the frame on top. Nothing happens if no frame is open.
    pub fn observe_span_id(&mut self, id: &str)
        ensures
            final(self)@ == old(self)@.span_id(id@),
            old(self)@.wf() ==> final(self)@.wf(),
    {
        proof {
            if old(self)@.wf() {
                law_items_stay_chronological(old(self)@, Op::Rename { id: id@ });
            }
        }
        let frame = self.span_stack.pop();
        if let Some(mut frame) = frame {
            frame.set_id(id);
            self.span_stack.push(frame);
            assert(self@.stack =~= old(self)@.span_id(id@).stack);
        } else {
            assert(self@.stack =~= old(self)@.stack);
        }
    }

    /// Records a field under the frame on top, at `now`. Nothing happens if
    /// no frame is open.
    pub fn observe_span_field_at(&mut self, key: &str, value: FieldValue, now: Timestamp)
        ensures
            final(self)@ == old(self)@.span_field(key@, value@, now@),
            old(self)@.wf() ==> final(self)@.wf(),
    {
        proof {
            if old(self)@.wf() {
                law_items_stay_chronological(
                    old(self)@,
                    Op::Field { name: key@, value: value@, now: now@ },
                );
            }
        }
        let frame = self.span_stack.pop();
        if let Some(mut frame) = frame {
            frame.add_breadcrumbs(key, value, now);
            self.span_stack.push(frame);
            assert(self@.stack =~= old(self)@.span_field(key@, value@, now@).stack);
        } else {
            assert(self@.stack =~= old(self)@.stack);
        }
    }

    /// Records a field under the frame on top, now.
    pub fn observe_span_field(&mut self, key: &str, value: FieldValue)
        ensures
            old(self)@.wf() ==> final(self)@.wf(),
            exists|now: int| #[trigger] old(self)@.span_field(key@, value@, now) == final(self)@,
    {
        let now = Timestamp::now();
        self.observe_span_field_at(key, value, now);
    }

    /// Records the text of `value` as the result of the frame on top. Nothing
    /// happens if no frame is open.
    pub fn observe_span_result(&mut self, value: FieldValue)
        ensures
            final(self)@ == old(self)@.span_result(value@),
            old(self)@.wf() ==> final(self)@.wf(),
    {
        proof {
            if old(self)@.wf() {
                law_items_stay_chronological(old(self)@, Op::Outcome { value: value@ });
            }
        }
        let frame = self.span_stack.pop();
        if let Some(mut frame) = frame {
            let text = value.render();
            frame.set_result(text.as_str());
            self.span_stack.push(frame);
            assert(self@.stack =~= old(self)@.span_result(value@).stack);
        } else {
            assert(self@.stack =~= old(self)@.stack);
        }
    }

    /// Records a log line under the frame on top, at `now`. Nothing happens
    /// if no frame is open.
    pub fn span_log_at(&mut self, value: &str, now: Timestamp)
        ensures
            final(self)@ == old(self)@.span_log(value@, now@),
            old(self)@.wf() ==> final(self)@.wf(),
    {
        proof {
            if old(self)@.wf() {
                law_items_stay_chronological(old(self)@, Op::Log { message: value@, now: now@ });
            }
        }
        let frame = self.span_stack.pop();
        if let Some(mut frame) = frame {
            frame.add_log(value, now);
            self.span_stack.push(frame);
            assert(self@.stack =~= old(self)@.span_log(value@, now@).stack);
        } else {
            assert(self@.stack =~= old(self)@.stack);
        }
    }

    /// Records a log line under the frame on top, now.
    pub fn span_log(&mut self, value: &str)
        ensures
            old(self)@.wf() ==> final(self)@.wf(),
            exists|now: int| #[trigger] old(self)@.span_log(value@, now) == final(self)@,
    {
        let now = Timestamp::now();
        self.span_log_at(value, now);
    }

    /// Closes the frame on top at `now`: it succeeded if `err` is `None`. The
    /// closed frame becomes the last item of the frame below it; the root
    /// frame stays on the stack.
    pub fn end_span_at(&mut self, is_critical: bool, err: Option<String>, now: Timestamp)
        ensures
            final(self)@ == old(self)@.end_span(is_critical, text_view(err), now@),
            old(self)@.wf() ==> final(self)@.wf(),
    {
        proof {
            if old(self)@.wf() {
                law_items_stay_chronological(
                    old(self)@,
                    Op::End { critical: is_critical, err: text_view(err), now: now@ },
                );
            }
        }
        let child = self.span_stack.pop();
        let parent = self.span_stack.pop();
        if let Some(mut child_frame) = child {
            child_frame.set_critical(is_critical);
            child_frame.set_success(err.is_none());
            child_frame.set_err(err);
            child_frame.end(now);
            if let Some(mut parent_frame) = parent {
                parent_frame.add_sub_frame(child_frame);
                self.span_stack.push(parent_frame);
            } else {
                self.span_stack.push(child_frame);
            }
            assert(self@.stack =~= old(self)@.end_span(is_critical, text_view(err), now@).stack);
        } else {
            assert(self@.stack =~= old(self)@.stack);
        }
    }

    /// Closes the frame on top now.
    pub fn end_span(&mut self, is_critical: bool, err: Option<String>)
        ensures
            old(self)@.wf() ==> final(self)@.wf(),
            exists|now: int| #[trigger]
                old(self)@.end_span(is_critical, text_view(err), now) == final(self)@,
    {
        let now = Timestamp::now();
        self.end_span_at(is_critical, err, now);
    }

    /// Ends the frame on top at `now`, without closing it.
    pub fn end_ctx_frame(&mut self, now: Timestamp)
        ensures
            final(self)@ == old(self)@.finalise(now@),
            old(self)@.wf() ==> final(self)@.wf(),
    {
        proof {
            if old(self)@.wf() {
                law_items_stay_chronological(old(self)@, Op::Finalise { now: now@ });
            }
        }
        let frame = self.span_stack.pop();
        if let Some(mut frame) = frame {
            frame.end(now);
            self.span_stack.push(frame);
            assert(self@.stack =~= old(self)@.finalise(now@).stack);
        } else {
            assert(self@.stack =~= old(self)@.stack);
        }
    }

    /// Ends the context at `now`: the frame that is left is frozen.
    pub fn finalise_at(&mut self, now: Timestamp)
        ensures
            final(self)@ == old(self)@.finalise(now@),
            old(self)@.wf() ==> final(self)@.wf(),
    {
        proof {
            if old(self)@.wf() {
                law_items_stay_chronological(old(self)@, Op::Finalise { now: now@ });
            }
        }
        self.end_ctx_frame(now);
    }

    /// Ends the context now.
    pub fn finalise(&mut self)
        ensures
            old(self)@.wf() ==> final(self)@.wf(),
            exists|now: int| #[trigger] old(self)@.finalise(now) == final(self)@,
    {
        let now = Timestamp::now();
        self.finalise_at(now);
    }
}

} // verus!
