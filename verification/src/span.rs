//! Frames: one timed unit of work each, with what was recorded under it.

use vstd::prelude::*;
use crate::time::{Interval, Timestamp};
use crate::value::{FieldValue, ValueView};

verus! {

/// What a `Span` stands for. Moments are nanoseconds since 1970, lengths of
/// time are nanoseconds.
pub struct SpanView {
    pub id: Seq<char>,
    pub created_on: int,
    pub duration: Option<nat>,
    pub items: Seq<ItemView>,
    pub result: Option<Seq<char>>,
    pub err: Option<Seq<char>>,
    pub success: Option<bool>,
    pub critical: bool,
}

/// What a `SpanItem` stands for.
pub enum ItemView {
    Log { message: Seq<char>, offset: nat },
    Field { name: Seq<char>, value: ValueView, offset: nat },
    Frame { frame: SpanView, offset: nat },
}

/// The larger of two lengths of time.
pub open spec fn later(a: nat, b: int) -> nat {
    if b > a {
        b as nat
    } else {
        a
    }
}

/// What an optional text stands for.
pub open spec fn text_view(text: Option<String>) -> Option<Seq<char>> {
    match text {
        Some(s) => Some(s@),
        None => None,
    }
}

impl ItemView {
    /// How long after its frame's start the item was recorded.
    pub open spec fn offset(self) -> nat {
        match self {
            ItemView::Log { offset, .. } => offset,
            ItemView::Field { offset, .. } => offset,
            ItemView::Frame { offset, .. } => offset,
        }
    }
}

impl SpanView {
    /// A frame that was started at `now` and holds nothing yet.
    pub open spec fn fresh(id: Seq<char>, now: int) -> SpanView {
        SpanView {
            id,
            created_on: now,
            duration: None,
            items: Seq::empty(),
            result: None,
            err: None,
            success: None,
            critical: false,
        }
    }

    /// Whether the frame has ended. An ended frame is frozen.
    pub open spec fn ended(self) -> bool {
        self.duration.is_some()
    }

    /// The frame's length: none until it has ended.
    pub open spec fn elapsed(self) -> nat {
        match self.duration {
            Some(d) => d,
            None => 0,
        }
    }

    /// The offset of the item recorded last; none if there is no item.
    pub open spec fn last_offset(self) -> nat {
        if self.items.len() == 0 {
            0
        } else {
            self.items.last().offset()
        }
    }

    /// The offset that stands for the moment `now`: the time since the
    /// frame's start, and never less than the offset recorded last.
    pub open spec fn offset_at(self, now: int) -> nat {
        later(self.last_offset(), now - self.created_on)
    }

    /// The frame with one more item, unless it has ended.
    pub open spec fn with_item(self, item: ItemView) -> SpanView {
        if self.ended() {
            self
        } else {
            SpanView { items: self.items.push(item), ..self }
        }
    }

    /// The frame after a log line was recorded at `now`.
    pub open spec fn with_log(self, message: Seq<char>, now: int) -> SpanView {
        self.with_item(ItemView::Log { message, offset: self.offset_at(now) })
    }

    /// The frame after a field was recorded at `now`.
    pub open spec fn with_field(self, name: Seq<char>, value: ValueView, now: int) -> SpanView {
        self.with_item(ItemView::Field { name, value, offset: self.offset_at(now) })
    }

    /// The frame after `child` was attached, at the moment `child` was
    /// started.
    pub open spec fn with_child(self, child: SpanView) -> SpanView {
        self.with_item(ItemView::Frame { frame: child, offset: self.offset_at(child.created_on) })
    }

    /// The frame under another name, unless it has ended.
    pub open spec fn renamed(self, id: Seq<char>) -> SpanView {
        if self.ended() {
            self
        } else {
            SpanView { id, ..self }
        }
    }

    /// The frame with `text` as its result, unless it has ended.
    pub open spec fn with_result(self, text: Seq<char>) -> SpanView {
        if self.ended() {
            self
        } else {
            SpanView { result: Some(text), ..self }
        }
    }

    /// The frame with its success set, unless it has ended.
    pub open spec fn with_success(self, success: bool) -> SpanView {
        if self.ended() {
            self
        } else {
            SpanView { success: Some(success), ..self }
        }
    }

    /// The frame with its error set, unless it has ended.
    pub open spec fn with_err(self, err: Option<Seq<char>>) -> SpanView {
        if self.ended() {
            self
        } else {
            SpanView { err, ..self }
        }
    }

    /// The frame with its critical mark set, unless it has ended.
    pub open spec fn with_critical(self, critical: bool) -> SpanView {
        if self.ended() {
            self
        } else {
            SpanView { critical, ..self }
        }
    }

    /// The frame after it was ended at `now`. Ending a frame that has ended
    /// changes nothing.
    pub open spec fn end(self, now: int) -> SpanView {
        if self.ended() {
            self
        } else {
            SpanView { duration: Some(self.offset_at(now)), ..self }
        }
    }

    /// The frame after it was closed at `now` with the outcome `err`: success
    /// if there is no error.
    pub open spec fn concluded(self, critical: bool, err: Option<Seq<char>>, now: int) -> SpanView {
        self.with_critical(critical).with_success(err.is_none()).with_err(err).end(now)
    }

    /// The items stand in the order of their offsets, and none lies beyond
    /// the frame's end.
    pub open spec fn chronological(self) -> bool {
        &&& forall|i: int, j: int|
            0 <= i <= j < self.items.len() ==> self.items[i].offset() <= self.items[j].offset()
        &&& self.duration matches Some(d) ==> forall|i: int|
            0 <= i < self.items.len() ==> #[trigger] self.items[i].offset() <= d
    }

    /// The frame and every frame below it is chronological.
    pub open spec fn wf(self) -> bool
        decreases self,
    {
        &&& self.chronological()
        &&& forall|i: int|
            0 <= i < self.items.len() ==> (#[trigger] self.items[i] matches ItemView::Frame {
                frame,
                ..
            } ==> frame.wf())
    }

    /// A frame with the items and the length of a well-formed one is
    /// well-formed.
    pub proof fn lemma_same_items_wf(self, other: SpanView)
        requires
            self.wf(),
            other.items == self.items,
            other.duration == self.duration,
        ensures
            other.wf(),
    {
        assert forall|i: int| 0 <= i < other.items.len() implies (#[trigger] other.items[i] matches ItemView::Frame {
            frame,
            ..
        } ==> frame.wf()) by {
            assert(other.items[i] == self.items[i]);
        }
    }

    /// A well-formed frame stays well-formed when an item is recorded that is
    /// not earlier than the last one.
    pub proof fn lemma_with_item_wf(self, item: ItemView)
        requires
            self.wf(),
            item.offset() >= self.last_offset(),
            item matches ItemView::Frame { frame, .. } ==> frame.wf(),
        ensures
            self.with_item(item).wf(),
    {
        let after = self.with_item(item);
        if !self.ended() {
            let n = self.items.len() as int;
            assert forall|i: int, j: int| 0 <= i <= j < after.items.len() implies after.items[i].offset()
                <= after.items[j].offset() by {
                if j == n {
                    if i < n {
                        assert(self.items[i].offset() <= self.items[n - 1].offset());
                    }
                } else {
                    assert(self.items[i].offset() <= self.items[j].offset());
                }
            }
            assert forall|i: int| 0 <= i < after.items.len() implies (#[trigger] after.items[i] matches ItemView::Frame {
                frame,
                ..
            } ==> frame.wf()) by {
                if i < n {
                    assert(after.items[i] == self.items[i]);
                }
            }
        }
    }

    /// A well-formed frame is well-formed after it has ended.
    pub proof fn lemma_end_wf(self, now: int)
        requires
            self.wf(),
        ensures
            self.end(now).wf(),
    {
        let after = self.end(now);
        if !self.ended() {
            let n = self.items.len() as int;
            assert forall|i: int| 0 <= i < after.items.len() implies #[trigger] after.items[i].offset()
                <= self.offset_at(now) by {
                assert(self.items[i].offset() <= self.items[n - 1].offset());
            }
            assert forall|i: int| 0 <= i < after.items.len() implies (#[trigger] after.items[i] matches ItemView::Frame {
                frame,
                ..
            } ==> frame.wf()) by {
                assert(after.items[i] == self.items[i]);
            }
        }
    }

    /// A well-formed frame is well-formed after it was closed.
    pub proof fn lemma_concluded_wf(self, critical: bool, err: Option<Seq<char>>, now: int)
        requires
            self.wf(),
        ensures
            self.concluded(critical, err, now).wf(),
    {
        let marked = self.with_critical(critical).with_success(err.is_none()).with_err(err);
        self.lemma_same_items_wf(marked);
        marked.lemma_end_wf(now);
    }
}

/// One entry under a frame, with the time from the frame's start at which it
/// was recorded.
#[derive(Debug)]
pub enum SpanItem {
    /// A log line.
    Log { message: String, offset: Interval },
    /// A named value.
    Field { name: String, value: FieldValue, offset: Interval },
    /// A nested frame.
    Frame { frame: Span, offset: Interval },
}

/// One timed unit of work.
#[derive(Debug)]
pub struct Span {
    id: String,
    created_on: Timestamp,
    duration: Option<Interval>,
    items: Vec<SpanItem>,
    result: Option<String>,
    err: Option<String>,
    success: Option<bool>,
    critical: bool,
}

impl SpanItem {
    /// What the item stands for.
    pub closed spec fn model(&self) -> ItemView
        decreases self,
    {
        match self {
            SpanItem::Log { message, offset } => ItemView::Log { message: message@, offset: offset@ },
            SpanItem::Field { name, value, offset } => ItemView::Field {
                name: name@,
                value: value@,
                offset: offset@,
            },
            SpanItem::Frame { frame, offset } => ItemView::Frame {
                frame: frame.model(),
                offset: offset@,
            },
        }
    }

    /// How long after its frame's start the item was recorded.
    pub fn offset(&self) -> (offset: Interval)
        ensures
            offset@ == self@.offset(),
    {
        match self {
            SpanItem::Log { offset, .. } => *offset,
            SpanItem::Field { offset, .. } => *offset,
            SpanItem::Frame { offset, .. } => *offset,
        }
    }

    /// What the item is, in terms of the values it holds.
    pub proof fn lemma_view(&self)
        ensures
            self@ == (match *self {
                SpanItem::Log { message, offset } => ItemView::Log {
                    message: message@,
                    offset: offset@,
                },
                SpanItem::Field { name, value, offset } => ItemView::Field {
                    name: name@,
                    value: value@,
                    offset: offset@,
                },
                SpanItem::Frame { frame, offset } => ItemView::Frame { frame: frame@, offset: offset@ },
            }),
    {
    }
}

impl View for SpanItem {
    type V = ItemView;

    open spec fn view(&self) -> ItemView {
        self.model()
    }
}

impl View for Span {
    type V = SpanView;

    open spec fn view(&self) -> SpanView {
        self.model()
    }
}

impl Span {
    /// What the frame stands for.
    pub closed spec fn model(&self) -> SpanView
        decreases self,
    {
        SpanView {
            id: self.id@,
            created_on: self.created_on@,
            duration: match self.duration {
                Some(d) => Some(d@),
                None => None,
            },
            items: Seq::new(
                self.items@.len(),
                |i: int|
                    if 0 <= i < self.items@.len() {
                        self.items@[i].model()
                    } else {
                        arbitrary()
                    },
            ),
            result: text_view(self.result),
            err: text_view(self.err),
            success: self.success,
            critical: self.critical,
        }
    }

    /// A frame named `id` that starts at `now`.
    pub fn new(id: &str, now: Timestamp) -> (span: Span)
        ensures
            span@ == SpanView::fresh(id@, now@),
            span@.wf(),
    {
        let span = Span {
            id: id.to_owned(),
            created_on: now,
            duration: None,
            items: Vec::new(),
            result: None,
            err: None,
            success: None,
            critical: false,
        };
        assert(span@.items =~= Seq::empty());
        span
    }

    /// The frame's name.
    pub fn id(&self) -> (id: &String)
        ensures
            id@ == self@.id,
    {
        &self.id
    }

    /// When the frame was started.
    pub fn created_on(&self) -> (t: Timestamp)
        ensures
            t@ == self@.created_on,
    {
        self.created_on
    }

    /// Whether the frame has ended.
    pub fn has_ended(&self) -> (ended: bool)
        ensures
            ended == self@.ended(),
    {
        self.duration.is_some()
    }

    /// How long the frame lasted; no time if it has not ended.
    pub fn duration(&self) -> (d: Interval)
        ensures
            d@ == self@.elapsed(),
    {
        match self.duration {
            Some(d) => d,
            None => Interval::zero(),
        }
    }

    /// What was recorded under the frame, in the order of recording.
    pub fn items(&self) -> (items: &Vec<SpanItem>)
        ensures
            items@.len() == self@.items.len(),
            forall|i: int| 0 <= i < items@.len() ==> (#[trigger] items@[i])@ == self@.items[i],
    {
        &self.items
    }

    /// The frame's result, if one was recorded.
    pub fn result(&self) -> (text: &Option<String>)
        ensures
            text_view(*text) == self@.result,
    {
        &self.result
    }

    /// The frame's error, if it ended with one.
    pub fn err(&self) -> (text: &Option<String>)
        ensures
            text_view(*text) == self@.err,
    {
        &self.err
    }

    /// Whether the frame succeeded: unknown until it is closed.
    pub fn success(&self) -> (success: Option<bool>)
        ensures
            success == self@.success,
    {
        self.success
    }

    /// The critical mark that the frame was closed with.
    pub fn is_critical(&self) -> (critical: bool)
        ensures
            critical == self@.critical,
    {
        self.critical
    }

    /// The offset of the item recorded last.
    fn last_offset(&self) -> (offset: Interval)
        ensures
            offset@ == self@.last_offset(),
    {
        let n = self.items.len();
        if n == 0 {
            Interval::zero()
        } else {
            self.items[n - 1].offset()
        }
    }

    /// The offset that stands for the moment `now`.
    fn offset_at(&self, now: Timestamp) -> (offset: Interval)
        ensures
            offset@ == self@.offset_at(now@),
    {
        Interval::between(self.created_on, now).longer(self.last_offset())
    }

    /// Appends an item, unless the frame has ended.
    fn push_item(&mut self, item: SpanItem)
        ensures
            final(self)@ == old(self)@.with_item(item@),
    {
        if self.duration.is_none() {
            self.items.push(item);
            assert(self@.items =~= old(self)@.items.push(item@));
        }
    }

    /// Renames the frame, unless it has ended.
    pub fn set_id(&mut self, id: &str)
        ensures
            final(self)@ == old(self)@.renamed(id@),
            old(self)@.wf() ==> final(self)@.wf(),
    {
        if self.duration.is_none() {
            self.id = id.to_owned();
            assert(self@.items =~= old(self)@.items);
        }
        proof {
            if old(self)@.wf() {
                old(self)@.lemma_same_items_wf(self@);
            }
        }
    }

    /// Records a log line at `now`, unless the frame has ended.
    pub fn add_log(&mut self, message: &str, now: Timestamp)
        ensures
            final(self)@ == old(self)@.with_log(message@, now@),
            old(self)@.wf() ==> final(self)@.wf(),
    {
        let offset = self.offset_at(now);
        self.push_item(SpanItem::Log { message: message.to_owned(), offset });
        proof {
            if old(self)@.wf() {
                old(self)@.lemma_with_item_wf(
                    ItemView::Log { message: message@, offset: offset@ },
                );
            }
        }
    }

    /// Records a named value at `now`, unless the frame has ended.
    pub fn add_breadcrumbs(&mut self, name: &str, value: FieldValue, now: Timestamp)
        ensures
            final(self)@ == old(self)@.with_field(name@, value@, now@),
            old(self)@.wf() ==> final(self)@.wf(),
    {
        let offset = self.offset_at(now);
        let ghost item = ItemView::Field { name: name@, value: value@, offset: offset@ };
        self.push_item(SpanItem::Field { name: name.to_owned(), value, offset });
        proof {
            if old(self)@.wf() {
                old(self)@.lemma_with_item_wf(item);
            }
        }
    }

    /// Attaches `child` as the last item, at the moment `child` was started,
    /// unless the frame has ended.
    pub fn add_sub_frame(&mut self, child: Span)
        ensures
            final(self)@ == old(self)@.with_child(child@),
            old(self)@.wf() && child@.wf() ==> final(self)@.wf(),
    {
        let offset = self.offset_at(child.created_on);
        let ghost item = ItemView::Frame { frame: child@, offset: offset@ };
        self.push_item(SpanItem::Frame { frame: child, offset });
        proof {
            if old(self)@.wf() && item->frame.wf() {
                old(self)@.lemma_with_item_wf(item);
            }
        }
    }

    /// Sets the result, unless the frame has ended.
    pub fn set_result(&mut self, text: &str)
        ensures
            final(self)@ == old(self)@.with_result(text@),
            old(self)@.wf() ==> final(self)@.wf(),
    {
        if self.duration.is_none() {
            self.result = Some(text.to_owned());
            assert(self@.items =~= old(self)@.items);
        }
        proof {
            if old(self)@.wf() {
                old(self)@.lemma_same_items_wf(self@);
            }
        }
    }

    /// Sets whether the frame succeeded, unless the frame has ended.
    pub fn set_success(&mut self, success: bool)
        ensures
            final(self)@ == old(self)@.with_success(success),
            old(self)@.wf() ==> final(self)@.wf(),
    {
        if self.duration.is_none() {
            self.success = Some(success);
            assert(self@.items =~= old(self)@.items);
        }
        proof {
            if old(self)@.wf() {
                old(self)@.lemma_same_items_wf(self@);
            }
        }
    }

    /// Sets the error, unless the frame has ended.
    pub fn set_err(&mut self, err: Option<String>)
        ensures
            final(self)@ == old(self)@.with_err(text_view(err)),
            old(self)@.wf() ==> final(self)@.wf(),
    {
        if self.duration.is_none() {
            self.err = err;
            assert(self@.items =~= old(self)@.items);
        }
        proof {
            if old(self)@.wf() {
                old(self)@.lemma_same_items_wf(self@);
            }
        }
    }

    /// Sets the critical mark, unless the frame has ended.
    pub fn set_critical(&mut self, critical: bool)
        ensures
            final(self)@ == old(self)@.with_critical(critical),
            old(self)@.wf() ==> final(self)@.wf(),
    {
        if self.duration.is_none() {
            self.critical = critical;
            assert(self@.items =~= old(self)@.items);
        }
        proof {
            if old(self)@.wf() {
                old(self)@.lemma_same_items_wf(self@);
            }
        }
    }

    /// Ends the frame at `now` and freezes it. On a frame that has ended this
    /// changes nothing.
    pub fn end(&mut self, now: Timestamp)
        ensures
            final(self)@ == old(self)@.end(now@),
            old(self)@.wf() ==> final(self)@.wf(),
    {
        if self.duration.is_none() {
            let d = self.offset_at(now);
            self.duration = Some(d);
            assert(self@.items =~= old(self)@.items);
        }
        proof {
            if old(self)@.wf() {
                old(self)@.lemma_end_wf(now@);
            }
        }
    }
}

} // verus!
