//! A backend that renders a finished context as an indented tree of text.

use vstd::prelude::*;
use vstd::string::StringExecFns;
use crate::context::{Context, ContextView};
use crate::span::{ItemView, Span, SpanItem, SpanView};
use crate::text::{decimal, decimal3, push_decimal, push_decimal3, push_spaces, spaces};
use crate::time::{stamp_text, Interval, NANOS_PER_SEC};
use crate::value::value_text;

verus! {

/// By how many spaces a nested frame is indented.
pub const SPACE: usize = 4;

/// A frame that lasts longer than this many nanoseconds is slow.
pub const SLOW_NANOS: u32 = 1_000_000;

/// `n` in units of `unit`, rounded to the nearest whole number, a tie to the
/// even one.
pub open spec fn rounded(n: nat, unit: nat) -> nat
    recommends
        unit > 0,
{
    let q = n / unit;
    let r = n % unit;
    if 2 * r > unit || (2 * r == unit && q % 2 == 1) {
        q + 1
    } else {
        q
    }
}

/// The text of a length of time below one second, `nanos` nanoseconds long.
pub open spec fn fraction_text(nanos: nat) -> Seq<char> {
    if nanos < 1_000 {
        decimal(nanos) + "ns"@
    } else if nanos < 1_000_000 {
        decimal(rounded(nanos, 1_000)) + "\u{b5}s"@
    } else {
        decimal(rounded(nanos, 1_000_000)) + "ms"@
    }
}

/// The text of a length of time of `d` nanoseconds. From a day on it is given
/// in seconds.
pub open spec fn elapsed_text(d: nat) -> Seq<char> {
    let secs = d / (NANOS_PER_SEC as nat);
    let nanos = d % (NANOS_PER_SEC as nat);
    if secs == 0 {
        fraction_text(nanos)
    } else if secs < 5 {
        decimal(secs) + "."@ + decimal3(nanos / 1_000) + "s"@
    } else if secs < 60 {
        decimal(secs) + "."@ + decimal3(nanos / 1_000_000) + "s"@
    } else if secs < 3_600 {
        decimal(secs / 60) + "m "@ + decimal(secs % 60) + "s"@
    } else if secs < 86_400 {
        decimal(secs / 3_600) + "h "@ + decimal((secs % 3_600) / 60) + "m"@
    } else {
        decimal(secs) + "s"@
    }
}

/// `n` in units of `unit`, rounded to the nearest whole number, a tie to the
/// even one.
fn round_to(n: u32, unit: u32) -> (q: u32)
    requires
        unit > 0,
        unit % 2 == 0,
        n < NANOS_PER_SEC,
    ensures
        q == rounded(n as nat, unit as nat),
{
    let q = n / unit;
    let r = n % unit;
    let half = unit / 2;
    if r > half || (r == half && q % 2 == 1) {
        q + 1
    } else {
        q
    }
}

/// Appends the text of the length of time `d`.
pub fn push_elapsed(buffer: &mut String, d: Interval)
    ensures
        final(buffer)@ == old(buffer)@ + elapsed_text(d@),
{
    let nanos = d.subsec_nanos();
    let secs = d.as_secs();
    if secs == 0 {
        if nanos < 1_000 {
            push_decimal(buffer, nanos as u128);
            buffer.append("ns");
        } else if nanos < 1_000_000 {
            push_decimal(buffer, round_to(nanos, 1_000) as u128);
            buffer.append("\u{b5}s");
        } else {
            push_decimal(buffer, round_to(nanos, 1_000_000) as u128);
            buffer.append("ms");
        }
    } else if secs < 5 {
        push_decimal(buffer, secs as u128);
        buffer.append(".");
        push_decimal3(buffer, (nanos / 1_000) as u128);
        buffer.append("s");
    } else if secs < 60 {
        push_decimal(buffer, secs as u128);
        buffer.append(".");
        push_decimal3(buffer, (nanos / 1_000_000) as u128);
        buffer.append("s");
    } else if secs < 3_600 {
        push_decimal(buffer, (secs / 60) as u128);
        buffer.append("m ");
        push_decimal(buffer, (secs % 60) as u128);
        buffer.append("s");
    } else if secs < 86_400 {
        push_decimal(buffer, (secs / 3_600) as u128);
        buffer.append("h ");
        push_decimal(buffer, ((secs % 3_600) / 60) as u128);
        buffer.append("m");
    } else {
        push_decimal(buffer, secs as u128);
        buffer.append("s");
    }
    assert(buffer@ =~= old(buffer)@ + elapsed_text(d@));
}

/// The text of the length of time `d`.
pub fn elapsed(d: Interval) -> (text: String)
    ensures
        text@ == elapsed_text(d@),
{
    let mut text = String::new();
    push_elapsed(&mut text, d);
    assert(text@ =~= elapsed_text(d@));
    text
}

/// How a frame's name is set off in the text.
#[derive(Clone, Copy, Debug, PartialEq, Eq)]
pub struct Decoration {
    /// The frame lasted longer than a millisecond.
    pub slow: bool,
    /// How the frame ended.
    pub mark: Mark,
}

/// How a frame ended.
#[derive(Clone, Copy, Debug, PartialEq, Eq)]
pub enum Mark {
    /// It was closed without an error.
    Succeeded,
    /// It was closed with an error.
    Failed,
    /// It was never closed.
    Unknown,
}

/// The decoration that `span` is rendered with.
pub open spec fn decoration_of(span: SpanView) -> Decoration {
    Decoration {
        slow: span.elapsed() > SLOW_NANOS,
        mark: match span.success {
            Some(true) => Mark::Succeeded,
            Some(false) => Mark::Failed,
            None => Mark::Unknown,
        },
    }
}

/// The decoration that `span` is rendered with: slow if it lasted longer than
/// a millisecond, and marked by how it ended.
pub fn decoration(span: &Span) -> (d: Decoration)
    ensures
        d == decoration_of(span@),
{
    let slow = span.duration().exceeds(&Interval::new(0, SLOW_NANOS));
    let mark = match span.success() {
        Some(true) => Mark::Succeeded,
        Some(false) => Mark::Failed,
        None => Mark::Unknown,
    };
    Decoration { slow, mark }
}

/// The colour that a frame's name is shown in.
pub enum Tint {
    /// The colour of a slow frame.
    Red,
    /// The colour of a frame that was not slow.
    Green,
}

/// How a frame's name is set off beyond its colour.
pub enum Emphasis {
    /// Not at all.
    Plain,
    /// By a line under it.
    Underlined,
    /// By heavier letters.
    Bold,
}

/// The colour that the decoration `d` asks for: red for a slow frame, green
/// for any other.
pub open spec fn tint_of(d: Decoration) -> Tint {
    if d.slow {
        Tint::Red
    } else {
        Tint::Green
    }
}

/// The emphasis that the decoration `d` asks for: none for a frame that
/// succeeded, a line under one that failed, bold for one never closed.
pub open spec fn emphasis_of(d: Decoration) -> Emphasis {
    match d.mark {
        Mark::Succeeded => Emphasis::Plain,
        Mark::Failed => Emphasis::Underlined,
        Mark::Unknown => Emphasis::Bold,
    }
}

/// The name `id` as it is shown with the decoration `d`: in the colour and with
/// the emphasis that `d` asks for, or bare where colours are switched off.
fn paint(id: &str, d: Decoration) -> (label: String)
    ensures
        label@ == id@ || label@ == styled_text(id@, tint_of(d), emphasis_of(d)),
{
    if d.slow {
        match d.mark {
            Mark::Succeeded => red(id),
            Mark::Failed => red_underlined(id),
            Mark::Unknown => red_bold(id),
        }
    } else {
        match d.mark {
            Mark::Succeeded => green(id),
            Mark::Failed => green_underlined(id),
            Mark::Unknown => green_bold(id),
        }
    }
}

/// The text that `colored` shows for `id` in the colour `tint` with the
/// emphasis `emphasis` where colours are switched on: the escape sequence that
/// sets the style, then `id`, with the style set again behind each reset
/// sequence in it, then the escape sequence that resets the style.
pub uninterp spec fn styled_text(id: Seq<char>, tint: Tint, emphasis: Emphasis) -> Seq<char>;

/// `colored::Colorize::red` on a name, shown by `to_string`. Where colours are
/// switched off the text is the name itself, else the one that `styled_text`
/// names. Which of the two depends on the environment the program runs in;
/// it is one of them as long as no other thread switches colours meanwhile.
#[verifier::external_body]
fn red(id: &str) -> (label: String)
    ensures
        label@ == id@ || label@ == styled_text(id@, Tint::Red, Emphasis::Plain),
{
    colored::Colorize::red(id).to_string()
}

/// `colored::Colorize::red` and `underline` on a name, shown by `to_string`:
/// the name itself, or the text that `styled_text` names, as for `red`.
#[verifier::external_body]
fn red_underlined(id: &str) -> (label: String)
    ensures
        label@ == id@ || label@ == styled_text(id@, Tint::Red, Emphasis::Underlined),
{
    colored::Colorize::underline(colored::Colorize::red(id)).to_string()
}

/// `colored::Colorize::red` and `bold` on a name, shown by `to_string`: the
/// name itself, or the text that `styled_text` names, as for `red`.
#[verifier::external_body]
fn red_bold(id: &str) -> (label: String)
    ensures
        label@ == id@ || label@ == styled_text(id@, Tint::Red, Emphasis::Bold),
{
    colored::Colorize::bold(colored::Colorize::red(id)).to_string()
}

/// `colored::Colorize::green` on a name, shown by `to_string`: the name
/// itself, or the text that `styled_text` names, as for `red`.
#[verifier::external_body]
fn green(id: &str) -> (label: String)
    ensures
        label@ == id@ || label@ == styled_text(id@, Tint::Green, Emphasis::Plain),
{
    colored::Colorize::green(id).to_string()
}

/// `colored::Colorize::green` and `underline` on a name, shown by
/// `to_string`: the name itself, or the text that `styled_text` names, as for
/// `red`.
#[verifier::external_body]
fn green_underlined(id: &str) -> (label: String)
    ensures
        label@ == id@ || label@ == styled_text(id@, Tint::Green, Emphasis::Underlined),
{
    colored::Colorize::underline(colored::Colorize::green(id)).to_string()
}

/// `colored::Colorize::green` and `bold` on a name, shown by `to_string`: the
/// name itself, or the text that `styled_text` names, as for `red`.
#[verifier::external_body]
fn green_bold(id: &str) -> (label: String)
    ensures
        label@ == id@ || label@ == styled_text(id@, Tint::Green, Emphasis::Bold),
{
    colored::Colorize::bold(colored::Colorize::green(id)).to_string()
}

/// The names of a frame and of the frames below it, as they are shown.
/// `items` has one entry for each item of the frame; the entry of an item
/// that is a nested frame holds that frame's names.
pub struct Labels {
    pub label: Seq<char>,
    pub items: Seq<Labels>,
}

/// `label` is the name of `span` as `colored` may show it: the name itself,
/// or the name in the colour and with the emphasis of the frame's decoration.
pub open spec fn shows(span: SpanView, label: Seq<char>) -> bool {
    label == span.id || label == styled_text(
        span.id,
        tint_of(decoration_of(span)),
        emphasis_of(decoration_of(span)),
    )
}

/// `labels` holds the name of `span` as `colored` may show it, and for each
/// nested frame its names likewise.
pub open spec fn painted(span: SpanView, labels: Labels) -> bool
    decreases span,
{
    &&& shows(span, labels.label)
    &&& forall|i: int|
        0 <= i < span.items.len() ==> (#[trigger] span.items[i] matches ItemView::Frame {
            frame,
            ..
        } ==> painted(frame, labels.items[i]))
}

/// Each of `labels` holds the names of the frame at its place in `stack`.
pub open spec fn all_painted(stack: Seq<SpanView>, labels: Seq<Labels>) -> bool {
    forall|k: int| 0 <= k < stack.len() ==> painted(#[trigger] stack[k], labels[k])
}

/// The line that opens a frame: its name as shown and its length.
pub open spec fn frame_line(label: Seq<char>, elapsed: nat) -> Seq<char> {
    label + ": "@ + elapsed_text(elapsed) + "\n"@
}

/// What stands before an item: the indentation, a dash and the item's offset.
pub open spec fn item_lead(indent: nat, offset: nat) -> Seq<char> {
    spaces(indent) + "- "@ + elapsed_text(offset) + ": "@
}

/// The line that closes a frame with its result or its error.
pub open spec fn closing_line(indent: nat, title: Seq<char>, text: Option<Seq<char>>) -> Seq<char> {
    match text {
        Some(t) => spaces(indent + 2) + title + t + "\n"@,
        None => Seq::empty(),
    }
}

/// The text of a frame whose items are indented by `indent` spaces: the
/// opening line, the items in the order of recording, then the result and the
/// error if they are set.
pub open spec fn span_text(span: SpanView, labels: Labels, indent: nat) -> Seq<char>
    decreases span,
{
    frame_line(labels.label, span.elapsed()) + items_text(span.items, labels.items, indent)
        + closing_line(indent, "result: "@, span.result) + closing_line(
        indent,
        "error: "@,
        span.err,
    )
}

/// The text of one item. A nested frame is indented by four spaces more.
pub open spec fn item_text(item: ItemView, labels: Labels, indent: nat) -> Seq<char>
    decreases item,
{
    match item {
        ItemView::Log { message, offset } => item_lead(indent, offset) + message + "\n"@,
        ItemView::Field { name, value, offset } => item_lead(indent, offset) + name + "="@
            + value_text(value) + "\n"@,
        ItemView::Frame { frame, offset } => item_lead(indent, offset) + span_text(
            frame,
            labels,
            indent + SPACE as nat,
        ),
    }
}

/// The text of the items of a frame, one after the other.
pub open spec fn items_text(items: Seq<ItemView>, labels: Seq<Labels>, indent: nat) -> Seq<char>
    decreases items,
{
    if items.len() == 0 {
        Seq::empty()
    } else {
        items_text(items.drop_last(), labels, indent) + item_text(
            items.last(),
            labels[items.len() - 1],
            indent,
        )
    }
}

/// The text of the open frames of a context, one after the other.
pub open spec fn stack_text(stack: Seq<SpanView>, labels: Seq<Labels>) -> Seq<char>
    decreases stack.len(),
{
    if stack.len() == 0 {
        Seq::empty()
    } else {
        stack_text(stack.drop_last(), labels) + span_text(
            stack.last(),
            labels[stack.len() - 1],
            0,
        )
    }
}

/// The text of a context: its name and the moment it was made, then its
/// frames.
pub open spec fn context_text(ctx: ContextView, labels: Seq<Labels>) -> Seq<char> {
    "context: "@ + ctx.id + " ["@ + stamp_text(ctx.created_on) + "] "@ + stack_text(
        ctx.stack,
        labels,
    )
}

/// The text of items depends on the names of those items alone.
proof fn lemma_items_text_labels(
    items: Seq<ItemView>,
    first: Seq<Labels>,
    second: Seq<Labels>,
    indent: nat,
)
    requires
        forall|i: int| 0 <= i < items.len() ==> first[i] == second[i],
    ensures
        items_text(items, first, indent) == items_text(items, second, indent),
    decreases items.len(),
{
    if items.len() > 0 {
        lemma_items_text_labels(items.drop_last(), first, second, indent);
    }
}

/// The text of frames depends on the names of those frames alone.
proof fn lemma_stack_text_labels(stack: Seq<SpanView>, first: Seq<Labels>, second: Seq<Labels>)
    requires
        forall|i: int| 0 <= i < stack.len() ==> first[i] == second[i],
    ensures
        stack_text(stack, first) == stack_text(stack, second),
    decreases stack.len(),
{
    if stack.len() > 0 {
        lemma_stack_text_labels(stack.drop_last(), first, second);
    }
}

/// Appends the line that closes a frame with its result or its error.
fn push_closing_line(
    buffer: &mut String,
    indent: &String,
    title: &str,
    text: &Option<String>,
    Ghost(n): Ghost<nat>,
)
    requires
        indent@ == spaces(n),
    ensures
        final(buffer)@ == old(buffer)@ + closing_line(n, title@, crate::span::text_view(*text)),
{
    if let Some(t) = text {
        proof {
            reveal_strlit("  ");
        }
        buffer.append(indent.as_str());
        buffer.append("  ");
        buffer.append(title);
        buffer.append(t.as_str());
        buffer.append("\n");
        assert(spaces(n) + "  "@ =~= spaces(n + 2));
        assert(buffer@ =~= old(buffer)@ + closing_line(n, title@, Some(t@)));
    } else {
        assert(buffer@ =~= old(buffer)@ + closing_line(n, title@, None));
    }
}

/// Appends what stands before an item.
fn push_item_lead(buffer: &mut String, indent: &String, offset: Interval, Ghost(n): Ghost<nat>)
    requires
        indent@ == spaces(n),
    ensures
        final(buffer)@ == old(buffer)@ + item_lead(n, offset@),
{
    buffer.append(indent.as_str());
    buffer.append("- ");
    push_elapsed(buffer, offset);
    buffer.append(": ");
    assert(buffer@ =~= old(buffer)@ + item_lead(n, offset@));
}

/// Appends the text of `item`, with `indent` before it, and hands back the
/// names of a nested frame as they were shown.
fn write_item(buffer: &mut String, item: &SpanItem, indent: &String, Ghost(n): Ghost<nat>) -> (labels:
    Ghost<Labels>)
    requires
        indent@ == spaces(n),
    ensures
        final(buffer)@ == old(buffer)@ + item_text(item@, labels@, n),
        item@ matches ItemView::Frame { frame, .. } ==> painted(frame, labels@),
    decreases item@,
{
    proof {
        item.lemma_view();
    }
    match item {
        SpanItem::Log { message, offset } => {
            push_item_lead(buffer, indent, *offset, Ghost(n));
            buffer.append(message.as_str());
            buffer.append("\n");
            let ghost labels = Labels { label: Seq::empty(), items: Seq::empty() };
            assert(buffer@ =~= old(buffer)@ + item_text(item@, labels, n));
            Ghost(labels)
        },
        SpanItem::Field { name, value, offset } => {
            push_item_lead(buffer, indent, *offset, Ghost(n));
            buffer.append(name.as_str());
            buffer.append("=");
            value.render_into(buffer);
            buffer.append("\n");
            let ghost labels = Labels { label: Seq::empty(), items: Seq::empty() };
            assert(buffer@ =~= old(buffer)@ + item_text(item@, labels, n));
            Ghost(labels)
        },
        SpanItem::Frame { frame, offset } => {
            push_item_lead(buffer, indent, *offset, Ghost(n));
            let mut deeper = indent.clone();
            deeper.append("    ");
            proof {
                reveal_strlit("    ");
                assert(deeper@ =~= spaces(n + SPACE as nat));
            }
            let labels = write_span(buffer, frame, &deeper, Ghost(n + SPACE as nat));
            assert(buffer@ =~= old(buffer)@ + item_text(item@, labels@, n));
            labels
        },
    }
}

/// Appends the text of `span`, with `indent` before each of its items, and
/// hands back the names as they were shown.
fn write_span(buffer: &mut String, span: &Span, indent: &String, Ghost(n): Ghost<nat>) -> (labels:
    Ghost<Labels>)
    requires
        indent@ == spaces(n),
    ensures
        final(buffer)@ == old(buffer)@ + span_text(span@, labels@, n),
        painted(span@, labels@),
    decreases span@,
{
    let label = paint(span.id().as_str(), decoration(span));
    buffer.append(label.as_str());
    buffer.append(": ");
    push_elapsed(buffer, span.duration());
    buffer.append("\n");
    let ghost opened = buffer@;
    assert(opened =~= old(buffer)@ + frame_line(label@, span@.elapsed()));
    let items = span.items();
    let ghost names: Seq<Labels> = Seq::empty();
    let mut i: usize = 0;
    assert(span@.items.take(0) =~= Seq::empty());
    while i < items.len()
        invariant
            i <= items.len(),
            indent@ == spaces(n),
            items@.len() == span@.items.len(),
            forall|k: int| 0 <= k < items@.len() ==> (#[trigger] items@[k])@ == span@.items[k],
            names.len() == i,
            buffer@ == opened + items_text(span@.items.take(i as int), names, n),
            forall|k: int|
                0 <= k < i ==> (#[trigger] span@.items[k] matches ItemView::Frame { frame, .. }
                    ==> painted(frame, names[k])),
        decreases items.len() - i,
    {
        let ghost done = span@.items.take(i as int);
        let ghost next = span@.items.take(i + 1);
        assert(items@[i as int]@ == span@.items[i as int]);
        let inner = write_item(buffer, &items[i], indent, Ghost(n));
        proof {
            let grown = names.push(inner@);
            assert(next.drop_last() =~= done);
            assert(next.last() == span@.items[i as int]);
            lemma_items_text_labels(done, names, grown, n);
            assert(buffer@ =~= opened + items_text(next, grown, n));
            names = grown;
        }
        i = i + 1;
    }
    assert(span@.items.take(i as int) =~= span@.items);
    push_closing_line(buffer, indent, "result: ", span.result(), Ghost(n));
    push_closing_line(buffer, indent, "error: ", span.err(), Ghost(n));
    let ghost labels = Labels { label: label@, items: names };
    assert(buffer@ =~= old(buffer)@ + span_text(span@, labels, n));
    Ghost(labels)
}

/// Appends the text of `span`, with its items indented by `space` spaces.
/// Each frame's name is shown bare or in the colour and with the emphasis of
/// its decoration, as the environment has it; everything else in the text is
/// fixed.
pub fn print_span(buffer: &mut String, span: &Span, space: usize)
    ensures
        exists|labels: Labels|
            painted(span@, labels) && final(buffer)@ == old(buffer)@ + #[trigger] span_text(
                span@,
                labels,
                space as nat,
            ),
{
    let mut indent = String::new();
    push_spaces(&mut indent, space);
    assert(indent@ =~= spaces(space as nat));
    let labels = write_span(buffer, span, &indent, Ghost(space as nat));
    assert(buffer@ == old(buffer)@ + span_text(span@, labels@, space as nat));
}

/// The text of `ctx`: a header with its name and the moment it was made,
/// then each open frame. Each frame's name is shown bare or in the colour and
/// with the emphasis of its decoration, as the environment has it;
/// everything else in the text is fixed.
pub fn print_context(ctx: &Context) -> (text: String)
    ensures
        exists|labels: Seq<Labels>|
            all_painted(ctx@.stack, labels) && #[trigger] context_text(ctx@, labels) == text@,
{
    let mut buffer = String::new();
    buffer.append("context: ");
    buffer.append(ctx.id().as_str());
    buffer.append(" [");
    buffer.append(ctx.created_on().to_rfc3339().as_str());
    buffer.append("] ");
    let ghost head = buffer@;
    assert(head =~= "context: "@ + ctx@.id + " ["@ + stamp_text(ctx@.created_on) + "] "@);
    let stack = ctx.span_stack();
    let indent = String::new();
    assert(indent@ =~= spaces(0));
    let ghost names: Seq<Labels> = Seq::empty();
    let mut i: usize = 0;
    assert(ctx@.stack.take(0) =~= Seq::empty());
    while i < stack.len()
        invariant
            i <= stack.len(),
            indent@ == spaces(0),
            stack@.len() == ctx@.stack.len(),
            forall|k: int| 0 <= k < stack@.len() ==> (#[trigger] stack@[k])@ == ctx@.stack[k],
            names.len() == i,
            buffer@ == head + stack_text(ctx@.stack.take(i as int), names),
            forall|k: int| 0 <= k < i ==> painted(#[trigger] ctx@.stack[k], names[k]),
        decreases stack.len() - i,
    {
        let ghost done = ctx@.stack.take(i as int);
        let ghost next = ctx@.stack.take(i + 1);
        let inner = write_span(&mut buffer, &stack[i], &indent, Ghost(0));
        proof {
            let grown = names.push(inner@);
            assert(next.drop_last() =~= done);
            assert(next.last() == ctx@.stack[i as int]);
            lemma_stack_text_labels(done, names, grown);
            assert(buffer@ =~= head + stack_text(next, grown));
            names = grown;
        }
        i = i + 1;
    }
    assert(ctx@.stack.take(i as int) =~= ctx@.stack);
    assert(buffer@ =~= context_text(ctx@, names));
    assert(all_painted(ctx@.stack, names));
    buffer
}

/// A backend that writes the text of each finished context to the sinks it
/// was built with.
#[derive(Debug)]
pub struct Logger {
    path: Option<String>,
    stdout: bool,
    stderr: bool,
}

/// What a `Logger` stands for: the sinks it writes to.
pub struct LoggerView {
    pub path: Option<Seq<char>>,
    pub stdout: bool,
    pub stderr: bool,
}

impl View for Logger {
    type V = LoggerView;

    closed spec fn view(&self) -> LoggerView {
        LoggerView {
            path: crate::span::text_view(self.path),
            stdout: self.stdout,
            stderr: self.stderr,
        }
    }
}

impl LoggerView {
    /// Whether a finished context is rendered at all: only for the standard
    /// output or for a file.
    pub open spec fn renders(self) -> bool {
        self.stdout || self.path.is_some()
    }
}

impl Logger {
    /// A logger that writes nowhere yet.
    pub fn builder() -> (logger: Self)
        ensures
            logger@ == (LoggerView { path: None, stdout: false, stderr: false }),
    {
        Logger { path: None, stdout: false, stderr: false }
    }

    /// The logger, writing to the standard output too.
    pub fn with_stdout(self) -> (logger: Self)
        ensures
            logger@ == (LoggerView { stdout: true, ..self@ }),
    {
        Logger { path: self.path, stdout: true, stderr: self.stderr }
    }

    /// The logger, writing to the standard error too.
    pub fn with_stderr(self) -> (logger: Self)
        ensures
            logger@ == (LoggerView { stderr: true, ..self@ }),
    {
        Logger { path: self.path, stdout: self.stdout, stderr: true }
    }

    /// The logger, writing to the file at `path` too.
    pub fn with_path(self, path: &str) -> (logger: Self)
        ensures
            logger@ == (LoggerView { path: Some(path@), ..self@ }),
    {
        Logger { path: Some(path.to_owned()), stdout: self.stdout, stderr: self.stderr }
    }

    /// The file that the logger writes to, if any.
    pub fn path(&self) -> (path: &Option<String>)
        ensures
            crate::span::text_view(*path) == self@.path,
    {
        &self.path
    }

    /// Whether the logger writes to the standard output.
    pub fn to_stdout(&self) -> (stdout: bool)
        ensures
            stdout == self@.stdout,
    {
        self.stdout
    }

    /// Whether the logger writes to the standard error.
    pub fn to_stderr(&self) -> (stderr: bool)
        ensures
            stderr == self@.stderr,
    {
        self.stderr
    }

    /// What the logger writes for the finished context `ctx`: the context's
    /// text if it writes to the standard output or to a file, else nothing.
    pub fn render(&self, ctx: &Context) -> (text: String)
        ensures
            self@.renders() ==> exists|labels: Seq<Labels>|
                all_painted(ctx@.stack, labels) && #[trigger] context_text(ctx@, labels) == text@,
            !self@.renders() ==> text@ == Seq::<char>::empty(),
    {
        if self.stdout || self.path.is_some() {
            print_context(ctx)
        } else {
            String::new()
        }
    }
}

} // verus!
