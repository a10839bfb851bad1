//! The values that a field can record.

use vstd::prelude::*;
use vstd::std_specs::convert::FromSpecImpl;
use vstd::string::StringExecFns;
use crate::text::{push_signed_decimal, signed_decimal};

verus! {

/// A value recorded under a name: one of five kinds, fixed once recorded.
#[derive(Debug, PartialEq, Eq)]
pub enum FieldValue {
    /// A text.
    Text(String),
    /// A whole number.
    Number(i128),
    /// A truth value.
    Boolean(bool),
    /// No value.
    Null,
    /// A structured value, held as the text that writes it.
    Nested(String),
}

/// What a `FieldValue` stands for.
pub enum ValueView {
    Text(Seq<char>),
    Number(int),
    Boolean(bool),
    Null,
    Nested(Seq<char>),
}

/// The text that a value is rendered as: a text as it is, without quotes; a
/// number in decimal; `true`, `false` or `null`; a structured value as the
/// text it is held as.
pub open spec fn value_text(v: ValueView) -> Seq<char> {
    match v {
        ValueView::Text(s) => s,
        ValueView::Number(n) => signed_decimal(n),
        ValueView::Boolean(b) => if b {
            "true"@
        } else {
            "false"@
        },
        ValueView::Null => "null"@,
        ValueView::Nested(s) => s,
    }
}

impl View for FieldValue {
    type V = ValueView;

    open spec fn view(&self) -> ValueView {
        match self {
            FieldValue::Text(s) => ValueView::Text(s@),
            FieldValue::Number(n) => ValueView::Number(*n as int),
            FieldValue::Boolean(b) => ValueView::Boolean(*b),
            FieldValue::Null => ValueView::Null,
            FieldValue::Nested(s) => ValueView::Nested(s@),
        }
    }
}

impl FieldValue {
    /// A text value.
    pub fn text(s: &str) -> (v: FieldValue)
        ensures
            v@ == ValueView::Text(s@),
    {
        FieldValue::Text(String::from_str(s))
    }

    /// A number value.
    pub fn number(n: i128) -> (v: FieldValue)
        ensures
            v@ == ValueView::Number(n as int),
    {
        FieldValue::Number(n)
    }

    /// A truth value.
    pub fn boolean(b: bool) -> (v: FieldValue)
        ensures
            v@ == ValueView::Boolean(b),
    {
        FieldValue::Boolean(b)
    }

    /// The value that stands for no value.
    pub fn null() -> (v: FieldValue)
        ensures
            v@ == ValueView::Null,
    {
        FieldValue::Null
    }

    /// A structured value, given as the text that writes it.
    pub fn nested(s: &str) -> (v: FieldValue)
        ensures
            v@ == ValueView::Nested(s@),
    {
        FieldValue::Nested(String::from_str(s))
    }

    /// A copy of the value.
    pub fn duplicate(&self) -> (v: FieldValue)
        ensures
            v@ == self@,
    {
        match self {
            FieldValue::Text(s) => FieldValue::Text(s.clone()),
            FieldValue::Number(n) => FieldValue::Number(*n),
            FieldValue::Boolean(b) => FieldValue::Boolean(*b),
            FieldValue::Null => FieldValue::Null,
            FieldValue::Nested(s) => FieldValue::Nested(s.clone()),
        }
    }

    /// Appends the value's text.
    pub fn render_into(&self, buffer: &mut String)
        ensures
            final(buffer)@ == old(buffer)@ + value_text(self@),
    {
        match self {
            FieldValue::Text(s) => buffer.append(s.as_str()),
            FieldValue::Number(n) => push_signed_decimal(buffer, *n),
            FieldValue::Boolean(b) => {
                if *b {
                    buffer.append("true");
                } else {
                    buffer.append("false");
                }
            },
            FieldValue::Null => buffer.append("null"),
            FieldValue::Nested(s) => buffer.append(s.as_str()),
        }
    }

    /// The value's text.
    pub fn render(&self) -> (text: String)
        ensures
            text@ == value_text(self@),
    {
        let mut text = String::new();
        self.render_into(&mut text);
        assert(text@ =~= value_text(self@));
        text
    }
}

impl From<String> for FieldValue {
    fn from(s: String) -> (v: FieldValue) {
        FieldValue::Text(s)
    }
}

impl FromSpecImpl<String> for FieldValue {
    open spec fn obeys_from_spec() -> bool {
        true
    }

    open spec fn from_spec(s: String) -> FieldValue {
        FieldValue::Text(s)
    }
}

impl From<i64> for FieldValue {
    fn from(n: i64) -> (v: FieldValue) {
        FieldValue::Number(n as i128)
    }
}

impl FromSpecImpl<i64> for FieldValue {
    open spec fn obeys_from_spec() -> bool {
        true
    }

    open spec fn from_spec(n: i64) -> FieldValue {
        FieldValue::Number(n as i128)
    }
}

impl From<i32> for FieldValue {
    fn from(n: i32) -> (v: FieldValue) {
        FieldValue::Number(n as i128)
    }
}

impl FromSpecImpl<i32> for FieldValue {
    open spec fn obeys_from_spec() -> bool {
        true
    }

    open spec fn from_spec(n: i32) -> FieldValue {
        FieldValue::Number(n as i128)
    }
}

impl From<usize> for FieldValue {
    fn from(n: usize) -> (v: FieldValue) {
        FieldValue::Number(n as i128)
    }
}

impl FromSpecImpl<usize> for FieldValue {
    open spec fn obeys_from_spec() -> bool {
        true
    }

    open spec fn from_spec(n: usize) -> FieldValue {
        FieldValue::Number(n as i128)
    }
}

impl From<u64> for FieldValue {
    fn from(n: u64) -> (v: FieldValue) {
        FieldValue::Number(n as i128)
    }
}

impl FromSpecImpl<u64> for FieldValue {
    open spec fn obeys_from_spec() -> bool {
        true
    }

    open spec fn from_spec(n: u64) -> FieldValue {
        FieldValue::Number(n as i128)
    }
}

impl From<bool> for FieldValue {
    fn from(b: bool) -> (v: FieldValue) {
        FieldValue::Boolean(b)
    }
}

impl FromSpecImpl<bool> for FieldValue {
    open spec fn obeys_from_spec() -> bool {
        true
    }

    open spec fn from_spec(b: bool) -> FieldValue {
        FieldValue::Boolean(b)
    }
}

impl<'a> From<&'a str> for FieldValue {
    fn from(s: &'a str) -> (v: FieldValue)
        ensures
            v@ == ValueView::Text(s@),
    {
        FieldValue::Text(s.to_owned())
    }
}

impl<'a> FromSpecImpl<&'a str> for FieldValue {
    /// The text that is made is new, so the value is told by its view alone.
    open spec fn obeys_from_spec() -> bool {
        false
    }

    open spec fn from_spec(s: &'a str) -> FieldValue {
        arbitrary()
    }
}

} // verus!
