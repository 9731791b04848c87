//! Content lines, the `NAME:VALUE` records of the serialized calendar, and
//! the texts that may stand in them.
//!
//! Escaping, folding and line ends are the work of the `ical_vcard` crate.
//! This module holds what the rest of the crate needs to know of it: which
//! texts it takes as a name and as a value, and that it writes one line
//! after the other.

use crate::text::{all_digits, is_digit};
use vstd::prelude::*;

verus! {

/// Whether `c` may stand in a value: any character but the ASCII control
/// characters, of which only the horizontal tab is admitted.
pub open spec fn is_value_char(c: char) -> bool {
    c == '\t' || (' ' <= c && c != '\u{7f}')
}

/// Whether every character of `s` may stand in a value.
pub open spec fn has_no_control_character(s: Seq<char>) -> bool {
    forall|i: int| 0 <= i < s.len() ==> is_value_char(#[trigger] s[i])
}

/// Whether `s` begins with a space or a horizontal tab.
pub open spec fn begins_with_blank(s: Seq<char>) -> bool {
    s.len() > 0 && (s[0] == ' ' || s[0] == '\t')
}

/// Whether `s` may stand as the value of a content line: it holds no
/// control character other than the horizontal tab, and it does not begin
/// with a space or a tab. The writer of content lines takes no text that
/// begins with one.
pub open spec fn is_value_text(s: Seq<char>) -> bool {
    has_no_control_character(s) && !begins_with_blank(s)
}

/// Whether `c` may stand in a name: an ASCII letter, an ASCII digit or a
/// hyphen.
pub open spec fn is_name_char(c: char) -> bool {
    is_digit(c) || ('A' <= c && c <= 'Z') || ('a' <= c && c <= 'z') || c == '-'
}

/// Whether `s` may stand as the name of a content line.
pub open spec fn is_name_text(s: Seq<char>) -> bool {
    s.len() > 0 && forall|i: int| 0 <= i < s.len() ==> is_name_char(#[trigger] s[i])
}

/// Two values written one after the other are a value.
pub proof fn lemma_value_text_concat(a: Seq<char>, b: Seq<char>)
    requires
        is_value_text(a),
        is_value_text(b),
    ensures
        is_value_text(a + b),
{
    assert forall|i: int| 0 <= i < (a + b).len() implies is_value_char(#[trigger] (a + b)[i]) by {
        if i < a.len() {
            assert((a + b)[i] == a[i]);
        } else {
            assert((a + b)[i] == b[i - a.len()]);
        }
    }
    if a.len() > 0 {
        assert((a + b)[0] == a[0]);
    } else if b.len() > 0 {
        assert((a + b)[0] == b[0]);
    }
}

/// A text of digits is a value.
pub proof fn lemma_digits_are_value_text(s: Seq<char>)
    requires
        all_digits(s),
    ensures
        is_value_text(s),
{
    assert forall|i: int| 0 <= i < s.len() implies is_value_char(#[trigger] s[i]) by {
        assert(is_digit(s[i]));
    }
    if s.len() > 0 {
        assert(is_digit(s[0]));
    }
}

/// The error with which `ical_vcard` rejects a value. Nothing is known of it
/// but that it is one.
#[verifier::external_type_specification]
#[verifier::external_body]
pub struct ExInvalidValue(ical_vcard::InvalidValue);

/// The error of a sink that cannot be written to. It stands in the result
/// of the functions that write, which write to memory and do not meet one.
#[verifier::external_type_specification]
#[verifier::external_body]
pub struct ExIoError(std::io::Error);

/// Validates `text` with `ical_vcard::Value::new` and hands back the text
/// that the accepted value holds.
///
/// `Value::new` accepts a text exactly when none of its bytes is an ASCII
/// control character other than the horizontal tab. Every byte of a
/// character outside ASCII is 0x80 or above, so this is a condition on the
/// characters, and it is stated as one. The accepted value holds the text
/// unchanged.
#[verifier::external_body]
fn checked_value(text: &str) -> (checked: Result<String, ical_vcard::InvalidValue>)
    ensures
        checked is Ok <==> has_no_control_character(text@),
        checked matches Ok(accepted) ==> accepted@ == text@,
{
    ical_vcard::Value::new(text.to_owned()).map(String::from)
}

/// The bytes that `ical_vcard` writes for the content line of the given name
/// and value: the name in capitals, a colon and the value, folded into lines
/// of at most 75 bytes, and the line end.
pub uninterp spec fn content_line_bytes(name: Seq<char>, value: Seq<char>) -> Seq<u8>;

/// The bytes of the content line of `name` and `value`: the line is built
/// with `ical_vcard::Contentline::new` and written to memory with
/// `ical_vcard::Writer::write`.
///
/// `Contentline::new` panics unless the name is an identifier and the value
/// holds no control character other than the tab. The writer asserts, in
/// builds with debug assertions, that no text it is handed begins with a
/// space or a tab, and it is handed the value as one text. The `requires`
/// leaves all of these out. The writer appends to a `Vec<u8>`, which takes
/// every write, so the write succeeds. A new writer starts at the beginning
/// of a line, so the bytes depend on the name and the value alone.
#[verifier::external_body]
fn line_bytes(name: &str, value: &str) -> (bytes: Vec<u8>)
    requires
        is_name_text(name@),
        is_value_text(value@),
    ensures
        bytes@ == content_line_bytes(name@, value@),
{
    let mut bytes = Vec::new();
    ical_vcard::Writer::new(&mut bytes)
        .write(&ical_vcard::Contentline::new(name, value))
        .expect("a write to memory does not fail");
    bytes
}

/// A text that has been accepted as the value of a content line.
///
/// It holds no control character other than the horizontal tab, which is
/// what `ical_vcard` asks of a value, and it does not begin with a space or
/// a tab, which is what the writer of `ical_vcard` asks of a text before it
/// writes it. So every `TextValue` can be written.
#[derive(Debug)]
pub struct TextValue {
    text: String,
}

impl View for TextValue {
    type V = Seq<char>;

    closed spec fn view(&self) -> Seq<char> {
        self.text@
    }
}

impl TextValue {
    /// Every `TextValue` may stand as the value of a content line.
    #[verifier::type_invariant]
    pub open spec fn well_formed(self) -> bool {
        is_value_text(self@)
    }

    /// Accepts `text` as a value, or rejects it where it holds a control
    /// character other than the horizontal tab or begins with a space or a
    /// tab.
    pub fn new(text: &str) -> (value: Result<TextValue, InvalidTextValue>)
        ensures
            match value {
                Ok(value) => value@ == text@ && is_value_text(text@),
                Err(_) => !is_value_text(text@),
            },
    {
        let accepted = match checked_value(text) {
            Ok(accepted) => accepted,
            Err(_) => {
                return Err(InvalidTextValue {});
            },
        };
        if !text.is_empty() {
            let first = text.get_char(0);
            if first == ' ' || first == '\t' {
                return Err(InvalidTextValue {});
            }
        }
        Ok(TextValue { text: accepted })
    }

    /// The text of the value.
    pub fn as_str(&self) -> (text: &str)
        ensures
            text@ == self@,
            is_value_text(text@),
    {
        proof {
            use_type_invariant(self);
        }
        self.text.as_str()
    }
}

impl Clone for TextValue {
    fn clone(&self) -> (copy: TextValue)
        ensures
            copy@ == self@,
    {
        proof {
            use_type_invariant(self);
        }
        TextValue { text: self.text.clone() }
    }
}

/// Indicates a text that cannot stand as the value of a content line.
#[derive(Debug, Clone)]
pub struct InvalidTextValue {}

impl InvalidTextValue {
    /// The message of the error.
    pub fn to_string(&self) -> (message: String)
        ensures
            message@
                == "a value holds no control character other than the horizontal tab and does not begin with a space or a tab"@,
    {
        "a value holds no control character other than the horizontal tab and does not begin with a space or a tab".to_owned()
    }
}

/// A content line as two texts.
pub struct ContentLineView {
    pub name: Seq<char>,
    pub value: Seq<char>,
}

/// The content line of the given name and value.
pub open spec fn line(name: Seq<char>, value: Seq<char>) -> ContentLineView {
    ContentLineView { name, value }
}

/// One `NAME:VALUE` record of the serialized calendar.
#[derive(Debug)]
pub struct ContentLine {
    name: &'static str,
    value: String,
}

impl View for ContentLine {
    type V = ContentLineView;

    closed spec fn view(&self) -> ContentLineView {
        ContentLineView { name: self.name@, value: self.value@ }
    }
}

impl ContentLine {
    /// The name and the value of every `ContentLine` can be written.
    #[verifier::type_invariant]
    pub open spec fn well_formed(self) -> bool {
        is_name_text(self@.name) && is_value_text(self@.value)
    }

    /// The content line of the given name and value.
    pub fn new(name: &'static str, value: String) -> (content_line: ContentLine)
        requires
            is_name_text(name@),
            is_value_text(value@),
        ensures
            content_line@ == line(name@, value@),
    {
        ContentLine { name, value }
    }

    /// The name of the property.
    pub fn name(&self) -> (name: &str)
        ensures
            name@ == self@.name,
            is_name_text(name@),
    {
        proof {
            use_type_invariant(self);
        }
        self.name
    }

    /// The value of the property.
    pub fn value(&self) -> (value: &str)
        ensures
            value@ == self@.value,
            is_value_text(value@),
    {
        proof {
            use_type_invariant(self);
        }
        self.value.as_str()
    }
}

impl Clone for ContentLine {
    fn clone(&self) -> (copy: ContentLine)
        ensures
            copy@ == self@,
    {
        proof {
            use_type_invariant(self);
        }
        ContentLine { name: self.name, value: self.value.clone() }
    }
}

/// The content lines that `lines` holds, as texts.
pub open spec fn line_views(lines: Seq<ContentLine>) -> Seq<ContentLineView> {
    lines.map_values(|content_line: ContentLine| content_line@)
}

/// The bytes of the given content lines, one line after the other.
pub open spec fn lines_bytes(lines: Seq<ContentLineView>) -> Seq<u8>
    decreases lines.len(),
{
    if lines.len() == 0 {
        Seq::<u8>::empty()
    } else {
        lines_bytes(lines.drop_last()) + content_line_bytes(lines.last().name, lines.last().value)
    }
}

/// `BEGIN` and `END`, which open and close a calendar and each of its
/// components, can stand as names of content lines.
pub proof fn lemma_begin_and_end_are_names()
    ensures
        is_name_text("BEGIN"@),
        is_name_text("END"@),
{
    reveal_strlit("BEGIN");
    reveal_strlit("END");
}

/// Appends the bytes of the content lines to `sink`, in their order.
///
/// The sink is memory and takes every write, so the result is always `Ok`;
/// it is a `Result` so that the call reads like a write to any other sink.
pub fn write_lines(lines: &[ContentLine], sink: &mut Vec<u8>) -> (written: Result<
    (),
    std::io::Error,
>)
    ensures
        written is Ok,
        final(sink)@ == old(sink)@ + lines_bytes(line_views(lines@)),
{
    let mut i: usize = 0;
    while i < lines.len()
        invariant
            i <= lines@.len(),
            sink@ == old(sink)@ + lines_bytes(line_views(lines@).take(i as int)),
        decreases lines@.len() - i,
    {
        let content_line = &lines[i];
        let ghost views = line_views(lines@);
        let mut bytes = line_bytes(content_line.name(), content_line.value());
        sink.append(&mut bytes);
        proof {
            assert(views.take(i + 1).drop_last() =~= views.take(i as int));
        }
        i += 1;
    }
    proof {
        assert(line_views(lines@).take(i as int) =~= line_views(lines@));
    }
    Ok(())
}

} // verus!
