use vstd::prelude::*;
use vstd::string::{StrSliceExecFns, StringExecFns};
use crate::text::str_eq;

verus! {

/// The characters with the Unicode property White_Space.
pub open spec fn is_white_space(c: char) -> bool {
    let u = c as u32;
    ||| 0x09 <= u <= 0x0D
    ||| u == 0x20
    ||| u == 0x85
    ||| u == 0xA0
    ||| u == 0x1680
    ||| 0x2000 <= u <= 0x200A
    ||| u == 0x2028
    ||| u == 0x2029
    ||| u == 0x202F
    ||| u == 0x205F
    ||| u == 0x3000
}

/// Whether a character has the Unicode property White_Space.
pub fn white_space(c: char) -> (white: bool)
    ensures
        white == is_white_space(c),
{
    let u = c as u32;
    (0x09 <= u && u <= 0x0D) || u == 0x20 || u == 0x85 || u == 0xA0 || u == 0x1680 || (0x2000 <= u
        && u <= 0x200A) || u == 0x2028 || u == 0x2029 || u == 0x202F || u == 0x205F || u == 0x3000
}

/// The text of a glyph as a span takes it: a tab becomes a space.
pub open spec fn normalized(glyph: Seq<char>) -> Seq<char> {
    if glyph == seq!['\t'] {
        seq![' ']
    } else {
        glyph
    }
}

/// The text of a span after one more glyph. The first glyph starts the text. A
/// later one is appended, after a space where it stands at a wide gap and the text
/// does not end in white space already.
pub open spec fn pushed(text: Seq<char>, glyph: Seq<char>, wide_gap: bool) -> Seq<char> {
    if text.len() == 0 {
        normalized(glyph)
    } else if wide_gap && !is_white_space(text.last()) {
        text + seq![' '] + normalized(glyph)
    } else {
        text + normalized(glyph)
    }
}

/// The text of the span that is being put together from glyphs.
pub struct SpanBuffer {
    text: String,
}

impl View for SpanBuffer {
    type V = Seq<char>;

    closed spec fn view(&self) -> Seq<char> {
        self.text@
    }
}

impl SpanBuffer {
    /// A buffer without text.
    pub fn new() -> (buffer: Self)
        ensures
            buffer@.len() == 0,
    {
        SpanBuffer { text: String::new() }
    }

    /// Whether the buffer holds no text.
    pub fn is_empty(&self) -> (empty: bool)
        ensures
            empty == (self@.len() == 0),
    {
        self.text.as_str().is_empty()
    }

    /// Takes one more glyph into the span; `wide_gap` says whether the glyph stands
    /// far enough from the one before it for a space.
    pub fn push(&mut self, glyph: &str, wide_gap: bool)
        ensures
            final(self)@ == pushed(old(self)@, glyph@, wide_gap),
    {
        proof {
            reveal_strlit("\t");
            reveal_strlit(" ");
            assert("\t"@ =~= seq!['\t']);
            assert(" "@ =~= seq![' ']);
        }
        let tab = str_eq(glyph, "\t");
        if !self.text.as_str().is_empty() && wide_gap {
            let n = self.text.as_str().unicode_len();
            let last = self.text.as_str().get_char(n - 1);
            if !white_space(last) {
                self.text.append(" ");
            }
        }
        if tab {
            self.text.append(" ");
        } else {
            self.text.append(glyph);
        }
    }

    /// Closes the span: its text, if it has any, and the buffer is empty again.
    pub fn flush(&mut self) -> (text: Option<String>)
        ensures
            final(self)@.len() == 0,
            old(self)@.len() == 0 ==> text is None,
            old(self)@.len() > 0 ==> (text matches Some(t) && t@ == old(self)@),
            text matches Some(t) ==> t@.len() > 0,
    {
        if self.text.as_str().is_empty() {
            None
        } else {
            let text = self.text.clone();
            self.text = String::new();
            Some(text)
        }
    }
}

} // verus!
