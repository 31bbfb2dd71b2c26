use vstd::prelude::*;
use vstd::string::StringExecFns;
use crate::cid::cid_next;
use crate::cidfont::{
    advances_read, cid_char_text, cid_font_model, cid_source_fits, maps_read, CidEncodingSource,
    PdfCIDFont, CidFontSource, CidFontView,
};
use crate::fontencoding::encoding_within_reach;
use crate::encoding::{
    decode_pdf_string, fits, lemma_pdf_doc_total, pdf_doc_chars, pdf_doc_decodable,
    within_reach, PDF_DOC_ENCODING,
};
use crate::fontdata::{Number, SimpleFontSource};
use crate::simplefont::{
    simple_char_text, simple_font_model, simple_next, source_fits, type3_font_model, PdfSimpleFont,
    PdfType3Font,
};
use crate::tables::{FontError, FontTables};
use crate::text::str_eq;
use crate::tounicode::to_unicode_within_reach;
use crate::truetype::{CmapSubtable, FaceAdvances};

verus! {

/// The three kinds of font.
#[derive(Debug, Clone, Copy, PartialEq, Eq, Structural)]
pub enum FontKind {
    Simple,
    Type3,
    Cid,
}

/// The kind of font that a Subtype stands for: Type0 is a composite font, Type3 a
/// Type 3 font, anything else a simple font.
pub open spec fn kind_of(subtype: Seq<char>) -> FontKind {
    if subtype == "Type0"@ {
        FontKind::Cid
    } else if subtype == "Type3"@ {
        FontKind::Type3
    } else {
        FontKind::Simple
    }
}

/// The kind of font that a font dictionary's Subtype asks for.
pub fn font_kind(subtype: &[u8]) -> (kind: Result<FontKind, FontError>)
    requires
        fits(subtype@),
    ensures
        kind == (if pdf_doc_decodable(subtype@) {
            Ok::<FontKind, FontError>(kind_of(pdf_doc_chars(subtype@)))
        } else {
            Err::<FontKind, FontError>(FontError::BadName)
        }),
{
    let table = PDF_DOC_ENCODING;
    match decode_pdf_string(table.as_slice(), subtype) {
        Some(text) => {
            proof {
                lemma_pdf_doc_total(subtype@);
            }
            if str_eq(text.as_str(), "Type0") {
                Ok(FontKind::Cid)
            } else if str_eq(text.as_str(), "Type3") {
                Ok(FontKind::Type3)
            } else {
                Ok(FontKind::Simple)
            }
        },
        None => {
            proof {
                if pdf_doc_decodable(subtype@) {
                    lemma_pdf_doc_total(subtype@);
                }
            }
            Err(FontError::BadName)
        },
    }
}

/// What the dictionaries of a font say, by the kind of font.
pub enum FontSource {
    Simple(SimpleFontSource),
    Type3(SimpleFontSource),
    /// A composite font, with its embedded font program and a look-alike font of
    /// the system, as far as there are any.
    Cid { source: CidFontSource, program: Option<Vec<u8>>, system_font: Option<Vec<u8>> },
}

/// Whether the byte strings of a font's dictionaries fit.
pub open spec fn font_source_fits(source: FontSource) -> bool {
    match source {
        FontSource::Simple(s) => source_fits(s),
        FontSource::Type3(s) => source_fits(s),
        FontSource::Cid { source, program, system_font } => cid_source_fits(source),
    }
}

/// Whether the byte strings of a simple font's dictionary are small enough.
fn simple_within_reach(source: &SimpleFontSource) -> (ok: bool)
    ensures
        ok == source_fits(*source),
{
    within_reach(source.base_font.as_slice()) && within_reach(source.subtype.as_slice())
        && to_unicode_within_reach(&source.to_unicode) && encoding_within_reach(
        &source.encoding,
        &source.type1_encoding,
    )
}

/// Whether the byte strings of a font's dictionaries are small enough for the
/// font to be built.
pub fn font_source_within_reach(source: &FontSource) -> (ok: bool)
    ensures
        ok == font_source_fits(*source),
{
    match source {
        FontSource::Simple(s) => simple_within_reach(s),
        FontSource::Type3(s) => simple_within_reach(s),
        FontSource::Cid { source, program, system_font } => {
            within_reach(source.base_font.as_slice()) && to_unicode_within_reach(
                &source.to_unicode,
            ) && match &source.encoding {
                CidEncodingSource::Name(name) => within_reach(name.as_slice()),
                _ => true,
            }
        },
    }
}

/// Builds the font that its dictionaries describe.
pub fn make_font(tables: &FontTables, source: FontSource) -> (out: Result<PdfFont, FontError>)
    requires
        tables.wf(),
        font_source_fits(source),
    ensures
        match source {
            FontSource::Simple(s) => match simple_font_model(*tables, s) {
                Ok(view) => out matches Ok(PdfFont::Simple(font)) && font@ == view,
                Err(e) => out matches Err(error) && error == e,
            },
            FontSource::Type3(s) => match type3_font_model(*tables, s) {
                Ok(view) => out matches Ok(PdfFont::Type3(font)) && font@ == view,
                Err(e) => out matches Err(error) && error == e,
            },
            FontSource::Cid { source, program, system_font } => match cid_font_model(
                source,
                None,
                None,
            ) {
                Ok(_) => out matches Ok(PdfFont::Cid(font)) && exists|
                    embedded: Option<Vec<CmapSubtable>>,
                    system: Option<FaceAdvances>,
                |
                    #![trigger cid_font_model(source, embedded, system)]
                    maps_read(program, embedded) && advances_read(system_font, system)
                        && cid_font_model(source, embedded, system) == Ok::<
                        CidFontView,
                        FontError,
                    >(font@),
                Err(e) => out matches Err(error) && error == e,
            },
        },
{
    match source {
        FontSource::Simple(s) => match PdfSimpleFont::new(tables, &s) {
            Ok(font) => Ok(PdfFont::Simple(font)),
            Err(e) => Err(e),
        },
        FontSource::Type3(s) => match PdfType3Font::new(tables, &s) {
            Ok(font) => Ok(PdfFont::Type3(font)),
            Err(e) => Err(e),
        },
        FontSource::Cid { source, program, system_font } => match PdfCIDFont::load(
            source,
            &program,
            &system_font,
        ) {
            Ok(font) => Ok(PdfFont::Cid(font)),
            Err(e) => Err(e),
        },
    }
}

/// A font of a page, of one of the three kinds.
pub enum PdfFont {
    Simple(PdfSimpleFont),
    Type3(PdfType3Font),
    Cid(PdfCIDFont),
}

/// One glyph of a shown string.
pub struct Glyph {
    /// The character code, a CID for a composite font.
    pub code: u32,
    /// The number of bytes that the code took in the string.
    pub length: u8,
    /// The advance width, in thousandths of the font size.
    pub width: Number,
    /// The glyph's text.
    pub text: String,
    /// Whether word spacing applies: to the single-byte code 32 only.
    pub spaced: bool,
}

/// One glyph of a shown string, in specifications.
pub struct GlyphView {
    pub code: u32,
    pub length: u8,
    pub width: Number,
    pub text: Seq<char>,
    pub spaced: bool,
}

impl View for Glyph {
    type V = GlyphView;

    open spec fn view(&self) -> GlyphView {
        GlyphView {
            code: self.code,
            length: self.length,
            width: self.width,
            text: self.text@,
            spaced: self.spaced,
        }
    }
}

/// The views of a list of glyphs.
pub open spec fn glyph_views(glyphs: Seq<Glyph>) -> Seq<GlyphView> {
    Seq::new(glyphs.len(), |i: int| glyphs[i]@)
}

impl PdfFont {
    /// The code that starts at position `at` of a shown string, and the number of
    /// bytes it takes.
    pub open spec fn next_at(&self, s: Seq<u8>, at: int) -> Option<(u32, u8)> {
        match self {
            PdfFont::Simple(_) => simple_next(s, at),
            PdfFont::Type3(_) => simple_next(s, at),
            PdfFont::Cid(font) => cid_next(font.mapping(), s, at),
        }
    }

    /// The width of a code, if the font has one for it: a simple font falls back
    /// on its missing width and a composite font on its default width, a Type 3 font
    /// has no width to fall back on.
    pub open spec fn width_of(&self, code: u32) -> Option<Number> {
        match self {
            PdfFont::Simple(font) => Some(
                if font@.widths.contains_key(code) {
                    font@.widths[code]
                } else {
                    font@.missing_width
                },
            ),
            PdfFont::Type3(font) => if font@.widths.contains_key(code) {
                Some(font@.widths[code])
            } else {
                None
            },
            PdfFont::Cid(font) => Some(
                if font@.widths.contains_key(code) {
                    font@.widths[code]
                } else {
                    font@.default_width
                },
            ),
        }
    }

    /// The text of a code.
    pub open spec fn text_of(&self, code: u32) -> Seq<char> {
        match self {
            PdfFont::Simple(font) => simple_char_text(font@.text, font@.encoding, code),
            PdfFont::Type3(font) => simple_char_text(font@.text, Some(font@.encoding), code),
            PdfFont::Cid(font) => cid_char_text(font@, code),
        }
    }

    /// The name of the font.
    pub open spec fn name(&self) -> Seq<char> {
        match self {
            PdfFont::Simple(font) => font@.base_name,
            PdfFont::Type3(font) => font@.base_name,
            PdfFont::Cid(font) => font@.base_name,
        }
    }

    /// The glyph of a code that took `length` bytes, if the font has a width for
    /// it.
    pub open spec fn glyph_of(&self, code: u32, length: u8) -> Option<GlyphView> {
        match self.width_of(code) {
            Some(width) => Some(
                GlyphView {
                    code,
                    length,
                    width,
                    text: self.text_of(code),
                    spaced: code == 32 && length == 1,
                },
            ),
            None => None,
        }
    }

    /// The code that starts at position `at` of a shown string, and the number of
    /// bytes it takes.
    pub fn next_char(&self, s: &[u8], at: usize) -> (next: Option<(u32, u8)>)
        ensures
            next == self.next_at(s@, at as int),
            next matches Some((_, length)) ==> 1 <= length <= 4 && at + length <= s@.len(),
    {
        match self {
            PdfFont::Simple(font) => font.next_char(s, at),
            PdfFont::Type3(font) => font.next_char(s, at),
            PdfFont::Cid(font) => font.next_char(s, at),
        }
    }

    /// The advance width of a code, in thousandths of the font size, if the font
    /// has one for it.
    pub fn get_width(&self, code: u32) -> (width: Option<Number>)
        ensures
            width == self.width_of(code),
    {
        match self {
            PdfFont::Simple(font) => Some(font.get_width(code)),
            PdfFont::Type3(font) => if font.has_width(code) {
                Some(font.get_width(code))
            } else {
                None
            },
            PdfFont::Cid(font) => Some(font.get_width(code)),
        }
    }

    /// The text of a code.
    pub fn decode_char(&self, code: u32) -> (text: String)
        ensures
            text@ == self.text_of(code),
    {
        match self {
            PdfFont::Simple(font) => font.decode_char(code),
            PdfFont::Type3(font) => font.decode_char(code),
            PdfFont::Cid(font) => font.decode_char(code),
        }
    }

    /// The name of the font.
    pub fn get_font_name(&self) -> (name: &str)
        ensures
            name@ == self.name(),
    {
        match self {
            PdfFont::Simple(font) => font.get_font_name(),
            PdfFont::Type3(font) => font.get_font_name(),
            PdfFont::Cid(font) => font.get_font_name(),
        }
    }

    /// The codes of a shown string from position `at` on, each with the number of
    /// bytes it took: code after code until the string ends or what is left is no
    /// code.
    pub open spec fn codes_from(&self, s: Seq<u8>, at: int) -> Seq<(u32, u8)>
        decreases s.len() - at,
    {
        match self.next_at(s, at) {
            Some((code, length)) => if length >= 1 && at + length <= s.len() {
                seq![(code, length)] + self.codes_from(s, at + length)
            } else {
                Seq::empty()
            },
            None => Seq::empty(),
        }
    }

    /// The texts of a list of codes, one after the other.
    pub open spec fn texts_of(&self, codes: Seq<(u32, u8)>) -> Seq<char>
        decreases codes.len(),
    {
        if codes.len() == 0 {
            Seq::empty()
        } else {
            self.texts_of(codes.drop_last()) + self.text_of(codes.last().0)
        }
    }

    /// Reads a shown string into its codes.
    pub fn char_codes(&self, s: &[u8]) -> (codes: Vec<(u32, u8)>)
        ensures
            codes@ == self.codes_from(s@, 0),
    {
        let mut codes: Vec<(u32, u8)> = Vec::new();
        let mut at: usize = 0;
        let len = s.len();
        assert(codes@ + self.codes_from(s@, 0) =~= self.codes_from(s@, 0));
        loop
            invariant
                len == s@.len(),
                at <= len,
                self.codes_from(s@, 0) == codes@ + self.codes_from(s@, at as int),
            decreases len - at,
        {
            match self.next_char(s, at) {
                None => {
                    assert(codes@ + Seq::<(u32, u8)>::empty() =~= codes@);
                    return codes;
                },
                Some((code, length)) => {
                    let ghost before = codes@;
                    codes.push((code, length));
                    assert((before + seq![(code, length)]) + self.codes_from(s@, at + length)
                        =~= before + (seq![(code, length)] + self.codes_from(s@, at + length)));
                    at = at + length as usize;
                },
            }
        }
    }

    /// The text of a shown string: the texts of its codes, one after the other.
    pub fn decode(&self, s: &[u8]) -> (text: String)
        ensures
            text@ == self.texts_of(self.codes_from(s@, 0)),
    {
        let codes = self.char_codes(s);
        let mut text = String::new();
        let mut i: usize = 0;
        assert(codes@.take(0) =~= Seq::<(u32, u8)>::empty());
        while i < codes.len()
            invariant
                i <= codes.len(),
                text@ == self.texts_of(codes@.take(i as int)),
            decreases codes.len() - i,
        {
            proof {
                assert(codes@.take(i as int + 1).drop_last() =~= codes@.take(i as int));
                assert(codes@.take(i as int + 1).last() == codes@[i as int]);
            }
            let one = self.decode_char(codes[i].0);
            text.append(one.as_str());
            i = i + 1;
        }
        assert(codes@.take(codes@.len() as int) =~= codes@);
        text
    }

    /// Whether the font has a width for each code of a list.
    pub open spec fn has_widths(&self, codes: Seq<(u32, u8)>) -> bool {
        forall|i: int| 0 <= i < codes.len() ==> self.width_of((#[trigger] codes[i]).0) is Some
    }

    /// The glyphs of a shown string: one for each of its codes. A code without a
    /// width fails the string.
    pub open spec fn glyphs_of(&self, s: Seq<u8>) -> Result<Seq<GlyphView>, FontError> {
        let codes = self.codes_from(s, 0);
        if self.has_widths(codes) {
            Ok(Seq::new(codes.len(), |i: int| self.glyph_of(codes[i].0, codes[i].1).unwrap()))
        } else {
            Err(FontError::MissingWidth)
        }
    }

    /// Reads a shown string into its glyphs.
    pub fn glyphs(&self, s: &[u8]) -> (out: Result<Vec<Glyph>, FontError>)
        ensures
            match self.glyphs_of(s@) {
                Ok(views) => out matches Ok(list) && glyph_views(list@) == views,
                Err(e) => out matches Err(error) && error == e,
            },
    {
        let codes = self.char_codes(s);
        let mut list: Vec<Glyph> = Vec::new();
        let mut i: usize = 0;
        while i < codes.len()
            invariant
                i <= codes.len(),
                list@.len() == i,
                codes@ == self.codes_from(s@, 0),
                forall|j: int| 0 <= j < i ==> self.width_of((#[trigger] codes@[j]).0) is Some,
                forall|j: int|
                    0 <= j < i ==> (#[trigger] list@[j])@ == self.glyph_of(
                        codes@[j].0,
                        codes@[j].1,
                    ).unwrap(),
            decreases codes.len() - i,
        {
            let (code, length) = codes[i];
            let width = match self.get_width(code) {
                Some(width) => width,
                None => {
                    assert(self.width_of(codes@[i as int].0) is None);
                    return Err(FontError::MissingWidth);
                },
            };
            let text = self.decode_char(code);
            list.push(Glyph { code, length, width, text, spaced: code == 32 && length == 1 });
            i = i + 1;
        }
        assert(glyph_views(list@) =~= self.glyphs_of(s@).unwrap());
        Ok(list)
    }
}

} // verus!
