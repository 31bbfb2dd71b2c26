use std::collections::HashMap;
use vstd::prelude::*;
use vstd::string::StringSliceAdditionalSpecFns;
use crate::encoding::{
    decode_pdf_string, fits, is_surrogate, lemma_pdf_doc_total, pdf_doc_chars,
    pdf_doc_decodable, unit_text, PDF_DOC_ENCODING,
};
use crate::fontdata::{option_text_map, EncodingSource, Number, SimpleFontSource};
use crate::fontencoding::{
    build_encoding, dict_encoding, encoding_fits, option_seq, simple_encoding, type1_fits,
};
use crate::tables::{FontError, FontTables};
use crate::text::{contains_bytes, str_contains, str_eq};
use crate::tounicode::{get_unicode_map, to_unicode_fits, to_unicode_text};
use crate::widths::{
    core_font, core_font_table, core_own_widths, core_table, core_widths_by_encoding,
    declared_widths, find_core_font, own_widths, widths_by_encoding, widths_from_array,
};

verus! {

/// What a simple font decodes with.
pub struct SimpleFontView {
    pub base_name: Seq<char>,
    /// The code point of each of the 256 codes, `0` where a code has none.
    pub encoding: Option<Seq<u16>>,
    /// The text that the ToUnicode map gives to codes.
    pub text: Option<Map<u32, Seq<char>>>,
    pub widths: Map<u32, Number>,
    /// The width of a code that has none of its own.
    pub missing_width: Number,
}

/// The widths of a font and the encoding table that they were read with.
pub struct Measured {
    pub widths: Map<u32, Number>,
    pub table: Option<Seq<u16>>,
}

/// A font whose unknown glyph names get an empty text instead of none: icon fonts
/// of the FontAwesome family.
pub open spec fn is_lenient(base_name: Seq<char>) -> bool {
    contains_bytes(vstd::utf8::encode_utf8(base_name), "FontAwesome".spec_bytes())
}

/// The glyph list that a standard font's own names are looked up in.
pub open spec fn own_names(tables: FontTables, base_name: Seq<char>) -> Map<Seq<char>, u16> {
    if base_name == "ZapfDingbats"@ {
        tables.zapf_dingbats@
    } else {
        tables.glyphs@
    }
}

/// The widths of a simple font: those that FirstChar, LastChar and Widths declare
/// where all three are there; otherwise those of the standard font of its name,
/// under the font's encoding table or, where it has none, under the standard
/// font's own codes, which then also give the table.
pub open spec fn simple_widths(
    tables: FontTables,
    source: SimpleFontSource,
    base_name: Seq<char>,
    table: Option<Seq<u16>>,
) -> Result<Measured, FontError> {
    if source.first_char is Some && source.last_char is Some && source.widths is Some {
        match declared_widths(
            source.first_char.unwrap(),
            source.last_char.unwrap(),
            source.widths.unwrap()@,
        ) {
            Ok(widths) => Ok(Measured { widths, table }),
            Err(e) => Err(e),
        }
    } else {
        match find_core_font(tables.core_fonts@, base_name) {
            None => Ok(Measured { widths: Map::empty(), table }),
            Some(font) => match table {
                Some(t) => match widths_by_encoding(tables.glyphs@, t, font.glyphs@) {
                    Ok(widths) => Ok(Measured { widths, table }),
                    Err(e) => Err(e),
                },
                None => match core_table(own_names(tables, base_name), font.glyphs@) {
                    Ok(t) => Ok(Measured { widths: own_widths(font.glyphs@), table: Some(t) }),
                    Err(e) => Err(e),
                },
            },
        }
    }
}

/// The simple font that a font dictionary describes.
pub open spec fn simple_font_model(tables: FontTables, source: SimpleFontSource) -> Result<
    SimpleFontView,
    FontError,
> {
    if !pdf_doc_decodable(source.base_font@) || !pdf_doc_decodable(source.subtype@) {
        Err(FontError::BadName)
    } else {
        let base_name = pdf_doc_chars(source.base_font@);
        let truetype = pdf_doc_chars(source.subtype@) == "TrueType"@;
        match to_unicode_text(source.to_unicode) {
            Err(e) => Err(e),
            Ok(text) => match simple_encoding(
                tables,
                source,
                is_lenient(base_name),
                truetype,
                text,
            ) {
                Err(e) => Err(e),
                Ok(encoded) => match simple_widths(tables, source, base_name, encoded.table) {
                    Err(e) => Err(e),
                    Ok(measured) => Ok(
                        SimpleFontView {
                            base_name,
                            encoding: measured.table,
                            text: encoded.text,
                            widths: measured.widths,
                            missing_width: match source.missing_width {
                                Some(w) => w,
                                None => Number::Integer(0),
                            },
                        },
                    ),
                },
            },
        }
    }
}

/// Whether the byte strings of a font dictionary fit.
pub open spec fn source_fits(source: SimpleFontSource) -> bool {
    &&& fits(source.base_font@)
    &&& fits(source.subtype@)
    &&& encoding_fits(source.encoding)
    &&& to_unicode_fits(source.to_unicode)
    &&& source.type1_encoding matches Some(entries) ==> type1_fits(entries@)
}

/// The text of a code of a simple font: what the ToUnicode map gives it; else the
/// character of its slot in the encoding table, PDFDocEncoding where the font has
/// no table; else nothing.
pub open spec fn simple_char_text(
    text: Option<Map<u32, Seq<char>>>,
    encoding: Option<Seq<u16>>,
    code: u32,
) -> Seq<char> {
    if text is Some && text.unwrap().contains_key(code) {
        text.unwrap()[code]
    } else {
        let table = match encoding {
            Some(t) => t,
            None => PDF_DOC_ENCODING@,
        };
        let unit = table[(code % 256) as int];
        if unit == 0 || is_surrogate(unit) {
            Seq::<char>::empty()
        } else {
            seq![(unit as u32) as char]
        }
    }
}

/// Decodes a code of a simple font.
pub fn decode_simple_char(
    unicode_map: &Option<HashMap<u32, String>>,
    encoding: &Option<Vec<u16>>,
    code: u32,
) -> (text: String)
    requires
        encoding matches Some(t) ==> t@.len() == 256,
    ensures
        text@ == simple_char_text(option_text_map(*unicode_map), option_seq(*encoding), code),
{
    match unicode_map {
        Some(m) => {
            match m.get(&code) {
                Some(s) => {
                    return s.clone();
                },
                None => {},
            }
        },
        None => {},
    }
    let slot = (code % 256) as usize;
    let unit = match encoding {
        Some(t) => t[slot],
        None => {
            let table = PDF_DOC_ENCODING;
            table[slot]
        },
    };
    if unit == 0 || (0xD800 <= unit && unit <= 0xDFFF) {
        String::new()
    } else {
        unit_text(unit)
    }
}

/// The next code of a simple font in a shown string: one byte.
pub open spec fn simple_next(s: Seq<u8>, at: int) -> Option<(u32, u8)> {
    if 0 <= at < s.len() {
        Some((s[at] as u32, 1u8))
    } else {
        None
    }
}

/// A single-byte font: Type 1, TrueType and their kin.
pub struct PdfSimpleFont {
    base_name: String,
    encoding: Option<Vec<u16>>,
    unicode_map: Option<HashMap<u32, String>>,
    widths: HashMap<u32, Number>,
    missing_width: Number,
}

impl View for PdfSimpleFont {
    type V = SimpleFontView;

    closed spec fn view(&self) -> SimpleFontView {
        SimpleFontView {
            base_name: self.base_name@,
            encoding: option_seq(self.encoding),
            text: option_text_map(self.unicode_map),
            widths: self.widths@,
            missing_width: self.missing_width,
        }
    }
}

impl PdfSimpleFont {
    #[verifier::type_invariant]
    spec fn table_is_whole(&self) -> bool {
        self.encoding matches Some(t) ==> t@.len() == 256
    }

    /// Builds the font that a font dictionary describes.
    pub fn new(tables: &FontTables, source: &SimpleFontSource) -> (out: Result<
        PdfSimpleFont,
        FontError,
    >)
        requires
            tables.wf(),
            source_fits(*source),
        ensures
            match simple_font_model(*tables, *source) {
                Ok(view) => out matches Ok(font) && font@ == view,
                Err(e) => out matches Err(error) && error == e,
            },
            out matches Ok(font) ==> (font@.encoding matches Some(t) ==> t.len() == 256),
    {
        let encoding = PDF_DOC_ENCODING;
        let base_name = match decode_pdf_string(encoding.as_slice(), source.base_font.as_slice()) {
            Some(name) => name,
            None => {
                proof {
                    if pdf_doc_decodable(source.base_font@) {
                        lemma_pdf_doc_total(source.base_font@);
                    }
                }
                return Err(FontError::BadName);
            },
        };
        let subtype = match decode_pdf_string(encoding.as_slice(), source.subtype.as_slice()) {
            Some(name) => name,
            None => {
                proof {
                    if pdf_doc_decodable(source.subtype@) {
                        lemma_pdf_doc_total(source.subtype@);
                    }
                }
                return Err(FontError::BadName);
            },
        };
        proof {
            lemma_pdf_doc_total(source.base_font@);
            lemma_pdf_doc_total(source.subtype@);
        }
        let truetype = str_eq(subtype.as_str(), "TrueType");
        let lenient = str_contains(base_name.as_str(), "FontAwesome");
        let unicode_map = match get_unicode_map(&source.to_unicode) {
            Ok(m) => m,
            Err(e) => {
                return Err(e);
            },
        };
        let (table, unicode_map) = match build_encoding(
            tables,
            source,
            lenient,
            truetype,
            unicode_map,
        ) {
            Ok(pair) => pair,
            Err(e) => {
                return Err(e);
            },
        };
        let (widths, table) = match measure(tables, source, base_name.as_str(), table) {
            Ok(pair) => pair,
            Err(e) => {
                return Err(e);
            },
        };
        let missing_width = match source.missing_width {
            Some(w) => w,
            None => Number::Integer(0),
        };
        Ok(PdfSimpleFont { base_name, encoding: table, unicode_map, widths, missing_width })
    }

    /// The advance width of a code, in thousandths of the font size.
    pub fn get_width(&self, code: u32) -> (width: Number)
        ensures
            width == (if self@.widths.contains_key(code) {
                self@.widths[code]
            } else {
                self@.missing_width
            }),
    {
        match self.widths.get(&code) {
            Some(w) => *w,
            None => self.missing_width,
        }
    }

    /// The code that starts at position `at` of a shown string, and the number of
    /// bytes it takes.
    pub fn next_char(&self, s: &[u8], at: usize) -> (next: Option<(u32, u8)>)
        ensures
            next == simple_next(s@, at as int),
    {
        if at < s.len() {
            Some((s[at] as u32, 1))
        } else {
            None
        }
    }

    /// The text of a code.
    pub fn decode_char(&self, code: u32) -> (text: String)
        ensures
            text@ == simple_char_text(self@.text, self@.encoding, code),
    {
        proof {
            use_type_invariant(self);
        }
        decode_simple_char(&self.unicode_map, &self.encoding, code)
    }

    /// The name of the font.
    pub fn get_font_name(&self) -> (name: &str)
        ensures
            name@ == self@.base_name,
    {
        self.base_name.as_str()
    }
}

/// Reads the widths of a simple font.
pub fn measure(
    tables: &FontTables,
    source: &SimpleFontSource,
    base_name: &str,
    table: Option<Vec<u16>>,
) -> (out: Result<(HashMap<u32, Number>, Option<Vec<u16>>), FontError>)
    requires
        table matches Some(t) ==> t@.len() == 256,
    ensures
        match simple_widths(*tables, *source, base_name@, option_seq(table)) {
            Ok(measured) => out matches Ok((w, t)) && w@ == measured.widths && option_seq(t)
                == measured.table,
            Err(e) => out matches Err(error) && error == e,
        },
        out matches Ok((_, Some(t))) ==> t@.len() == 256,
{
    match (&source.first_char, &source.last_char, &source.widths) {
        (Some(first), Some(last), Some(widths)) => {
            match widths_from_array(*first, *last, widths) {
                Ok(map) => Ok((map, table)),
                Err(e) => Err(e),
            }
        },
        _ => {
            match core_font(&tables.core_fonts, base_name) {
                None => Ok((HashMap::new(), table)),
                Some(font) => {
                    match table {
                        Some(t) => {
                            match core_widths_by_encoding(&tables.glyphs, &t, &font.glyphs) {
                                Ok(map) => Ok((map, Some(t))),
                                Err(e) => Err(e),
                            }
                        },
                        None => {
                            let names = if str_eq(base_name, "ZapfDingbats") {
                                &tables.zapf_dingbats
                            } else {
                                &tables.glyphs
                            };
                            match core_font_table(names, &font.glyphs) {
                                Ok(t) => Ok((core_own_widths(&font.glyphs), Some(t))),
                                Err(e) => Err(e),
                            }
                        },
                    }
                },
            }
        },
    }
}

/// What a Type 3 font decodes with.
pub struct Type3FontView {
    pub base_name: Seq<char>,
    pub encoding: Seq<u16>,
    pub text: Option<Map<u32, Seq<char>>>,
    pub widths: Map<u32, Number>,
}

/// The encoding table of a Type 3 font: its Encoding entry is required, a name or
/// a dictionary, and its Differences leave the ToUnicode map alone.
pub open spec fn type3_encoding(tables: FontTables, encoding: EncodingSource) -> Result<
    Seq<u16>,
    FontError,
> {
    match encoding {
        EncodingSource::Name(name) => tables.unicode_table(name@),
        EncodingSource::Dict { base, differences } => match dict_encoding(
            tables,
            false,
            base,
            differences,
            None,
        ) {
            Ok(encoded) => Ok(encoded.table.unwrap()),
            Err(e) => Err(e),
        },
        _ => Err(FontError::BadEncoding),
    }
}

/// The widths of a Type 3 font: FirstChar, LastChar and Widths are required.
pub open spec fn type3_widths(source: SimpleFontSource) -> Result<Map<u32, Number>, FontError> {
    if source.first_char is Some && source.last_char is Some && source.widths is Some {
        declared_widths(
            source.first_char.unwrap(),
            source.last_char.unwrap(),
            source.widths.unwrap()@,
        )
    } else {
        Err(FontError::MissingWidths)
    }
}

/// The Type 3 font that a font dictionary describes.
pub open spec fn type3_font_model(tables: FontTables, source: SimpleFontSource) -> Result<
    Type3FontView,
    FontError,
> {
    if !pdf_doc_decodable(source.base_font@) {
        Err(FontError::BadName)
    } else {
        match to_unicode_text(source.to_unicode) {
            Err(e) => Err(e),
            Ok(text) => match type3_encoding(tables, source.encoding) {
                Err(e) => Err(e),
                Ok(encoding) => match type3_widths(source) {
                    Err(e) => Err(e),
                    Ok(widths) => Ok(
                        Type3FontView {
                            base_name: pdf_doc_chars(source.base_font@),
                            encoding,
                            text,
                            widths,
                        },
                    ),
                },
            },
        }
    }
}

/// A font whose glyphs are drawn by content streams of the document.
pub struct PdfType3Font {
    base_name: String,
    encoding: Vec<u16>,
    unicode_map: Option<HashMap<u32, String>>,
    widths: HashMap<u32, Number>,
}

impl View for PdfType3Font {
    type V = Type3FontView;

    closed spec fn view(&self) -> Type3FontView {
        Type3FontView {
            base_name: self.base_name@,
            encoding: self.encoding@,
            text: option_text_map(self.unicode_map),
            widths: self.widths@,
        }
    }
}

impl PdfType3Font {
    #[verifier::type_invariant]
    spec fn table_is_whole(&self) -> bool {
        self.encoding@.len() == 256
    }

    /// Builds the font that a font dictionary describes.
    pub fn new(tables: &FontTables, source: &SimpleFontSource) -> (out: Result<
        PdfType3Font,
        FontError,
    >)
        requires
            tables.wf(),
            source_fits(*source),
        ensures
            match type3_font_model(*tables, *source) {
                Ok(view) => out matches Ok(font) && font@ == view,
                Err(e) => out matches Err(error) && error == e,
            },
            out matches Ok(font) ==> font@.encoding.len() == 256,
    {
        let encoding = PDF_DOC_ENCODING;
        let base_name = match decode_pdf_string(encoding.as_slice(), source.base_font.as_slice()) {
            Some(name) => name,
            None => {
                proof {
                    if pdf_doc_decodable(source.base_font@) {
                        lemma_pdf_doc_total(source.base_font@);
                    }
                }
                return Err(FontError::BadName);
            },
        };
        proof {
            lemma_pdf_doc_total(source.base_font@);
        }
        let unicode_map = match get_unicode_map(&source.to_unicode) {
            Ok(m) => m,
            Err(e) => {
                return Err(e);
            },
        };
        let table = match &source.encoding {
            EncodingSource::Name(_) | EncodingSource::Dict { .. } => {
                match build_encoding(tables, source, false, false, None) {
                    Ok((Some(table), _)) => table,
                    Ok((None, _)) => {
                        return Err(FontError::BadEncoding);
                    },
                    Err(e) => {
                        return Err(e);
                    },
                }
            },
            _ => {
                return Err(FontError::BadEncoding);
            },
        };
        let widths = match (&source.first_char, &source.last_char, &source.widths) {
            (Some(first), Some(last), Some(widths)) => {
                match widths_from_array(*first, *last, widths) {
                    Ok(map) => map,
                    Err(e) => {
                        return Err(e);
                    },
                }
            },
            _ => {
                return Err(FontError::MissingWidths);
            },
        };
        Ok(PdfType3Font { base_name, encoding: table, unicode_map, widths })
    }

    /// Whether the font gives a code a width.
    pub fn has_width(&self, code: u32) -> (known: bool)
        ensures
            known == self@.widths.contains_key(code),
    {
        self.widths.get(&code).is_some()
    }

    /// The advance width of a code that has one, in thousandths of the font size.
    pub fn get_width(&self, code: u32) -> (width: Number)
        requires
            self@.widths.contains_key(code),
        ensures
            width == self@.widths[code],
    {
        match self.widths.get(&code) {
            Some(w) => *w,
            None => Number::Integer(0),
        }
    }

    /// The code that starts at position `at` of a shown string, and the number of
    /// bytes it takes.
    pub fn next_char(&self, s: &[u8], at: usize) -> (next: Option<(u32, u8)>)
        ensures
            next == simple_next(s@, at as int),
    {
        if at < s.len() {
            Some((s[at] as u32, 1))
        } else {
            None
        }
    }

    /// The text of a code.
    pub fn decode_char(&self, code: u32) -> (text: String)
        ensures
            text@ == simple_char_text(self@.text, Some(self@.encoding), code),
    {
        proof {
            use_type_invariant(self);
        }
        let unit = match &self.unicode_map {
            Some(m) => match m.get(&code) {
                Some(s) => {
                    return s.clone();
                },
                None => self.encoding[(code % 256) as usize],
            },
            None => self.encoding[(code % 256) as usize],
        };
        if unit == 0 || (0xD800 <= unit && unit <= 0xDFFF) {
            String::new()
        } else {
            unit_text(unit)
        }
    }

    /// The name of the font.
    pub fn get_font_name(&self) -> (name: &str)
        ensures
            name@ == self@.base_name,
    {
        self.base_name.as_str()
    }
}

} // verus!
