use std::collections::HashMap;
use vstd::prelude::*;
use crate::encoding::{
    decode_pdf_string, fits, lemma_pdf_doc_total, pdf_doc_chars, pdf_doc_decodable, unit_text,
    within_reach, PDF_DOC_ENCODING,
};
use crate::fontdata::{
    option_text_map, text_map, wrap_code, wrapped_code, DiffItem, EncodingSource,
    SimpleFontSource, Type1Entry,
};
use crate::names::GlyphNames;
use crate::tables::{
    all_named, code_points, encoding_to_unicode_table, resolve_names, slot_names, FontError,
    FontTables,
};

verus! {

/// Where the reading of a Differences array stands: the code that the next name
/// gets, the encoding table and the ToUnicode map so far.
pub struct DiffState {
    pub code: int,
    pub table: Seq<u16>,
    pub text: Option<Map<u32, Seq<char>>>,
}

/// What a glyph name does to the table and the map at a code. A known glyph sets
/// the table's slot, and the map's where that is free. An unknown one is passed
/// over, unless the font is `lenient`: then the map gets an empty text for it.
pub open spec fn name_effect(
    glyphs: Map<Seq<char>, u16>,
    lenient: bool,
    state: DiffState,
    name: Seq<char>,
) -> Result<DiffState, FontError> {
    if glyphs.contains_key(name) {
        if 0 <= state.code < 256 {
            let unit = glyphs[name];
            Ok(
                DiffState {
                    code: state.code,
                    table: state.table.update(state.code, unit),
                    text: match state.text {
                        Some(m) => Some(
                            if m.contains_key(state.code as u32) {
                                m
                            } else {
                                m.insert(state.code as u32, seq![(unit as u32) as char])
                            },
                        ),
                        None => None,
                    },
                },
            )
        } else {
            Err(FontError::CodeOutOfRange)
        }
    } else {
        match state.text {
            Some(m) => if lenient {
                if m.contains_key(wrap_code(state.code)) {
                    Err(FontError::OccupiedEntry)
                } else {
                    Ok(
                        DiffState {
                            code: state.code,
                            table: state.table,
                            text: Some(m.insert(wrap_code(state.code), Seq::<char>::empty())),
                        },
                    )
                }
            } else {
                Ok(state)
            },
            None => Ok(state),
        }
    }
}

/// One item of a Differences array: an integer sets the current code, a name is
/// given to the current code, which then moves on by one.
pub open spec fn diff_step(
    glyphs: Map<Seq<char>, u16>,
    lenient: bool,
    state: DiffState,
    item: DiffItem,
) -> Result<DiffState, FontError> {
    match item {
        DiffItem::Code(c) => Ok(DiffState { code: c as int, table: state.table, text: state.text }),
        DiffItem::Other => Err(FontError::BadDifferences),
        DiffItem::Name(n) => if !pdf_doc_decodable(n@) {
            Err(FontError::BadName)
        } else {
            match name_effect(glyphs, lenient, state, pdf_doc_chars(n@)) {
                Err(e) => Err(e),
                Ok(next) => if next.code < i64::MAX {
                    Ok(DiffState { code: next.code + 1, table: next.table, text: next.text })
                } else {
                    Err(FontError::CodeOutOfRange)
                },
            }
        },
    }
}

/// A Differences array read from its first item to its last.
pub open spec fn diff_fold(
    glyphs: Map<Seq<char>, u16>,
    lenient: bool,
    state: DiffState,
    items: Seq<DiffItem>,
) -> Result<DiffState, FontError>
    decreases items.len(),
{
    if items.len() == 0 {
        Ok(state)
    } else {
        match diff_step(glyphs, lenient, state, items[0]) {
            Ok(next) => diff_fold(glyphs, lenient, next, items.skip(1)),
            Err(e) => Err(e),
        }
    }
}

/// Whether the names of a Differences array fit.
pub open spec fn differences_fit(items: Seq<DiffItem>) -> bool {
    forall|i: int|
        0 <= i < items.len() ==> (#[trigger] items[i] matches DiffItem::Name(n) ==> fits(n@))
}

/// Applies a Differences array to an encoding table and, where the font has one,
/// to its ToUnicode map.
pub fn apply_differences(
    glyphs: &GlyphNames,
    lenient: bool,
    table: Vec<u16>,
    text: Option<HashMap<u32, String>>,
    items: &Vec<DiffItem>,
) -> (out: Result<(Vec<u16>, Option<HashMap<u32, String>>), FontError>)
    requires
        table@.len() == 256,
        differences_fit(items@),
    ensures
        match diff_fold(
            glyphs@,
            lenient,
            DiffState { code: 0, table: table@, text: option_text_map(text) },
            items@,
        ) {
            Ok(state) => out matches Ok((t, m)) && t@ == state.table && option_text_map(m)
                == state.text,
            Err(e) => out == Err::<(Vec<u16>, Option<HashMap<u32, String>>), FontError>(e),
        },
        out matches Ok((t, _)) ==> t@.len() == 256,
{
    let ghost start = DiffState { code: 0, table: table@, text: option_text_map(text) };
    let mut slots = table;
    let mut map = text;
    let mut code: i64 = 0;
    let mut i: usize = 0;
    assert(items@.skip(0) =~= items@);
    while i < items.len()
        invariant
            i <= items.len(),
            slots@.len() == 256,
            differences_fit(items@),
            start == (DiffState { code: 0, table: table@, text: option_text_map(text) }),
            diff_fold(glyphs@, lenient, start, items@) == diff_fold(
                glyphs@,
                lenient,
                DiffState { code: code as int, table: slots@, text: option_text_map(map) },
                items@.skip(i as int),
            ),
        decreases items.len() - i,
    {
        let ghost here = DiffState { code: code as int, table: slots@, text: option_text_map(map) };
        proof {
            assert(items@.skip(i as int)[0] == items@[i as int]);
            assert(items@.skip(i as int).skip(1) =~= items@.skip(i as int + 1));
            assert(diff_fold(glyphs@, lenient, here, items@.skip(i as int)) == match diff_step(
                glyphs@,
                lenient,
                here,
                items@[i as int],
            ) {
                Ok(next) => diff_fold(glyphs@, lenient, next, items@.skip(i as int + 1)),
                Err(e) => Err(e),
            });
        }
        match &items[i] {
            DiffItem::Code(c) => {
                code = *c;
            },
            DiffItem::Other => {
                return Err(FontError::BadDifferences);
            },
            DiffItem::Name(n) => {
                let encoding = PDF_DOC_ENCODING;
                let name = match decode_pdf_string(encoding.as_slice(), n.as_slice()) {
                    Some(name) => name,
                    None => {
                        proof {
                            if pdf_doc_decodable(n@) {
                                lemma_pdf_doc_total(n@);
                            }
                        }
                        return Err(FontError::BadName);
                    },
                };
                proof {
                    lemma_pdf_doc_total(n@);
                }
                assert(name@ == pdf_doc_chars(n@));
                match glyphs.lookup(name.as_str()) {
                    Some(unit) => {
                        if code < 0 || code >= 256 {
                            return Err(FontError::CodeOutOfRange);
                        }
                        slots.set(code as usize, unit);
                        map = match map {
                            Some(mut m) => {
                                let key = code as u32;
                                if !m.contains_key(&key) {
                                    let ghost before = m@;
                                    let one = unit_text(unit);
                                    m.insert(key, one);
                                    assert(text_map(m@) =~= text_map(before).insert(
                                        key,
                                        seq![(unit as u32) as char],
                                    ));
                                }
                                Some(m)
                            },
                            None => None,
                        };
                    },
                    None => {
                        if lenient {
                            map = match map {
                                Some(mut m) => {
                                    let key = wrapped_code(code);
                                    if m.contains_key(&key) {
                                        return Err(FontError::OccupiedEntry);
                                    }
                                    let ghost before = m@;
                                    m.insert(key, String::new());
                                    assert(text_map(m@) =~= text_map(before).insert(
                                        key,
                                        Seq::<char>::empty(),
                                    ));
                                    Some(m)
                                },
                                None => None,
                            };
                        }
                    },
                }
                if code == i64::MAX {
                    return Err(FontError::CodeOutOfRange);
                }
                code = code + 1;
            },
        }
        i = i + 1;
    }
    Ok((slots, map))
}

/// One entry of a Type 1 program's encoding: a known glyph sets its code's slot.
pub open spec fn type1_step(
    glyphs: Map<Seq<char>, u16>,
    table: Seq<u16>,
    entry: Type1Entry,
) -> Result<Seq<u16>, FontError> {
    if !pdf_doc_decodable(entry.name@) {
        Err(FontError::BadName)
    } else if glyphs.contains_key(pdf_doc_chars(entry.name@)) {
        if entry.code < 256 {
            Ok(table.update(entry.code as int, glyphs[pdf_doc_chars(entry.name@)]))
        } else {
            Err(FontError::CodeOutOfRange)
        }
    } else {
        Ok(table)
    }
}

/// The encoding of a Type 1 program laid over a table, entry by entry.
pub open spec fn type1_fold(
    glyphs: Map<Seq<char>, u16>,
    table: Seq<u16>,
    entries: Seq<Type1Entry>,
) -> Result<Seq<u16>, FontError>
    decreases entries.len(),
{
    if entries.len() == 0 {
        Ok(table)
    } else {
        match type1_step(glyphs, table, entries[0]) {
            Ok(next) => type1_fold(glyphs, next, entries.skip(1)),
            Err(e) => Err(e),
        }
    }
}

/// Whether the names of a Type 1 encoding fit.
pub open spec fn type1_fits(entries: Seq<Type1Entry>) -> bool {
    forall|i: int| 0 <= i < entries.len() ==> fits(#[trigger] entries[i].name@)
}

/// Lays the encoding of a Type 1 program over PDFDocEncoding.
pub fn type1_table(glyphs: &GlyphNames, entries: &Vec<Type1Entry>) -> (out: Result<
    Vec<u16>,
    FontError,
>)
    requires
        type1_fits(entries@),
    ensures
        match type1_fold(glyphs@, PDF_DOC_ENCODING@, entries@) {
            Ok(t) => out matches Ok(table) && table@ == t && t.len() == 256,
            Err(e) => out == Err::<Vec<u16>, FontError>(e),
        },
{
    let encoding = PDF_DOC_ENCODING;
    let mut table: Vec<u16> = pdf_doc_table();
    let mut i: usize = 0;
    assert(entries@.skip(0) =~= entries@);
    while i < entries.len()
        invariant
            i <= entries.len(),
            table@.len() == 256,
            encoding == PDF_DOC_ENCODING,
            type1_fits(entries@),
            type1_fold(glyphs@, PDF_DOC_ENCODING@, entries@) == type1_fold(
                glyphs@,
                table@,
                entries@.skip(i as int),
            ),
        decreases entries.len() - i,
    {
        proof {
            assert(entries@.skip(i as int)[0] == entries@[i as int]);
            assert(entries@.skip(i as int).skip(1) =~= entries@.skip(i as int + 1));
        }
        let entry = &entries[i];
        let name = match decode_pdf_string(encoding.as_slice(), entry.name.as_slice()) {
            Some(name) => name,
            None => {
                proof {
                    if pdf_doc_decodable(entry.name@) {
                        lemma_pdf_doc_total(entry.name@);
                    }
                }
                return Err(FontError::BadName);
            },
        };
        proof {
            lemma_pdf_doc_total(entry.name@);
        }
        match glyphs.lookup(name.as_str()) {
            Some(unit) => {
                if entry.code >= 256 {
                    return Err(FontError::CodeOutOfRange);
                }
                table.set(entry.code as usize, unit);
            },
            None => {},
        }
        i = i + 1;
    }
    Ok(table)
}

/// An encoding table and a ToUnicode map, each as far as a font has one.
pub struct Encoded {
    pub table: Option<Seq<u16>>,
    pub text: Option<Map<u32, Seq<char>>>,
}

/// The table that an encoding dictionary starts from: its base encoding, or
/// PDFDocEncoding where it names none.
pub open spec fn base_table(tables: FontTables, base: Option<Vec<u8>>) -> Result<
    Seq<u16>,
    FontError,
> {
    match base {
        Some(name) => tables.unicode_table(name@),
        None => Ok(PDF_DOC_ENCODING@),
    }
}

/// The code points of WinAnsiEncoding.
pub open spec fn win_ansi_table(tables: FontTables) -> Result<Seq<u16>, FontError> {
    if all_named(tables.glyphs@, slot_names(tables.win_ansi@)) {
        Ok(code_points(tables.glyphs@, slot_names(tables.win_ansi@)))
    } else {
        Err(FontError::UnknownGlyph)
    }
}

/// What an encoding dictionary makes of a table and a ToUnicode map.
pub open spec fn dict_encoding(
    tables: FontTables,
    lenient: bool,
    base: Option<Vec<u8>>,
    differences: Option<Vec<DiffItem>>,
    text: Option<Map<u32, Seq<char>>>,
) -> Result<Encoded, FontError> {
    match base_table(tables, base) {
        Err(e) => Err(e),
        Ok(table) => match differences {
            None => Ok(Encoded { table: Some(table), text }),
            Some(items) => match diff_fold(
                tables.glyphs@,
                lenient,
                DiffState { code: 0, table, text },
                items@,
            ) {
                Ok(state) => Ok(Encoded { table: Some(state.table), text: state.text }),
                Err(e) => Err(e),
            },
        },
    }
}

/// The encoding table of a simple font, and its ToUnicode map after the
/// Differences have been read: a named encoding; a dictionary's base encoding with
/// its Differences; without an Encoding entry the embedded Type 1 program's own
/// encoding, WinAnsiEncoding for a TrueType font, and no table otherwise.
pub open spec fn simple_encoding(
    tables: FontTables,
    source: SimpleFontSource,
    lenient: bool,
    truetype: bool,
    text: Option<Map<u32, Seq<char>>>,
) -> Result<Encoded, FontError> {
    match source.encoding {
        EncodingSource::Name(name) => match tables.unicode_table(name@) {
            Ok(table) => Ok(Encoded { table: Some(table), text }),
            Err(e) => Err(e),
        },
        EncodingSource::Dict { base, differences } => dict_encoding(
            tables,
            lenient,
            base,
            differences,
            text,
        ),
        EncodingSource::Absent => match source.type1_encoding {
            Some(entries) => match type1_fold(tables.glyphs@, PDF_DOC_ENCODING@, entries@) {
                Ok(table) => Ok(Encoded { table: Some(table), text }),
                Err(e) => Err(e),
            },
            None => if truetype {
                match win_ansi_table(tables) {
                    Ok(table) => Ok(Encoded { table: Some(table), text }),
                    Err(e) => Err(e),
                }
            } else {
                Ok(Encoded { table: None, text })
            },
        },
        EncodingSource::Other => Err(FontError::BadEncoding),
    }
}

/// Whether the names of an Encoding entry fit.
pub open spec fn encoding_fits(encoding: EncodingSource) -> bool {
    match encoding {
        EncodingSource::Dict { base, differences } => match differences {
            Some(items) => differences_fit(items@),
            None => true,
        },
        _ => true,
    }
}

/// Whether the names of a Differences array are small enough.
fn differences_within_reach(items: &Vec<DiffItem>) -> (ok: bool)
    ensures
        ok == differences_fit(items@),
{
    let mut i: usize = 0;
    while i < items.len()
        invariant
            i <= items.len(),
            forall|j: int|
                0 <= j < i ==> (#[trigger] items@[j] matches DiffItem::Name(n) ==> fits(n@)),
        decreases items.len() - i,
    {
        match &items[i] {
            DiffItem::Name(n) => {
                if !within_reach(n.as_slice()) {
                    assert(items@[i as int] matches DiffItem::Name(m) && !fits(m@));
                    return false;
                }
            },
            _ => {},
        }
        i = i + 1;
    }
    true
}

/// Whether the names of a Type 1 encoding are small enough.
fn type1_within_reach(entries: &Vec<Type1Entry>) -> (ok: bool)
    ensures
        ok == type1_fits(entries@),
{
    let mut i: usize = 0;
    while i < entries.len()
        invariant
            i <= entries.len(),
            forall|j: int| 0 <= j < i ==> fits(#[trigger] entries@[j].name@),
        decreases entries.len() - i,
    {
        if !within_reach(entries[i].name.as_slice()) {
            assert(!fits(entries@[i as int].name@));
            return false;
        }
        i = i + 1;
    }
    true
}

/// Whether the names of an Encoding entry and of a Type 1 encoding are small
/// enough.
pub fn encoding_within_reach(
    encoding: &EncodingSource,
    type1: &Option<Vec<Type1Entry>>,
) -> (ok: bool)
    ensures
        ok == (encoding_fits(*encoding) && (type1 matches Some(entries) ==> type1_fits(entries@))),
{
    let names = match encoding {
        EncodingSource::Dict { base, differences } => match differences {
            Some(items) => differences_within_reach(items),
            None => true,
        },
        _ => true,
    };
    let programs = match type1 {
        Some(entries) => type1_within_reach(entries),
        None => true,
    };
    names && programs
}

/// A copy of PDFDocEncoding.
pub fn pdf_doc_table() -> (table: Vec<u16>)
    ensures
        table@ == PDF_DOC_ENCODING@,
{
    let encoding = PDF_DOC_ENCODING;
    let mut table: Vec<u16> = Vec::new();
    let mut k: usize = 0;
    while k < 256
        invariant
            k <= 256,
            encoding == PDF_DOC_ENCODING,
            table@ == PDF_DOC_ENCODING@.take(k as int),
        decreases 256 - k,
    {
        table.push(encoding[k]);
        assert(PDF_DOC_ENCODING@.take(k as int + 1) =~= PDF_DOC_ENCODING@.take(k as int).push(
            PDF_DOC_ENCODING@[k as int],
        ));
        k = k + 1;
    }
    assert(PDF_DOC_ENCODING@.take(256) =~= PDF_DOC_ENCODING@);
    table
}

/// Builds the encoding table of a simple font and reads its Differences into the
/// ToUnicode map.
pub fn build_encoding(
    tables: &FontTables,
    source: &SimpleFontSource,
    lenient: bool,
    truetype: bool,
    text: Option<HashMap<u32, String>>,
) -> (out: Result<(Option<Vec<u16>>, Option<HashMap<u32, String>>), FontError>)
    requires
        tables.wf(),
        encoding_fits(source.encoding),
        source.type1_encoding matches Some(entries) ==> type1_fits(entries@),
    ensures
        match simple_encoding(*tables, *source, lenient, truetype, option_text_map(text)) {
            Ok(encoded) => out matches Ok((t, m)) && option_seq(t) == encoded.table
                && option_text_map(m) == encoded.text,
            Err(e) => out == Err::<(Option<Vec<u16>>, Option<HashMap<u32, String>>), FontError>(e),
        },
        out matches Ok((Some(t), _)) ==> t@.len() == 256,
{
    match &source.encoding {
        EncodingSource::Name(name) => {
            match encoding_to_unicode_table(tables, name.as_slice()) {
                Ok(table) => Ok((Some(table), text)),
                Err(e) => Err(e),
            }
        },
        EncodingSource::Dict { base, differences } => {
            let table = match base {
                Some(name) => match encoding_to_unicode_table(tables, name.as_slice()) {
                    Ok(table) => table,
                    Err(e) => {
                        return Err(e);
                    },
                },
                None => pdf_doc_table(),
            };
            match differences {
                None => Ok((Some(table), text)),
                Some(items) => match apply_differences(&tables.glyphs, lenient, table, text, items) {
                    Ok((t, m)) => Ok((Some(t), m)),
                    Err(e) => Err(e),
                },
            }
        },
        EncodingSource::Absent => {
            match &source.type1_encoding {
                Some(entries) => match type1_table(&tables.glyphs, entries) {
                    Ok(table) => Ok((Some(table), text)),
                    Err(e) => Err(e),
                },
                None => {
                    if truetype {
                        match resolve_names(&tables.glyphs, &tables.win_ansi) {
                            Some(table) => Ok((Some(table), text)),
                            None => Err(FontError::UnknownGlyph),
                        }
                    } else {
                        Ok((None, text))
                    }
                },
            }
        },
        EncodingSource::Other => Err(FontError::BadEncoding),
    }
}

/// The contents of an optional table.
pub open spec fn option_seq(table: Option<Vec<u16>>) -> Option<Seq<u16>> {
    match table {
        Some(t) => Some(t@),
        None => None,
    }
}

} // verus!
