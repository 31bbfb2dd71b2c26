use std::collections::HashMap;
use vstd::prelude::*;
use crate::cid::{
    cid_next, entries_map, identity_mapping, next_cid, parse_widths, w_entries, widths_map,
    ByteMapping, CidRange, CodeRange, WidthEntry, WidthItem,
};
use crate::encoding::{
    decode_pdf_string, fits, lemma_pdf_doc_total, pdf_doc_chars, pdf_doc_decodable, scalar_text,
    PDF_DOC_ENCODING,
};
use crate::fallback::{
    embedded_text, find_width_match, get_fallback_unicode_from_font, match_width, option_bytes,
    width_text,
};
use crate::fontdata::{option_text_map, text_map, Number, ToUnicodeSource};
use crate::tables::FontError;
use crate::text::{str_eq, str_has_char};
use crate::tounicode::{get_unicode_map, to_unicode_fits, to_unicode_text};
use crate::truetype::{
    holds_program_advances, holds_program_maps, read_advances, read_cmap_subtables, CmapSubtable,
    FaceAdvances,
};

verus! {

/// The Encoding entry of a composite font.
#[derive(Debug, Clone)]
pub enum CidEncodingSource {
    /// The name of a predefined CMap.
    Name(Vec<u8>),
    /// The ranges of an embedded CMap.
    Cmap(ByteMapping),
    /// An entry of another type.
    Other,
}

/// What the dictionaries of a composite font say, as far as decoding needs it.
#[derive(Debug, Clone)]
pub struct CidFontSource {
    pub base_font: Vec<u8>,
    pub encoding: CidEncodingSource,
    pub to_unicode: ToUnicodeSource,
    /// The CIDToGIDMap stream of the descendant font, where it has one.
    pub cid_to_gid: Option<Vec<u8>>,
    /// The DW entry of the descendant font.
    pub default_width: Option<i64>,
    /// The W array of the descendant font.
    pub w: Option<Vec<WidthItem>>,
}

/// What a composite font decodes with.
pub struct CidFontView {
    pub base_name: Seq<char>,
    pub codespace: Seq<CodeRange>,
    pub cid_ranges: Seq<CidRange>,
    /// The text that the ToUnicode map gives to CIDs.
    pub to_unicode: Option<Map<u32, Seq<char>>>,
    /// The text that the embedded font program gives to CIDs.
    pub embedded: Option<Map<u32, Seq<char>>>,
    /// The text that a look-alike font gives to CIDs by their widths.
    pub by_width: Option<Map<u32, Seq<char>>>,
    pub widths: Map<u32, Number>,
    pub default_width: Number,
}

/// The ranges of the Encoding entry of a composite font: those of Identity-H and
/// Identity-V, or those of an embedded CMap.
pub open spec fn cid_encoding(source: CidEncodingSource) -> Result<
    (Seq<CodeRange>, Seq<CidRange>),
    FontError,
> {
    match source {
        CidEncodingSource::Name(name) => if !pdf_doc_decodable(name@) {
            Err(FontError::BadName)
        } else if pdf_doc_chars(name@) == "Identity-H"@ || pdf_doc_chars(name@) == "Identity-V"@ {
            Ok(
                (
                    seq![CodeRange { width: 2, start: 0, end: 0xffff }],
                    seq![CidRange { src_code_lo: 0, src_code_hi: 0xffff, dst_cid_lo: 0 }],
                ),
            )
        } else {
            Err(FontError::UnknownEncoding)
        },
        CidEncodingSource::Cmap(mapping) => Ok((mapping.codespace@, mapping.cid@)),
        CidEncodingSource::Other => Err(FontError::BadEncoding),
    }
}

/// The widths that the W array of a composite font gives.
pub open spec fn cid_widths(w: Option<Vec<WidthItem>>) -> Result<Map<u32, Number>, FontError> {
    match w {
        None => Ok(Map::empty()),
        Some(items) => match w_entries(items@, 0) {
            Ok(entries) => Ok(entries_map(entries)),
            Err(e) => Err(e),
        },
    }
}

/// A map, or none where it has no entry.
pub open spec fn if_any(m: Map<u32, Seq<char>>) -> Option<Map<u32, Seq<char>>> {
    if exists|k: u32| m.contains_key(k) {
        Some(m)
    } else {
        None
    }
}

/// The composite font that its dictionaries describe, given the character maps
/// of its embedded font program and the advances of a look-alike font, as far as
/// there are any.
pub open spec fn cid_font_model(
    source: CidFontSource,
    embedded: Option<Vec<CmapSubtable>>,
    system: Option<FaceAdvances>,
) -> Result<CidFontView, FontError> {
    if !pdf_doc_decodable(source.base_font@) {
        Err(FontError::BadName)
    } else {
        match cid_encoding(source.encoding) {
            Err(e) => Err(e),
            Ok(ranges) => match to_unicode_text(source.to_unicode) {
                Err(e) => Err(e),
                Ok(text) => match cid_widths(source.w) {
                    Err(e) => Err(e),
                    Ok(widths) => Ok(
                        CidFontView {
                            base_name: pdf_doc_chars(source.base_font@),
                            codespace: ranges.0,
                            cid_ranges: ranges.1,
                            to_unicode: text,
                            embedded: match embedded {
                                Some(subtables) => embedded_text(
                                    option_bytes(source.cid_to_gid),
                                    subtables@,
                                ),
                                None => None,
                            },
                            by_width: match system {
                                Some(face) => if_any(width_text(face, widths)),
                                None => None,
                            },
                            widths,
                            default_width: Number::Integer(
                                match source.default_width {
                                    Some(w) => w,
                                    None => 1000,
                                },
                            ),
                        },
                    ),
                },
            },
        }
    }
}

/// Whether the byte strings of a composite font's dictionaries fit.
pub open spec fn cid_source_fits(source: CidFontSource) -> bool {
    &&& fits(source.base_font@)
    &&& to_unicode_fits(source.to_unicode)
    &&& source.encoding matches CidEncodingSource::Name(name) ==> fits(name@)
}

/// A text that a ToUnicode map can stand for: not empty, and without U+0000.
pub open spec fn is_usable(text: Seq<char>) -> bool {
    text.len() > 0 && !text.contains('\0')
}

/// The text of a CID: what the ToUnicode map gives it, if that is usable; else
/// what the embedded font program gives it; else what the look-alike font gives
/// it; else nothing.
pub open spec fn cid_char_text(font: CidFontView, code: u32) -> Seq<char> {
    if font.to_unicode is Some && font.to_unicode.unwrap().contains_key(code) && is_usable(
        font.to_unicode.unwrap()[code],
    ) {
        font.to_unicode.unwrap()[code]
    } else if font.embedded is Some && font.embedded.unwrap().contains_key(code) {
        font.embedded.unwrap()[code]
    } else if font.by_width is Some && font.by_width.unwrap().contains_key(code) {
        font.by_width.unwrap()[code]
    } else {
        Seq::<char>::empty()
    }
}

/// A CID whose text in the ToUnicode map holds U+0000 decodes as it would if the
/// map had no entry for it.
pub proof fn law_nul_entry_counts_for_none(font: CidFontView, code: u32)
    requires
        font.to_unicode is Some,
        font.to_unicode.unwrap().contains_key(code),
        font.to_unicode.unwrap()[code].contains('\0'),
    ensures
        cid_char_text(font, code) == cid_char_text(
            CidFontView {
                base_name: font.base_name,
                codespace: font.codespace,
                cid_ranges: font.cid_ranges,
                to_unicode: Some(font.to_unicode.unwrap().remove(code)),
                embedded: font.embedded,
                by_width: font.by_width,
                widths: font.widths,
                default_width: font.default_width,
            },
            code,
        ),
{
}

/// Whether one of the first `n` widths of a list is the width `w` of a CID.
pub open spec fn seen(entries: Seq<WidthEntry>, n: int, cid: u32, w: Number) -> bool {
    exists|k: int|
        0 <= k < n && 0 <= k < entries.len() && #[trigger] entries[k].cid == cid
            && entries[k].width == w
}

/// Every CID of the map has its width somewhere in the list, and every CID of the
/// list is in the map.
proof fn lemma_entries_map(entries: Seq<WidthEntry>)
    ensures
        forall|cid: u32|
            #[trigger] entries_map(entries).contains_key(cid) ==> seen(
                entries,
                entries.len() as int,
                cid,
                entries_map(entries)[cid],
            ),
        forall|k: int|
            0 <= k < entries.len() ==> entries_map(entries).contains_key(
                #[trigger] entries[k].cid,
            ),
    decreases entries.len(),
{
    if entries.len() > 0 {
        let before = entries.drop_last();
        lemma_entries_map(before);
        assert forall|cid: u32| #[trigger]
            entries_map(entries).contains_key(cid) implies seen(
            entries,
            entries.len() as int,
            cid,
            entries_map(entries)[cid],
        ) by {
            if cid == entries.last().cid {
                assert(entries[entries.len() - 1].cid == cid);
            } else {
                assert(entries_map(before).contains_key(cid));
                let k = choose|k: int|
                    0 <= k < before.len() && #[trigger] before[k].cid == cid && before[k].width
                        == entries_map(before)[cid];
                assert(entries[k].cid == cid);
            }
        }
        assert forall|k: int| 0 <= k < entries.len() implies entries_map(entries).contains_key(
            #[trigger] entries[k].cid,
        ) by {
            if k < entries.len() - 1 {
                assert(before[k].cid == entries[k].cid);
            }
        }
    }
}

/// Matches the widths of a composite font to the characters of a look-alike font.
pub fn get_width_fallback_from_system_font(
    face: &FaceAdvances,
    entries: &Vec<WidthEntry>,
    widths: &HashMap<u32, Number>,
) -> (map: Option<HashMap<u32, String>>)
    requires
        widths@ == entries_map(entries@),
    ensures
        option_text_map(map) == if_any(width_text(*face, widths@)),
{
    let mut map: HashMap<u32, String> = HashMap::new();
    let mut i: usize = 0;
    while i < entries.len()
        invariant
            i <= entries.len(),
            widths@ == entries_map(entries@),
            forall|cid: u32|
                #[trigger] map@.contains_key(cid) <==> widths@.contains_key(cid) && seen(
                    entries@,
                    i as int,
                    cid,
                    widths@[cid],
                ) && match_width(*face, widths@[cid].whole()) is Some,
            forall|cid: u32|
                #[trigger] map@.contains_key(cid) ==> map@[cid]@ == seq![
                    match_width(*face, widths@[cid].whole()).unwrap() as char,
                ],
        decreases entries.len() - i,
    {
        let entry = entries[i];
        let ghost before = map@;
        proof {
            lemma_entries_map(entries@);
        }
        let current = match widths.get(&entry.cid) {
            Some(w) => *w == entry.width,
            None => false,
        };
        if current {
            match find_width_match(face, entry.width.to_whole()) {
                Some(c) => {
                    match scalar_text(c) {
                        Some(text) => {
                            map.insert(entry.cid, text);
                        },
                        None => {},
                    }
                },
                None => {},
            }
        }
        proof {
            assert forall|cid: u32| #[trigger]
                map@.contains_key(cid) <==> widths@.contains_key(cid) && seen(
                    entries@,
                    i as int + 1,
                    cid,
                    widths@[cid],
                ) && match_width(*face, widths@[cid].whole()) is Some by {
                if cid == entry.cid {
                    if current {
                        assert(entries@[i as int].cid == cid);
                    } else {
                        if seen(entries@, i as int + 1, cid, widths@[cid]) {
                            let k = choose|k: int|
                                0 <= k < i + 1 && 0 <= k < entries@.len()
                                    && #[trigger] entries@[k].cid == cid && entries@[k].width
                                    == widths@[cid];
                            assert(k != i);
                            assert(seen(entries@, i as int, cid, widths@[cid]));
                        }
                    }
                } else {
                    if seen(entries@, i as int + 1, cid, widths@[cid]) {
                        let k = choose|k: int|
                            0 <= k < i + 1 && 0 <= k < entries@.len()
                                && #[trigger] entries@[k].cid == cid && entries@[k].width
                                == widths@[cid];
                        assert(seen(entries@, i as int, cid, widths@[cid]));
                    }
                    if seen(entries@, i as int, cid, widths@[cid]) {
                        let k = choose|k: int|
                            0 <= k < i && 0 <= k < entries@.len()
                                && #[trigger] entries@[k].cid == cid && entries@[k].width
                                == widths@[cid];
                        assert(seen(entries@, i as int + 1, cid, widths@[cid]));
                    }
                }
            }
        }
        i = i + 1;
    }
    proof {
        lemma_entries_map(entries@);
        assert(text_map(map@) =~= width_text(*face, widths@));
    }
    if map.len() > 0 {
        proof {
            assert(map@.dom().finite());
            vstd::set_lib::lemma_set_empty_equivalency_len(map@.dom());
            let k = map@.dom().choose();
            assert(text_map(map@).contains_key(k));
        }
        Some(map)
    } else {
        proof {
            assert(map@.dom().finite());
            vstd::set_lib::lemma_set_empty_equivalency_len(map@.dom());
            assert forall|k: u32| !text_map(map@).contains_key(k) by {
                assert(!map@.dom().contains(k));
            }
        }
        None
    }
}

/// A composite font: multi-byte codes looked up as CIDs.
pub struct PdfCIDFont {
    base_name: String,
    encoding: ByteMapping,
    to_unicode: Option<HashMap<u32, String>>,
    fallback_unicode: Option<HashMap<u32, String>>,
    width_fallback: Option<HashMap<u32, String>>,
    widths: HashMap<u32, Number>,
    default_width: Number,
}

impl View for PdfCIDFont {
    type V = CidFontView;

    closed spec fn view(&self) -> CidFontView {
        CidFontView {
            base_name: self.base_name@,
            codespace: self.encoding.codespace@,
            cid_ranges: self.encoding.cid@,
            to_unicode: option_text_map(self.to_unicode),
            embedded: option_text_map(self.fallback_unicode),
            by_width: option_text_map(self.width_fallback),
            widths: self.widths@,
            default_width: self.default_width,
        }
    }
}

/// Whether a list of character maps is what an embedded font program holds, if
/// there is such a program: `None` where there is none or it cannot be read.
pub open spec fn maps_read(program: Option<Vec<u8>>, embedded: Option<Vec<CmapSubtable>>) -> bool {
    match program {
        Some(data) => holds_program_maps(data@, embedded),
        None => embedded is None,
    }
}

/// Whether a record of advances is what a look-alike font program holds, if
/// there is such a program: `None` where there is none or it cannot be read.
pub open spec fn advances_read(program: Option<Vec<u8>>, system: Option<FaceAdvances>) -> bool {
    match program {
        Some(data) => holds_program_advances(data@, system),
        None => system is None,
    }
}

impl PdfCIDFont {
    /// Builds the font that its dictionaries describe, with the character maps of
    /// its embedded font program and the advances of a look-alike font, as far as
    /// there are any.
    pub fn new(
        source: CidFontSource,
        embedded: &Option<Vec<CmapSubtable>>,
        system: &Option<FaceAdvances>,
    ) -> (out: Result<PdfCIDFont, FontError>)
        requires
            cid_source_fits(source),
        ensures
            match cid_font_model(source, *embedded, *system) {
                Ok(view) => out matches Ok(font) && font@ == view,
                Err(e) => out matches Err(error) && error == e,
            },
    {
        let table = PDF_DOC_ENCODING;
        let base_name = match decode_pdf_string(table.as_slice(), source.base_font.as_slice()) {
            Some(name) => name,
            None => {
                proof {
                    if pdf_doc_decodable(source.base_font@) {
                        lemma_pdf_doc_total(source.base_font@);
                    }
                }
                return Err(FontError::BadName);
            },
        };
        proof {
            lemma_pdf_doc_total(source.base_font@);
        }
        let CidFontSource { base_font, encoding, to_unicode, cid_to_gid, default_width, w } =
            source;
        let encoding = match encoding {
            CidEncodingSource::Name(name) => {
                match decode_pdf_string(table.as_slice(), name.as_slice()) {
                    Some(text) => {
                        proof {
                            lemma_pdf_doc_total(name@);
                        }
                        if str_eq(text.as_str(), "Identity-H") || str_eq(
                            text.as_str(),
                            "Identity-V",
                        ) {
                            identity_mapping()
                        } else {
                            return Err(FontError::UnknownEncoding);
                        }
                    },
                    None => {
                        proof {
                            if pdf_doc_decodable(name@) {
                                lemma_pdf_doc_total(name@);
                            }
                        }
                        return Err(FontError::BadName);
                    },
                }
            },
            CidEncodingSource::Cmap(mapping) => mapping,
            CidEncodingSource::Other => {
                return Err(FontError::BadEncoding);
            },
        };
        let unicode_map = match get_unicode_map(&to_unicode) {
            Ok(m) => m,
            Err(e) => {
                return Err(e);
            },
        };
        let fallback_unicode = match embedded {
            Some(subtables) => get_fallback_unicode_from_font(&cid_to_gid, subtables),
            None => None,
        };
        let entries = match &w {
            Some(items) => match parse_widths(items) {
                Ok(entries) => entries,
                Err(e) => {
                    return Err(e);
                },
            },
            None => Vec::new(),
        };
        let widths = widths_map(&entries);
        let by_width = match system {
            Some(face) => get_width_fallback_from_system_font(face, &entries, &widths),
            None => None,
        };
        let default_width = Number::Integer(
            match default_width {
                Some(w) => w,
                None => 1000,
            },
        );
        Ok(
            PdfCIDFont {
                base_name,
                encoding,
                to_unicode: unicode_map,
                fallback_unicode,
                width_fallback: by_width,
                widths,
                default_width,
            },
        )
    }

    /// Builds the font that its dictionaries describe, reading the character maps
    /// off its embedded font program and the advances off a look-alike font, as far
    /// as the two are there and can be read: the font is the one that `new` builds
    /// from what the two programs hold.
    pub fn load(
        source: CidFontSource,
        program: &Option<Vec<u8>>,
        system_font: &Option<Vec<u8>>,
    ) -> (out: Result<PdfCIDFont, FontError>)
        requires
            cid_source_fits(source),
        ensures
            match cid_font_model(source, None, None) {
                Ok(_) => out matches Ok(font) && exists|
                    embedded: Option<Vec<CmapSubtable>>,
                    system: Option<FaceAdvances>,
                |
                    #![trigger cid_font_model(source, embedded, system)]
                    maps_read(*program, embedded) && advances_read(*system_font, system)
                        && cid_font_model(source, embedded, system) == Ok::<
                        CidFontView,
                        FontError,
                    >(font@),
                Err(e) => out matches Err(error) && error == e,
            },
    {
        let embedded = match program {
            Some(data) => read_cmap_subtables(data.as_slice()),
            None => None,
        };
        let system = match system_font {
            Some(data) => read_advances(data.as_slice()),
            None => None,
        };
        let out = PdfCIDFont::new(source, &embedded, &system);
        proof {
            if out is Ok {
                assert(cid_font_model(source, embedded, system) == Ok::<CidFontView, FontError>(
                    out.unwrap()@,
                ));
            }
        }
        out
    }

    /// The advance width of a CID, in thousandths of the font size.
    pub fn get_width(&self, code: u32) -> (width: Number)
        ensures
            width == (if self@.widths.contains_key(code) {
                self@.widths[code]
            } else {
                self@.default_width
            }),
    {
        match self.widths.get(&code) {
            Some(w) => *w,
            None => self.default_width,
        }
    }

    /// The CID that starts at position `at` of a shown string, and the number of
    /// bytes of its code.
    pub fn next_char(&self, s: &[u8], at: usize) -> (next: Option<(u32, u8)>)
        ensures
            next == cid_next(self.mapping(), s@, at as int),
            next matches Some((_, width)) ==> 1 <= width <= 4 && at + width <= s@.len(),
    {
        next_cid(&self.encoding, s, at)
    }

    /// The ranges that the font reads codes with.
    pub closed spec fn mapping(&self) -> ByteMapping {
        self.encoding
    }

    /// The text of a CID.
    pub fn decode_char(&self, code: u32) -> (text: String)
        ensures
            text@ == cid_char_text(self@, code),
    {
        match &self.to_unicode {
            Some(m) => match m.get(&code) {
                Some(s) => {
                    if !s.as_str().is_empty() && !str_has_char(s.as_str(), '\0') {
                        return s.clone();
                    }
                },
                None => {},
            },
            None => {},
        }
        match &self.fallback_unicode {
            Some(m) => match m.get(&code) {
                Some(s) => {
                    return s.clone();
                },
                None => {},
            },
            None => {},
        }
        match &self.width_fallback {
            Some(m) => match m.get(&code) {
                Some(s) => {
                    return s.clone();
                },
                None => {},
            },
            None => {},
        }
        String::new()
    }

    /// The name of the font.
    pub fn get_font_name(&self) -> (name: &str)
        ensures
            name@ == self@.base_name,
    {
        self.base_name.as_str()
    }
}

} // verus!
