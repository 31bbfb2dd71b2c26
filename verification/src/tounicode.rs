use std::collections::HashMap;
use vstd::prelude::*;
use crate::encoding::{
    be_units, decode_pdf_string, decode_utf16be, fits, is_surrogate, pdf_doc_chars,
    pdf_doc_decodable, utf16be_chars, within_reach, PDF_DOC_ENCODING,
};
use crate::fontdata::{text_map, CmapEntry, ToUnicodeSource};
use crate::tables::FontError;
use crate::text::str_eq;

verus! {

/// A mapping to a single surrogate: it is left out of the map.
pub open spec fn lone_surrogate(text: Seq<u8>) -> bool {
    text.len() == 2 && is_surrogate(be_units(text)[0])
}

/// A mapping that can be read: a lone surrogate, or well-formed UTF-16BE.
pub open spec fn entry_readable(text: Seq<u8>) -> bool {
    lone_surrogate(text) || utf16be_chars(text) is Some
}

/// Whether every mapping of a CMap can be read.
pub open spec fn cmap_readable(entries: Seq<CmapEntry>) -> bool {
    forall|i: int| 0 <= i < entries.len() ==> entry_readable(#[trigger] entries[i].text@)
}

/// The text of each code of a CMap: that of the last mapping of the code which is
/// not a lone surrogate.
pub open spec fn cmap_text(entries: Seq<CmapEntry>) -> Map<u32, Seq<char>>
    decreases entries.len(),
{
    if entries.len() == 0 {
        Map::empty()
    } else {
        let before = cmap_text(entries.drop_last());
        let entry = entries.last();
        if lone_surrogate(entry.text@) {
            before
        } else {
            before.insert(entry.code, utf16be_chars(entry.text@).unwrap())
        }
    }
}

/// Whether a ToUnicode entry names the identity CMap.
pub open spec fn names_identity(name: Seq<u8>) -> bool {
    pdf_doc_decodable(name) && pdf_doc_chars(name) == "Identity-H"@
}

/// The text of each code that a ToUnicode entry gives, `None` where the font has
/// no map.
pub open spec fn to_unicode_text(source: ToUnicodeSource) -> Result<
    Option<Map<u32, Seq<char>>>,
    FontError,
> {
    match source {
        ToUnicodeSource::Absent => Ok(None),
        ToUnicodeSource::Cmap(entries) => if cmap_readable(entries@) {
            Ok(Some(cmap_text(entries@)))
        } else {
            Err(FontError::BadToUnicode)
        },
        ToUnicodeSource::Name(name) => if names_identity(name@) {
            Ok(None)
        } else {
            Err(FontError::UnsupportedToUnicode)
        },
        ToUnicodeSource::Other => Err(FontError::UnsupportedToUnicode),
    }
}

/// Whether the byte strings of a ToUnicode entry fit.
pub open spec fn to_unicode_fits(source: ToUnicodeSource) -> bool {
    match source {
        ToUnicodeSource::Cmap(entries) => forall|i: int|
            0 <= i < entries@.len() ==> fits(#[trigger] entries@[i].text@),
        ToUnicodeSource::Name(name) => fits(name@),
        _ => true,
    }
}

/// Whether the texts of a CMap are small enough.
fn cmap_within_reach(entries: &Vec<CmapEntry>) -> (ok: bool)
    ensures
        ok == (forall|i: int| 0 <= i < entries@.len() ==> fits(#[trigger] entries@[i].text@)),
{
    let mut i: usize = 0;
    while i < entries.len()
        invariant
            i <= entries.len(),
            forall|j: int| 0 <= j < i ==> fits(#[trigger] entries@[j].text@),
        decreases entries.len() - i,
    {
        if !within_reach(entries[i].text.as_slice()) {
            assert(!fits(entries@[i as int].text@));
            return false;
        }
        i = i + 1;
    }
    true
}

/// Whether the byte strings of a ToUnicode entry are small enough.
pub fn to_unicode_within_reach(source: &ToUnicodeSource) -> (ok: bool)
    ensures
        ok == to_unicode_fits(*source),
{
    match source {
        ToUnicodeSource::Cmap(entries) => cmap_within_reach(entries),
        ToUnicodeSource::Name(name) => within_reach(name.as_slice()),
        _ => true,
    }
}

/// Reads the mappings of a ToUnicode CMap into a map from code to text.
pub fn unicode_map_from_cmap(entries: &Vec<CmapEntry>) -> (map: Option<HashMap<u32, String>>)
    requires
        forall|i: int| 0 <= i < entries@.len() ==> fits(#[trigger] entries@[i].text@),
    ensures
        map is Some <==> cmap_readable(entries@),
        map matches Some(m) ==> text_map(m@) == cmap_text(entries@),
{
    let mut unicode: HashMap<u32, String> = HashMap::new();
    let mut i: usize = 0;
    assert(text_map(unicode@) =~= cmap_text(entries@.take(0)));
    while i < entries.len()
        invariant
            i <= entries.len(),
            forall|j: int| 0 <= j < entries@.len() ==> fits(#[trigger] entries@[j].text@),
            forall|j: int| 0 <= j < i ==> entry_readable(#[trigger] entries@[j].text@),
            text_map(unicode@) == cmap_text(entries@.take(i as int)),
        decreases entries.len() - i,
    {
        let entry = &entries[i];
        let text = entry.text.as_slice();
        proof {
            assert(entries@.take(i as int + 1).drop_last() == entries@.take(i as int));
            assert(entries@.take(i as int + 1).last() == entries@[i as int]);
        }
        let skipped = text.len() == 2 && 0xd8 <= text[0] && text[0] <= 0xdf;
        assert(skipped == lone_surrogate(text@)) by {
            if text@.len() == 2 {
                assert(be_units(text@)[0] == (text@[0] * 256 + text@[1]) as u16);
            }
        }
        if !skipped {
            assert(fits(entries@[i as int].text@));
            match decode_utf16be(text) {
                Some(s) => {
                    let ghost before = unicode@;
                    unicode.insert(entry.code, s);
                    assert(text_map(unicode@) =~= text_map(before).insert(entry.code, s@));
                },
                None => {
                    return None;
                },
            }
        }
        i = i + 1;
    }
    assert(entries@.take(entries@.len() as int) == entries@);
    Some(unicode)
}

/// Reads the ToUnicode entry of a font.
pub fn get_unicode_map(source: &ToUnicodeSource) -> (map: Result<
    Option<HashMap<u32, String>>,
    FontError,
>)
    requires
        to_unicode_fits(*source),
    ensures
        map matches Ok(Some(m)) ==> to_unicode_text(*source) == Ok::<
            Option<Map<u32, Seq<char>>>,
            FontError,
        >(Some(text_map(m@))),
        map matches Ok(None) ==> to_unicode_text(*source) == Ok::<
            Option<Map<u32, Seq<char>>>,
            FontError,
        >(None),
        map matches Err(e) ==> to_unicode_text(*source) == Err::<
            Option<Map<u32, Seq<char>>>,
            FontError,
        >(e),
{
    match source {
        ToUnicodeSource::Absent => Ok(None),
        ToUnicodeSource::Cmap(entries) => {
            match unicode_map_from_cmap(entries) {
                Some(m) => Ok(Some(m)),
                None => Err(FontError::BadToUnicode),
            }
        },
        ToUnicodeSource::Name(name) => {
            let table = PDF_DOC_ENCODING;
            match decode_pdf_string(table.as_slice(), name.as_slice()) {
                Some(text) => {
                    proof {
                        crate::encoding::lemma_pdf_doc_total(name@);
                    }
                    if str_eq(text.as_str(), "Identity-H") {
                        Ok(None)
                    } else {
                        Err(FontError::UnsupportedToUnicode)
                    }
                },
                None => {
                    proof {
                        if pdf_doc_decodable(name@) {
                            crate::encoding::lemma_pdf_doc_total(name@);
                        }
                    }
                    Err(FontError::UnsupportedToUnicode)
                },
            }
        },
        ToUnicodeSource::Other => Err(FontError::UnsupportedToUnicode),
    }
}

} // verus!
