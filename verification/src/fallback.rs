use std::collections::HashMap;
use vstd::prelude::*;
use crate::encoding::{is_scalar, scalar_text};
use crate::fontdata::{option_text_map, text_map, Number};
use crate::truetype::{Advance, CmapSubtable, FaceAdvances, GlyphMapping, Platform};

verus! {

/// Whether a character map of a font program speaks Unicode: one for the Unicode
/// platform, or one for Windows with encoding 1 or 10.
pub open spec fn is_unicode_map(platform: Platform, encoding_id: u16) -> bool {
    platform == Platform::Unicode || (platform == Platform::Windows && (encoding_id == 1
        || encoding_id == 10))
}

/// Whether a character map of a font program speaks Unicode.
pub fn speaks_unicode(platform: Platform, encoding_id: u16) -> (unicode: bool)
    ensures
        unicode == is_unicode_map(platform, encoding_id),
{
    match platform {
        Platform::Unicode => true,
        Platform::Windows => encoding_id == 1 || encoding_id == 10,
        _ => false,
    }
}

/// The character of each glyph of a character map: that of the last code point
/// mapped to the glyph which is a character.
pub open spec fn glyph_text(mappings: Seq<GlyphMapping>) -> Map<u32, Seq<char>>
    decreases mappings.len(),
{
    if mappings.len() == 0 {
        Map::empty()
    } else {
        let before = glyph_text(mappings.drop_last());
        let mapping = mappings.last();
        if is_scalar(mapping.codepoint) {
            before.insert(mapping.glyph as u32, seq![mapping.codepoint as char])
        } else {
            before
        }
    }
}

/// Reads the character of each glyph off a character map.
pub fn glyph_characters(mappings: &Vec<GlyphMapping>) -> (map: HashMap<u32, String>)
    ensures
        text_map(map@) == glyph_text(mappings@),
{
    let mut map: HashMap<u32, String> = HashMap::new();
    let mut i: usize = 0;
    assert(mappings@.take(0) =~= Seq::<GlyphMapping>::empty());
    assert(text_map(map@) =~= glyph_text(mappings@.take(0)));
    while i < mappings.len()
        invariant
            i <= mappings.len(),
            text_map(map@) == glyph_text(mappings@.take(i as int)),
        decreases mappings.len() - i,
    {
        proof {
            assert(mappings@.take(i as int + 1).drop_last() =~= mappings@.take(i as int));
            assert(mappings@.take(i as int + 1).last() == mappings@[i as int]);
        }
        match scalar_text(mappings[i].codepoint) {
            Some(text) => {
                let ghost before = map@;
                map.insert(mappings[i].glyph as u32, text);
                assert(text_map(map@) =~= text_map(before).insert(
                    mappings@[i as int].glyph as u32,
                    seq![mappings@[i as int].codepoint as char],
                ));
            },
            None => {},
        }
        i = i + 1;
    }
    assert(mappings@.take(mappings@.len() as int) =~= mappings@);
    map
}

/// The glyph that a CIDToGIDMap stream gives a CID: its entry of two bytes, most
/// significant first.
pub open spec fn gid_of(data: Seq<u8>, cid: u32) -> int {
    data[2 * cid] * 256 + data[2 * cid + 1]
}

/// Whether a CIDToGIDMap stream gives a CID a glyph other than glyph 0.
pub open spec fn has_gid(data: Seq<u8>, cid: u32) -> bool {
    2 * cid + 1 < data.len() && gid_of(data, cid) != 0
}

/// The text of each CID, given that of each glyph: through the CIDToGIDMap stream
/// where the font has one, CID for glyph where it has none.
pub open spec fn cid_text(cid_to_gid: Option<Seq<u8>>, glyphs: Map<u32, Seq<char>>) -> Map<
    u32,
    Seq<char>,
> {
    match cid_to_gid {
        None => glyphs,
        Some(data) => Map::new(
            |cid: u32| has_gid(data, cid) && glyphs.contains_key(gid_of(data, cid) as u32),
            |cid: u32| glyphs[gid_of(data, cid) as u32],
        ),
    }
}

/// Carries the text of glyphs over to the CIDs of a CIDToGIDMap stream.
pub fn map_cids(data: &[u8], glyphs: &HashMap<u32, String>) -> (map: HashMap<u32, String>)
    ensures
        text_map(map@) == cid_text(Some(data@), text_map(glyphs@)),
{
    let mut map: HashMap<u32, String> = HashMap::new();
    let len = data.len();
    let n = len / 2;
    let mut cid: usize = 0;
    while cid < n && cid <= 0xFFFF_FFFF
        invariant
            len == data@.len(),
            n == len / 2,
            cid <= n,
            cid <= 0x1_0000_0000,
            forall|k: u32|
                #[trigger] map@.contains_key(k) <==> k < cid && has_gid(data@, k)
                    && glyphs@.contains_key(gid_of(data@, k) as u32),
            forall|k: u32|
                #[trigger] map@.contains_key(k) ==> map@[k]@ == glyphs@[gid_of(data@, k) as u32]@,
        decreases n - cid,
    {
        let gid: u32 = (data[2 * cid] as u32) * 256 + (data[2 * cid + 1] as u32);
        assert(gid == gid_of(data@, cid as u32));
        let ghost before = map@;
        if gid != 0 {
            match glyphs.get(&gid) {
                Some(text) => {
                    map.insert(cid as u32, text.clone());
                },
                None => {},
            }
        }
        proof {
            assert forall|k: u32|
                #[trigger] map@.contains_key(k) <==> k < cid + 1 && has_gid(data@, k)
                    && glyphs@.contains_key(gid_of(data@, k) as u32) by {
                if k != cid {
                    assert(map@.contains_key(k) == before.contains_key(k));
                }
            }
        }
        cid = cid + 1;
    }
    assert(text_map(map@) =~= cid_text(Some(data@), text_map(glyphs@)));
    map
}

/// The bytes of an optional stream.
pub open spec fn option_bytes(data: Option<Vec<u8>>) -> Option<Seq<u8>> {
    match data {
        Some(d) => Some(d@),
        None => None,
    }
}

/// The text that an embedded font program gives to CIDs: that of its first
/// character map which speaks Unicode and gives any CID a text.
pub open spec fn embedded_text(cid_to_gid: Option<Seq<u8>>, subtables: Seq<CmapSubtable>) -> Option<
    Map<u32, Seq<char>>,
>
    decreases subtables.len(),
{
    if subtables.len() == 0 {
        None
    } else {
        let first = subtables[0];
        let text = cid_text(cid_to_gid, glyph_text(first.mappings@));
        if is_unicode_map(first.platform, first.encoding_id) && exists|cid: u32|
            text.contains_key(cid) {
            Some(text)
        } else {
            embedded_text(cid_to_gid, subtables.skip(1))
        }
    }
}

/// Builds the map from CID to text that an embedded font program's character maps
/// give, through the CIDToGIDMap stream where the font has one.
pub fn get_fallback_unicode_from_font(
    cid_to_gid: &Option<Vec<u8>>,
    subtables: &Vec<CmapSubtable>,
) -> (map: Option<HashMap<u32, String>>)
    ensures
        option_text_map(map) == embedded_text(option_bytes(*cid_to_gid), subtables@),
{
    let mut i: usize = 0;
    assert(subtables@.skip(0) =~= subtables@);
    while i < subtables.len()
        invariant
            i <= subtables.len(),
            embedded_text(option_bytes(*cid_to_gid), subtables@) == embedded_text(
                option_bytes(*cid_to_gid),
                subtables@.skip(i as int),
            ),
        decreases subtables.len() - i,
    {
        proof {
            assert(subtables@.skip(i as int)[0] == subtables@[i as int]);
            assert(subtables@.skip(i as int).skip(1) =~= subtables@.skip(i as int + 1));
        }
        let subtable = &subtables[i];
        if speaks_unicode(subtable.platform, subtable.encoding_id) {
            let glyphs = glyph_characters(&subtable.mappings);
            let map = match cid_to_gid {
                Some(data) => map_cids(data.as_slice(), &glyphs),
                None => glyphs,
            };
            if map.len() > 0 {
                proof {
                    assert(map@.len() > 0);
                    assert(map@.dom().finite());
                    let k = map@.dom().choose();
                    vstd::set_lib::lemma_set_empty_equivalency_len(map@.dom());
                    assert(map@.contains_key(k));
                    assert(text_map(map@).contains_key(k));
                }
                return Some(map);
            }
            proof {
                assert(map@.len() == 0);
                assert(map@.dom().finite());
                vstd::set_lib::lemma_set_empty_equivalency_len(map@.dom());
                assert forall|k: u32| !text_map(map@).contains_key(k) by {
                    assert(!map@.dom().contains(k));
                }
            }
        }
        i = i + 1;
    }
    None
}

/// The advance of a glyph in thousandths of the em, rounded to the nearest whole
/// number.
pub open spec fn rounded_width(advance: u16, units_per_em: u16) -> int {
    (advance * 1000 + units_per_em / 2) / (units_per_em as int)
}

/// Whether a code point of a font is a character of a given rounded width.
pub open spec fn is_candidate(glyph: Advance, units_per_em: u16, width: int) -> bool {
    is_scalar(glyph.codepoint) && rounded_width(glyph.advance, units_per_em) == width
}

/// The characters that a width match prefers: the space, the hyphen-minus, ASCII
/// digits and ASCII punctuation.
pub open spec fn is_preferred(codepoint: u32) -> bool {
    0x20 <= codepoint <= 0x40 || 0x5B <= codepoint <= 0x60 || 0x7B <= codepoint <= 0x7E
}

/// The first character of a width in a font's order, among the preferred ones
/// only where `choosy`.
pub open spec fn first_of_width(
    glyphs: Seq<Advance>,
    units_per_em: u16,
    width: int,
    choosy: bool,
) -> Option<u32>
    decreases glyphs.len(),
{
    if glyphs.len() == 0 {
        None
    } else if is_candidate(glyphs[0], units_per_em, width) && (!choosy || is_preferred(
        glyphs[0].codepoint,
    )) {
        Some(glyphs[0].codepoint)
    } else {
        first_of_width(glyphs.skip(1), units_per_em, width, choosy)
    }
}

/// The character that stands for a width: the first preferred one of that width,
/// else the first of that width.
pub open spec fn pick_of_width(face: FaceAdvances, width: int) -> Option<u32> {
    if face.units_per_em == 0 {
        None
    } else {
        match first_of_width(face.glyphs@, face.units_per_em, width, true) {
            Some(c) => Some(c),
            None => first_of_width(face.glyphs@, face.units_per_em, width, false),
        }
    }
}

/// How far a glyph's width may lie from a width of the document: a fiftieth of
/// that width, and at least 1.
pub open spec fn tolerance(width: int) -> int {
    if width >= 100 {
        width / 50
    } else {
        1
    }
}

/// The character matched to a width at distance `offset` or more, the nearer
/// first, and above before below.
pub open spec fn match_from(face: FaceAdvances, width: int, offset: int, limit: int) -> Option<u32>
    decreases limit - offset + 1,
{
    if offset > limit {
        None
    } else {
        match pick_of_width(face, width + offset) {
            Some(c) => Some(c),
            None => match pick_of_width(face, width - offset) {
                Some(c) => Some(c),
                None => match_from(face, width, offset + 1, limit),
            },
        }
    }
}

/// The character matched to a width of the document.
pub open spec fn match_width(face: FaceAdvances, width: int) -> Option<u32> {
    match_from(face, width, 0, tolerance(width))
}

/// The text that a look-alike font gives to CIDs by their widths: each CID whose
/// width matches a character's has that character.
pub open spec fn width_text(face: FaceAdvances, widths: Map<u32, Number>) -> Map<u32, Seq<char>> {
    Map::new(
        |cid: u32| widths.contains_key(cid) && match_width(face, widths[cid].whole()) is Some,
        |cid: u32| seq![match_width(face, widths[cid].whole()).unwrap() as char],
    )
}

/// Picks the character that stands for a width.
pub fn pick_for_width(face: &FaceAdvances, width: i64) -> (pick: Option<u32>)
    ensures
        pick == pick_of_width(*face, width as int),
        pick matches Some(c) ==> is_scalar(c),
{
    let upm = face.units_per_em;
    if upm == 0 {
        return None;
    }
    let mut any: Option<u32> = None;
    let mut i: usize = 0;
    assert(face.glyphs@.skip(0) =~= face.glyphs@);
    while i < face.glyphs.len()
        invariant
            i <= face.glyphs.len(),
            upm == face.units_per_em,
            upm > 0,
            first_of_width(face.glyphs@, upm, width as int, true) == first_of_width(
                face.glyphs@.skip(i as int),
                upm,
                width as int,
                true,
            ),
            first_of_width(face.glyphs@, upm, width as int, false) == (match any {
                Some(c) => Some(c),
                None => first_of_width(face.glyphs@.skip(i as int), upm, width as int, false),
            }),
            any matches Some(c) ==> is_scalar(c),
        decreases face.glyphs.len() - i,
    {
        proof {
            assert(face.glyphs@.skip(i as int)[0] == face.glyphs@[i as int]);
            assert(face.glyphs@.skip(i as int).skip(1) =~= face.glyphs@.skip(i as int + 1));
        }
        let glyph = face.glyphs[i];
        let cp = glyph.codepoint;
        let scalar = cp < 0xD800 || (0xE000 <= cp && cp <= 0x10FFFF);
        let rounded: u32 = (glyph.advance as u32 * 1000 + (upm / 2) as u32) / (upm as u32);
        if scalar && rounded as i64 == width {
            if (0x20 <= cp && cp <= 0x40) || (0x5B <= cp && cp <= 0x60) || (0x7B <= cp && cp
                <= 0x7E) {
                return Some(cp);
            }
            if any.is_none() {
                any = Some(cp);
            }
        }
        i = i + 1;
    }
    any
}

/// Matches a width of the document to a character of a look-alike font.
pub fn find_width_match(face: &FaceAdvances, width: i32) -> (found: Option<u32>)
    ensures
        found == match_width(*face, width as int),
        found matches Some(c) ==> is_scalar(c),
{
    let limit: i64 = if width >= 100 {
        (width / 50) as i64
    } else {
        1
    };
    let mut offset: i64 = 0;
    while offset <= limit
        invariant
            0 <= offset <= limit + 1,
            limit == tolerance(width as int),
            limit <= i32::MAX,
            match_width(*face, width as int) == match_from(
                *face,
                width as int,
                offset as int,
                limit as int,
            ),
        decreases limit - offset + 1,
    {
        match pick_for_width(face, width as i64 + offset) {
            Some(c) => {
                return Some(c);
            },
            None => {},
        }
        match pick_for_width(face, width as i64 - offset) {
            Some(c) => {
                return Some(c);
            },
            None => {},
        }
        offset = offset + 1;
    }
    None
}

} // verus!
