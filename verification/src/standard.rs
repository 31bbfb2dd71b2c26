use vstd::prelude::*;
use crate::names::{
    codes_are_characters, glyph_codes, glyph_pairs, names_ascending, GlyphEntry, GlyphNames,
};
use crate::standard_data::{
    GLYPH_NAMES, HELVETICA_WIDTHS, MAC_ROMAN_ENCODING, STANDARD_GLYPHS, WIN_ANSI_ENCODING,
};
use crate::tables::{slot_names, CoreFont, CoreGlyph, FontTables};

verus! {

/// The standard glyph list, each line as the text of its name and its code point.
pub open spec fn standard_pairs() -> Seq<(Seq<char>, u16)> {
    Seq::new(GLYPH_NAMES@.len(), |i: int| (GLYPH_NAMES@[i].0@, GLYPH_NAMES@[i].1))
}

/// The standard glyph list, if it is in order.
pub fn standard_glyph_names() -> (names: Option<GlyphNames>)
    ensures
        names is Some <==> names_ascending(standard_pairs()) && codes_are_characters(
            standard_pairs(),
        ),
        names matches Some(list) ==> list@ == glyph_codes(standard_pairs()),
{
    let table = GLYPH_NAMES;
    let mut entries: Vec<GlyphEntry> = Vec::new();
    let mut i: usize = 0;
    while i < table.len()
        invariant
            i <= table@.len(),
            table == GLYPH_NAMES,
            entries@.len() == i,
            forall|k: int|
                0 <= k < i ==> (#[trigger] entries@[k]).name@ == GLYPH_NAMES@[k].0@
                    && entries@[k].code == GLYPH_NAMES@[k].1,
        decreases table@.len() - i,
    {
        entries.push(GlyphEntry { name: table[i].0.to_owned(), code: table[i].1 });
        i = i + 1;
    }
    assert(glyph_pairs(entries@) =~= standard_pairs());
    GlyphNames::new(entries)
}

/// The glyph names of the codes of an encoding: for each code the name that the
/// last line for it gives, and none where no line gives one.
pub open spec fn named_slots(lines: Seq<(u8, &'static str)>) -> Seq<Option<Seq<char>>>
    decreases lines.len(),
{
    if lines.len() == 0 {
        Seq::new(256, |i: int| None::<Seq<char>>)
    } else {
        named_slots(lines.drop_last()).update(lines.last().0 as int, Some(lines.last().1@))
    }
}

/// Lays the lines of an encoding out over the 256 codes.
pub fn encoding_slots(lines: &[(u8, &'static str)]) -> (slots: Vec<Option<String>>)
    ensures
        slots@.len() == 256,
        slot_names(slots@) == named_slots(lines@),
{
    let mut slots: Vec<Option<String>> = Vec::new();
    let mut c: usize = 0;
    while c < 256
        invariant
            c <= 256,
            slots@.len() == c,
            forall|k: int| 0 <= k < c ==> (#[trigger] slots@[k]) is None,
        decreases 256 - c,
    {
        slots.push(None);
        c = c + 1;
    }
    let mut i: usize = 0;
    assert(lines@.take(0) =~= Seq::<(u8, &'static str)>::empty());
    assert(slot_names(slots@) =~= named_slots(lines@.take(0)));
    while i < lines.len()
        invariant
            i <= lines@.len(),
            slots@.len() == 256,
            slot_names(slots@) == named_slots(lines@.take(i as int)),
        decreases lines@.len() - i,
    {
        proof {
            assert(lines@.take(i as int + 1).drop_last() =~= lines@.take(i as int));
            assert(lines@.take(i as int + 1).last() == lines@[i as int]);
        }
        let ghost before = slot_names(slots@);
        let (code, name) = lines[i];
        slots.set(code as usize, Some(name.to_owned()));
        assert(slot_names(slots@) =~= before.update(code as int, Some(name@)));
        i = i + 1;
    }
    assert(lines@.take(lines@.len() as int) =~= lines@);
    slots
}

/// A glyph of a standard font: its code, its width and the text of its name.
pub open spec fn glyph_view(glyph: CoreGlyph) -> (i64, i64, Seq<char>) {
    (glyph.code, glyph.width, glyph.name@)
}

/// Whether the metrics are those of a Courier font of a name: every glyph of the
/// standard Latin character set, 600 units wide.
pub open spec fn is_courier(font: CoreFont, name: Seq<char>) -> bool {
    &&& font.name@ == name
    &&& font.glyphs@.len() == STANDARD_GLYPHS@.len()
    &&& forall|i: int|
        0 <= i < STANDARD_GLYPHS@.len() ==> glyph_view(#[trigger] font.glyphs@[i]) == (
            STANDARD_GLYPHS@[i].0,
            600i64,
            STANDARD_GLYPHS@[i].1@,
        )
}

/// Whether the metrics are those of Helvetica for the printable ASCII range.
pub open spec fn is_helvetica(font: CoreFont) -> bool {
    &&& font.name@ == "Helvetica"@
    &&& font.glyphs@.len() == HELVETICA_WIDTHS@.len()
    &&& forall|i: int|
        0 <= i < HELVETICA_WIDTHS@.len() ==> glyph_view(#[trigger] font.glyphs@[i]) == (
            HELVETICA_WIDTHS@[i].0,
            HELVETICA_WIDTHS@[i].1,
            HELVETICA_WIDTHS@[i].2@,
        )
}

/// The metrics of a Courier font.
pub fn courier(name: &str) -> (font: CoreFont)
    ensures
        is_courier(font, name@),
{
    let table = STANDARD_GLYPHS;
    let mut glyphs: Vec<CoreGlyph> = Vec::new();
    let mut i: usize = 0;
    while i < table.len()
        invariant
            i <= table@.len(),
            table == STANDARD_GLYPHS,
            glyphs@.len() == i,
            forall|k: int|
                0 <= k < i ==> glyph_view(#[trigger] glyphs@[k]) == (
                    STANDARD_GLYPHS@[k].0,
                    600i64,
                    STANDARD_GLYPHS@[k].1@,
                ),
        decreases table@.len() - i,
    {
        glyphs.push(CoreGlyph { code: table[i].0, width: 600, name: table[i].1.to_owned() });
        i = i + 1;
    }
    CoreFont { name: name.to_owned(), glyphs }
}

/// The metrics of Helvetica for the printable ASCII range.
pub fn helvetica() -> (font: CoreFont)
    ensures
        is_helvetica(font),
{
    let table = HELVETICA_WIDTHS;
    let mut glyphs: Vec<CoreGlyph> = Vec::new();
    let mut i: usize = 0;
    while i < table.len()
        invariant
            i <= table@.len(),
            table == HELVETICA_WIDTHS,
            glyphs@.len() == i,
            forall|k: int|
                0 <= k < i ==> glyph_view(#[trigger] glyphs@[k]) == (
                    HELVETICA_WIDTHS@[k].0,
                    HELVETICA_WIDTHS@[k].1,
                    HELVETICA_WIDTHS@[k].2@,
                ),
        decreases table@.len() - i,
    {
        glyphs.push(CoreGlyph { code: table[i].0, width: table[i].1, name: table[i].2.to_owned() });
        i = i + 1;
    }
    CoreFont { name: "Helvetica".to_owned(), glyphs }
}

impl FontTables {
    /// The tables of the standard Latin character set: its glyph list,
    /// MacRomanEncoding and WinAnsiEncoding, and the metrics of the Courier fonts
    /// and of Helvetica. MacExpertEncoding and the glyph names of ZapfDingbats lie
    /// outside that set: their tables are left unassigned.
    pub fn standard() -> (tables: Option<FontTables>)
        ensures
            tables is Some <==> names_ascending(standard_pairs()) && codes_are_characters(
                standard_pairs(),
            ),
            tables matches Some(t) ==> {
                &&& t.wf()
                &&& t.glyphs@ == glyph_codes(standard_pairs())
                &&& t.zapf_dingbats@ == glyph_codes(Seq::empty())
                &&& slot_names(t.mac_roman@) == named_slots(MAC_ROMAN_ENCODING@)
                &&& slot_names(t.win_ansi@) == named_slots(WIN_ANSI_ENCODING@)
                &&& slot_names(t.mac_expert@) == named_slots(Seq::empty())
                &&& t.core_fonts@.len() == 5
                &&& is_courier(t.core_fonts@[0], "Courier"@)
                &&& is_courier(t.core_fonts@[1], "Courier-Bold"@)
                &&& is_courier(t.core_fonts@[2], "Courier-BoldOblique"@)
                &&& is_courier(t.core_fonts@[3], "Courier-Oblique"@)
                &&& is_helvetica(t.core_fonts@[4])
            },
    {
        let glyphs = match standard_glyph_names() {
            Some(glyphs) => glyphs,
            None => {
                return None;
            },
        };
        let zapf_dingbats = match GlyphNames::new(Vec::new()) {
            Some(names) => names,
            None => {
                assert(glyph_pairs(Seq::<GlyphEntry>::empty()) =~= Seq::empty());
                return None;
            },
        };
        assert(glyph_pairs(Seq::<GlyphEntry>::empty()) =~= Seq::empty());
        let mac = MAC_ROMAN_ENCODING;
        let win = WIN_ANSI_ENCODING;
        let none: [(u8, &'static str); 0] = [];
        assert(none@ =~= Seq::empty());
        let mut core_fonts: Vec<CoreFont> = Vec::new();
        core_fonts.push(courier("Courier"));
        core_fonts.push(courier("Courier-Bold"));
        core_fonts.push(courier("Courier-BoldOblique"));
        core_fonts.push(courier("Courier-Oblique"));
        core_fonts.push(helvetica());
        Some(
            FontTables {
                glyphs,
                zapf_dingbats,
                mac_roman: encoding_slots(mac.as_slice()),
                mac_expert: encoding_slots(none.as_slice()),
                win_ansi: encoding_slots(win.as_slice()),
                core_fonts,
            },
        )
    }
}

} // verus!
