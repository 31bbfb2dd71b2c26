use vstd::prelude::*;
use vstd::string::StringSliceAdditionalSpecFns;
use crate::names::{compare_bytes, GlyphNames, Order};
use crate::text::str_eq;

verus! {

/// Why a font could not be built from its description.
#[derive(Debug, Clone, Copy, PartialEq, Eq, Structural)]
pub enum FontError {
    /// An encoding name other than MacRomanEncoding, MacExpertEncoding and
    /// WinAnsiEncoding.
    UnknownEncoding,
    /// A glyph name of a built-in table that the glyph list lacks.
    UnknownGlyph,
    /// An Encoding entry that is neither a name nor a dictionary.
    BadEncoding,
    /// A Differences item that is neither an integer nor a name.
    BadDifferences,
    /// A character code outside the 256 codes of a simple font.
    CodeOutOfRange,
    /// A name whose UTF-16 is malformed.
    BadName,
    /// A ToUnicode entry with an odd number of bytes or malformed UTF-16.
    BadToUnicode,
    /// A ToUnicode entry that is neither a stream nor the name Identity-H.
    UnsupportedToUnicode,
    /// A glyph without a code point whose slot in the ToUnicode map is taken.
    OccupiedEntry,
    /// FirstChar, LastChar and the number of widths do not agree.
    WidthCount,
    /// FirstChar, LastChar or Widths is missing where the font needs them.
    MissingWidths,
    /// A width array that does not follow one of its two forms.
    BadWidths,
    /// A code of a Type 3 font that has no width.
    MissingWidth,
}

/// One glyph of a standard font's metrics: its code (`-1` where the font's own
/// encoding has none), its advance width and its name.
#[derive(Debug, Clone)]
pub struct CoreGlyph {
    pub code: i64,
    pub width: i64,
    pub name: String,
}

/// The metrics of one standard font.
#[derive(Debug, Clone)]
pub struct CoreFont {
    pub name: String,
    pub glyphs: Vec<CoreGlyph>,
}

/// The static data that fonts are decoded with.
pub struct FontTables {
    /// Glyph names of text fonts.
    pub glyphs: GlyphNames,
    /// Glyph names of ZapfDingbats.
    pub zapf_dingbats: GlyphNames,
    /// MacRomanEncoding, a glyph name for each assigned code.
    pub mac_roman: Vec<Option<String>>,
    /// MacExpertEncoding.
    pub mac_expert: Vec<Option<String>>,
    /// WinAnsiEncoding.
    pub win_ansi: Vec<Option<String>>,
    /// Metrics of the standard fonts.
    pub core_fonts: Vec<CoreFont>,
}

/// Whether a name is that of one of the fourteen standard fonts.
pub open spec fn is_core_font_name(name: Seq<char>) -> bool {
    ||| name == "Courier-Bold"@
    ||| name == "Courier-BoldOblique"@
    ||| name == "Courier-Oblique"@
    ||| name == "Courier"@
    ||| name == "Helvetica-Bold"@
    ||| name == "Helvetica-BoldOblique"@
    ||| name == "Helvetica-Oblique"@
    ||| name == "Helvetica"@
    ||| name == "Symbol"@
    ||| name == "Times-Bold"@
    ||| name == "Times-BoldItalic"@
    ||| name == "Times-Italic"@
    ||| name == "Times-Roman"@
    ||| name == "ZapfDingbats"@
}

/// Whether a name is that of one of the fourteen standard fonts.
pub fn is_core_font(name: &str) -> (core: bool)
    ensures
        core == is_core_font_name(name@),
{
    str_eq(name, "Courier-Bold") || str_eq(name, "Courier-BoldOblique") || str_eq(
        name,
        "Courier-Oblique",
    ) || str_eq(name, "Courier") || str_eq(name, "Helvetica-Bold") || str_eq(
        name,
        "Helvetica-BoldOblique",
    ) || str_eq(name, "Helvetica-Oblique") || str_eq(name, "Helvetica") || str_eq(name, "Symbol")
        || str_eq(name, "Times-Bold") || str_eq(name, "Times-BoldItalic") || str_eq(
        name,
        "Times-Italic",
    ) || str_eq(name, "Times-Roman") || str_eq(name, "ZapfDingbats")
}

/// Whether a byte string is the UTF-8 of a text.
pub open spec fn bytes_spell(name: Seq<u8>, text: &str) -> bool {
    name == text.spec_bytes()
}

/// Whether a byte string is the UTF-8 of a text.
pub fn bytes_are(name: &[u8], text: &str) -> (same: bool)
    ensures
        same == bytes_spell(name@, text),
{
    compare_bytes(name, text.as_bytes()) == Order::Same
}

/// The text of each slot of a table of optional names.
pub open spec fn slot_names(names: Seq<Option<String>>) -> Seq<Option<Seq<char>>> {
    Seq::new(
        names.len(),
        |i: int|
            match names[i] {
                Some(name) => Some(name@),
                None => None,
            },
    )
}

/// Whether a glyph list has every name of a table.
pub open spec fn all_named(glyphs: Map<Seq<char>, u16>, names: Seq<Option<Seq<char>>>) -> bool {
    forall|i: int|
        0 <= i < names.len() ==> (#[trigger] names[i] matches Some(name) ==> glyphs.contains_key(
            name,
        ))
}

/// The code points of a table of glyph names: that of each named glyph, `0` for
/// an unassigned slot.
pub open spec fn code_points(glyphs: Map<Seq<char>, u16>, names: Seq<Option<Seq<char>>>) -> Seq<
    u16,
> {
    Seq::new(
        names.len(),
        |i: int|
            match names[i] {
                Some(name) => glyphs[name],
                None => 0u16,
            },
    )
}

impl FontTables {
    /// Each named encoding has its 256 slots.
    pub open spec fn wf(&self) -> bool {
        &&& self.mac_roman@.len() == 256
        &&& self.mac_expert@.len() == 256
        &&& self.win_ansi@.len() == 256
    }

    /// Whether each named encoding has its 256 slots.
    pub fn is_well_formed(&self) -> (ok: bool)
        ensures
            ok == self.wf(),
    {
        self.mac_roman.len() == 256 && self.mac_expert.len() == 256 && self.win_ansi.len() == 256
    }

    /// The glyph names of a named encoding, if the name is one of the three.
    pub open spec fn named_encoding(&self, name: Seq<u8>) -> Option<Seq<Option<Seq<char>>>> {
        if bytes_spell(name, "MacRomanEncoding") {
            Some(slot_names(self.mac_roman@))
        } else if bytes_spell(name, "MacExpertEncoding") {
            Some(slot_names(self.mac_expert@))
        } else if bytes_spell(name, "WinAnsiEncoding") {
            Some(slot_names(self.win_ansi@))
        } else {
            None
        }
    }

    /// The code-point table of a named encoding.
    pub open spec fn unicode_table(&self, name: Seq<u8>) -> Result<Seq<u16>, FontError> {
        match self.named_encoding(name) {
            None => Err(FontError::UnknownEncoding),
            Some(names) => if all_named(self.glyphs@, names) {
                Ok(code_points(self.glyphs@, names))
            } else {
                Err(FontError::UnknownGlyph)
            },
        }
    }
}

/// Turns a table of glyph names into code points.
pub fn resolve_names(glyphs: &GlyphNames, names: &Vec<Option<String>>) -> (table: Option<Vec<u16>>)
    ensures
        table is Some <==> all_named(glyphs@, slot_names(names@)),
        table matches Some(codes) ==> codes@ == code_points(glyphs@, slot_names(names@)),
{
    let mut codes: Vec<u16> = Vec::new();
    let mut i: usize = 0;
    while i < names.len()
        invariant
            i <= names.len(),
            codes@.len() == i,
            forall|j: int|
                0 <= j < i ==> (#[trigger] slot_names(names@)[j] matches Some(name)
                    ==> glyphs@.contains_key(name)),
            forall|j: int| 0 <= j < i ==> codes@[j] == code_points(glyphs@, slot_names(names@))[j],
        decreases names.len() - i,
    {
        match &names[i] {
            Some(name) => {
                match glyphs.lookup(name.as_str()) {
                    Some(code) => {
                        codes.push(code);
                    },
                    None => {
                        assert(slot_names(names@)[i as int] == Some(name@));
                        return None;
                    },
                }
            },
            None => {
                codes.push(0);
            },
        }
        i = i + 1;
    }
    assert(codes@ =~= code_points(glyphs@, slot_names(names@)));
    Some(codes)
}

/// The code points of the 256 codes of a named encoding.
pub fn encoding_to_unicode_table(tables: &FontTables, name: &[u8]) -> (table: Result<
    Vec<u16>,
    FontError,
>)
    requires
        tables.wf(),
    ensures
        table is Ok <==> tables.unicode_table(name@) is Ok,
        table matches Ok(codes) ==> Ok::<Seq<u16>, FontError>(codes@) == tables.unicode_table(
            name@,
        ) && codes@.len() == 256,
        table matches Err(e) ==> Err::<Seq<u16>, FontError>(e) == tables.unicode_table(name@),
{
    let names = if bytes_are(name, "MacRomanEncoding") {
        &tables.mac_roman
    } else if bytes_are(name, "MacExpertEncoding") {
        &tables.mac_expert
    } else if bytes_are(name, "WinAnsiEncoding") {
        &tables.win_ansi
    } else {
        return Err(FontError::UnknownEncoding);
    };
    match resolve_names(&tables.glyphs, names) {
        Some(codes) => Ok(codes),
        None => Err(FontError::UnknownGlyph),
    }
}

} // verus!
