use vstd::prelude::*;

verus! {

/// `ttf_parser::Face`: a font face that has been read off a font program. Nothing
/// is known of what is inside it.
#[verifier::external_type_specification]
#[verifier::external_body]
pub struct ExFace<'a>(ttf_parser::Face<'a>);

/// `ttf_parser::cmap::Subtable`: one character map of a face. Nothing is known of
/// what is inside it.
#[verifier::external_type_specification]
#[verifier::external_body]
pub struct ExSubtable<'a>(ttf_parser::cmap::Subtable<'a>);

/// The platform that a character map of a font program is made for.
#[derive(Debug, Clone, Copy, PartialEq, Eq, Structural)]
pub enum Platform {
    Unicode,
    Macintosh,
    Iso,
    Windows,
    Custom,
}

/// A code point and the glyph that a character map gives it.
#[derive(Debug, Clone, Copy, PartialEq, Eq, Structural)]
pub struct GlyphMapping {
    pub codepoint: u32,
    pub glyph: u16,
}

/// One character map of a font program: whom it is for, and its mappings in the
/// order in which the program lists its code points.
#[derive(Debug, Clone)]
pub struct CmapSubtable {
    pub platform: Platform,
    pub encoding_id: u16,
    pub mappings: Vec<GlyphMapping>,
}

/// A code point and the horizontal advance of its glyph, in font units.
#[derive(Debug, Clone, Copy, PartialEq, Eq, Structural)]
pub struct Advance {
    pub codepoint: u32,
    pub advance: u16,
}

/// The advances of a font program's mapped code points, in the order of its
/// character maps, and the number of font units to the em.
#[derive(Debug, Clone)]
pub struct FaceAdvances {
    pub units_per_em: u16,
    pub glyphs: Vec<Advance>,
}

/// The face that `ttf_parser::Face::parse` reads off a font program as its first
/// face, if it reads one. The parser looks at the bytes alone.
pub uninterp spec fn parsed_face(program: Seq<u8>) -> Option<ttf_parser::Face<'static>>;

/// The subtables of a face's `cmap` table, in the order in which `ttf_parser`
/// iterates over them; none where the face has no such table.
pub uninterp spec fn face_subtables(face: ttf_parser::Face<'static>) -> Seq<
    ttf_parser::cmap::Subtable<'static>,
>;

/// The platform that the field `platform_id` of a `ttf_parser` subtable names.
pub uninterp spec fn platform_of(subtable: ttf_parser::cmap::Subtable<'static>) -> Platform;

/// The field `encoding_id` of a `ttf_parser` subtable.
pub uninterp spec fn encoding_of(subtable: ttf_parser::cmap::Subtable<'static>) -> u16;

/// The code points that `ttf_parser::cmap::Subtable::codepoints` reports for a
/// subtable, in the order in which it reports them.
pub uninterp spec fn codepoints_of(subtable: ttf_parser::cmap::Subtable<'static>) -> Seq<u32>;

/// The glyphs that `ttf_parser::cmap::Subtable::glyph_index` finds in a subtable:
/// a code point is a key where the call gives a glyph, and that glyph's number is
/// its value.
pub uninterp spec fn glyphs_of(subtable: ttf_parser::cmap::Subtable<'static>) -> Map<u32, u16>;

/// What `ttf_parser::Face::units_per_em` gives for a face.
pub uninterp spec fn units_of(face: ttf_parser::Face<'static>) -> u16;

/// The advances that `ttf_parser::Face::glyph_hor_advance` finds in a face: a
/// glyph's number is a key where the call gives an advance, and that advance is
/// its value.
pub uninterp spec fn advances_of(face: ttf_parser::Face<'static>) -> Map<u16, u16>;

/// What a table holds under a key, if it holds anything.
pub open spec fn entry_of<K, V>(table: Map<K, V>, key: K) -> Option<V> {
    if table.contains_key(key) {
        Some(table[key])
    } else {
        None
    }
}

/// The mappings of a list of code points under a table of glyphs: each code
/// point that the table knows, with its glyph, in the order of the list.
pub open spec fn mapped(codepoints: Seq<u32>, glyphs: Map<u32, u16>) -> Seq<GlyphMapping>
    decreases codepoints.len(),
{
    if codepoints.len() == 0 {
        Seq::empty()
    } else {
        let before = mapped(codepoints.drop_last(), glyphs);
        match entry_of(glyphs, codepoints.last()) {
            Some(glyph) => before.push(GlyphMapping { codepoint: codepoints.last(), glyph }),
            None => before,
        }
    }
}

/// The advances of a list of mappings under a table of advances: each mapping
/// whose glyph the table knows, as its code point and that advance, in the order
/// of the list.
pub open spec fn measured(mappings: Seq<GlyphMapping>, advances: Map<u16, u16>) -> Seq<Advance>
    decreases mappings.len(),
{
    if mappings.len() == 0 {
        Seq::empty()
    } else {
        let before = measured(mappings.drop_last(), advances);
        match entry_of(advances, mappings.last().glyph) {
            Some(advance) => before.push(
                Advance { codepoint: mappings.last().codepoint, advance },
            ),
            None => before,
        }
    }
}

/// The mappings that a subtable holds.
pub open spec fn subtable_mappings(subtable: ttf_parser::cmap::Subtable<'static>) -> Seq<
    GlyphMapping,
> {
    mapped(codepoints_of(subtable), glyphs_of(subtable))
}

/// Whether a character map is what a subtable holds: its platform, its encoding
/// and its mappings.
pub open spec fn holds_subtable(
    table: CmapSubtable,
    subtable: ttf_parser::cmap::Subtable<'static>,
) -> bool {
    &&& table.platform == platform_of(subtable)
    &&& table.encoding_id == encoding_of(subtable)
    &&& table.mappings@ == subtable_mappings(subtable)
}

/// Whether a list of character maps is what a list of subtables holds, one for
/// one.
pub open spec fn hold_subtables(
    tables: Seq<CmapSubtable>,
    subtables: Seq<ttf_parser::cmap::Subtable<'static>>,
) -> bool {
    &&& tables.len() == subtables.len()
    &&& forall|i: int| 0 <= i < tables.len() ==> holds_subtable(#[trigger] tables[i], subtables[i])
}

/// The advances of the mapped code points of a list of subtables, subtable after
/// subtable.
pub open spec fn subtable_advances(
    subtables: Seq<ttf_parser::cmap::Subtable<'static>>,
    advances: Map<u16, u16>,
) -> Seq<Advance>
    decreases subtables.len(),
{
    if subtables.len() == 0 {
        Seq::empty()
    } else {
        subtable_advances(subtables.drop_last(), advances) + measured(
            subtable_mappings(subtables.last()),
            advances,
        )
    }
}

/// Whether a list of character maps is what a font program holds: `None` where
/// the program cannot be read, else one map for each subtable of its first face.
pub open spec fn holds_program_maps(program: Seq<u8>, tables: Option<Vec<CmapSubtable>>) -> bool {
    match parsed_face(program) {
        Some(face) => tables matches Some(list) && hold_subtables(list@, face_subtables(face)),
        None => tables is None,
    }
}

/// Whether a record of advances is what a font program holds: `None` where the
/// program cannot be read, else the units to the em of its first face and the
/// advances of its mapped code points.
pub open spec fn holds_program_advances(program: Seq<u8>, found: Option<FaceAdvances>) -> bool {
    match parsed_face(program) {
        Some(face) => found matches Some(record) && record.units_per_em == units_of(face)
            && record.glyphs@ == subtable_advances(face_subtables(face), advances_of(face)),
        None => found is None,
    }
}

/// `ttf_parser::Face::parse` on the first face of a font program; `None` where
/// the program cannot be read. The result is named, not described.
#[verifier::external_body]
fn parse_face<'a>(data: &'a [u8]) -> (face: Option<ttf_parser::Face<'a>>)
    ensures
        face == parsed_face(data@),
{
    ttf_parser::Face::parse(data, 0).ok()
}

/// The subtables of a face's `cmap` table, as `ttf_parser` iterates over them.
/// The result is named, not described.
#[verifier::external_body]
fn cmap_subtables<'a>(face: &ttf_parser::Face<'a>) -> (subtables: Vec<
    ttf_parser::cmap::Subtable<'a>,
>)
    ensures
        subtables@ == face_subtables(*face),
{
    face.tables().cmap.iter().flat_map(|cmap| cmap.subtables).collect()
}

/// The `platform_id` of a `ttf_parser` subtable, variant for variant.
#[verifier::external_body]
fn subtable_platform(subtable: &ttf_parser::cmap::Subtable<'_>) -> (platform: Platform)
    ensures
        platform == platform_of(*subtable),
{
    match subtable.platform_id {
        ttf_parser::PlatformId::Unicode => Platform::Unicode,
        ttf_parser::PlatformId::Macintosh => Platform::Macintosh,
        ttf_parser::PlatformId::Iso => Platform::Iso,
        ttf_parser::PlatformId::Windows => Platform::Windows,
        ttf_parser::PlatformId::Custom => Platform::Custom,
    }
}

/// The `encoding_id` of a `ttf_parser` subtable.
#[verifier::external_body]
fn subtable_encoding(subtable: &ttf_parser::cmap::Subtable<'_>) -> (encoding_id: u16)
    ensures
        encoding_id == encoding_of(*subtable),
{
    subtable.encoding_id
}

/// `ttf_parser::cmap::Subtable::codepoints`: the code points that a subtable
/// defines, in the order in which it reports them. The result is named, not
/// described.
#[verifier::external_body]
fn subtable_codepoints(subtable: &ttf_parser::cmap::Subtable<'_>) -> (codepoints: Vec<u32>)
    ensures
        codepoints@ == codepoints_of(*subtable),
{
    let mut codepoints = Vec::new();
    subtable.codepoints(|codepoint| codepoints.push(codepoint));
    codepoints
}

/// `ttf_parser::cmap::Subtable::glyph_index`: the glyph of a code point, if the
/// subtable maps it. The result is named, not described.
#[verifier::external_body]
fn subtable_glyph_index(subtable: &ttf_parser::cmap::Subtable<'_>, codepoint: u32) -> (glyph:
    Option<u16>)
    ensures
        glyph == entry_of(glyphs_of(*subtable), codepoint),
{
    subtable.glyph_index(codepoint).map(|glyph| glyph.0)
}

/// `ttf_parser::Face::units_per_em`, which the crate documents to lie between 16
/// and 16384.
#[verifier::external_body]
fn face_units_per_em(face: &ttf_parser::Face<'_>) -> (units: u16)
    ensures
        units == units_of(*face),
        16 <= units <= 16384,
{
    face.units_per_em()
}

/// `ttf_parser::Face::glyph_hor_advance`: the horizontal advance of a glyph, if
/// the face has one for it. The result is named, not described.
#[verifier::external_body]
fn face_glyph_hor_advance(face: &ttf_parser::Face<'_>, glyph: u16) -> (advance: Option<u16>)
    ensures
        advance == entry_of(advances_of(*face), glyph),
{
    face.glyph_hor_advance(ttf_parser::GlyphId(glyph))
}

/// The mappings of one subtable: each code point that it defines and maps to a
/// glyph, in its own order.
fn read_mappings(subtable: &ttf_parser::cmap::Subtable<'_>) -> (mappings: Vec<GlyphMapping>)
    ensures
        mappings@ == subtable_mappings(*subtable),
{
    let codepoints = subtable_codepoints(subtable);
    let mut mappings: Vec<GlyphMapping> = Vec::new();
    let mut i: usize = 0;
    while i < codepoints.len()
        invariant
            i <= codepoints.len(),
            mappings@ == mapped(codepoints@.take(i as int), glyphs_of(*subtable)),
        decreases codepoints.len() - i,
    {
        proof {
            assert(codepoints@.take(i + 1).drop_last() == codepoints@.take(i as int));
        }
        match subtable_glyph_index(subtable, codepoints[i]) {
            Some(glyph) => {
                mappings.push(GlyphMapping { codepoint: codepoints[i], glyph });
            },
            None => {},
        }
        i = i + 1;
    }
    proof {
        assert(codepoints@.take(i as int) == codepoints@);
    }
    mappings
}

/// Reads the character maps of an embedded font program; `None` where the
/// program cannot be read, else the maps of its first face in their own order,
/// each with the code points that it defines and maps to a glyph.
pub fn read_cmap_subtables(program: &[u8]) -> (subtables: Option<Vec<CmapSubtable>>)
    ensures
        holds_program_maps(program@, subtables),
{
    let face = match parse_face(program) {
        Some(face) => face,
        None => {
            return None;
        },
    };
    let raw = cmap_subtables(&face);
    let mut subtables: Vec<CmapSubtable> = Vec::new();
    let mut i: usize = 0;
    while i < raw.len()
        invariant
            i <= raw.len(),
            hold_subtables(subtables@, raw@.take(i as int)),
        decreases raw.len() - i,
    {
        subtables.push(
            CmapSubtable {
                platform: subtable_platform(&raw[i]),
                encoding_id: subtable_encoding(&raw[i]),
                mappings: read_mappings(&raw[i]),
            },
        );
        i = i + 1;
    }
    proof {
        assert(raw@.take(i as int) == raw@);
    }
    Some(subtables)
}

/// Reads the advances of the mapped code points of a font program; `None` where
/// the program cannot be read, else the units to the em of its first face and,
/// map after map, each mapped code point whose glyph has an advance.
pub fn read_advances(program: &[u8]) -> (advances: Option<FaceAdvances>)
    ensures
        holds_program_advances(program@, advances),
        advances matches Some(face) ==> 16 <= face.units_per_em <= 16384,
{
    let face = match parse_face(program) {
        Some(face) => face,
        None => {
            return None;
        },
    };
    let raw = cmap_subtables(&face);
    let mut glyphs: Vec<Advance> = Vec::new();
    let mut i: usize = 0;
    while i < raw.len()
        invariant
            i <= raw.len(),
            glyphs@ == subtable_advances(raw@.take(i as int), advances_of(face)),
        decreases raw.len() - i,
    {
        let mappings = read_mappings(&raw[i]);
        let ghost before = glyphs@;
        let mut k: usize = 0;
        while k < mappings.len()
            invariant
                k <= mappings.len(),
                glyphs@ == before + measured(mappings@.take(k as int), advances_of(face)),
            decreases mappings.len() - k,
        {
            proof {
                assert(mappings@.take(k + 1).drop_last() == mappings@.take(k as int));
            }
            match face_glyph_hor_advance(&face, mappings[k].glyph) {
                Some(advance) => {
                    glyphs.push(Advance { codepoint: mappings[k].codepoint, advance });
                },
                None => {},
            }
            k = k + 1;
        }
        proof {
            assert(mappings@.take(k as int) == mappings@);
            assert(raw@.take(i + 1).drop_last() == raw@.take(i as int));
        }
        i = i + 1;
    }
    proof {
        assert(raw@.take(i as int) == raw@);
    }
    Some(FaceAdvances { units_per_em: face_units_per_em(&face), glyphs })
}

} // verus!
