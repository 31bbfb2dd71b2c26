use pdf_strings::cid::{
    identity_mapping, next_cid, parse_widths, widths_map, ByteMapping, CidRange, CodeRange,
    WidthEntry, WidthItem,
};
use pdf_strings::cidfont::{get_width_fallback_from_system_font, CidEncodingSource, PdfCIDFont, CidFontSource};
use pdf_strings::fallback::{
    get_fallback_unicode_from_font, find_width_match, glyph_characters, map_cids, pick_for_width,
    speaks_unicode,
};
use pdf_strings::font::{font_kind, make_font, FontKind, FontSource, PdfFont};
use pdf_strings::fontdata::{
    wrapped_code, CmapEntry, EncodingSource, Number, SimpleFontSource, ToUnicodeSource,
};
use pdf_strings::names::GlyphNames;
use pdf_strings::tables::{FontError, FontTables};
use pdf_strings::truetype::{
    read_advances, read_cmap_subtables, Advance, CmapSubtable, FaceAdvances, GlyphMapping,
    Platform,
};
use pdf_strings::content::{decode_operation, Instruction, Operand};
use pdf_strings::layout::{to_string_plain, Cell, Placement};
use pdf_strings::names::GlyphEntry;
use pdf_strings::span::SpanBuffer;
use pdf_strings::tables::{CoreFont, CoreGlyph};

fn be16(out: &mut Vec<u8>, v: u16) {
    out.extend_from_slice(&v.to_be_bytes());
}

fn be32(out: &mut Vec<u8>, v: u32) {
    out.extend_from_slice(&v.to_be_bytes());
}

/// A `cmap` subtable of format 4 that maps single code points to glyphs.
fn format4(mapping: &[(u16, u16)]) -> Vec<u8> {
    let mut segments: Vec<(u16, u16)> =
        mapping.iter().map(|(cp, glyph)| (*cp, glyph.wrapping_sub(*cp))).collect();
    segments.push((0xffff, 1));
    let n = segments.len() as u16;
    let mut body = Vec::new();
    be16(&mut body, n * 2);
    be16(&mut body, 0);
    be16(&mut body, 0);
    be16(&mut body, 0);
    for (cp, _) in &segments {
        be16(&mut body, *cp);
    }
    be16(&mut body, 0);
    for (cp, _) in &segments {
        be16(&mut body, *cp);
    }
    for (_, delta) in &segments {
        be16(&mut body, *delta);
    }
    for _ in &segments {
        be16(&mut body, 0);
    }
    let mut table = Vec::new();
    be16(&mut table, 4);
    be16(&mut table, 6 + body.len() as u16);
    be16(&mut table, 0);
    table.extend_from_slice(&body);
    table
}

/// A `cmap` subtable of format 0 that maps bytes to glyphs.
fn format0(mapping: &[(u8, u8)]) -> Vec<u8> {
    let mut table = Vec::new();
    be16(&mut table, 0);
    be16(&mut table, 262);
    be16(&mut table, 0);
    let mut glyphs = [0u8; 256];
    for (code, glyph) in mapping {
        glyphs[*code as usize] = *glyph;
    }
    table.extend_from_slice(&glyphs);
    table
}

/// A font program with the tables that a reader asks for and three character
/// maps: space is glyph 3, the hyphen glyph 1374, zero glyph 2 and A glyph 1.
fn font_program() -> Vec<u8> {
    let unicode: [(u16, u16); 4] = [(0x20, 3), (0x2d, 1374), (0x30, 2), (0x41, 1)];
    let subtables: Vec<(u16, u16, Vec<u8>)> = vec![
        (0, 3, format4(&unicode)),
        (1, 0, format0(&[(0x41, 1), (0x42, 2)])),
        (3, 1, format4(&unicode)),
    ];
    let mut cmap = Vec::new();
    be16(&mut cmap, 0);
    be16(&mut cmap, subtables.len() as u16);
    let mut offset = 4 + 8 * subtables.len() as u32;
    for (platform, encoding, data) in &subtables {
        be16(&mut cmap, *platform);
        be16(&mut cmap, *encoding);
        be32(&mut cmap, offset);
        offset += data.len() as u32;
    }
    for (_, _, data) in &subtables {
        cmap.extend_from_slice(data);
    }

    let mut head = Vec::new();
    be32(&mut head, 0x0001_0000);
    be32(&mut head, 0x0001_0000);
    be32(&mut head, 0);
    be32(&mut head, 0x5f0f_3cf5);
    be16(&mut head, 0);
    be16(&mut head, 1000);
    head.extend_from_slice(&[0u8; 16]);
    for v in [0u16, 0, 1000, 1000, 0, 8, 2, 0, 0] {
        be16(&mut head, v);
    }

    let mut hhea = Vec::new();
    be32(&mut hhea, 0x0001_0000);
    for v in [800u16, 0xff38, 0] {
        be16(&mut hhea, v);
    }
    hhea.extend_from_slice(&[0u8; 24]);
    be16(&mut hhea, 4);

    let mut maxp = Vec::new();
    be32(&mut maxp, 0x0000_5000);
    be16(&mut maxp, 1375);

    let mut hmtx = Vec::new();
    for advance in [500u16, 667, 556, 278] {
        be16(&mut hmtx, advance);
        be16(&mut hmtx, 0);
    }

    let tables: Vec<(&[u8; 4], Vec<u8>)> = vec![
        (b"cmap", cmap),
        (b"head", head),
        (b"hhea", hhea),
        (b"hmtx", hmtx),
        (b"maxp", maxp),
    ];
    let mut font = Vec::new();
    be32(&mut font, 0x0001_0000);
    be16(&mut font, tables.len() as u16);
    font.extend_from_slice(&[0u8; 6]);
    let mut offset = 12 + 16 * tables.len() as u32;
    for (tag, data) in &tables {
        font.extend_from_slice(&tag[..]);
        be32(&mut font, 0);
        be32(&mut font, offset);
        be32(&mut font, data.len() as u32);
        offset += (data.len() as u32 + 3) / 4 * 4;
    }
    for (_, data) in &tables {
        font.extend_from_slice(data);
        while font.len() % 4 != 0 {
            font.push(0);
        }
    }
    font
}

fn mapping(codepoint: u32, glyph: u16) -> GlyphMapping {
    GlyphMapping { codepoint, glyph }
}

fn unicode_subtable(mappings: Vec<GlyphMapping>) -> CmapSubtable {
    CmapSubtable { platform: Platform::Unicode, encoding_id: 3, mappings }
}

fn identity_source() -> CidFontSource {
    CidFontSource {
        base_font: b"ABCDEF+Inter-SemiBold".to_vec(),
        encoding: CidEncodingSource::Name(b"Identity-H".to_vec()),
        to_unicode: ToUnicodeSource::Absent,
        cid_to_gid: None,
        default_width: None,
        w: None,
    }
}

fn face() -> FaceAdvances {
    FaceAdvances {
        units_per_em: 2048,
        glyphs: vec![
            Advance { codepoint: 0x41, advance: 1366 },
            Advance { codepoint: 0x2d, advance: 682 },
            Advance { codepoint: 0x20, advance: 569 },
            Advance { codepoint: 0xd800, advance: 1000 },
            Advance { codepoint: 0x49, advance: 569 },
            Advance { codepoint: 0x6c, advance: 455 },
            Advance { codepoint: 0x21, advance: 455 },
            Advance { codepoint: 0x56, advance: 1366 },
        ],
    }
}

fn integer(i: i64) -> WidthItem {
    WidthItem::Number(Number::Integer(i))
}

fn empty_tables() -> FontTables {
    FontTables {
        glyphs: GlyphNames::new(Vec::new()).unwrap(),
        zapf_dingbats: GlyphNames::new(Vec::new()).unwrap(),
        mac_roman: vec![None; 256],
        mac_expert: vec![None; 256],
        win_ansi: vec![None; 256],
        core_fonts: Vec::new(),
    }
}

#[test]
fn the_identity_mapping_reads_two_bytes() {
    let m = identity_mapping();
    assert_eq!(m.codespace, vec![CodeRange { width: 2, start: 0, end: 0xffff }]);
    assert_eq!(m.cid, vec![CidRange { src_code_lo: 0, src_code_hi: 0xffff, dst_cid_lo: 0 }]);
    assert_eq!(next_cid(&m, &[0x05, 0x5e, 0x00, 0x41], 0), Some((1374, 2)));
    assert_eq!(next_cid(&m, &[0x05, 0x5e, 0x00, 0x41], 2), Some((0x41, 2)));
    assert_eq!(next_cid(&m, &[0x05, 0x5e, 0x00, 0x41], 4), None);
    assert_eq!(next_cid(&m, &[0x05, 0x5e, 0x00], 2), None);
    assert_eq!(next_cid(&m, &[], 0), None);
    assert_eq!(next_cid(&m, &[0x00, 0x20], 0), Some((32, 2)));
}

#[test]
fn a_codespace_may_mix_widths() {
    let m = ByteMapping {
        codespace: vec![
            CodeRange { width: 1, start: 0x00, end: 0x80 },
            CodeRange { width: 2, start: 0x8140, end: 0x8dfe },
            CodeRange { width: 4, start: 0x8ea1_a1a1, end: 0x8ea1_fefe },
        ],
        cid: vec![
            CidRange { src_code_lo: 0x20, src_code_hi: 0x7e, dst_cid_lo: 100 },
            CidRange { src_code_lo: 0x8140, src_code_hi: 0x817e, dst_cid_lo: 1000 },
            CidRange { src_code_lo: 0x8140, src_code_hi: 0xfefe, dst_cid_lo: 5 },
            CidRange { src_code_lo: 0x8ea1_a1a1, src_code_hi: 0x8ea1_fefe, dst_cid_lo: 1 },
        ],
    };
    assert_eq!(next_cid(&m, &[0x41], 0), Some((0x41 + 100, 1)));
    assert_eq!(next_cid(&m, &[0x81, 0x40], 0), Some((0x8140 + 1000, 2)));
    assert_eq!(next_cid(&m, &[0x8d, 0x40], 0), Some((0x8d40 + 5, 2)));
    assert_eq!(next_cid(&m, &[0x8e, 0xa1, 0xa1, 0xa1], 0), Some((0x8ea1_a1a1 + 1, 4)));
    assert_eq!(next_cid(&m, &[0x8e, 0xa1, 0xa1, 0xa1, 0x41], 4), Some((0x41 + 100, 1)));
    assert_eq!(next_cid(&m, &[0x8e, 0xa1, 0xa1], 0), None);
    assert_eq!(next_cid(&m, &[0x7f], 0), None);
    assert_eq!(next_cid(&m, &[0xff, 0xff, 0xff, 0xff, 0xff], 0), None);
    assert_eq!(next_cid(&m, &[0x10], 0), None);
    assert_eq!(next_cid(&m, &[0x00, 0x41, 0x81, 0x40], 1), Some((0x41 + 100, 1)));
}

#[test]
fn a_cid_beyond_the_range_of_cids_is_none() {
    let m = ByteMapping {
        codespace: vec![CodeRange { width: 1, start: 0, end: 0xff }],
        cid: vec![CidRange { src_code_lo: 0, src_code_hi: 0xff, dst_cid_lo: 0xffff_ff00 }],
    };
    assert_eq!(next_cid(&m, &[0xff], 0), Some((u32::MAX, 1)));
    let m = ByteMapping {
        codespace: vec![CodeRange { width: 1, start: 0, end: 0xff }],
        cid: vec![CidRange { src_code_lo: 0, src_code_hi: 0xff, dst_cid_lo: 0xffff_ff01 }],
    };
    assert_eq!(next_cid(&m, &[0xff], 0), None);
    assert_eq!(next_cid(&m, &[0xfe], 0), Some((u32::MAX, 1)));
}

#[test]
fn wrapped_code_counts_modulo_two_to_the_32() {
    assert_eq!(wrapped_code(0), 0);
    assert_eq!(wrapped_code(65), 65);
    assert_eq!(wrapped_code(-1), 0xffff_ffff);
    assert_eq!(wrapped_code(0x1_0000_0000), 0);
    assert_eq!(wrapped_code(0x1_0000_0041), 0x41);
    assert_eq!(wrapped_code(i64::MIN), 0);
    assert_eq!(wrapped_code(i64::MAX), 0xffff_ffff);
    for i in [-70000i64, -3, 12345678901, -12345678901, 0x7fff_ffff, 0x8000_0000] {
        assert_eq!(wrapped_code(i), i as u32);
    }
}

#[test]
fn parse_widths_reads_both_forms() {
    let items = vec![
        integer(10),
        WidthItem::Array(vec![Some(Number::Integer(500)), Some(Number::Real(0x4416_0000))]),
        integer(20),
        integer(23),
        integer(700),
        integer(3),
        WidthItem::Array(Vec::new()),
    ];
    let entries = parse_widths(&items).unwrap();
    assert_eq!(
        entries,
        vec![
            WidthEntry { cid: 10, width: Number::Integer(500) },
            WidthEntry { cid: 11, width: Number::Real(0x4416_0000) },
            WidthEntry { cid: 20, width: Number::Integer(700) },
            WidthEntry { cid: 21, width: Number::Integer(700) },
            WidthEntry { cid: 22, width: Number::Integer(700) },
        ]
    );
    let map = widths_map(&entries);
    assert_eq!(map.len(), 5);
    assert_eq!(map.get(&22), Some(&Number::Integer(700)));
    assert_eq!(map.get(&23), None);
}

#[test]
fn parse_widths_takes_an_empty_array_and_empty_ranges() {
    assert_eq!(parse_widths(&Vec::new()), Ok(Vec::new()));
    assert_eq!(parse_widths(&vec![integer(5), integer(5), integer(700)]), Ok(Vec::new()));
    assert_eq!(parse_widths(&vec![integer(5), integer(2), integer(700)]), Ok(Vec::new()));
}

#[test]
fn parse_widths_refuses_other_shapes() {
    let bad: Vec<Vec<WidthItem>> = vec![
        vec![integer(1)],
        vec![integer(1), integer(2)],
        vec![integer(1), integer(2), WidthItem::Other],
        vec![integer(1), integer(2), WidthItem::Array(Vec::new())],
        vec![integer(1), WidthItem::Other],
        vec![WidthItem::Other, WidthItem::Array(Vec::new())],
        vec![WidthItem::Number(Number::Real(0)), WidthItem::Array(Vec::new())],
        vec![integer(1), WidthItem::Number(Number::Real(0)), integer(5)],
        vec![integer(1), WidthItem::Array(vec![Some(Number::Integer(1)), None])],
        vec![integer(i64::MAX), WidthItem::Array(vec![Some(Number::Integer(1))])],
        vec![integer(1), WidthItem::Array(Vec::new()), integer(3)],
    ];
    for items in bad {
        assert_eq!(parse_widths(&items), Err(FontError::BadWidths));
    }
    let edge = vec![integer(i64::MAX - 1), WidthItem::Array(vec![Some(Number::Integer(1))])];
    assert_eq!(
        parse_widths(&edge),
        Ok(vec![WidthEntry { cid: 0xffff_fffe, width: Number::Integer(1) }])
    );
}

#[test]
fn a_later_width_replaces_an_earlier_one() {
    let items = vec![
        integer(1),
        WidthItem::Array(vec![Some(Number::Integer(100))]),
        integer(1),
        integer(2),
        integer(200),
    ];
    let map = widths_map(&parse_widths(&items).unwrap());
    assert_eq!(map.get(&1), Some(&Number::Integer(200)));
}

#[test]
fn a_composite_font_has_default_width_1000() {
    let font = PdfCIDFont::new(identity_source(), &None, &None).unwrap();
    assert_eq!(font.get_font_name(), "ABCDEF+Inter-SemiBold");
    assert_eq!(font.get_width(5), Number::Integer(1000));
    assert_eq!(font.decode_char(5), "");
    assert_eq!(font.next_char(&[0x00, 0x05], 0), Some((5, 2)));

    let mut s = identity_source();
    s.default_width = Some(500);
    s.w = Some(vec![integer(7), WidthItem::Array(vec![Some(Number::Integer(250))])]);
    s.encoding = CidEncodingSource::Name(b"Identity-V".to_vec());
    let font = PdfCIDFont::new(s, &None, &None).unwrap();
    assert_eq!(font.get_width(5), Number::Integer(500));
    assert_eq!(font.get_width(7), Number::Integer(250));
}

#[test]
fn a_composite_font_needs_a_known_encoding() {
    let failing: Vec<(CidEncodingSource, FontError)> = vec![
        (CidEncodingSource::Name(b"UniJIS-UTF16-H".to_vec()), FontError::UnknownEncoding),
        (CidEncodingSource::Name(vec![0xfe, 0xff, 0xd8, 0x00]), FontError::BadName),
        (CidEncodingSource::Other, FontError::BadEncoding),
    ];
    for (encoding, expected) in failing {
        let mut s = identity_source();
        s.encoding = encoding;
        match PdfCIDFont::new(s, &None, &None) {
            Ok(_) => panic!("a font was built"),
            Err(error) => assert_eq!(error, expected),
        }
    }
    let mut s = identity_source();
    s.base_font = vec![0xfe, 0xff, 0x00];
    assert!(matches!(PdfCIDFont::new(s, &None, &None), Err(FontError::BadName)));
    let mut s = identity_source();
    s.to_unicode = ToUnicodeSource::Other;
    assert!(matches!(PdfCIDFont::new(s, &None, &None), Err(FontError::UnsupportedToUnicode)));
    let mut s = identity_source();
    s.w = Some(vec![integer(1)]);
    assert!(matches!(PdfCIDFont::new(s, &None, &None), Err(FontError::BadWidths)));
}

#[test]
fn a_composite_font_takes_the_ranges_of_its_cmap() {
    let mut s = identity_source();
    s.encoding = CidEncodingSource::Cmap(ByteMapping {
        codespace: vec![CodeRange { width: 1, start: 0x20, end: 0x7e }],
        cid: vec![CidRange { src_code_lo: 0x20, src_code_hi: 0x7e, dst_cid_lo: 1 }],
    });
    let font = PdfCIDFont::new(s, &None, &None).unwrap();
    assert_eq!(font.next_char(b"A", 0), Some((0x42, 1)));
    assert_eq!(font.next_char(&[0x05], 0), None);
}

#[test]
fn to_unicode_with_nul_falls_back_on_the_embedded_font() {
    let mut s = identity_source();
    s.to_unicode = ToUnicodeSource::Cmap(vec![
        CmapEntry { code: 1374, text: vec![0x00, 0x00] },
        CmapEntry { code: 36, text: vec![0x00, 0x41] },
        CmapEntry { code: 37, text: Vec::new() },
        CmapEntry { code: 38, text: vec![0x00, 0x42, 0x00, 0x00] },
    ]);
    let embedded = Some(vec![unicode_subtable(vec![
        mapping(0x2d, 1374),
        mapping(0x58, 36),
        mapping(0x59, 37),
        mapping(0x5a, 38),
    ])]);
    let font = PdfCIDFont::new(s, &embedded, &None).unwrap();
    assert_eq!(font.decode_char(1374), "-");
    assert_eq!(font.decode_char(36), "A");
    assert_eq!(font.decode_char(37), "Y");
    assert_eq!(font.decode_char(38), "Z");
    assert_eq!(font.decode_char(39), "");
}

#[test]
fn a_nul_entry_decodes_like_no_entry() {
    let embedded = Some(vec![unicode_subtable(vec![mapping(0x2d, 1374)])]);
    let mut with_nul = identity_source();
    with_nul.to_unicode =
        ToUnicodeSource::Cmap(vec![CmapEntry { code: 1374, text: vec![0x00, 0x00] }]);
    let mut without = identity_source();
    without.to_unicode = ToUnicodeSource::Cmap(Vec::new());
    let a = PdfCIDFont::new(with_nul, &embedded, &None).unwrap();
    let b = PdfCIDFont::new(without, &embedded, &None).unwrap();
    for cid in [0u32, 1373, 1374, 1375] {
        assert_eq!(a.decode_char(cid), b.decode_char(cid));
    }
    let mut bare = identity_source();
    bare.to_unicode =
        ToUnicodeSource::Cmap(vec![CmapEntry { code: 1374, text: vec![0x00, 0x00] }]);
    let c = PdfCIDFont::new(bare, &None, &None).unwrap();
    assert_eq!(c.decode_char(1374), "");
}

#[test]
fn speaks_unicode_by_platform_and_encoding() {
    assert!(speaks_unicode(Platform::Unicode, 0));
    assert!(speaks_unicode(Platform::Unicode, 77));
    assert!(speaks_unicode(Platform::Windows, 1));
    assert!(speaks_unicode(Platform::Windows, 10));
    assert!(!speaks_unicode(Platform::Windows, 0));
    assert!(!speaks_unicode(Platform::Windows, 2));
    assert!(!speaks_unicode(Platform::Macintosh, 1));
    assert!(!speaks_unicode(Platform::Iso, 10));
    assert!(!speaks_unicode(Platform::Custom, 1));
}

#[test]
fn glyph_characters_keeps_the_last_code_point_of_a_glyph() {
    let map = glyph_characters(&vec![
        mapping(0x2d, 5),
        mapping(0x2010, 5),
        mapping(0xd800, 6),
        mapping(0x41, 7),
        mapping(0x11_0000, 7),
        mapping(0x1f600, 8),
    ]);
    assert_eq!(map.len(), 3);
    assert_eq!(map.get(&5), Some(&"\u{2010}".to_string()));
    assert_eq!(map.get(&7), Some(&"A".to_string()));
    assert_eq!(map.get(&8), Some(&"\u{1f600}".to_string()));
}

#[test]
fn map_cids_goes_through_the_stream() {
    let glyphs = glyph_characters(&vec![mapping(0x41, 1), mapping(0x42, 0x0102), mapping(0x43, 0)]);
    let map = map_cids(&[0x00, 0x00, 0x00, 0x01, 0x01, 0x02, 0x00, 0x09, 0x00], &glyphs);
    assert_eq!(map.len(), 2);
    assert_eq!(map.get(&0), None);
    assert_eq!(map.get(&1), Some(&"A".to_string()));
    assert_eq!(map.get(&2), Some(&"B".to_string()));
    assert_eq!(map.get(&3), None);
    assert_eq!(map.get(&4), None);
    assert!(map_cids(&[], &glyphs).is_empty());
    assert!(map_cids(&[0x00], &glyphs).is_empty());
}

#[test]
fn embedded_fallback_takes_the_first_unicode_map_with_text() {
    let subtables = vec![
        CmapSubtable {
            platform: Platform::Macintosh,
            encoding_id: 0,
            mappings: vec![mapping(0x41, 1)],
        },
        CmapSubtable {
            platform: Platform::Windows,
            encoding_id: 0,
            mappings: vec![mapping(0x42, 1)],
        },
        CmapSubtable { platform: Platform::Unicode, encoding_id: 3, mappings: Vec::new() },
        CmapSubtable {
            platform: Platform::Unicode,
            encoding_id: 4,
            mappings: vec![mapping(0xd800, 1)],
        },
        CmapSubtable {
            platform: Platform::Windows,
            encoding_id: 1,
            mappings: vec![mapping(0x43, 1)],
        },
        CmapSubtable {
            platform: Platform::Windows,
            encoding_id: 10,
            mappings: vec![mapping(0x44, 1)],
        },
    ];
    let map = get_fallback_unicode_from_font(&None, &subtables).unwrap();
    assert_eq!(map.len(), 1);
    assert_eq!(map.get(&1), Some(&"C".to_string()));

    let map = get_fallback_unicode_from_font(&Some(vec![0, 0, 0, 0, 0, 1]), &subtables).unwrap();
    assert_eq!(map.len(), 1);
    assert_eq!(map.get(&2), Some(&"C".to_string()));

    assert!(get_fallback_unicode_from_font(&Some(vec![0, 0, 0, 9]), &subtables).is_none());
    assert!(get_fallback_unicode_from_font(&None, &Vec::new()).is_none());
    assert!(get_fallback_unicode_from_font(&None, &subtables[..4].to_vec()).is_none());
}

#[test]
fn a_stream_that_maps_nothing_passes_on_to_the_next_map() {
    let subtables = vec![
        unicode_subtable(vec![mapping(0x41, 7)]),
        unicode_subtable(vec![mapping(0x42, 2)]),
    ];
    let map = get_fallback_unicode_from_font(&Some(vec![0, 0, 0, 2]), &subtables).unwrap();
    assert_eq!(map.get(&1), Some(&"B".to_string()));
}

#[test]
fn pick_for_width_prefers_space_hyphen_digits_and_punctuation() {
    let f = face();
    assert_eq!(pick_for_width(&f, 667), Some(0x41));
    assert_eq!(pick_for_width(&f, 333), Some(0x2d));
    assert_eq!(pick_for_width(&f, 278), Some(0x20));
    assert_eq!(pick_for_width(&f, 222), Some(0x21));
    assert_eq!(pick_for_width(&f, 488), None);
    assert_eq!(pick_for_width(&f, 0), None);
    assert_eq!(pick_for_width(&f, -5), None);
    let none = FaceAdvances { units_per_em: 0, glyphs: f.glyphs.clone() };
    assert_eq!(pick_for_width(&none, 667), None);
}

#[test]
fn a_width_is_in_thousandths_of_the_em_rounded() {
    let f = FaceAdvances {
        units_per_em: 2048,
        glyphs: vec![
            Advance { codepoint: 0x61, advance: 1023 },
            Advance { codepoint: 0x62, advance: 1024 },
            Advance { codepoint: 0x63, advance: 1025 },
            Advance { codepoint: 0x64, advance: 1 },
            Advance { codepoint: 0x65, advance: 65535 },
        ],
    };
    assert_eq!(pick_for_width(&f, 500), Some(0x61));
    assert_eq!(pick_for_width(&f, 499), None);
    assert_eq!(pick_for_width(&f, 501), None);
    assert_eq!(pick_for_width(&f, 0), Some(0x64));
    assert_eq!(pick_for_width(&f, 32000), Some(0x65));
    assert_eq!(pick_for_width(&f, 31999), None);
    let small = FaceAdvances {
        units_per_em: 16,
        glyphs: vec![Advance { codepoint: 0x61, advance: 65535 }],
    };
    assert_eq!(pick_for_width(&small, 4095938), Some(0x61));
}

#[test]
fn find_width_match_looks_within_two_percent() {
    let f = face();
    assert_eq!(find_width_match(&f, 667), Some(0x41));
    assert_eq!(find_width_match(&f, 666), Some(0x41));
    assert_eq!(find_width_match(&f, 680), Some(0x41));
    assert_eq!(find_width_match(&f, 681), None);
    assert_eq!(find_width_match(&f, 654), Some(0x41));
    assert_eq!(find_width_match(&f, 653), None);
    assert_eq!(find_width_match(&f, 279), Some(0x20));
    assert_eq!(find_width_match(&f, 283), Some(0x20));
    assert_eq!(find_width_match(&f, 284), None);
    assert_eq!(find_width_match(&f, 273), Some(0x20));
    assert_eq!(find_width_match(&f, 272), None);
    assert_eq!(find_width_match(&f, 99), None);
    assert_eq!(find_width_match(&f, 0), None);
    assert_eq!(find_width_match(&f, -1), None);
    assert_eq!(find_width_match(&f, i32::MAX), None);
    assert_eq!(find_width_match(&f, i32::MIN), None);
}

#[test]
fn find_width_match_takes_the_nearer_width_and_above_before_below() {
    let f = FaceAdvances {
        units_per_em: 1000,
        glyphs: vec![
            Advance { codepoint: 0x61, advance: 498 },
            Advance { codepoint: 0x62, advance: 501 },
            Advance { codepoint: 0x63, advance: 499 },
            Advance { codepoint: 0x64, advance: 510 },
        ],
    };
    assert_eq!(find_width_match(&f, 500), Some(0x62));
    assert_eq!(find_width_match(&f, 497), Some(0x61));
    assert_eq!(find_width_match(&f, 505), Some(0x62));
    assert_eq!(find_width_match(&f, 520), Some(0x64));
    assert_eq!(find_width_match(&f, 521), None);
}

#[test]
fn width_fallback_gives_each_matching_cid_a_character() {
    let entries = vec![
        WidthEntry { cid: 1, width: Number::Integer(667) },
        WidthEntry { cid: 2, width: Number::Integer(279) },
        WidthEntry { cid: 3, width: Number::Integer(100) },
        WidthEntry { cid: 4, width: Number::Real(0x43a6_8000) },
        WidthEntry { cid: 5, width: Number::Integer(667) },
        WidthEntry { cid: 5, width: Number::Integer(100) },
        WidthEntry { cid: 6, width: Number::Integer(100) },
        WidthEntry { cid: 6, width: Number::Integer(222) },
    ];
    let widths = widths_map(&entries);
    let map = get_width_fallback_from_system_font(&face(), &entries, &widths).unwrap();
    assert_eq!(map.len(), 4);
    assert_eq!(map.get(&1), Some(&"A".to_string()));
    assert_eq!(map.get(&2), Some(&" ".to_string()));
    assert_eq!(map.get(&4), Some(&"-".to_string()));
    assert_eq!(map.get(&6), Some(&"!".to_string()));

    let none = vec![WidthEntry { cid: 3, width: Number::Integer(100) }];
    assert!(get_width_fallback_from_system_font(&face(), &none, &widths_map(&none)).is_none());
    assert!(get_width_fallback_from_system_font(&face(), &Vec::new(), &widths_map(&Vec::new())).is_none());
}

#[test]
fn the_look_alike_font_comes_last() {
    let mut s = identity_source();
    s.to_unicode = ToUnicodeSource::Cmap(vec![CmapEntry { code: 1, text: vec![0x00, 0x58] }]);
    s.w = Some(vec![
        integer(1),
        WidthItem::Array(vec![
            Some(Number::Integer(667)),
            Some(Number::Integer(667)),
            Some(Number::Integer(667)),
            Some(Number::Integer(50)),
        ]),
    ]);
    let embedded = Some(vec![unicode_subtable(vec![mapping(0x59, 2)])]);
    let font = PdfCIDFont::new(s, &embedded, &Some(face())).unwrap();
    assert_eq!(font.decode_char(1), "X");
    assert_eq!(font.decode_char(2), "Y");
    assert_eq!(font.decode_char(3), "A");
    assert_eq!(font.decode_char(4), "");
    assert_eq!(font.decode_char(5), "");
}

#[test]
fn read_cmap_subtables_lists_the_maps_of_a_font_program() {
    let subtables = read_cmap_subtables(&font_program()).unwrap();
    assert_eq!(subtables.len(), 3);
    let unicode =
        vec![mapping(0x20, 3), mapping(0x2d, 1374), mapping(0x30, 2), mapping(0x41, 1)];
    assert_eq!(subtables[0].platform, Platform::Unicode);
    assert_eq!(subtables[0].encoding_id, 3);
    assert_eq!(subtables[0].mappings, unicode);
    assert_eq!(subtables[1].platform, Platform::Macintosh);
    assert_eq!(subtables[1].encoding_id, 0);
    assert_eq!(subtables[1].mappings, vec![mapping(0x41, 1), mapping(0x42, 2)]);
    assert_eq!(subtables[2].platform, Platform::Windows);
    assert_eq!(subtables[2].encoding_id, 1);
    assert_eq!(subtables[2].mappings, unicode);
}

#[test]
fn read_advances_lists_the_advances_of_a_font_program() {
    let f = read_advances(&font_program()).unwrap();
    assert_eq!(f.units_per_em, 1000);
    let unicode = vec![
        Advance { codepoint: 0x20, advance: 278 },
        Advance { codepoint: 0x2d, advance: 278 },
        Advance { codepoint: 0x30, advance: 556 },
        Advance { codepoint: 0x41, advance: 667 },
    ];
    let mut expected = unicode.clone();
    expected.push(Advance { codepoint: 0x41, advance: 667 });
    expected.push(Advance { codepoint: 0x42, advance: 556 });
    expected.extend(unicode);
    assert_eq!(f.glyphs, expected);
}

#[test]
fn a_font_program_that_is_none_is_not_read() {
    assert!(read_cmap_subtables(&[]).is_none());
    assert!(read_cmap_subtables(b"not a font program at all").is_none());
    assert!(read_advances(&[0, 1, 0, 0]).is_none());
    let mut cut = font_program();
    cut.truncate(40);
    assert!(read_advances(&cut).is_none());
}

#[test]
fn a_loaded_font_reads_its_embedded_program() {
    let mut s = identity_source();
    s.to_unicode =
        ToUnicodeSource::Cmap(vec![CmapEntry { code: 1374, text: vec![0x00, 0x00] }]);
    let font = PdfCIDFont::load(s, &Some(font_program()), &None).unwrap();
    assert_eq!(font.decode_char(1374), "-");
    assert_eq!(font.decode_char(1), "A");
    assert_eq!(font.decode_char(4), "");

    let mut s = identity_source();
    s.cid_to_gid = Some(vec![0x00, 0x00, 0x05, 0x5e, 0x00, 0x02]);
    let font = PdfCIDFont::load(s, &Some(font_program()), &None).unwrap();
    assert_eq!(font.decode_char(1), "-");
    assert_eq!(font.decode_char(2), "0");
    assert_eq!(font.decode_char(1374), "");
}

#[test]
fn a_loaded_font_matches_widths_to_a_look_alike_font() {
    let mut s = identity_source();
    s.w = Some(vec![
        integer(9),
        WidthItem::Array(vec![Some(Number::Integer(667)), Some(Number::Integer(280))]),
    ]);
    let font = PdfCIDFont::load(s, &None, &Some(font_program())).unwrap();
    assert_eq!(font.decode_char(9), "A");
    assert_eq!(font.decode_char(10), " ");
    assert_eq!(font.decode_char(11), "");

    let mut s = identity_source();
    s.w = Some(vec![integer(9), WidthItem::Array(vec![Some(Number::Integer(667))])]);
    let font = PdfCIDFont::load(s, &Some(b"garbage".to_vec()), &Some(b"garbage".to_vec())).unwrap();
    assert_eq!(font.decode_char(9), "");
}

#[test]
fn font_kind_goes_by_the_subtype() {
    assert_eq!(font_kind(b"Type0"), Ok(FontKind::Cid));
    assert_eq!(font_kind(b"Type3"), Ok(FontKind::Type3));
    assert_eq!(font_kind(b"Type1"), Ok(FontKind::Simple));
    assert_eq!(font_kind(b"TrueType"), Ok(FontKind::Simple));
    assert_eq!(font_kind(b"MMType1"), Ok(FontKind::Simple));
    assert_eq!(font_kind(b""), Ok(FontKind::Simple));
    assert_eq!(font_kind(&[0xfe, 0xff, 0x00, 0x54]), Ok(FontKind::Simple));
    assert_eq!(font_kind(&[0xfe, 0xff, 0x00]), Err(FontError::BadName));
}

#[test]
fn make_font_builds_the_kind_that_is_asked_for() {
    let t = empty_tables();
    let simple = SimpleFontSource {
        base_font: b"F".to_vec(),
        subtype: b"Type1".to_vec(),
        encoding: EncodingSource::Absent,
        type1_encoding: None,
        to_unicode: ToUnicodeSource::Absent,
        first_char: Some(65),
        last_char: Some(65),
        widths: Some(vec![Number::Integer(600)]),
        missing_width: None,
    };
    assert!(matches!(make_font(&t, FontSource::Simple(simple.clone())), Ok(PdfFont::Simple(_))));
    assert!(matches!(
        make_font(&t, FontSource::Type3(simple.clone())),
        Err(FontError::BadEncoding)
    ));
    let cid = FontSource::Cid {
        source: identity_source(),
        program: Some(font_program()),
        system_font: None,
    };
    match make_font(&t, cid) {
        Ok(PdfFont::Cid(font)) => assert_eq!(font.decode_char(1374), "-"),
        _ => panic!("no composite font"),
    }
}

#[test]
fn glyphs_of_a_shown_string() {
    let t = empty_tables();
    let simple = SimpleFontSource {
        base_font: b"F".to_vec(),
        subtype: b"Type1".to_vec(),
        encoding: EncodingSource::Absent,
        type1_encoding: None,
        to_unicode: ToUnicodeSource::Absent,
        first_char: Some(32),
        last_char: Some(33),
        widths: Some(vec![Number::Integer(250), Number::Integer(300)]),
        missing_width: Some(Number::Integer(9)),
    };
    let font = make_font(&t, FontSource::Simple(simple.clone())).unwrap();
    let glyphs = font.glyphs(b"a !").unwrap();
    assert_eq!(glyphs.len(), 3);
    assert_eq!((glyphs[0].code, glyphs[0].length, glyphs[0].spaced), (97, 1, false));
    assert_eq!(glyphs[0].text, "a");
    assert_eq!(glyphs[0].width, Number::Integer(9));
    assert_eq!((glyphs[1].code, glyphs[1].length, glyphs[1].spaced), (32, 1, true));
    assert_eq!(glyphs[1].text, " ");
    assert_eq!(glyphs[1].width, Number::Integer(250));
    assert_eq!(glyphs[2].text, "!");
    assert_eq!(glyphs[2].width, Number::Integer(300));
    assert!(font.glyphs(b"").unwrap().is_empty());
    assert_eq!(font.get_font_name(), "F");
    assert_eq!(font.decode_char(0x41), "A");
    assert_eq!(font.get_width(0x41), Some(Number::Integer(9)));
    assert_eq!(font.next_char(b"a", 0), Some((97, 1)));

    let mut type3 = simple;
    type3.encoding = EncodingSource::Dict { base: None, differences: None };
    let font = make_font(&t, FontSource::Type3(type3)).unwrap();
    assert_eq!(font.glyphs(b" !").unwrap().len(), 2);
    assert!(matches!(font.glyphs(b" a!"), Err(FontError::MissingWidth)));
    assert_eq!(font.get_width(0x41), None);
}

#[test]
fn word_spacing_is_for_the_single_byte_code_32_only() {
    let t = empty_tables();
    let cid = FontSource::Cid { source: identity_source(), program: None, system_font: None };
    let font = make_font(&t, cid).unwrap();
    let glyphs = font.glyphs(&[0x00, 0x20, 0x00, 0x41, 0x00]).unwrap();
    assert_eq!(glyphs.len(), 2);
    assert_eq!((glyphs[0].code, glyphs[0].length, glyphs[0].spaced), (32, 2, false));
    assert_eq!((glyphs[1].code, glyphs[1].length, glyphs[1].spaced), (0x41, 2, false));
    assert_eq!(glyphs[0].width, Number::Integer(1000));

    let mut source = identity_source();
    source.encoding = CidEncodingSource::Cmap(ByteMapping {
        codespace: vec![CodeRange { width: 1, start: 0, end: 0xff }],
        cid: vec![CidRange { src_code_lo: 0, src_code_hi: 0xff, dst_cid_lo: 0 }],
    });
    let font =
        make_font(&t, FontSource::Cid { source, program: None, system_font: None }).unwrap();
    let glyphs = font.glyphs(b" A").unwrap();
    assert_eq!((glyphs[0].code, glyphs[0].length, glyphs[0].spaced), (32, 1, true));
    assert_eq!((glyphs[1].code, glyphs[1].length, glyphs[1].spaced), (65, 1, false));
}

#[test]
fn the_whole_part_of_a_number() {
    assert_eq!(Number::Integer(0).to_whole(), 0);
    assert_eq!(Number::Integer(667).to_whole(), 667);
    assert_eq!(Number::Integer(-5).to_whole(), -5);
    assert_eq!(Number::Integer(i64::MAX).to_whole(), i32::MAX);
    assert_eq!(Number::Integer(i64::MIN).to_whole(), i32::MIN);
    assert_eq!(Number::Integer(2147483648).to_whole(), i32::MAX);
    assert_eq!(Number::Real(333.9f32.to_bits()).to_whole(), 333);
    assert_eq!(Number::Real((-333.9f32).to_bits()).to_whole(), -333);
    assert_eq!(Number::Real(0.99f32.to_bits()).to_whole(), 0);
    assert_eq!(Number::Real(f32::NAN.to_bits()).to_whole(), 0);
    assert_eq!(Number::Real(f32::INFINITY.to_bits()).to_whole(), i32::MAX);
    assert_eq!(Number::Real(f32::NEG_INFINITY.to_bits()).to_whole(), i32::MIN);
}

#[test]
fn the_whole_part_of_a_real_is_its_cast() {
    let mut samples: Vec<f32> = vec![
        0.0,
        -0.0,
        0.5,
        1.0,
        1.5,
        -1.5,
        2.0,
        277.832,
        1000.0,
        8388607.5,
        8388608.0,
        16777215.0,
        16777216.0,
        2147483520.0,
        2147483648.0,
        -2147483648.0,
        -2147483904.0,
        4294967296.0,
        1.0e30,
        -1.0e30,
        f32::MIN_POSITIVE,
        f32::MAX,
        f32::MIN,
        f32::EPSILON,
    ];
    let mut bits: u32 = 0x0000_0001;
    for _ in 0..4000 {
        samples.push(f32::from_bits(bits));
        bits = bits.wrapping_mul(1_664_525).wrapping_add(1_013_904_223);
    }
    for exponent in 120u32..165 {
        for fraction in [0u32, 1, 0x40_0000, 0x7f_ffff, 0x12_3456] {
            samples.push(f32::from_bits(exponent << 23 | fraction));
            samples.push(f32::from_bits(0x8000_0000 | exponent << 23 | fraction));
        }
    }
    for x in samples {
        assert_eq!(Number::Real(x.to_bits()).to_whole(), x as i32, "{}", x);
    }
}

#[test]
fn a_shown_string_decodes_code_by_code() {
    let t = empty_tables();
    let simple = SimpleFontSource {
        base_font: b"F".to_vec(),
        subtype: b"Type1".to_vec(),
        encoding: EncodingSource::Absent,
        type1_encoding: None,
        to_unicode: ToUnicodeSource::Cmap(vec![CmapEntry {
            code: 0x66,
            text: vec![0x00, 0x66, 0x00, 0x66],
        }]),
        first_char: None,
        last_char: None,
        widths: None,
        missing_width: None,
    };
    let font = make_font(&t, FontSource::Simple(simple)).unwrap();
    assert_eq!(font.char_codes(b"of"), vec![(0x6f, 1), (0x66, 1)]);
    assert_eq!(font.decode(b"o\x7ff\x80"), "off\u{2022}");
    assert_eq!(font.decode(b""), "");

    let mut source = identity_source();
    source.to_unicode =
        ToUnicodeSource::Cmap(vec![CmapEntry { code: 0x0102, text: vec![0x00, 0x41] }]);
    let font =
        make_font(&t, FontSource::Cid { source, program: None, system_font: None }).unwrap();
    assert_eq!(font.char_codes(&[1, 2, 3, 4, 5]), vec![(0x0102, 2), (0x0304, 2)]);
    assert_eq!(font.decode(&[1, 2, 3, 4, 1, 2, 9]), "AA");
}

#[test]
fn hello_in_a_standard_font() {

    let names = [("H", 72u16, 722i64), ("e", 101, 556), ("l", 108, 222), ("o", 111, 556)];
    let mut t = empty_tables();
    t.glyphs = GlyphNames::new(
        names.iter().map(|(n, code, _)| GlyphEntry { name: n.to_string(), code: *code }).collect(),
    )
    .unwrap();
    t.core_fonts = vec![CoreFont {
        name: "Helvetica".to_string(),
        glyphs: names
            .iter()
            .map(|(n, code, width)| CoreGlyph {
                code: i64::from(*code),
                width: *width,
                name: n.to_string(),
            })
            .collect(),
    }];
    let source = SimpleFontSource {
        base_font: b"Helvetica".to_vec(),
        subtype: b"Type1".to_vec(),
        encoding: EncodingSource::Absent,
        type1_encoding: None,
        to_unicode: ToUnicodeSource::Absent,
        first_char: None,
        last_char: None,
        widths: None,
        missing_width: None,
    };
    let font = make_font(&t, FontSource::Simple(source)).unwrap();
    assert_eq!(font.get_font_name(), "Helvetica");

    let shown = match decode_operation("Tj", vec![Operand::String(b"Hello".to_vec())]) {
        Ok(Instruction::ShowString(s)) => s,
        _ => panic!("no string"),
    };
    let glyphs = font.glyphs(&shown).unwrap();
    let widths: Vec<Number> = glyphs.iter().map(|g| g.width).collect();
    assert_eq!(
        widths,
        vec![
            Number::Integer(722),
            Number::Integer(556),
            Number::Integer(222),
            Number::Integer(222),
            Number::Integer(556),
        ]
    );
    let mut buffer = SpanBuffer::new();
    for glyph in &glyphs {
        buffer.push(&glyph.text, false);
    }
    let text = buffer.flush().unwrap();
    assert_eq!(text, "Hello");
    let lines = vec![vec![Cell { text, place: Placement::StartAt(25) }]];
    assert_eq!(to_string_plain(&lines), "Hello\n");
}
