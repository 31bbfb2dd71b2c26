use pdf_strings::fontdata::{
    CmapEntry, DiffItem, EncodingSource, Number, SimpleFontSource, ToUnicodeSource, Type1Entry,
};
use pdf_strings::names::{GlyphEntry, GlyphNames};
use pdf_strings::simplefont::{PdfSimpleFont, PdfType3Font};
use pdf_strings::tables::{
    bytes_are, encoding_to_unicode_table, is_core_font, CoreFont, CoreGlyph, FontError,
    FontTables,
};
use pdf_strings::tounicode::{get_unicode_map, unicode_map_from_cmap};
use pdf_strings::widths::widths_from_array;

fn entry(name: &str, code: u16) -> GlyphEntry {
    GlyphEntry { name: name.to_string(), code }
}

fn glyph(code: i64, width: i64, name: &str) -> CoreGlyph {
    CoreGlyph { code, width, name: name.to_string() }
}

fn slots(assigned: &[(usize, &str)]) -> Vec<Option<String>> {
    let mut table: Vec<Option<String>> = vec![None; 256];
    for (code, name) in assigned {
        table[*code] = Some(name.to_string());
    }
    table
}

fn tables() -> FontTables {
    let glyphs = GlyphNames::new(vec![
        entry("A", 0x41),
        entry("B", 0x42),
        entry("H", 0x48),
        entry("V", 0x56),
        entry("a", 0x61),
        entry("bullet", 0x2022),
        entry("e", 0x65),
        entry("eacute", 0xe9),
        entry("fi", 0xfb01),
        entry("hyphen", 0x2d),
        entry("l", 0x6c),
        entry("o", 0x6f),
        entry("space", 0x20),
    ])
    .unwrap();
    let zapf = GlyphNames::new(vec![entry("a1", 0x2701), entry("a2", 0x2702)]).unwrap();
    FontTables {
        glyphs,
        zapf_dingbats: zapf,
        mac_roman: slots(&[(0x20, "space"), (0x41, "A"), (0x8e, "eacute"), (0xde, "fi")]),
        mac_expert: slots(&[(0x20, "space"), (0x56, "fi")]),
        win_ansi: slots(&[
            (0x20, "space"),
            (0x2d, "hyphen"),
            (0x41, "A"),
            (0x42, "B"),
            (0x48, "H"),
            (0x56, "V"),
            (0x61, "a"),
            (0x65, "e"),
            (0x6c, "l"),
            (0x6f, "o"),
            (0x95, "bullet"),
            (0xe9, "eacute"),
        ]),
        core_fonts: vec![
            CoreFont {
                name: "Helvetica".to_string(),
                glyphs: vec![
                    glyph(32, 278, "space"),
                    glyph(45, 333, "hyphen"),
                    glyph(65, 667, "A"),
                    glyph(72, 722, "H"),
                    glyph(86, 667, "V"),
                    glyph(101, 556, "e"),
                    glyph(108, 222, "l"),
                    glyph(111, 556, "o"),
                    glyph(-1, 556, "eacute"),
                ],
            },
            CoreFont {
                name: "ZapfDingbats".to_string(),
                glyphs: vec![glyph(33, 974, "a1"), glyph(34, 961, "a2")],
            },
        ],
    }
}

fn source(base_font: &str, subtype: &str) -> SimpleFontSource {
    SimpleFontSource {
        base_font: base_font.as_bytes().to_vec(),
        subtype: subtype.as_bytes().to_vec(),
        encoding: EncodingSource::Absent,
        type1_encoding: None,
        to_unicode: ToUnicodeSource::Absent,
        first_char: None,
        last_char: None,
        widths: None,
        missing_width: None,
    }
}

fn name(text: &str) -> DiffItem {
    DiffItem::Name(text.as_bytes().to_vec())
}

fn error_of(result: Result<PdfSimpleFont, FontError>) -> FontError {
    match result {
        Ok(_) => panic!("a font was built"),
        Err(error) => error,
    }
}

fn type3_error_of(result: Result<PdfType3Font, FontError>) -> FontError {
    match result {
        Ok(_) => panic!("a font was built"),
        Err(error) => error,
    }
}

#[test]
fn tables_are_well_formed_with_256_slots() {
    let mut t = tables();
    assert!(t.is_well_formed());
    t.mac_expert.pop();
    assert!(!t.is_well_formed());
}

#[test]
fn core_fonts_are_the_fourteen() {
    for name in [
        "Courier",
        "Courier-Bold",
        "Courier-BoldOblique",
        "Courier-Oblique",
        "Helvetica",
        "Helvetica-Bold",
        "Helvetica-BoldOblique",
        "Helvetica-Oblique",
        "Symbol",
        "Times-Bold",
        "Times-BoldItalic",
        "Times-Italic",
        "Times-Roman",
        "ZapfDingbats",
    ] {
        assert!(is_core_font(name), "{}", name);
    }
    assert!(!is_core_font("Arial"));
    assert!(!is_core_font("helvetica"));
    assert!(!is_core_font("Helvetica-"));
    assert!(!is_core_font(""));
}

#[test]
fn bytes_are_compares_with_a_text() {
    assert!(bytes_are(b"WinAnsiEncoding", "WinAnsiEncoding"));
    assert!(!bytes_are(b"WinAnsiEncodin", "WinAnsiEncoding"));
    assert!(!bytes_are(b"winansiencoding", "WinAnsiEncoding"));
}

#[test]
fn encoding_to_unicode_table_resolves_the_names() {
    let t = tables();
    let table = encoding_to_unicode_table(&t, b"MacRomanEncoding").unwrap();
    assert_eq!(table.len(), 256);
    assert_eq!(table[0x20], 0x20);
    assert_eq!(table[0x41], 0x41);
    assert_eq!(table[0x8e], 0xe9);
    assert_eq!(table[0xde], 0xfb01);
    assert_eq!(table[0x42], 0);
    let table = encoding_to_unicode_table(&t, b"WinAnsiEncoding").unwrap();
    assert_eq!(table[0x95], 0x2022);
    assert_eq!(table[0xe9], 0xe9);
    let table = encoding_to_unicode_table(&t, b"MacExpertEncoding").unwrap();
    assert_eq!(table[0x56], 0xfb01);
}

#[test]
fn encoding_to_unicode_table_knows_three_names() {
    let t = tables();
    assert_eq!(
        encoding_to_unicode_table(&t, b"StandardEncoding"),
        Err(FontError::UnknownEncoding)
    );
    assert_eq!(encoding_to_unicode_table(&t, b""), Err(FontError::UnknownEncoding));
}

#[test]
fn encoding_to_unicode_table_needs_every_glyph() {
    let mut t = tables();
    t.mac_roman[0x43] = Some("Cx".to_string());
    assert_eq!(
        encoding_to_unicode_table(&t, b"MacRomanEncoding"),
        Err(FontError::UnknownGlyph)
    );
}

#[test]
fn a_named_encoding_decodes_by_its_table() {
    let t = tables();
    let mut s = source("ABCDEF+Arial", "TrueType");
    s.encoding = EncodingSource::Name(b"MacRomanEncoding".to_vec());
    let font = PdfSimpleFont::new(&t, &s).unwrap();
    assert_eq!(font.get_font_name(), "ABCDEF+Arial");
    assert_eq!(font.decode_char(0x8e), "\u{e9}");
    assert_eq!(font.decode_char(0xde), "\u{fb01}");
    assert_eq!(font.decode_char(0x42), "");
    assert_eq!(font.decode_char(0x18e), "\u{e9}");
}

#[test]
fn truetype_without_encoding_is_win_ansi() {
    let t = tables();
    let font = PdfSimpleFont::new(&t, &source("Arial", "TrueType")).unwrap();
    assert_eq!(font.decode_char(0x95), "\u{2022}");
    assert_eq!(font.decode_char(0x41), "A");
    assert_eq!(font.decode_char(0x80), "");
}

#[test]
fn a_font_without_encoding_falls_back_on_pdf_doc_encoding() {
    let t = tables();
    let font = PdfSimpleFont::new(&t, &source("Unknown", "Type1")).unwrap();
    assert_eq!(font.decode_char(0x41), "A");
    assert_eq!(font.decode_char(0x80), "\u{2022}");
    assert_eq!(font.decode_char(0x7f), "");
    assert_eq!(font.get_width(0x41), Number::Integer(0));
}

#[test]
fn differences_give_names_to_consecutive_codes() {
    let t = tables();
    let mut s = source("Custom", "Type1");
    s.encoding = EncodingSource::Dict {
        base: None,
        differences: Some(vec![
            DiffItem::Code(65),
            name("B"),
            name("A"),
            name("nosuchglyph"),
            name("fi"),
            DiffItem::Code(200),
            name("eacute"),
        ]),
    };
    let font = PdfSimpleFont::new(&t, &s).unwrap();
    assert_eq!(font.decode_char(65), "B");
    assert_eq!(font.decode_char(66), "A");
    assert_eq!(font.decode_char(67), "C");
    assert_eq!(font.decode_char(68), "\u{fb01}");
    assert_eq!(font.decode_char(200), "\u{e9}");
    assert_eq!(font.decode_char(72), "H");
}

#[test]
fn differences_start_at_code_zero() {
    let t = tables();
    let mut s = source("Custom", "Type1");
    s.encoding =
        EncodingSource::Dict { base: None, differences: Some(vec![name("A"), name("B")]) };
    let font = PdfSimpleFont::new(&t, &s).unwrap();
    assert_eq!(font.decode_char(0), "A");
    assert_eq!(font.decode_char(1), "B");
}

#[test]
fn differences_lie_over_a_base_encoding() {
    let t = tables();
    let mut s = source("Custom", "Type1");
    s.encoding = EncodingSource::Dict {
        base: Some(b"MacRomanEncoding".to_vec()),
        differences: Some(vec![DiffItem::Code(0x42), name("bullet")]),
    };
    let font = PdfSimpleFont::new(&t, &s).unwrap();
    assert_eq!(font.decode_char(0x42), "\u{2022}");
    assert_eq!(font.decode_char(0x8e), "\u{e9}");
    assert_eq!(font.decode_char(0x43), "");
}

#[test]
fn an_encoding_dictionary_without_differences_is_its_base() {
    let t = tables();
    let mut s = source("Custom", "Type1");
    s.encoding = EncodingSource::Dict { base: None, differences: None };
    let font = PdfSimpleFont::new(&t, &s).unwrap();
    assert_eq!(font.decode_char(0x80), "\u{2022}");
}

#[test]
fn differences_fill_free_slots_of_the_to_unicode_map() {
    let t = tables();
    let mut s = source("Custom", "Type1");
    s.to_unicode =
        ToUnicodeSource::Cmap(vec![CmapEntry { code: 65, text: vec![0x00, 0x58] }]);
    s.encoding = EncodingSource::Dict {
        base: None,
        differences: Some(vec![DiffItem::Code(65), name("B"), name("a")]),
    };
    let font = PdfSimpleFont::new(&t, &s).unwrap();
    assert_eq!(font.decode_char(65), "X");
    assert_eq!(font.decode_char(66), "a");
    assert_eq!(font.decode_char(67), "C");
}

#[test]
fn an_icon_font_gets_empty_text_for_unknown_glyphs() {
    let t = tables();
    let mut s = source("ABCDEF+FontAwesome5Free-Solid", "Type1");
    s.to_unicode = ToUnicodeSource::Cmap(Vec::new());
    s.encoding = EncodingSource::Dict {
        base: None,
        differences: Some(vec![DiffItem::Code(65), name("uniF0C9")]),
    };
    let font = PdfSimpleFont::new(&t, &s).unwrap();
    assert_eq!(font.decode_char(65), "");
    assert_eq!(font.decode_char(66), "B");

    let mut plain = s.clone();
    plain.base_font = b"Helvetica".to_vec();
    let font = PdfSimpleFont::new(&t, &plain).unwrap();
    assert_eq!(font.decode_char(65), "A");
}

#[test]
fn an_icon_font_does_not_overwrite_the_to_unicode_map() {
    let t = tables();
    let mut s = source("FontAwesome", "Type1");
    s.to_unicode =
        ToUnicodeSource::Cmap(vec![CmapEntry { code: 65, text: vec![0x00, 0x58] }]);
    s.encoding = EncodingSource::Dict {
        base: None,
        differences: Some(vec![DiffItem::Code(65), name("uniF0C9")]),
    };
    assert_eq!(error_of(PdfSimpleFont::new(&t, &s)), FontError::OccupiedEntry);
}

#[test]
fn differences_hold_integers_and_names_only() {
    let t = tables();
    let mut s = source("Custom", "Type1");
    s.encoding = EncodingSource::Dict {
        base: None,
        differences: Some(vec![DiffItem::Code(65), DiffItem::Other]),
    };
    assert_eq!(error_of(PdfSimpleFont::new(&t, &s)), FontError::BadDifferences);
}

#[test]
fn differences_stay_within_the_256_codes() {
    let t = tables();
    let mut s = source("Custom", "Type1");
    s.encoding = EncodingSource::Dict {
        base: None,
        differences: Some(vec![DiffItem::Code(256), name("A")]),
    };
    assert_eq!(error_of(PdfSimpleFont::new(&t, &s)), FontError::CodeOutOfRange);
    s.encoding = EncodingSource::Dict {
        base: None,
        differences: Some(vec![DiffItem::Code(-1), name("A")]),
    };
    assert_eq!(error_of(PdfSimpleFont::new(&t, &s)), FontError::CodeOutOfRange);
    s.encoding = EncodingSource::Dict {
        base: None,
        differences: Some(vec![DiffItem::Code(255), name("A"), name("nosuchglyph")]),
    };
    assert!(PdfSimpleFont::new(&t, &s).is_ok());
    s.encoding = EncodingSource::Dict {
        base: None,
        differences: Some(vec![DiffItem::Code(i64::MAX), name("nosuchglyph")]),
    };
    assert_eq!(error_of(PdfSimpleFont::new(&t, &s)), FontError::CodeOutOfRange);
}

#[test]
fn a_name_with_malformed_utf16_is_refused() {
    let t = tables();
    let mut s = source("Custom", "Type1");
    s.base_font = vec![0xfe, 0xff, 0xd8, 0x00];
    assert_eq!(error_of(PdfSimpleFont::new(&t, &s)), FontError::BadName);
    let mut s = source("Custom", "Type1");
    s.subtype = vec![0xfe, 0xff, 0x00];
    assert_eq!(error_of(PdfSimpleFont::new(&t, &s)), FontError::BadName);
    let mut s = source("Custom", "Type1");
    s.encoding = EncodingSource::Dict {
        base: None,
        differences: Some(vec![DiffItem::Name(vec![0xfe, 0xff, 0xdc, 0x00])]),
    };
    assert_eq!(error_of(PdfSimpleFont::new(&t, &s)), FontError::BadName);
}

#[test]
fn an_encoding_is_a_name_or_a_dictionary() {
    let t = tables();
    let mut s = source("Custom", "Type1");
    s.encoding = EncodingSource::Other;
    assert_eq!(error_of(PdfSimpleFont::new(&t, &s)), FontError::BadEncoding);
    s.encoding = EncodingSource::Name(b"Nonsense".to_vec());
    assert_eq!(error_of(PdfSimpleFont::new(&t, &s)), FontError::UnknownEncoding);
    s.encoding = EncodingSource::Dict { base: Some(b"Nonsense".to_vec()), differences: None };
    assert_eq!(error_of(PdfSimpleFont::new(&t, &s)), FontError::UnknownEncoding);
}

#[test]
fn a_type1_program_brings_its_own_encoding() {
    let t = tables();
    let mut s = source("Custom", "Type1");
    s.type1_encoding = Some(vec![
        Type1Entry { code: 1, name: b"A".to_vec() },
        Type1Entry { code: 2, name: b"nosuchglyph".to_vec() },
        Type1Entry { code: 65, name: b"fi".to_vec() },
    ]);
    let font = PdfSimpleFont::new(&t, &s).unwrap();
    assert_eq!(font.decode_char(1), "A");
    assert_eq!(font.decode_char(2), "\u{2}");
    assert_eq!(font.decode_char(65), "\u{fb01}");
    assert_eq!(font.decode_char(66), "B");

    s.type1_encoding = Some(vec![Type1Entry { code: 256, name: b"A".to_vec() }]);
    assert_eq!(error_of(PdfSimpleFont::new(&t, &s)), FontError::CodeOutOfRange);
    s.type1_encoding = Some(vec![Type1Entry { code: 256, name: b"nosuchglyph".to_vec() }]);
    assert!(PdfSimpleFont::new(&t, &s).is_ok());
}

#[test]
fn an_encoding_entry_goes_before_the_type1_program() {
    let t = tables();
    let mut s = source("Custom", "Type1");
    s.type1_encoding = Some(vec![Type1Entry { code: 65, name: b"B".to_vec() }]);
    s.encoding = EncodingSource::Name(b"WinAnsiEncoding".to_vec());
    let font = PdfSimpleFont::new(&t, &s).unwrap();
    assert_eq!(font.decode_char(65), "A");
}

#[test]
fn declared_widths_start_at_first_char() {
    let t = tables();
    let mut s = source("Custom", "Type1");
    s.first_char = Some(65);
    s.last_char = Some(67);
    s.widths =
        Some(vec![Number::Integer(500), Number::Real(0x438a_d47b), Number::Integer(700)]);
    s.missing_width = Some(Number::Integer(250));
    let font = PdfSimpleFont::new(&t, &s).unwrap();
    assert_eq!(font.get_width(65), Number::Integer(500));
    assert_eq!(font.get_width(66), Number::Real(0x438a_d47b));
    assert_eq!(font.get_width(67), Number::Integer(700));
    assert_eq!(font.get_width(64), Number::Integer(250));
    assert_eq!(font.get_width(68), Number::Integer(250));
}

#[test]
fn declared_widths_must_count_up_to_last_char() {
    let t = tables();
    let mut s = source("Custom", "Type1");
    s.first_char = Some(65);
    s.last_char = Some(68);
    s.widths = Some(vec![Number::Integer(500), Number::Integer(600)]);
    assert_eq!(error_of(PdfSimpleFont::new(&t, &s)), FontError::WidthCount);
    s.last_char = Some(66);
    assert!(PdfSimpleFont::new(&t, &s).is_ok());
    s.first_char = Some(i64::MAX);
    s.last_char = Some(i64::MIN);
    assert_eq!(error_of(PdfSimpleFont::new(&t, &s)), FontError::WidthCount);
}

#[test]
fn widths_from_array_takes_an_empty_array() {
    let map = widths_from_array(10, 9, &Vec::new()).unwrap();
    assert!(map.is_empty());
    assert_eq!(widths_from_array(10, 10, &Vec::new()), Err(FontError::WidthCount));
    let map = widths_from_array(-1, 0, &vec![Number::Integer(1), Number::Integer(2)]).unwrap();
    assert_eq!(map.get(&0xffff_ffff), Some(&Number::Integer(1)));
    assert_eq!(map.get(&0), Some(&Number::Integer(2)));
}

#[test]
fn a_standard_font_without_encoding_goes_by_its_own_codes() {
    let t = tables();
    let font = PdfSimpleFont::new(&t, &source("Helvetica", "Type1")).unwrap();
    assert_eq!(font.decode_char(72), "H");
    assert_eq!(font.decode_char(101), "e");
    assert_eq!(font.decode_char(45), "-");
    assert_eq!(font.decode_char(66), "");
    assert_eq!(font.get_width(72), Number::Integer(722));
    assert_eq!(font.get_width(108), Number::Integer(222));
    assert_eq!(font.get_width(32), Number::Integer(278));
    assert_eq!(font.get_width(0xffff_ffff), Number::Integer(556));
    assert_eq!(font.get_width(66), Number::Integer(0));
}

#[test]
fn zapf_dingbats_goes_by_its_own_glyph_names() {
    let t = tables();
    let font = PdfSimpleFont::new(&t, &source("ZapfDingbats", "Type1")).unwrap();
    assert_eq!(font.decode_char(33), "\u{2701}");
    assert_eq!(font.decode_char(34), "\u{2702}");
    assert_eq!(font.get_width(33), Number::Integer(974));
}

#[test]
fn a_standard_font_with_encoding_has_widths_by_code_point() {
    let t = tables();
    let mut s = source("Helvetica", "Type1");
    s.encoding = EncodingSource::Dict {
        base: Some(b"WinAnsiEncoding".to_vec()),
        differences: Some(vec![DiffItem::Code(1), name("A"), DiffItem::Code(200), name("A")]),
    };
    let font = PdfSimpleFont::new(&t, &s).unwrap();
    assert_eq!(font.get_width(0x41), Number::Integer(667));
    assert_eq!(font.get_width(1), Number::Integer(667));
    assert_eq!(font.get_width(200), Number::Integer(667));
    assert_eq!(font.get_width(0x48), Number::Integer(722));
    assert_eq!(font.get_width(0xe9), Number::Integer(556));
    assert_eq!(font.get_width(0x42), Number::Integer(0));
    assert_eq!(font.get_width(0x95), Number::Integer(0));
}

#[test]
fn a_standard_font_needs_its_glyph_names() {
    let t = tables();
    let mut s = source("ZapfDingbats", "Type1");
    s.encoding = EncodingSource::Name(b"WinAnsiEncoding".to_vec());
    assert_eq!(error_of(PdfSimpleFont::new(&t, &s)), FontError::UnknownGlyph);

    let mut t = tables();
    t.core_fonts[0].glyphs.push(glyph(300, 500, "A"));
    assert_eq!(
        error_of(PdfSimpleFont::new(&t, &source("Helvetica", "Type1"))),
        FontError::CodeOutOfRange
    );
    let mut t = tables();
    t.core_fonts[0].glyphs.push(glyph(40, 500, "nosuchglyph"));
    assert_eq!(
        error_of(PdfSimpleFont::new(&t, &source("Helvetica", "Type1"))),
        FontError::UnknownGlyph
    );
    let mut t = tables();
    t.core_fonts[0].glyphs.push(glyph(-1, 500, "nosuchglyph"));
    assert!(PdfSimpleFont::new(&t, &source("Helvetica", "Type1")).is_ok());
}

#[test]
fn declared_widths_go_before_those_of_a_standard_font() {
    let t = tables();
    let mut s = source("Helvetica", "Type1");
    s.first_char = Some(72);
    s.last_char = Some(72);
    s.widths = Some(vec![Number::Integer(1)]);
    let font = PdfSimpleFont::new(&t, &s).unwrap();
    assert_eq!(font.get_width(72), Number::Integer(1));
    assert_eq!(font.get_width(101), Number::Integer(0));
    assert_eq!(font.decode_char(72), "H");
}

#[test]
fn a_simple_font_reads_one_byte_at_a_time() {
    let t = tables();
    let font = PdfSimpleFont::new(&t, &source("Helvetica", "Type1")).unwrap();
    assert_eq!(font.next_char(b"Hi", 0), Some((72, 1)));
    assert_eq!(font.next_char(b"Hi", 1), Some((105, 1)));
    assert_eq!(font.next_char(b"Hi", 2), None);
    assert_eq!(font.next_char(b"", 0), None);
    assert_eq!(font.next_char(&[0xff], 0), Some((255, 1)));
}

#[test]
fn the_to_unicode_map_goes_before_the_encoding() {
    let t = tables();
    let mut s = source("Custom", "TrueType");
    s.to_unicode = ToUnicodeSource::Cmap(vec![
        CmapEntry { code: 65, text: vec![0x00, 0x66, 0x00, 0x66, 0x00, 0x69] },
        CmapEntry { code: 66, text: vec![0xd8, 0x3d, 0xde, 0x00] },
        CmapEntry { code: 67, text: Vec::new() },
    ]);
    let font = PdfSimpleFont::new(&t, &s).unwrap();
    assert_eq!(font.decode_char(65), "ffi");
    assert_eq!(font.decode_char(66), "\u{1f600}");
    assert_eq!(font.decode_char(67), "");
    assert_eq!(font.decode_char(0x48), "H");
}

#[test]
fn unicode_map_from_cmap_leaves_out_lone_surrogates() {
    let map = unicode_map_from_cmap(&vec![
        CmapEntry { code: 1, text: vec![0xd8, 0x00] },
        CmapEntry { code: 2, text: vec![0xdf, 0xff] },
        CmapEntry { code: 3, text: vec![0x00, 0x41] },
        CmapEntry { code: 3, text: vec![0x00, 0x42] },
        CmapEntry { code: 4, text: vec![0x00, 0x00] },
    ])
    .unwrap();
    assert_eq!(map.len(), 2);
    assert_eq!(map.get(&3), Some(&"B".to_string()));
    assert_eq!(map.get(&4), Some(&"\u{0}".to_string()));
}

#[test]
fn unicode_map_from_cmap_keeps_an_earlier_text_behind_a_surrogate() {
    let map = unicode_map_from_cmap(&vec![
        CmapEntry { code: 1, text: vec![0x00, 0x41] },
        CmapEntry { code: 1, text: vec![0xd8, 0x00] },
    ])
    .unwrap();
    assert_eq!(map.get(&1), Some(&"A".to_string()));
}

#[test]
fn unicode_map_from_cmap_refuses_malformed_text() {
    assert!(unicode_map_from_cmap(&vec![CmapEntry { code: 1, text: vec![0x00] }]).is_none());
    assert!(unicode_map_from_cmap(&vec![CmapEntry { code: 1, text: vec![0x00, 0x41, 0x00] }])
        .is_none());
    assert!(unicode_map_from_cmap(&vec![CmapEntry {
        code: 1,
        text: vec![0xd8, 0x00, 0x00, 0x41]
    }])
    .is_none());
    assert!(unicode_map_from_cmap(&vec![
        CmapEntry { code: 1, text: vec![0x00, 0x41] },
        CmapEntry { code: 2, text: vec![0xdc, 0x00, 0xd8, 0x00] },
    ])
    .is_none());
}

#[test]
fn get_unicode_map_reads_each_kind_of_entry() {
    assert_eq!(get_unicode_map(&ToUnicodeSource::Absent), Ok(None));
    assert_eq!(get_unicode_map(&ToUnicodeSource::Name(b"Identity-H".to_vec())), Ok(None));
    assert_eq!(
        get_unicode_map(&ToUnicodeSource::Name(b"Identity-V".to_vec())),
        Err(FontError::UnsupportedToUnicode)
    );
    assert_eq!(
        get_unicode_map(&ToUnicodeSource::Name(vec![0xfe, 0xff, 0x00])),
        Err(FontError::UnsupportedToUnicode)
    );
    assert_eq!(
        get_unicode_map(&ToUnicodeSource::Other),
        Err(FontError::UnsupportedToUnicode)
    );
    assert_eq!(
        get_unicode_map(&ToUnicodeSource::Cmap(vec![CmapEntry { code: 1, text: vec![0] }])),
        Err(FontError::BadToUnicode)
    );
    let map = get_unicode_map(&ToUnicodeSource::Cmap(vec![CmapEntry {
        code: 7,
        text: vec![0x20, 0xac],
    }]))
    .unwrap()
    .unwrap();
    assert_eq!(map.get(&7), Some(&"\u{20ac}".to_string()));
}

#[test]
fn a_type3_font_needs_encoding_and_widths() {
    let t = tables();
    let mut s = source("T3", "Type3");
    assert_eq!(type3_error_of(PdfType3Font::new(&t, &s)), FontError::BadEncoding);
    s.encoding = EncodingSource::Other;
    assert_eq!(type3_error_of(PdfType3Font::new(&t, &s)), FontError::BadEncoding);
    s.encoding = EncodingSource::Name(b"WinAnsiEncoding".to_vec());
    assert_eq!(type3_error_of(PdfType3Font::new(&t, &s)), FontError::MissingWidths);
    s.first_char = Some(65);
    s.last_char = Some(66);
    assert_eq!(type3_error_of(PdfType3Font::new(&t, &s)), FontError::MissingWidths);
    s.widths = Some(vec![Number::Integer(10)]);
    assert_eq!(type3_error_of(PdfType3Font::new(&t, &s)), FontError::WidthCount);
    s.widths = Some(vec![Number::Integer(10), Number::Integer(20)]);
    let font = PdfType3Font::new(&t, &s).unwrap();
    assert_eq!(font.get_font_name(), "T3");
    assert!(font.has_width(65));
    assert!(font.has_width(66));
    assert!(!font.has_width(67));
    assert_eq!(font.get_width(65), Number::Integer(10));
    assert_eq!(font.get_width(66), Number::Integer(20));
    assert_eq!(font.decode_char(65), "A");
    assert_eq!(font.decode_char(0x95), "\u{2022}");
    assert_eq!(font.next_char(b"AB", 1), Some((66, 1)));
    assert_eq!(font.next_char(b"AB", 2), None);
}

#[test]
fn a_type3_font_keeps_its_to_unicode_map_through_differences() {
    let t = tables();
    let mut s = source("FontAwesome", "Type3");
    s.to_unicode =
        ToUnicodeSource::Cmap(vec![CmapEntry { code: 65, text: vec![0x00, 0x58] }]);
    s.encoding = EncodingSource::Dict {
        base: None,
        differences: Some(vec![DiffItem::Code(65), name("nosuchglyph"), name("a")]),
    };
    s.first_char = Some(65);
    s.last_char = Some(65);
    s.widths = Some(vec![Number::Integer(10)]);
    let font = PdfType3Font::new(&t, &s).unwrap();
    assert_eq!(font.decode_char(65), "X");
    assert_eq!(font.decode_char(66), "a");
    assert_eq!(font.decode_char(67), "C");
}

#[test]
fn the_standard_tables_are_in_order() {
    let t = FontTables::standard().unwrap();
    assert!(t.is_well_formed());
    assert_eq!(t.glyphs.lookup("A"), Some(0x41));
    assert_eq!(t.glyphs.lookup("space"), Some(0x20));
    assert_eq!(t.glyphs.lookup("fi"), Some(0xfb01));
    assert_eq!(t.glyphs.lookup("Euro"), Some(0x20ac));
    assert_eq!(t.glyphs.lookup("zero"), Some(0x30));
    assert_eq!(t.glyphs.lookup("quotesingle"), Some(0x27));
    assert_eq!(t.glyphs.lookup("Omega"), Some(0x2126));
    assert_eq!(t.glyphs.lookup("apple"), Some(0xf8ff));
    assert_eq!(t.glyphs.lookup("nosuchglyph"), None);
    assert_eq!(t.zapf_dingbats.lookup("a1"), None);
    assert_eq!(t.win_ansi[0x41].as_deref(), Some("A"));
    assert_eq!(t.win_ansi[0x80].as_deref(), Some("Euro"));
    assert_eq!(t.win_ansi[0x95].as_deref(), Some("bullet"));
    assert_eq!(t.win_ansi[0x81].as_deref(), Some("bullet"));
    assert_eq!(t.win_ansi[0xa0].as_deref(), Some("space"));
    assert_eq!(t.win_ansi[0xad].as_deref(), Some("hyphen"));
    assert_eq!(t.win_ansi[0x1f], None);
    assert_eq!(t.mac_roman[0x80].as_deref(), Some("Adieresis"));
    assert_eq!(t.mac_roman[0xdb].as_deref(), Some("currency"));
    assert_eq!(t.mac_roman[0xca].as_deref(), Some("space"));
    assert_eq!(t.mac_roman[0xf5].as_deref(), Some("dotlessi"));
    assert!(t.mac_expert.iter().all(|slot| slot.is_none()));
    let names: Vec<&str> = t.core_fonts.iter().map(|f| f.name.as_str()).collect();
    assert_eq!(
        names,
        vec!["Courier", "Courier-Bold", "Courier-BoldOblique", "Courier-Oblique", "Helvetica"]
    );
}

#[test]
fn the_standard_encodings_resolve() {
    let t = FontTables::standard().unwrap();
    let win = encoding_to_unicode_table(&t, b"WinAnsiEncoding").unwrap();
    let mac = encoding_to_unicode_table(&t, b"MacRomanEncoding").unwrap();
    let expert = encoding_to_unicode_table(&t, b"MacExpertEncoding").unwrap();
    for code in 0x20..0x7f {
        assert_eq!(win[code], code as u16);
        assert_eq!(mac[code], code as u16);
    }
    assert_eq!(win[0x80], 0x20ac);
    assert_eq!(win[0x99], 0x2122);
    assert_eq!(win[0xe9], 0xe9);
    assert_eq!(win[0xff], 0xff);
    assert_eq!(win[0x00], 0);
    assert_eq!(mac[0x8e], 0xe9);
    assert_eq!(mac[0xa5], 0x2022);
    assert_eq!(mac[0xde], 0xfb01);
    assert_eq!(mac[0xff], 0x02c7);
    assert!(expert.iter().all(|unit| *unit == 0));
    let decoded = |table: &[u16], code: u8| String::from_utf16(&[table[code as usize]]).unwrap();
    for code in 0xa1..=0xffu8 {
        if code != 0xad {
            assert_eq!(decoded(&win, code), char::from(code).to_string());
        }
    }
}

#[test]
fn the_standard_fonts_have_their_widths() {
    let t = FontTables::standard().unwrap();
    let font = PdfSimpleFont::new(&t, &source("Helvetica", "Type1")).unwrap();
    let text: String = b"Hello".iter().map(|b| font.decode_char(u32::from(*b))).collect();
    assert_eq!(text, "Hello");
    assert_eq!(font.get_width(u32::from(b'H')), Number::Integer(722));
    assert_eq!(font.get_width(u32::from(b'e')), Number::Integer(556));
    assert_eq!(font.get_width(u32::from(b'l')), Number::Integer(222));
    assert_eq!(font.get_width(u32::from(b' ')), Number::Integer(278));
    assert_eq!(font.get_width(u32::from(b'A')), Number::Integer(667));
    assert_eq!(font.get_width(u32::from(b'V')), Number::Integer(667));
    assert_eq!(font.decode_char(0x27), "\u{2019}");
    assert_eq!(font.decode_char(0x60), "\u{2018}");

    let font = PdfSimpleFont::new(&t, &source("Courier-Bold", "Type1")).unwrap();
    assert_eq!(font.get_width(u32::from(b'i')), Number::Integer(600));
    assert_eq!(font.get_width(0xae), Number::Integer(600));
    assert_eq!(font.decode_char(0xae), "\u{fb01}");
    assert_eq!(font.decode_char(0xe1), "\u{c6}");
    assert_eq!(font.get_width(0x01), Number::Integer(0));

    let mut s = source("Courier", "Type1");
    s.encoding = EncodingSource::Name(b"WinAnsiEncoding".to_vec());
    let font = PdfSimpleFont::new(&t, &s).unwrap();
    assert_eq!(font.get_width(0xe9), Number::Integer(600));
    assert_eq!(font.decode_char(0xe9), "\u{e9}");
    assert_eq!(font.decode_char(0x27), "'");
}
