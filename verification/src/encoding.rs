use vstd::prelude::*;
use vstd::slice::slice_subrange;

verus! {

/// PDFDocEncoding: the Unicode code point of each single-byte code, `0` where the
/// code is unassigned.
pub const PDF_DOC_ENCODING: [u16; 256] = [
    0x0000, 0x0001, 0x0002, 0x0003, 0x0004, 0x0005, 0x0006, 0x0007,
    0x0008, 0x0009, 0x000a, 0x000b, 0x000c, 0x000d, 0x000e, 0x000f,
    0x0010, 0x0011, 0x0012, 0x0013, 0x0014, 0x0015, 0x0016, 0x0017,
    0x02d8, 0x02c7, 0x02c6, 0x02d9, 0x02dd, 0x02db, 0x02da, 0x02dc,
    0x0020, 0x0021, 0x0022, 0x0023, 0x0024, 0x0025, 0x0026, 0x0027,
    0x0028, 0x0029, 0x002a, 0x002b, 0x002c, 0x002d, 0x002e, 0x002f,
    0x0030, 0x0031, 0x0032, 0x0033, 0x0034, 0x0035, 0x0036, 0x0037,
    0x0038, 0x0039, 0x003a, 0x003b, 0x003c, 0x003d, 0x003e, 0x003f,
    0x0040, 0x0041, 0x0042, 0x0043, 0x0044, 0x0045, 0x0046, 0x0047,
    0x0048, 0x0049, 0x004a, 0x004b, 0x004c, 0x004d, 0x004e, 0x004f,
    0x0050, 0x0051, 0x0052, 0x0053, 0x0054, 0x0055, 0x0056, 0x0057,
    0x0058, 0x0059, 0x005a, 0x005b, 0x005c, 0x005d, 0x005e, 0x005f,
    0x0060, 0x0061, 0x0062, 0x0063, 0x0064, 0x0065, 0x0066, 0x0067,
    0x0068, 0x0069, 0x006a, 0x006b, 0x006c, 0x006d, 0x006e, 0x006f,
    0x0070, 0x0071, 0x0072, 0x0073, 0x0074, 0x0075, 0x0076, 0x0077,
    0x0078, 0x0079, 0x007a, 0x007b, 0x007c, 0x007d, 0x007e, 0x0000,
    0x2022, 0x2020, 0x2021, 0x2026, 0x2014, 0x2013, 0x0192, 0x2044,
    0x2039, 0x203a, 0x2212, 0x2030, 0x201e, 0x201c, 0x201d, 0x2018,
    0x2019, 0x201a, 0x2122, 0xfb01, 0xfb02, 0x0141, 0x0152, 0x0160,
    0x0178, 0x017d, 0x0131, 0x0142, 0x0153, 0x0161, 0x017e, 0x0000,
    0x20ac, 0x00a1, 0x00a2, 0x00a3, 0x00a4, 0x00a5, 0x00a6, 0x00a7,
    0x00a8, 0x00a9, 0x00aa, 0x00ab, 0x00ac, 0x0000, 0x00ae, 0x00af,
    0x00b0, 0x00b1, 0x00b2, 0x00b3, 0x00b4, 0x00b5, 0x00b6, 0x00b7,
    0x00b8, 0x00b9, 0x00ba, 0x00bb, 0x00bc, 0x00bd, 0x00be, 0x00bf,
    0x00c0, 0x00c1, 0x00c2, 0x00c3, 0x00c4, 0x00c5, 0x00c6, 0x00c7,
    0x00c8, 0x00c9, 0x00ca, 0x00cb, 0x00cc, 0x00cd, 0x00ce, 0x00cf,
    0x00d0, 0x00d1, 0x00d2, 0x00d3, 0x00d4, 0x00d5, 0x00d6, 0x00d7,
    0x00d8, 0x00d9, 0x00da, 0x00db, 0x00dc, 0x00dd, 0x00de, 0x00df,
    0x00e0, 0x00e1, 0x00e2, 0x00e3, 0x00e4, 0x00e5, 0x00e6, 0x00e7,
    0x00e8, 0x00e9, 0x00ea, 0x00eb, 0x00ec, 0x00ed, 0x00ee, 0x00ef,
    0x00f0, 0x00f1, 0x00f2, 0x00f3, 0x00f4, 0x00f5, 0x00f6, 0x00f7,
    0x00f8, 0x00f9, 0x00fa, 0x00fb, 0x00fc, 0x00fd, 0x00fe, 0x00ff,
];

/// A UTF-16 code unit in the surrogate range.
pub open spec fn is_surrogate(u: u16) -> bool {
    0xD800 <= u <= 0xDFFF
}

/// A leading (high) surrogate.
pub open spec fn is_high_surrogate(u: u16) -> bool {
    0xD800 <= u <= 0xDBFF
}

/// A trailing (low) surrogate.
pub open spec fn is_low_surrogate(u: u16) -> bool {
    0xDC00 <= u <= 0xDFFF
}

/// The scalar value that a surrogate pair stands for.
pub open spec fn pair_scalar(hi: u16, lo: u16) -> u32 {
    (0x10000 + (hi - 0xD800) * 0x400 + (lo - 0xDC00)) as u32
}

/// The characters that a sequence of UTF-16 code units encodes, or `None` where a
/// surrogate stands without its partner.
pub open spec fn utf16_chars(units: Seq<u16>) -> Option<Seq<char>>
    decreases units.len(),
{
    if units.len() == 0 {
        Some(Seq::empty())
    } else if !is_surrogate(units[0]) {
        match utf16_chars(units.skip(1)) {
            Some(rest) => Some(seq![(units[0] as u32) as char] + rest),
            None => None,
        }
    } else if is_high_surrogate(units[0]) && units.len() >= 2 && is_low_surrogate(units[1]) {
        match utf16_chars(units.skip(2)) {
            Some(rest) => Some(seq![pair_scalar(units[0], units[1]) as char] + rest),
            None => None,
        }
    } else {
        None
    }
}

/// The code units that an even number of bytes holds, most significant byte first.
pub open spec fn be_units(bytes: Seq<u8>) -> Seq<u16> {
    Seq::new(bytes.len() / 2, |i: int| (bytes[2 * i] * 256 + bytes[2 * i + 1]) as u16)
}

/// The characters that a UTF-16BE byte string encodes; `None` for an odd number of
/// bytes or an unpaired surrogate.
pub open spec fn utf16be_chars(bytes: Seq<u8>) -> Option<Seq<char>> {
    if bytes.len() % 2 == 0 {
        utf16_chars(be_units(bytes))
    } else {
        None
    }
}

/// Whether a PDF string carries the UTF-16BE byte-order mark `FE FF`.
pub open spec fn has_bom(s: Seq<u8>) -> bool {
    s.len() >= 2 && s[0] == 0xFE && s[1] == 0xFF
}

/// The code units that a byte string maps to through an encoding table, unassigned
/// codes (table entry `0`) left out.
pub open spec fn encoded_units(encoding: Seq<u16>, s: Seq<u8>) -> Seq<u16>
    decreases s.len(),
{
    if s.len() == 0 {
        Seq::empty()
    } else {
        let rest = encoded_units(encoding, s.drop_last());
        let k = encoding[s.last() as int];
        if k == 0 {
            rest
        } else {
            rest.push(k)
        }
    }
}

/// The text of a PDF string under an encoding table: UTF-16BE after a byte-order
/// mark, the table's code points otherwise.
pub open spec fn pdf_string_chars(encoding: Seq<u16>, s: Seq<u8>) -> Option<Seq<char>> {
    if has_bom(s) {
        utf16be_chars(s.skip(2))
    } else {
        utf16_chars(encoded_units(encoding, s))
    }
}

/// The largest byte string whose text this library reads: its decoder's buffer
/// must fit in memory.
pub open spec fn fits(bytes: Seq<u8>) -> bool {
    bytes.len() <= usize::MAX / 8
}

/// Whether a byte string is small enough for its text to be read.
pub fn within_reach(bytes: &[u8]) -> (ok: bool)
    ensures
        ok == fits(bytes@),
{
    bytes.len() <= usize::MAX / 8
}

/// `encoding_rs::UTF_16BE.decode_without_bom_handling_and_without_replacement`:
/// the decoded text of a UTF-16BE byte string, `None` where the decoder meets a
/// malformed sequence (an odd trailing byte or an unpaired surrogate). The bound on
/// the length keeps the decoder's buffer, three bytes for every two of the input,
/// within what a `String` can hold.
#[verifier::external_body]
pub(crate) fn decode_utf16be(bytes: &[u8]) -> (r: Option<String>)
    requires
        bytes@.len() <= usize::MAX / 4,
    ensures
        r is Some <==> utf16be_chars(bytes@) is Some,
        r matches Some(s) ==> Some(s@) == utf16be_chars(bytes@),
{
    encoding_rs::UTF_16BE.decode_without_bom_handling_and_without_replacement(bytes).map(
        |text| text.into_owned(),
    )
}

/// The one-character text of a code unit that is no surrogate.
pub fn unit_text(unit: u16) -> (text: String)
    requires
        !is_surrogate(unit),
    ensures
        text@ == seq![(unit as u32) as char],
{
    let hi: u8 = (unit >> 8) as u8;
    let lo: u8 = (unit & 0xff) as u8;
    assert(hi * 256 + lo == unit) by (bit_vector)
        requires
            hi == (unit >> 8) as u8,
            lo == (unit & 0xff) as u8,
    ;
    let bytes: [u8; 2] = [hi, lo];
    proof {
        assert(be_units(bytes@) =~= seq![unit]);
        assert(seq![unit].skip(1) =~= Seq::<u16>::empty());
        reveal_with_fuel(utf16_chars, 2);
        assert(utf16_chars(seq![unit]) == Some(seq![(unit as u32) as char] + Seq::<char>::empty()));
        assert(seq![(unit as u32) as char] + Seq::<char>::empty() =~= seq![(unit as u32) as char]);
    }
    match decode_utf16be(bytes.as_slice()) {
        Some(text) => text,
        None => String::new(),
    }
}

/// A code point that is a character: below 0x110000 and no surrogate.
pub open spec fn is_scalar(codepoint: u32) -> bool {
    codepoint < 0xD800 || 0xE000 <= codepoint <= 0x10FFFF
}

/// The one-character text of a code point, if it is a character.
pub fn scalar_text(codepoint: u32) -> (text: Option<String>)
    ensures
        text is Some <==> is_scalar(codepoint),
        text matches Some(s) ==> s@ == seq![codepoint as char],
{
    if codepoint < 0xD800 || (0xE000 <= codepoint && codepoint < 0x10000) {
        Some(unit_text(codepoint as u16))
    } else if 0x10000 <= codepoint && codepoint <= 0x10FFFF {
        let v: u32 = codepoint - 0x10000;
        let top: u32 = v >> 10;
        let low: u32 = v & 0x3ff;
        assert(top <= 0x3ff && top * 1024 + low == v && low <= 0x3ff) by (bit_vector)
            requires
                v <= 0xFFFFF,
                top == v >> 10,
                low == v & 0x3ff,
        ;
        let hi: u16 = (0xD800 + top) as u16;
        let lo: u16 = (0xDC00 + low) as u16;
        let b0: u8 = (hi >> 8) as u8;
        let b1: u8 = (hi & 0xff) as u8;
        let b2: u8 = (lo >> 8) as u8;
        let b3: u8 = (lo & 0xff) as u8;
        assert(b0 * 256 + b1 == hi) by (bit_vector)
            requires
                b0 == (hi >> 8) as u8,
                b1 == (hi & 0xff) as u8,
        ;
        assert(b2 * 256 + b3 == lo) by (bit_vector)
            requires
                b2 == (lo >> 8) as u8,
                b3 == (lo & 0xff) as u8,
        ;
        let bytes: [u8; 4] = [b0, b1, b2, b3];
        proof {
            let units = seq![hi, lo];
            assert(be_units(bytes@) =~= units);
            assert(units.skip(2) =~= Seq::<u16>::empty());
            reveal_with_fuel(utf16_chars, 2);
            assert(pair_scalar(hi, lo) == codepoint);
            assert(utf16_chars(units) == Some(
                seq![pair_scalar(hi, lo) as char] + Seq::<char>::empty(),
            ));
            assert(seq![codepoint as char] + Seq::<char>::empty() =~= seq![codepoint as char]);
        }
        decode_utf16be(bytes.as_slice())
    } else {
        None
    }
}

/// Decodes a PDF string under a 256-entry encoding table, or reports that its
/// UTF-16 is malformed.
pub fn decode_pdf_string(encoding: &[u16], s: &[u8]) -> (r: Option<String>)
    requires
        encoding@.len() == 256,
        fits(s@),
    ensures
        r is Some <==> pdf_string_chars(encoding@, s@) is Some,
        r matches Some(text) ==> Some(text@) == pdf_string_chars(encoding@, s@),
{
    if s.len() >= 2 && s[0] == 0xfe && s[1] == 0xff {
        let rest = slice_subrange(s, 2, s.len());
        assert(rest@ == s@.skip(2));
        decode_utf16be(rest)
    } else {
        let mut r: Vec<u8> = Vec::new();
        let mut i: usize = 0;
        while i < s.len()
            invariant
                i <= s.len(),
                encoding@.len() == 256,
                fits(s@),
                r@.len() == 2 * encoded_units(encoding@, s@.take(i as int)).len(),
                r@.len() <= 2 * i,
                be_units(r@) == encoded_units(encoding@, s@.take(i as int)),
            decreases s.len() - i,
        {
            let k: u16 = encoding[s[i] as usize];
            proof {
                assert(s@.take(i as int + 1).drop_last() == s@.take(i as int));
                assert(s@.take(i as int + 1).last() == s@[i as int]);
            }
            if k != 0 {
                let hi: u8 = (k >> 8) as u8;
                let lo: u8 = (k & 0xff) as u8;
                assert(hi * 256 + lo == k) by (bit_vector)
                    requires
                        hi == (k >> 8) as u8,
                        lo == (k & 0xff) as u8,
                ;
                let ghost before = r@;
                r.push(hi);
                r.push(lo);
                proof {
                    let units = encoded_units(encoding@, s@.take(i as int));
                    assert(be_units(r@) =~= units.push(k)) by {
                        assert forall|j: int| 0 <= j < units.len() implies be_units(r@)[j]
                            == units[j] by {
                            assert(be_units(before)[j] == units[j]);
                        }
                    }
                }
            }
            i = i + 1;
        }
        assert(s@.take(s@.len() as int) == s@);
        decode_utf16be(r.as_slice())
    }
}

/// Decodes a PDF string under a 256-entry encoding table.
pub fn to_utf8(encoding: &[u16], s: &[u8]) -> (text: String)
    requires
        encoding@.len() == 256,
        fits(s@),
        pdf_string_chars(encoding@, s@) is Some,
    ensures
        Some(text@) == pdf_string_chars(encoding@, s@),
{
    match decode_pdf_string(encoding, s) {
        Some(text) => text,
        None => String::new(),
    }
}

/// Whether a PDF string has a text under PDFDocEncoding: always without a
/// byte-order mark, and after one exactly when the UTF-16BE that follows is well
/// formed.
pub open spec fn pdf_doc_decodable(s: Seq<u8>) -> bool {
    has_bom(s) ==> utf16be_chars(s.skip(2)) is Some
}

/// The text of a PDF string under PDFDocEncoding.
pub open spec fn pdf_doc_chars(s: Seq<u8>) -> Seq<char> {
    pdf_string_chars(PDF_DOC_ENCODING@, s).unwrap()
}

/// Code units none of which is a surrogate always decode, one character each.
pub proof fn lemma_utf16_without_surrogates(units: Seq<u16>)
    requires
        forall|i: int| 0 <= i < units.len() ==> !is_surrogate(#[trigger] units[i]),
    ensures
        utf16_chars(units) is Some,
        utf16_chars(units).unwrap().len() == units.len(),
        forall|i: int|
            0 <= i < units.len() ==> #[trigger] utf16_chars(units).unwrap()[i] == (
            units[i] as u32) as char,
    decreases units.len(),
{
    if units.len() > 0 {
        let rest = units.skip(1);
        assert forall|i: int| 0 <= i < rest.len() implies !is_surrogate(#[trigger] rest[i]) by {
            assert(rest[i] == units[i + 1]);
        }
        lemma_utf16_without_surrogates(rest);
        let tail = utf16_chars(rest).unwrap();
        let all = utf16_chars(units).unwrap();
        assert(all == seq![(units[0] as u32) as char] + tail);
        assert forall|i: int| 0 <= i < units.len() implies #[trigger] all[i] == (
        units[i] as u32) as char by {
            if i > 0 {
                assert(all[i] == tail[i - 1]);
                assert(rest[i - 1] == units[i]);
            }
        }
    }
}

/// What a table without surrogates makes of a byte string holds no surrogate.
pub proof fn lemma_encoded_units_without_surrogates(encoding: Seq<u16>, s: Seq<u8>)
    requires
        encoding.len() == 256,
        forall|i: int| 0 <= i < 256 ==> !is_surrogate(#[trigger] encoding[i]),
    ensures
        forall|i: int|
            0 <= i < encoded_units(encoding, s).len() ==> !is_surrogate(
                #[trigger] encoded_units(encoding, s)[i],
            ),
        encoded_units(encoding, s).len() <= s.len(),
    decreases s.len(),
{
    if s.len() > 0 {
        lemma_encoded_units_without_surrogates(encoding, s.drop_last());
    }
}

/// No entry of PDFDocEncoding is a surrogate.
pub proof fn lemma_pdf_doc_encoding_without_surrogates()
    ensures
        forall|i: int| 0 <= i < 256 ==> !is_surrogate(#[trigger] PDF_DOC_ENCODING@[i]),
{
    assert forall|i: int| 0 <= i < 256 implies !is_surrogate(#[trigger] PDF_DOC_ENCODING@[i]) by {
        assert(PDF_DOC_ENCODING@[i] < 0xD800 || PDF_DOC_ENCODING@[i] > 0xDFFF);
    }
}

/// Every byte string without a byte-order mark has a text under PDFDocEncoding.
pub proof fn lemma_pdf_doc_total(s: Seq<u8>)
    requires
        pdf_doc_decodable(s),
    ensures
        pdf_string_chars(PDF_DOC_ENCODING@, s) is Some,
{
    if !has_bom(s) {
        lemma_pdf_doc_encoding_without_surrogates();
        lemma_encoded_units_without_surrogates(PDF_DOC_ENCODING@, s);
        lemma_utf16_without_surrogates(encoded_units(PDF_DOC_ENCODING@, s));
    }
}

/// Decodes a PDF string under PDFDocEncoding.
pub fn pdf_to_utf8(s: &[u8]) -> (text: String)
    requires
        fits(s@),
        pdf_doc_decodable(s@),
    ensures
        text@ == pdf_doc_chars(s@),
{
    proof {
        lemma_pdf_doc_total(s@);
    }
    let table = PDF_DOC_ENCODING;
    to_utf8(table.as_slice(), s)
}

} // verus!
