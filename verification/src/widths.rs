use std::collections::HashMap;
use vstd::prelude::*;
use crate::fontdata::{wrap_code, wrapped_code, Number};
use crate::names::GlyphNames;
use crate::tables::{CoreFont, CoreGlyph, FontError};
use crate::text::str_eq;

verus! {

/// The widths of the codes from `first` on, one for each entry of a Widths array.
pub open spec fn explicit_widths(first: int, widths: Seq<Number>) -> Map<u32, Number>
    decreases widths.len(),
{
    if widths.len() == 0 {
        Map::empty()
    } else {
        explicit_widths(first, widths.drop_last()).insert(
            wrap_code(first + widths.len() - 1),
            widths.last(),
        )
    }
}

/// The widths that FirstChar, LastChar and Widths give: the array must hold one
/// width for each code from the first to the last.
pub open spec fn declared_widths(first: i64, last: i64, widths: Seq<Number>) -> Result<
    Map<u32, Number>,
    FontError,
> {
    if first + widths.len() - 1 == last {
        Ok(explicit_widths(first as int, widths))
    } else {
        Err(FontError::WidthCount)
    }
}

/// Reads FirstChar, LastChar and Widths into a map from code to width.
pub fn widths_from_array(first: i64, last: i64, widths: &Vec<Number>) -> (out: Result<
    HashMap<u32, Number>,
    FontError,
>)
    ensures
        match declared_widths(first, last, widths@) {
            Ok(m) => out matches Ok(map) && map@ == m,
            Err(e) => out == Err::<HashMap<u32, Number>, FontError>(e),
        },
{
    let n = widths.len();
    let span: i128 = last as i128 - first as i128 + 1;
    if span != n as i128 {
        return Err(FontError::WidthCount);
    }
    let mut map: HashMap<u32, Number> = HashMap::new();
    let mut i: usize = 0;
    assert(widths@.take(0) =~= Seq::<Number>::empty());
    assert(map@ =~= explicit_widths(first as int, widths@.take(0)));
    while i < n
        invariant
            i <= n,
            n == widths@.len(),
            first + n - 1 == last,
            map@ == explicit_widths(first as int, widths@.take(i as int)),
        decreases n - i,
    {
        proof {
            assert(widths@.take(i as int + 1).drop_last() =~= widths@.take(i as int));
            assert(widths@.take(i as int + 1).last() == widths@[i as int]);
        }
        let code: i64 = (first as i128 + i as i128) as i64;
        map.insert(wrapped_code(code), widths[i]);
        i = i + 1;
    }
    assert(widths@.take(n as int) =~= widths@);
    Ok(map)
}

/// The metrics of the first standard font of a name.
pub open spec fn find_core_font(fonts: Seq<CoreFont>, name: Seq<char>) -> Option<CoreFont>
    decreases fonts.len(),
{
    if fonts.len() == 0 {
        None
    } else if fonts[0].name@ == name {
        Some(fonts[0])
    } else {
        find_core_font(fonts.skip(1), name)
    }
}

/// Finds the metrics of a standard font.
pub fn core_font<'a>(fonts: &'a Vec<CoreFont>, name: &str) -> (font: Option<&'a CoreFont>)
    ensures
        match find_core_font(fonts@, name@) {
            Some(f) => font matches Some(found) && *found == f,
            None => font is None,
        },
{
    let mut i: usize = 0;
    assert(fonts@.skip(0) =~= fonts@);
    while i < fonts.len()
        invariant
            i <= fonts.len(),
            find_core_font(fonts@, name@) == find_core_font(fonts@.skip(i as int), name@),
        decreases fonts.len() - i,
    {
        proof {
            assert(fonts@.skip(i as int)[0] == fonts@[i as int]);
            assert(fonts@.skip(i as int).skip(1) =~= fonts@.skip(i as int + 1));
        }
        if str_eq(fonts[i].name.as_str(), name) {
            return Some(&fonts[i]);
        }
        i = i + 1;
    }
    None
}

/// The widths of a standard font under an encoding table: each code whose code
/// point is that of a glyph of the font has the glyph's width, the last such
/// glyph's where there are several.
pub open spec fn widths_by_encoding(
    glyphs: Map<Seq<char>, u16>,
    table: Seq<u16>,
    metrics: Seq<CoreGlyph>,
) -> Result<Map<u32, Number>, FontError>
    decreases metrics.len(),
{
    if metrics.len() == 0 {
        Ok(Map::empty())
    } else {
        match widths_by_encoding(glyphs, table, metrics.drop_last()) {
            Err(e) => Err(e),
            Ok(before) => {
                let glyph = metrics.last();
                if glyphs.contains_key(glyph.name@) {
                    let unit = glyphs[glyph.name@];
                    Ok(
                        Map::new(
                            |c: u32|
                                before.contains_key(c) || (c < table.len() && table[c as int]
                                    == unit),
                            |c: u32|
                                if c < table.len() && table[c as int] == unit {
                                    Number::Integer(glyph.width)
                                } else {
                                    before[c]
                                },
                        ),
                    )
                } else {
                    Err(FontError::UnknownGlyph)
                }
            },
        }
    }
}

/// Gives each code of an encoding table the width of its glyph in a standard font.
pub fn core_widths_by_encoding(
    glyphs: &GlyphNames,
    table: &Vec<u16>,
    metrics: &Vec<CoreGlyph>,
) -> (out: Result<HashMap<u32, Number>, FontError>)
    requires
        table@.len() == 256,
    ensures
        match widths_by_encoding(glyphs@, table@, metrics@) {
            Ok(m) => out matches Ok(map) && map@ == m,
            Err(e) => out == Err::<HashMap<u32, Number>, FontError>(e),
        },
{
    let mut map: HashMap<u32, Number> = HashMap::new();
    let mut i: usize = 0;
    assert(metrics@.take(0) =~= Seq::<CoreGlyph>::empty());
    assert(map@ =~= Map::<u32, Number>::empty());
    while i < metrics.len()
        invariant
            i <= metrics.len(),
            table@.len() == 256,
            widths_by_encoding(glyphs@, table@, metrics@.take(i as int)) == Ok::<
                Map<u32, Number>,
                FontError,
            >(map@),
        decreases metrics.len() - i,
    {
        proof {
            assert(metrics@.take(i as int + 1).drop_last() =~= metrics@.take(i as int));
            assert(metrics@.take(i as int + 1).last() == metrics@[i as int]);
        }
        let glyph = &metrics[i];
        let unit = match glyphs.lookup(glyph.name.as_str()) {
            Some(unit) => unit,
            None => {
                proof {
                    lemma_widths_error_stays(glyphs@, table@, metrics@, i as int + 1);
                }
                return Err(FontError::UnknownGlyph);
            },
        };
        let ghost before = map@;
        let mut c: usize = 0;
        while c < 256
            invariant
                c <= 256,
                table@.len() == 256,
                forall|k: u32|
                    map@.contains_key(k) <==> before.contains_key(k) || (k < c && table@[k as int]
                        == unit),
                forall|k: u32|
                    map@.contains_key(k) ==> map@[k] == (if k < c && table@[k as int] == unit {
                        Number::Integer(glyph.width)
                    } else {
                        before[k]
                    }),
            decreases 256 - c,
        {
            if table[c] == unit {
                map.insert(c as u32, Number::Integer(glyph.width));
            }
            c = c + 1;
        }
        proof {
            let want = widths_by_encoding(glyphs@, table@, metrics@.take(i as int + 1)).unwrap();
            assert(map@ =~= want);
        }
        i = i + 1;
    }
    assert(metrics@.take(metrics@.len() as int) =~= metrics@);
    Ok(map)
}

/// A glyph that the list lacks fails the whole font, whatever follows it.
proof fn lemma_widths_error_stays(
    glyphs: Map<Seq<char>, u16>,
    table: Seq<u16>,
    metrics: Seq<CoreGlyph>,
    n: int,
)
    requires
        0 <= n <= metrics.len(),
        widths_by_encoding(glyphs, table, metrics.take(n)) is Err,
    ensures
        widths_by_encoding(glyphs, table, metrics) == Err::<Map<u32, Number>, FontError>(
            FontError::UnknownGlyph,
        ),
    decreases metrics.len() - n,
{
    lemma_widths_error_kind(glyphs, table, metrics.take(n));
    if n < metrics.len() {
        assert(metrics.take(n + 1).drop_last() =~= metrics.take(n));
        lemma_widths_error_stays(glyphs, table, metrics, n + 1);
    } else {
        assert(metrics.take(n) =~= metrics);
    }
}

/// The only failure is a glyph that the list lacks.
proof fn lemma_widths_error_kind(
    glyphs: Map<Seq<char>, u16>,
    table: Seq<u16>,
    metrics: Seq<CoreGlyph>,
)
    ensures
        widths_by_encoding(glyphs, table, metrics) matches Err(e) ==> e == FontError::UnknownGlyph,
    decreases metrics.len(),
{
    if metrics.len() > 0 {
        lemma_widths_error_kind(glyphs, table, metrics.drop_last());
    }
}

/// The encoding table of a standard font by its own codes: the code point of each
/// glyph that has a code, `0` elsewhere.
pub open spec fn core_table(names: Map<Seq<char>, u16>, metrics: Seq<CoreGlyph>) -> Result<
    Seq<u16>,
    FontError,
>
    decreases metrics.len(),
{
    if metrics.len() == 0 {
        Ok(Seq::new(256, |i: int| 0u16))
    } else {
        match core_table(names, metrics.drop_last()) {
            Err(e) => Err(e),
            Ok(before) => {
                let glyph = metrics.last();
                if glyph.code == -1 {
                    Ok(before)
                } else if !names.contains_key(glyph.name@) {
                    Err(FontError::UnknownGlyph)
                } else if 0 <= glyph.code < 256 {
                    Ok(before.update(glyph.code as int, names[glyph.name@]))
                } else {
                    Err(FontError::CodeOutOfRange)
                }
            },
        }
    }
}

/// A failure at one glyph of the metrics fails the whole font.
proof fn lemma_core_table_error_stays(names: Map<Seq<char>, u16>, metrics: Seq<CoreGlyph>, n: int)
    requires
        0 <= n <= metrics.len(),
        core_table(names, metrics.take(n)) is Err,
    ensures
        core_table(names, metrics) == core_table(names, metrics.take(n)),
    decreases metrics.len() - n,
{
    if n < metrics.len() {
        assert(metrics.take(n + 1).drop_last() =~= metrics.take(n));
        lemma_core_table_error_stays(names, metrics, n + 1);
    } else {
        assert(metrics.take(n) =~= metrics);
    }
}

/// Builds the encoding table of a standard font from the codes of its metrics.
pub fn core_font_table(names: &GlyphNames, metrics: &Vec<CoreGlyph>) -> (out: Result<
    Vec<u16>,
    FontError,
>)
    ensures
        match core_table(names@, metrics@) {
            Ok(t) => out matches Ok(table) && table@ == t && t.len() == 256,
            Err(e) => out == Err::<Vec<u16>, FontError>(e),
        },
{
    let mut table: Vec<u16> = Vec::new();
    let mut k: usize = 0;
    while k < 256
        invariant
            k <= 256,
            table@.len() == k,
            forall|j: int| 0 <= j < k ==> table@[j] == 0,
        decreases 256 - k,
    {
        table.push(0);
        k = k + 1;
    }
    assert(table@ =~= Seq::new(256, |i: int| 0u16));
    let mut i: usize = 0;
    assert(metrics@.take(0) =~= Seq::<CoreGlyph>::empty());
    while i < metrics.len()
        invariant
            i <= metrics.len(),
            table@.len() == 256,
            core_table(names@, metrics@.take(i as int)) == Ok::<Seq<u16>, FontError>(table@),
        decreases metrics.len() - i,
    {
        proof {
            assert(metrics@.take(i as int + 1).drop_last() =~= metrics@.take(i as int));
            assert(metrics@.take(i as int + 1).last() == metrics@[i as int]);
        }
        let glyph = &metrics[i];
        if glyph.code != -1 {
            match names.lookup(glyph.name.as_str()) {
                None => {
                    proof {
                        lemma_core_table_error_stays(names@, metrics@, i as int + 1);
                    }
                    return Err(FontError::UnknownGlyph);
                },
                Some(unit) => {
                    if glyph.code < 0 || glyph.code >= 256 {
                        proof {
                            lemma_core_table_error_stays(names@, metrics@, i as int + 1);
                        }
                        return Err(FontError::CodeOutOfRange);
                    }
                    table.set(glyph.code as usize, unit);
                },
            }
        }
        i = i + 1;
    }
    assert(metrics@.take(metrics@.len() as int) =~= metrics@);
    Ok(table)
}

/// The widths of a standard font by its own codes, a glyph without a code under
/// the code that `-1` wraps to.
pub open spec fn own_widths(metrics: Seq<CoreGlyph>) -> Map<u32, Number>
    decreases metrics.len(),
{
    if metrics.len() == 0 {
        Map::empty()
    } else {
        own_widths(metrics.drop_last()).insert(
            wrap_code(metrics.last().code as int),
            Number::Integer(metrics.last().width),
        )
    }
}

/// Reads the widths of a standard font by its own codes.
pub fn core_own_widths(metrics: &Vec<CoreGlyph>) -> (map: HashMap<u32, Number>)
    ensures
        map@ == own_widths(metrics@),
{
    let mut map: HashMap<u32, Number> = HashMap::new();
    let mut i: usize = 0;
    assert(metrics@.take(0) =~= Seq::<CoreGlyph>::empty());
    assert(map@ =~= own_widths(metrics@.take(0)));
    while i < metrics.len()
        invariant
            i <= metrics.len(),
            map@ == own_widths(metrics@.take(i as int)),
        decreases metrics.len() - i,
    {
        proof {
            assert(metrics@.take(i as int + 1).drop_last() =~= metrics@.take(i as int));
            assert(metrics@.take(i as int + 1).last() == metrics@[i as int]);
        }
        map.insert(wrapped_code(metrics[i].code), Number::Integer(metrics[i].width));
        i = i + 1;
    }
    assert(metrics@.take(metrics@.len() as int) =~= metrics@);
    map
}

} // verus!
