use std::collections::HashMap;
use vstd::prelude::*;
use crate::fontdata::{wrap_code, wrapped_code, Number};
use crate::tables::FontError;

verus! {

/// A range of codes of one width in bytes.
#[derive(Debug, Clone, Copy, PartialEq, Eq, Structural)]
pub struct CodeRange {
    pub width: u32,
    pub start: u32,
    pub end: u32,
}

/// A range of codes and the CID that the range is offset by.
#[derive(Debug, Clone, Copy, PartialEq, Eq, Structural)]
pub struct CidRange {
    pub src_code_lo: u32,
    pub src_code_hi: u32,
    pub dst_cid_lo: u32,
}

/// How a CID font reads codes off a string and turns them into CIDs.
#[derive(Debug, Clone)]
pub struct ByteMapping {
    pub codespace: Vec<CodeRange>,
    pub cid: Vec<CidRange>,
}

/// The mapping of Identity-H and Identity-V: codes of two bytes, each its own CID.
pub fn identity_mapping() -> (mapping: ByteMapping)
    ensures
        mapping.codespace@ == seq![CodeRange { width: 2, start: 0, end: 0xffff }],
        mapping.cid@ == seq![CidRange { src_code_lo: 0, src_code_hi: 0xffff, dst_cid_lo: 0 }],
{
    let mut codespace: Vec<CodeRange> = Vec::new();
    codespace.push(CodeRange { width: 2, start: 0, end: 0xffff });
    let mut cid: Vec<CidRange> = Vec::new();
    cid.push(CidRange { src_code_lo: 0, src_code_hi: 0xffff, dst_cid_lo: 0 });
    assert(codespace@ =~= seq![CodeRange { width: 2, start: 0, end: 0xffff }]);
    assert(cid@ =~= seq![CidRange { src_code_lo: 0, src_code_hi: 0xffff, dst_cid_lo: 0 }]);
    ByteMapping { codespace, cid }
}

/// Whether a code of a width lies in the codespace.
pub open spec fn in_codespace(codespace: Seq<CodeRange>, code: u32, width: u32) -> bool {
    exists|i: int|
        0 <= i < codespace.len() && (#[trigger] codespace[i]).start <= code <= codespace[i].end
            && codespace[i].width == width
}

/// Whether a code of a width lies in the codespace.
fn codespace_has(codespace: &Vec<CodeRange>, code: u32, width: u32) -> (found: bool)
    ensures
        found == in_codespace(codespace@, code, width),
{
    let mut i: usize = 0;
    while i < codespace.len()
        invariant
            i <= codespace.len(),
            forall|j: int|
                0 <= j < i ==> !((#[trigger] codespace@[j]).start <= code <= codespace@[j].end
                    && codespace@[j].width == width),
        decreases codespace.len() - i,
    {
        if code >= codespace[i].start && code <= codespace[i].end && codespace[i].width == width {
            return true;
        }
        i = i + 1;
    }
    false
}

/// The code that the bytes from `at` on spell, taken one byte longer until it lies
/// in the codespace at its width; `None` where the string ends first or four bytes
/// are not enough.
pub open spec fn code_from(
    codespace: Seq<CodeRange>,
    s: Seq<u8>,
    at: int,
    code: u32,
    width: u32,
) -> Option<(u32, u8)>
    decreases 5 - width,
{
    if width > 4 || width < 1 {
        None
    } else if in_codespace(codespace, code, width) {
        Some((code, width as u8))
    } else if width < 4 && at + width < s.len() && code < 0x100_0000 {
        code_from(codespace, s, at, (code * 256 + s[at + width]) as u32, (width + 1) as u32)
    } else {
        None
    }
}

/// The first range that holds a code.
pub open spec fn range_of(ranges: Seq<CidRange>, code: u32) -> Option<CidRange>
    decreases ranges.len(),
{
    if ranges.len() == 0 {
        None
    } else if ranges[0].src_code_lo <= code <= ranges[0].src_code_hi {
        Some(ranges[0])
    } else {
        range_of(ranges.skip(1), code)
    }
}

/// The CID of a code: the code offset by the CID of the first range that holds
/// it, where that is a CID.
pub open spec fn cid_of(ranges: Seq<CidRange>, code: u32) -> Option<u32> {
    match range_of(ranges, code) {
        Some(range) => if code + range.dst_cid_lo <= u32::MAX {
            Some((code + range.dst_cid_lo) as u32)
        } else {
            None
        },
        None => None,
    }
}

/// The CID that starts at position `at` of a shown string, and the number of bytes
/// of its code.
pub open spec fn cid_next(mapping: ByteMapping, s: Seq<u8>, at: int) -> Option<(u32, u8)> {
    if 0 <= at < s.len() {
        match code_from(mapping.codespace@, s, at, s[at] as u32, 1) {
            Some((code, width)) => match cid_of(mapping.cid@, code) {
                Some(cid) => Some((cid, width)),
                None => None,
            },
            None => None,
        }
    } else {
        None
    }
}

/// Reads the CID that starts at position `at` of a shown string.
pub fn next_cid(mapping: &ByteMapping, s: &[u8], at: usize) -> (next: Option<(u32, u8)>)
    ensures
        next == cid_next(*mapping, s@, at as int),
        next matches Some((_, width)) ==> 1 <= width <= 4 && at + width <= s@.len(),
{
    let len = s.len();
    if at >= len {
        return None;
    }
    let mut code: u32 = s[at] as u32;
    let mut width: u32 = 1;
    let mut found = false;
    while width <= 4
        invariant_except_break
            len == s@.len(),
            at < len,
            1 <= width <= 5,
            !found,
            width <= 4 ==> at + width <= len,
            width <= 4 ==> code < pow256(width as int),
            code_from(mapping.codespace@, s@, at as int, s@[at as int] as u32, 1) == code_from(
                mapping.codespace@,
                s@,
                at as int,
                code,
                width,
            ),
        ensures
            found ==> 1 <= width <= 4 && at + width <= len && code_from(
                mapping.codespace@,
                s@,
                at as int,
                s@[at as int] as u32,
                1,
            ) == Some((code, width as u8)),
            !found ==> code_from(mapping.codespace@, s@, at as int, s@[at as int] as u32, 1)
                is None,
        decreases 5 - width,
    {
        if codespace_has(&mapping.codespace, code, width) {
            found = true;
            break;
        }
        if width == 4 || len - at <= width as usize {
            width = 5;
            break;
        }
        code = code * 256 + s[at + width as usize] as u32;
        width = width + 1;
    }
    if !found {
        return None;
    }
    let size: u8 = width as u8;
    let mut i: usize = 0;
    assert(mapping.cid@.skip(0) =~= mapping.cid@);
    while i < mapping.cid.len()
        invariant
            i <= mapping.cid.len(),
            1 <= size <= 4,
            at + size <= s@.len(),
            code_from(mapping.codespace@, s@, at as int, s@[at as int] as u32, 1) == Some(
                (code, size),
            ),
            0 <= at < s@.len(),
            range_of(mapping.cid@, code) == range_of(mapping.cid@.skip(i as int), code),
        decreases mapping.cid.len() - i,
    {
        proof {
            assert(mapping.cid@.skip(i as int)[0] == mapping.cid@[i as int]);
            assert(mapping.cid@.skip(i as int).skip(1) =~= mapping.cid@.skip(i as int + 1));
        }
        let range = mapping.cid[i];
        if code >= range.src_code_lo && code <= range.src_code_hi {
            if code > u32::MAX - range.dst_cid_lo {
                return None;
            }
            return Some((code + range.dst_cid_lo, size));
        }
        i = i + 1;
    }
    None
}

/// 256 to the power of a width of up to four bytes.
pub open spec fn pow256(width: int) -> int {
    if width <= 0 {
        1
    } else if width == 1 {
        0x100
    } else if width == 2 {
        0x1_0000
    } else if width == 3 {
        0x100_0000
    } else {
        0x1_0000_0000
    }
}

/// One item of a W array.
#[derive(Debug, Clone)]
pub enum WidthItem {
    Number(Number),
    /// An array of widths; `None` stands for an element that is no number.
    Array(Vec<Option<Number>>),
    /// Anything else.
    Other,
}

/// The width of one CID.
#[derive(Debug, Clone, Copy, PartialEq, Eq, Structural)]
pub struct WidthEntry {
    pub cid: u32,
    pub width: Number,
}

/// Whether every element of an array of widths is a number.
pub open spec fn all_numbers(widths: Seq<Option<Number>>) -> bool {
    forall|i: int| 0 <= i < widths.len() ==> (#[trigger] widths[i]) is Some
}

/// The widths of consecutive CIDs from `first` on.
pub open spec fn array_entries(first: int, widths: Seq<Option<Number>>) -> Seq<WidthEntry> {
    Seq::new(
        widths.len(),
        |i: int| WidthEntry { cid: wrap_code(first + i), width: widths[i].unwrap() },
    )
}

/// One width for each CID from `first` up to, not including, `last`.
pub open spec fn range_entries(first: int, last: int, width: Number) -> Seq<WidthEntry> {
    Seq::new(
        (if last > first {
            last - first
        } else {
            0
        }) as nat,
        |i: int| WidthEntry { cid: wrap_code(first + i), width },
    )
}

/// The widths that a W array gives, in its order, read from item `at` on. The
/// array alternates two forms: a CID followed by an array of widths for the CIDs
/// from it on, and two CIDs followed by one width for the range between them.
pub open spec fn w_entries(items: Seq<WidthItem>, at: int) -> Result<Seq<WidthEntry>, FontError>
    decreases items.len() - at,
{
    if at < 0 || at >= items.len() {
        Ok(Seq::empty())
    } else if at + 1 >= items.len() {
        Err(FontError::BadWidths)
    } else {
        match (items[at], items[at + 1]) {
            (WidthItem::Number(Number::Integer(first)), WidthItem::Array(widths)) => {
                if all_numbers(widths@) && first + widths@.len() <= i64::MAX {
                    match w_entries(items, at + 2) {
                        Ok(rest) => Ok(array_entries(first as int, widths@) + rest),
                        Err(e) => Err(e),
                    }
                } else {
                    Err(FontError::BadWidths)
                }
            },
            (WidthItem::Number(Number::Integer(first)), WidthItem::Number(Number::Integer(last))) => {
                if at + 2 < items.len() {
                    match items[at + 2] {
                        WidthItem::Number(width) => match w_entries(items, at + 3) {
                            Ok(rest) => Ok(range_entries(first as int, last as int, width) + rest),
                            Err(e) => Err(e),
                        },
                        _ => Err(FontError::BadWidths),
                    }
                } else {
                    Err(FontError::BadWidths)
                }
            },
            _ => Err(FontError::BadWidths),
        }
    }
}

/// The widths of consecutive CIDs from `first` on, if every element of the array
/// is a number.
fn array_widths(first: i64, widths: &Vec<Option<Number>>) -> (out: Option<Vec<WidthEntry>>)
    requires
        first + widths@.len() <= i64::MAX,
    ensures
        out is Some <==> all_numbers(widths@),
        out matches Some(list) ==> list@ == array_entries(first as int, widths@),
{
    let mut list: Vec<WidthEntry> = Vec::new();
    let mut j: usize = 0;
    while j < widths.len()
        invariant
            j <= widths.len(),
            first + widths@.len() <= i64::MAX,
            forall|k: int| 0 <= k < j ==> (#[trigger] widths@[k]) is Some,
            list@.len() == j,
            forall|k: int|
                0 <= k < j ==> #[trigger] list@[k] == (WidthEntry {
                    cid: wrap_code(first + k),
                    width: widths@[k].unwrap(),
                }),
        decreases widths.len() - j,
    {
        match widths[j] {
            Some(width) => {
                let cid = wrapped_code((first as i128 + j as i128) as i64);
                list.push(WidthEntry { cid, width });
            },
            None => {
                return None;
            },
        }
        j = j + 1;
    }
    assert(list@ =~= array_entries(first as int, widths@));
    Some(list)
}

/// One width for each CID from `first` up to, not including, `last`.
fn range_widths(first: i64, last: i64, width: Number) -> (list: Vec<WidthEntry>)
    ensures
        list@ == range_entries(first as int, last as int, width),
{
    let mut list: Vec<WidthEntry> = Vec::new();
    let mut id: i64 = first;
    while id < last
        invariant
            first <= id,
            first < last ==> id <= last,
            first >= last ==> id == first,
            list@.len() == id - first,
            forall|k: int|
                0 <= k < list@.len() ==> #[trigger] list@[k] == (WidthEntry {
                    cid: wrap_code(first + k),
                    width,
                }),
        decreases last - id,
    {
        list.push(WidthEntry { cid: wrapped_code(id), width });
        id = id + 1;
    }
    assert(list@ =~= range_entries(first as int, last as int, width));
    list
}

/// Reads the widths of a W array.
pub fn parse_widths(items: &Vec<WidthItem>) -> (out: Result<Vec<WidthEntry>, FontError>)
    ensures
        match w_entries(items@, 0) {
            Ok(entries) => out matches Ok(list) && list@ == entries,
            Err(e) => out matches Err(error) && error == e,
        },
{
    let mut list: Vec<WidthEntry> = Vec::new();
    let mut at: usize = 0;
    let n = items.len();
    while at < n
        invariant
            n == items@.len(),
            at <= n,
            match w_entries(items@, at as int) {
                Ok(rest) => w_entries(items@, 0) == Ok::<Seq<WidthEntry>, FontError>(list@ + rest),
                Err(e) => w_entries(items@, 0) == Err::<Seq<WidthEntry>, FontError>(e),
            },
        decreases n - at,
    {
        if n - at <= 1 {
            return Err(FontError::BadWidths);
        }
        let first = match &items[at] {
            WidthItem::Number(Number::Integer(first)) => *first,
            _ => {
                return Err(FontError::BadWidths);
            },
        };
        let ghost before = list@;
        match &items[at + 1] {
            WidthItem::Array(widths) => {
                if widths.len() as i128 + first as i128 > i64::MAX as i128 {
                    return Err(FontError::BadWidths);
                }
                let mut part = match array_widths(first, widths) {
                    Some(part) => part,
                    None => {
                        return Err(FontError::BadWidths);
                    },
                };
                list.append(&mut part);
                proof {
                    let rest = w_entries(items@, at as int + 2);
                    if rest is Ok {
                        assert((before + array_entries(first as int, widths@)) + rest.unwrap()
                            =~= before + (array_entries(first as int, widths@) + rest.unwrap()));
                    }
                }
                at = at + 2;
            },
            WidthItem::Number(Number::Integer(last)) => {
                if n - at <= 2 {
                    return Err(FontError::BadWidths);
                }
                let width = match &items[at + 2] {
                    WidthItem::Number(width) => *width,
                    _ => {
                        return Err(FontError::BadWidths);
                    },
                };
                let mut part = range_widths(first, *last, width);
                list.append(&mut part);
                proof {
                    let rest = w_entries(items@, at as int + 3);
                    if rest is Ok {
                        assert((before + range_entries(first as int, *last as int, width))
                            + rest.unwrap() =~= before + (range_entries(
                            first as int,
                            *last as int,
                            width,
                        ) + rest.unwrap()));
                    }
                }
                at = at + 3;
            },
            _ => {
                return Err(FontError::BadWidths);
            },
        }
    }
    proof {
        assert(list@ + Seq::<WidthEntry>::empty() =~= list@);
    }
    Ok(list)
}

/// The width of each CID of a list of widths, a later one in place of an earlier.
pub open spec fn entries_map(entries: Seq<WidthEntry>) -> Map<u32, Number>
    decreases entries.len(),
{
    if entries.len() == 0 {
        Map::empty()
    } else {
        entries_map(entries.drop_last()).insert(entries.last().cid, entries.last().width)
    }
}

/// Collects a list of widths into a map.
pub fn widths_map(entries: &Vec<WidthEntry>) -> (map: HashMap<u32, Number>)
    ensures
        map@ == entries_map(entries@),
{
    let mut map: HashMap<u32, Number> = HashMap::new();
    let mut i: usize = 0;
    assert(entries@.take(0) =~= Seq::<WidthEntry>::empty());
    assert(map@ =~= entries_map(entries@.take(0)));
    while i < entries.len()
        invariant
            i <= entries.len(),
            map@ == entries_map(entries@.take(i as int)),
        decreases entries.len() - i,
    {
        proof {
            assert(entries@.take(i as int + 1).drop_last() =~= entries@.take(i as int));
            assert(entries@.take(i as int + 1).last() == entries@[i as int]);
        }
        map.insert(entries[i].cid, entries[i].width);
        i = i + 1;
    }
    assert(entries@.take(entries@.len() as int) =~= entries@);
    map
}

} // verus!
