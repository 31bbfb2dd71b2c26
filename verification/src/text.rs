use vstd::prelude::*;
use vstd::string::{StrSliceExecFns, StringSliceAdditionalSpecFns};
use vstd::utf8::encode_utf8_decode_utf8;
use crate::names::{compare_bytes, Order};

verus! {

/// Whether two string slices hold the same characters.
pub fn str_eq(a: &str, b: &str) -> (same: bool)
    ensures
        same == (a@ == b@),
{
    let same = compare_bytes(a.as_bytes(), b.as_bytes()) == Order::Same;
    proof {
        if a.spec_bytes() == b.spec_bytes() {
            encode_utf8_decode_utf8(a@);
            encode_utf8_decode_utf8(b@);
        }
    }
    same
}

/// Whether a character occurs in a string slice.
pub fn str_has_char(s: &str, c: char) -> (found: bool)
    ensures
        found == s@.contains(c),
{
    let len = s.unicode_len();
    let mut i: usize = 0;
    while i < len
        invariant
            i <= len,
            len == s@.len(),
            forall|j: int| 0 <= j < i ==> s@[j] != c,
        decreases len - i,
    {
        if s.get_char(i) == c {
            return true;
        }
        i = i + 1;
    }
    false
}

/// Whether `needle` occurs in `hay` as a run of consecutive bytes.
pub open spec fn contains_bytes(hay: Seq<u8>, needle: Seq<u8>) -> bool {
    exists|at: int|
        0 <= at && at + needle.len() <= hay.len() && #[trigger] hay.subrange(
            at,
            at + needle.len(),
        ) == needle
}

/// Whether `needle` stands at position `at` of `hay`.
fn occurs_at(hay: &[u8], needle: &[u8], at: usize) -> (found: bool)
    requires
        at + needle@.len() <= hay@.len(),
    ensures
        found == (hay@.subrange(at as int, at + needle@.len()) == needle@),
{
    let mut k: usize = 0;
    let end = hay.len();
    while k < needle.len()
        invariant
            k <= needle@.len(),
            end == hay@.len(),
            at + needle@.len() <= hay@.len(),
            forall|j: int| 0 <= j < k ==> hay@[at + j] == needle@[j],
        decreases needle@.len() - k,
    {
        if hay[at + k] != needle[k] {
            assert(hay@.subrange(at as int, at + needle@.len())[k as int] != needle@[k as int]);
            return false;
        }
        k = k + 1;
    }
    assert(hay@.subrange(at as int, at + needle@.len()) =~= needle@);
    true
}

/// Whether one string holds another, compared byte by byte in UTF-8.
pub fn str_contains(hay: &str, needle: &str) -> (found: bool)
    ensures
        found == contains_bytes(hay.spec_bytes(), needle.spec_bytes()),
{
    let h = hay.as_bytes();
    let n = needle.as_bytes();
    if n.len() > h.len() {
        return false;
    }
    let end = h.len();
    let last = end - n.len();
    let mut at: usize = 0;
    while at <= last
        invariant
            end == h@.len(),
            h@ == hay.spec_bytes(),
            n@ == needle.spec_bytes(),
            n@.len() <= h@.len(),
            last == h@.len() - n@.len(),
            at <= last + 1,
            forall|p: int| 0 <= p < at ==> #[trigger] h@.subrange(p, p + n@.len()) != n@,
        decreases last + 1 - at,
    {
        if occurs_at(h, n, at) {
            return true;
        }
        if at == last {
            return false;
        }
        at = at + 1;
    }
    false
}

} // verus!
