use vstd::prelude::*;
use vstd::utf8::{encode_utf8, encode_utf8_decode_utf8};
use crate::encoding::is_surrogate;

verus! {

/// How one byte string stands to another in lexicographic order.
#[derive(Debug, Clone, Copy, PartialEq, Eq, Structural)]
pub enum Order {
    Before,
    Same,
    After,
}

/// Lexicographic order on byte strings: a proper prefix comes first, otherwise the
/// first byte that differs decides.
pub open spec fn lex_lt(a: Seq<u8>, b: Seq<u8>) -> bool
    decreases a.len(),
{
    if b.len() == 0 {
        false
    } else if a.len() == 0 {
        true
    } else if a[0] != b[0] {
        a[0] < b[0]
    } else {
        lex_lt(a.skip(1), b.skip(1))
    }
}

/// No byte string comes before itself.
pub proof fn lemma_lex_irreflexive(a: Seq<u8>)
    ensures
        !lex_lt(a, a),
    decreases a.len(),
{
    if a.len() > 0 {
        lemma_lex_irreflexive(a.skip(1));
    }
}

/// The order is transitive.
pub proof fn lemma_lex_transitive(a: Seq<u8>, b: Seq<u8>, c: Seq<u8>)
    requires
        lex_lt(a, b),
        lex_lt(b, c),
    ensures
        lex_lt(a, c),
    decreases a.len(),
{
    if a.len() > 0 && a[0] == b[0] && b[0] == c[0] {
        lemma_lex_transitive(a.skip(1), b.skip(1), c.skip(1));
    }
}

/// A common prefix does not bear on the order.
proof fn lemma_lex_skip_prefix(a: Seq<u8>, b: Seq<u8>, n: int)
    requires
        0 <= n <= a.len(),
        n <= b.len(),
        a.take(n) == b.take(n),
    ensures
        lex_lt(a, b) == lex_lt(a.skip(n), b.skip(n)),
    decreases n,
{
    if n > 0 {
        assert(a[0] == a.take(n)[0]);
        assert(b[0] == b.take(n)[0]);
        assert(a.skip(1).take(n - 1) =~= a.take(n).skip(1));
        assert(b.skip(1).take(n - 1) =~= b.take(n).skip(1));
        lemma_lex_skip_prefix(a.skip(1), b.skip(1), n - 1);
        assert(a.skip(1).skip(n - 1) =~= a.skip(n));
        assert(b.skip(1).skip(n - 1) =~= b.skip(n));
    } else {
        assert(a.skip(0) =~= a);
        assert(b.skip(0) =~= b);
    }
}

/// Compares two byte strings lexicographically.
pub fn compare_bytes(a: &[u8], b: &[u8]) -> (order: Order)
    ensures
        order == Order::Before <==> lex_lt(a@, b@),
        order == Order::After <==> lex_lt(b@, a@),
        order == Order::Same <==> a@ == b@,
{
    let mut i: usize = 0;
    proof {
        lemma_lex_irreflexive(a@);
    }
    while i < a.len() && i < b.len()
        invariant
            i <= a.len(),
            i <= b.len(),
            a@.take(i as int) == b@.take(i as int),
        decreases a.len() - i,
    {
        if a[i] != b[i] {
            proof {
                lemma_lex_skip_prefix(a@, b@, i as int);
                lemma_lex_skip_prefix(b@, a@, i as int);
                assert(a@.skip(i as int)[0] == a@[i as int]);
                assert(b@.skip(i as int)[0] == b@[i as int]);
            }
            if a[i] < b[i] {
                return Order::Before;
            } else {
                return Order::After;
            }
        }
        assert(a@.take(i as int + 1) =~= a@.take(i as int).push(a@[i as int]));
        assert(b@.take(i as int + 1) =~= b@.take(i as int).push(b@[i as int]));
        i = i + 1;
    }
    proof {
        lemma_lex_skip_prefix(a@, b@, i as int);
        lemma_lex_skip_prefix(b@, a@, i as int);
    }
    if i < b.len() {
        assert(a@.skip(i as int).len() == 0);
        Order::Before
    } else if i < a.len() {
        assert(b@.skip(i as int).len() == 0);
        Order::After
    } else {
        assert(a@ =~= a@.take(i as int));
        assert(b@ =~= b@.take(i as int));
        Order::Same
    }
}

/// One line of a glyph list: a glyph's name and the code point it stands for.
#[derive(Debug, Clone)]
pub struct GlyphEntry {
    pub name: String,
    pub code: u16,
}

/// The lines of a glyph list, each as the text of its name and its code point.
pub open spec fn glyph_pairs(entries: Seq<GlyphEntry>) -> Seq<(Seq<char>, u16)> {
    Seq::new(entries.len(), |i: int| (entries[i].name@, entries[i].code))
}

/// Whether a glyph list is in strictly ascending order of its names' UTF-8 bytes.
pub open spec fn names_ascending(pairs: Seq<(Seq<char>, u16)>) -> bool {
    forall|i: int, j: int|
        0 <= i < j < pairs.len() ==> lex_lt(
            encode_utf8((#[trigger] pairs[i]).0),
            encode_utf8((#[trigger] pairs[j]).0),
        )
}

/// Whether every code point of a glyph list is a character of its own, no
/// surrogate.
pub open spec fn codes_are_characters(pairs: Seq<(Seq<char>, u16)>) -> bool {
    forall|i: int| 0 <= i < pairs.len() ==> !is_surrogate((#[trigger] pairs[i]).1)
}

/// Whether a glyph list names a glyph.
pub open spec fn names_glyph(pairs: Seq<(Seq<char>, u16)>, name: Seq<char>) -> bool {
    exists|i: int| 0 <= i < pairs.len() && (#[trigger] pairs[i]).0 == name
}

/// What a glyph list says of each name in it.
pub open spec fn glyph_codes(pairs: Seq<(Seq<char>, u16)>) -> Map<Seq<char>, u16> {
    Map::new(
        |name: Seq<char>| names_glyph(pairs, name),
        |name: Seq<char>|
            pairs[choose|i: int| 0 <= i < pairs.len() && (#[trigger] pairs[i]).0 == name].1,
    )
}

/// Two names with the same UTF-8 bytes are the same name.
proof fn lemma_utf8_injective(a: Seq<char>, b: Seq<char>)
    requires
        encode_utf8(a) == encode_utf8(b),
    ensures
        a == b,
{
    encode_utf8_decode_utf8(a);
    encode_utf8_decode_utf8(b);
}

/// In an ascending glyph list every name occurs once.
proof fn lemma_ascending_unique(pairs: Seq<(Seq<char>, u16)>, i: int, j: int)
    requires
        names_ascending(pairs),
        0 <= i < pairs.len(),
        0 <= j < pairs.len(),
        pairs[i].0 == pairs[j].0,
    ensures
        i == j,
{
    lemma_lex_irreflexive(encode_utf8(pairs[i].0));
}

/// A glyph list held in ascending order of names, searched by bisection.
pub struct GlyphNames {
    entries: Vec<GlyphEntry>,
}

impl View for GlyphNames {
    type V = Map<Seq<char>, u16>;

    /// The code point of each glyph name in the list.
    closed spec fn view(&self) -> Map<Seq<char>, u16> {
        glyph_codes(glyph_pairs(self.entries@))
    }
}

impl GlyphNames {
    #[verifier::type_invariant]
    spec fn well_formed(&self) -> bool {
        names_ascending(glyph_pairs(self.entries@)) && codes_are_characters(
            glyph_pairs(self.entries@),
        )
    }

    /// Takes a glyph list, provided that its names are in strictly ascending order
    /// and none of its code points is a surrogate.
    pub fn new(entries: Vec<GlyphEntry>) -> (list: Option<GlyphNames>)
        ensures
            list is Some <==> names_ascending(glyph_pairs(entries@)) && codes_are_characters(
                glyph_pairs(entries@),
            ),
            list matches Some(names) ==> names@ == glyph_codes(glyph_pairs(entries@)),
    {
        let ghost pairs = glyph_pairs(entries@);
        let mut k: usize = 0;
        while k < entries.len()
            invariant
                k <= entries.len(),
                pairs == glyph_pairs(entries@),
                forall|j: int| 0 <= j < k ==> !is_surrogate((#[trigger] pairs[j]).1),
            decreases entries.len() - k,
        {
            if 0xD800 <= entries[k].code && entries[k].code <= 0xDFFF {
                assert(is_surrogate(pairs[k as int].1));
                return None;
            }
            k = k + 1;
        }
        let mut i: usize = 1;
        while i < entries.len()
            invariant
                1 <= i,
                pairs == glyph_pairs(entries@),
                codes_are_characters(pairs),
                forall|a: int, b: int|
                    0 <= a < b < i && b < pairs.len() ==> lex_lt(
                        encode_utf8((#[trigger] pairs[a]).0),
                        encode_utf8((#[trigger] pairs[b]).0),
                    ),
            decreases entries.len() - i,
        {
            let prev = entries[i - 1].name.as_str().as_bytes();
            let here = entries[i].name.as_str().as_bytes();
            assert(prev@ == encode_utf8(pairs[i - 1].0));
            assert(here@ == encode_utf8(pairs[i as int].0));
            match compare_bytes(prev, here) {
                Order::Before => {},
                _ => {
                    return None;
                },
            }
            proof {
                assert forall|a: int, b: int| 0 <= a < b < i + 1 && b < pairs.len() implies lex_lt(
                    encode_utf8((#[trigger] pairs[a]).0),
                    encode_utf8((#[trigger] pairs[b]).0),
                ) by {
                    if b == i && a < i - 1 {
                        lemma_lex_transitive(
                            encode_utf8(pairs[a].0),
                            encode_utf8(pairs[i - 1].0),
                            encode_utf8(pairs[i as int].0),
                        );
                    }
                }
            }
            i = i + 1;
        }
        Some(GlyphNames { entries })
    }

    /// The code point of a glyph name, if the list has the name.
    pub fn lookup(&self, name: &str) -> (code: Option<u16>)
        ensures
            code == (if self@.contains_key(name@) {
                Some(self@[name@])
            } else {
                None
            }),
            code matches Some(unit) ==> !is_surrogate(unit),
    {
        proof {
            use_type_invariant(self);
        }
        let ghost pairs = glyph_pairs(self.entries@);
        let key = name.as_bytes();
        let mut lo: usize = 0;
        let mut hi: usize = self.entries.len();
        while lo < hi
            invariant
                lo <= hi <= self.entries.len(),
                key@ == encode_utf8(name@),
                pairs == glyph_pairs(self.entries@),
                names_ascending(pairs),
                codes_are_characters(pairs),
                forall|k: int| 0 <= k < lo ==> lex_lt(encode_utf8((#[trigger] pairs[k]).0), key@),
                forall|k: int|
                    hi <= k < pairs.len() ==> lex_lt(key@, encode_utf8((#[trigger] pairs[k]).0)),
            decreases hi - lo,
        {
            let mid = lo + (hi - lo) / 2;
            let here = self.entries[mid].name.as_str().as_bytes();
            assert(here@ == encode_utf8(pairs[mid as int].0));
            match compare_bytes(here, key) {
                Order::Same => {
                    proof {
                        lemma_utf8_injective(pairs[mid as int].0, name@);
                        assert(names_glyph(pairs, name@));
                        let found = choose|i: int|
                            0 <= i < pairs.len() && (#[trigger] pairs[i]).0 == name@;
                        lemma_ascending_unique(pairs, found, mid as int);
                        assert(!is_surrogate(pairs[mid as int].1));
                    }
                    return Some(self.entries[mid].code);
                },
                Order::Before => {
                    proof {
                        assert forall|k: int| 0 <= k < mid + 1 implies lex_lt(
                            encode_utf8((#[trigger] pairs[k]).0),
                            key@,
                        ) by {
                            if k < mid {
                                lemma_lex_transitive(
                                    encode_utf8(pairs[k].0),
                                    encode_utf8(pairs[mid as int].0),
                                    key@,
                                );
                            }
                        }
                    }
                    lo = mid + 1;
                },
                Order::After => {
                    proof {
                        assert forall|k: int| mid <= k < pairs.len() implies lex_lt(
                            key@,
                            encode_utf8((#[trigger] pairs[k]).0),
                        ) by {
                            if k > mid {
                                lemma_lex_transitive(
                                    key@,
                                    encode_utf8(pairs[mid as int].0),
                                    encode_utf8(pairs[k].0),
                                );
                            }
                        }
                    }
                    hi = mid;
                },
            }
        }
        proof {
            if names_glyph(pairs, name@) {
                let k = choose|i: int| 0 <= i < pairs.len() && (#[trigger] pairs[i]).0 == name@;
                lemma_lex_irreflexive(key@);
            }
        }
        None
    }
}

} // verus!
