use vstd::prelude::*;
use crate::line_order::lemma_sorted_members;

verus! {

/// What a span is ordered by: its page, and integers that rise with its baseline
/// and with its left edge.
#[derive(Debug, Clone, Copy, PartialEq, Eq, Structural)]
pub struct SpanKey {
    pub page: u32,
    pub baseline: i64,
    pub left: i64,
}

/// The two orders of spans.
#[derive(Debug, Clone, Copy, PartialEq, Eq, Structural)]
pub enum Axis {
    /// Down the document: by page, then by baseline.
    Down,
    /// Across a line: by left edge.
    Across,
}

/// How far a span's baseline lies from that of the span before it on its page.
#[derive(Debug, Clone, Copy, PartialEq, Eq, Structural)]
pub enum Gap {
    /// Near enough for the same line.
    Near,
    /// Far enough for a new line.
    Line,
    /// Far enough for a new line after blank ones: as many as given, and one at
    /// least.
    Blank(usize),
}

/// Whether span `i` comes no later than span `j` in an order.
pub open spec fn no_later(keys: Seq<SpanKey>, axis: Axis, i: int, j: int) -> bool {
    match axis {
        Axis::Down => keys[i].page < keys[j].page || (keys[i].page == keys[j].page
            && keys[i].baseline <= keys[j].baseline),
        Axis::Across => keys[i].left <= keys[j].left,
    }
}

/// Whether span `i` comes no later than span `j` in an order.
fn comes_no_later(keys: &Vec<SpanKey>, axis: Axis, i: usize, j: usize) -> (le: bool)
    requires
        i < keys@.len(),
        j < keys@.len(),
    ensures
        le == no_later(keys@, axis, i as int, j as int),
{
    match axis {
        Axis::Down => keys[i].page < keys[j].page || (keys[i].page == keys[j].page
            && keys[i].baseline <= keys[j].baseline),
        Axis::Across => keys[i].left <= keys[j].left,
    }
}

/// A sorted list with one more span, put behind every span that comes no later.
pub open spec fn insert_by(keys: Seq<SpanKey>, axis: Axis, sorted: Seq<usize>, x: usize) -> Seq<usize>
    decreases sorted.len(),
{
    if sorted.len() == 0 {
        seq![x]
    } else if no_later(keys, axis, sorted.last() as int, x as int) {
        sorted.push(x)
    } else {
        insert_by(keys, axis, sorted.drop_last(), x).push(sorted.last())
    }
}

/// The spans of a list in an order, those that the order does not tell apart in
/// the order of the list.
pub open spec fn stable_sorted(keys: Seq<SpanKey>, axis: Axis, items: Seq<usize>) -> Seq<usize>
    decreases items.len(),
{
    if items.len() == 0 {
        Seq::empty()
    } else {
        insert_by(keys, axis, stable_sorted(keys, axis, items.drop_last()), items.last())
    }
}

/// Where a span goes into a sorted list: behind the last span that comes no
/// later than it.
proof fn lemma_insert_at(keys: Seq<SpanKey>, axis: Axis, sorted: Seq<usize>, x: usize, p: int)
    requires
        0 <= p <= sorted.len(),
        forall|q: int|
            p <= q < sorted.len() ==> !no_later(keys, axis, #[trigger] sorted[q] as int, x as int),
        p > 0 ==> no_later(keys, axis, sorted[p - 1] as int, x as int),
    ensures
        insert_by(keys, axis, sorted, x) == sorted.insert(p, x),
    decreases sorted.len() - p,
{
    if sorted.len() == 0 {
        assert(sorted.insert(0, x) =~= seq![x]);
    } else if p == sorted.len() {
        assert(sorted.insert(p, x) =~= sorted.push(x));
    } else {
        let shorter = sorted.drop_last();
        assert(!no_later(keys, axis, sorted[sorted.len() - 1] as int, x as int));
        assert forall|q: int| p <= q < shorter.len() implies !no_later(
            keys,
            axis,
            #[trigger] shorter[q] as int,
            x as int,
        ) by {
            assert(shorter[q] == sorted[q]);
        }
        if p > 0 {
            assert(shorter[p - 1] == sorted[p - 1]);
        }
        lemma_insert_at(keys, axis, shorter, x, p);
        assert(shorter.insert(p, x).push(sorted.last()) =~= sorted.insert(p, x));
    }
}

/// Whether every span of a list is one of the spans at hand.
pub open spec fn all_known(keys: Seq<SpanKey>, items: Seq<usize>) -> bool {
    forall|i: int| 0 <= i < items.len() ==> (#[trigger] items[i]) < keys.len()
}

/// Inserting keeps to the spans of the list and the new one.
proof fn lemma_insert_known(keys: Seq<SpanKey>, axis: Axis, sorted: Seq<usize>, x: usize)
    requires
        all_known(keys, sorted),
        x < keys.len(),
    ensures
        all_known(keys, insert_by(keys, axis, sorted, x)),
        insert_by(keys, axis, sorted, x).len() == sorted.len() + 1,
    decreases sorted.len(),
{
    if sorted.len() > 0 && !no_later(keys, axis, sorted.last() as int, x as int) {
        lemma_insert_known(keys, axis, sorted.drop_last(), x);
    }
}

/// Whether every span of a list is one of the spans at hand.
pub fn all_spans_known(keys: &Vec<SpanKey>, items: &Vec<usize>) -> (known: bool)
    ensures
        known == all_known(keys@, items@),
{
    let mut i: usize = 0;
    while i < items.len()
        invariant
            i <= items.len(),
            forall|j: int| 0 <= j < i ==> (#[trigger] items@[j]) < keys@.len(),
        decreases items.len() - i,
    {
        if items[i] >= keys.len() {
            return false;
        }
        i = i + 1;
    }
    true
}

/// Sorts a list of spans in an order, keeping apart in the order of the list
/// those that the order does not tell apart.
pub fn sort_spans(keys: &Vec<SpanKey>, axis: Axis, items: &Vec<usize>) -> (sorted: Vec<usize>)
    requires
        all_known(keys@, items@),
    ensures
        sorted@ == stable_sorted(keys@, axis, items@),
{
    let mut sorted: Vec<usize> = Vec::new();
    let mut i: usize = 0;
    assert(items@.take(0) =~= Seq::<usize>::empty());
    while i < items.len()
        invariant
            i <= items.len(),
            all_known(keys@, items@),
            all_known(keys@, sorted@),
            sorted@.len() == i,
            sorted@ == stable_sorted(keys@, axis, items@.take(i as int)),
        decreases items.len() - i,
    {
        let x = items[i];
        proof {
            assert(items@.take(i as int + 1).drop_last() =~= items@.take(i as int));
            assert(items@.take(i as int + 1).last() == x);
        }
        let mut p: usize = sorted.len();
        while p > 0 && !comes_no_later(keys, axis, sorted[p - 1], x)
            invariant
                p <= sorted@.len(),
                all_known(keys@, sorted@),
                x < keys@.len(),
                forall|q: int|
                    p <= q < sorted@.len() ==> !no_later(
                        keys@,
                        axis,
                        #[trigger] sorted@[q] as int,
                        x as int,
                    ),
            decreases p,
        {
            p = p - 1;
        }
        proof {
            lemma_insert_at(keys@, axis, sorted@, x, p as int);
            lemma_insert_known(keys@, axis, sorted@, x);
        }
        sorted.insert(p, x);
        i = i + 1;
    }
    assert(items@.take(items@.len() as int) =~= items@);
    sorted
}

/// The first `n` spans, each by its number.
pub open spec fn first_spans(n: nat) -> Seq<usize> {
    Seq::new(n, |i: int| i as usize)
}

/// The order in which the spans are read: by page, then by baseline, spans of
/// one page and baseline in the order in which they were made.
pub fn reading_order(keys: &Vec<SpanKey>) -> (order: Vec<usize>)
    ensures
        order@ == stable_sorted(keys@, Axis::Down, first_spans(keys@.len())),
        order@.len() == keys@.len(),
        all_known(keys@, order@),
{
    let mut all: Vec<usize> = Vec::new();
    let mut i: usize = 0;
    while i < keys.len()
        invariant
            i <= keys.len(),
            all@ == first_spans(i as nat),
        decreases keys.len() - i,
    {
        all.push(i);
        assert(all@ =~= first_spans((i + 1) as nat));
        i = i + 1;
    }
    let order = sort_spans(keys, Axis::Down, &all);
    proof {
        lemma_sorted_members(keys@, Axis::Down, all@);
        assert forall|k: int| 0 <= k < order@.len() implies (#[trigger] order@[k]) < keys@.len() by {
            assert(order@.contains(order@[k]));
            assert(all@.contains(order@[k]));
            let p = choose|p: int| 0 <= p < all@.len() && all@[p] == order@[k];
        }
    }
    order
}

/// What parts a span from the one before it in reading order.
#[derive(Debug, Clone, Copy, PartialEq, Eq, Structural)]
pub enum Separator {
    /// Nothing: the two share a line.
    Joined,
    /// A line break.
    Broken,
    /// A line break and empty lines, as many as given.
    Parted(usize),
}

/// What parts the span at place `k` of the reading order from the one before it:
/// one empty line where the page changes, on one page what the gap between the two
/// baselines asks for, and nothing before the first span.
pub open spec fn separator(keys: Seq<SpanKey>, order: Seq<usize>, gaps: Seq<Gap>, k: int) -> Separator {
    if k <= 0 {
        Separator::Joined
    } else if keys[order[k] as int].page != keys[order[k - 1] as int].page {
        Separator::Parted(1)
    } else {
        match gaps[k] {
            Gap::Near => Separator::Joined,
            Gap::Line => Separator::Broken,
            Gap::Blank(n) => Separator::Parted(
                if n >= 1 {
                    n
                } else {
                    1
                },
            ),
        }
    }
}

/// A run of empty lines.
pub open spec fn blanks(n: usize) -> Seq<Seq<usize>> {
    Seq::new(n as nat, |i: int| Seq::<usize>::empty())
}

/// A line that is done: its spans from left to right, and no line where there is
/// no span.
pub open spec fn closed(keys: Seq<SpanKey>, current: Seq<usize>) -> Seq<Seq<usize>> {
    if current.len() == 0 {
        Seq::empty()
    } else {
        seq![stable_sorted(keys, Axis::Across, current)]
    }
}

/// The lines that the spans from place `k` of the reading order on make, after
/// the spans of `current`, which are on a line already.
pub open spec fn lines_from(
    keys: Seq<SpanKey>,
    order: Seq<usize>,
    gaps: Seq<Gap>,
    k: int,
    current: Seq<usize>,
) -> Seq<Seq<usize>>
    decreases order.len() - k,
{
    if k < 0 || k >= order.len() {
        closed(keys, current)
    } else {
        match separator(keys, order, gaps, k) {
            Separator::Joined => lines_from(keys, order, gaps, k + 1, current.push(order[k])),
            Separator::Broken => closed(keys, current) + lines_from(
                keys,
                order,
                gaps,
                k + 1,
                seq![order[k]],
            ),
            Separator::Parted(n) => closed(keys, current) + blanks(n) + lines_from(
                keys,
                order,
                gaps,
                k + 1,
                seq![order[k]],
            ),
        }
    }
}

/// The lines of a document: the spans in reading order, parted into lines, each
/// line from left to right; one empty line between pages, and empty lines at a wide
/// gap.
pub open spec fn lines_of(keys: Seq<SpanKey>, order: Seq<usize>, gaps: Seq<Gap>) -> Seq<Seq<usize>> {
    lines_from(keys, order, gaps, 0, Seq::empty())
}

/// The spans of each line.
pub open spec fn line_views(lines: Seq<Vec<usize>>) -> Seq<Seq<usize>> {
    Seq::new(lines.len(), |i: int| lines[i]@)
}

/// Parts the spans, given in reading order, into lines. `gaps[k]` says how far the
/// baseline of the span at place `k` lies from that of the span before it.
pub fn group_lines(keys: &Vec<SpanKey>, order: &Vec<usize>, gaps: &Vec<Gap>) -> (lines: Vec<
    Vec<usize>,
>)
    requires
        all_known(keys@, order@),
        gaps@.len() == order@.len(),
    ensures
        line_views(lines@) == lines_of(keys@, order@, gaps@),
{
    let mut lines: Vec<Vec<usize>> = Vec::new();
    let mut current: Vec<usize> = Vec::new();
    let mut k: usize = 0;
    assert(line_views(lines@) =~= Seq::<Seq<usize>>::empty());
    assert(Seq::<Seq<usize>>::empty() + lines_of(keys@, order@, gaps@) =~= lines_of(
        keys@,
        order@,
        gaps@,
    ));
    while k < order.len()
        invariant
            k <= order.len(),
            all_known(keys@, order@),
            all_known(keys@, current@),
            gaps@.len() == order@.len(),
            lines_of(keys@, order@, gaps@) == line_views(lines@) + lines_from(
                keys@,
                order@,
                gaps@,
                k as int,
                current@,
            ),
        decreases order.len() - k,
    {
        let span = order[k];
        let parted = if k == 0 {
            Separator::Joined
        } else if keys[span].page != keys[order[k - 1]].page {
            Separator::Parted(1)
        } else {
            match gaps[k] {
                Gap::Near => Separator::Joined,
                Gap::Line => Separator::Broken,
                Gap::Blank(n) => Separator::Parted(
                    if n >= 1 {
                        n
                    } else {
                        1
                    },
                ),
            }
        };
        assert(parted == separator(keys@, order@, gaps@, k as int));
        let ghost before = line_views(lines@);
        let ghost rest = lines_from(keys@, order@, gaps@, k as int + 1, seq![span]);
        match parted {
            Separator::Joined => {},
            _ => {
                if current.len() > 0 {
                    let line = sort_spans(keys, Axis::Across, &current);
                    lines.push(line);
                    assert(line_views(lines@) =~= before + closed(keys@, current@));
                } else {
                    assert(before + closed(keys@, current@) =~= before);
                }
                current = Vec::new();
                match parted {
                    Separator::Parted(n) => {
                        let ghost so_far = line_views(lines@);
                        let mut b: usize = 0;
                        while b < n
                            invariant
                                b <= n,
                                line_views(lines@) == so_far + blanks(b),
                            decreases n - b,
                        {
                            let ghost here = line_views(lines@);
                            lines.push(Vec::new());
                            assert(line_views(lines@) =~= here + seq![Seq::<usize>::empty()]);
                            assert(so_far + blanks((b + 1) as usize) =~= so_far + blanks(b) + seq![
                                Seq::<usize>::empty(),
                            ]);
                            b = b + 1;
                        }
                        assert(lines_of(keys@, order@, gaps@) =~= line_views(lines@) + rest);
                    },
                    _ => {
                        assert(lines_of(keys@, order@, gaps@) =~= line_views(lines@) + rest);
                    },
                }
            },
        }
        current.push(span);
        assert(parted != Separator::Joined ==> current@ =~= seq![span]);
        k = k + 1;
    }
    let ghost before = line_views(lines@);
    if current.len() > 0 {
        let line = sort_spans(keys, Axis::Across, &current);
        lines.push(line);
        assert(line_views(lines@) =~= before + closed(keys@, current@));
    } else {
        assert(before + closed(keys@, current@) =~= before);
    }
    lines
}

} // verus!
