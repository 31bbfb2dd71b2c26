use vstd::multiset::Multiset;
use vstd::prelude::*;
use vstd::seq_lib::{lemma_flatten_concat, lemma_multiset_commutative, to_multiset_build};
use crate::lines::{
    blanks, closed, first_spans, insert_by, lines_from, lines_of, no_later, separator,
    stable_sorted, Axis, Gap, Separator, SpanKey,
};

verus! {

/// Whether a list of spans rises in an order.
pub open spec fn ascending(keys: Seq<SpanKey>, axis: Axis, spans: Seq<usize>) -> bool {
    forall|a: int, b: int|
        0 <= a < b < spans.len() ==> no_later(
            keys,
            axis,
            #[trigger] spans[a] as int,
            #[trigger] spans[b] as int,
        )
}

/// Whether the spans of a list are all on one page.
pub open spec fn one_page(keys: Seq<SpanKey>, spans: Seq<usize>) -> bool {
    forall|a: int, b: int|
        0 <= a < spans.len() && 0 <= b < spans.len() ==> keys[#[trigger] spans[a] as int].page
            == keys[#[trigger] spans[b] as int].page
}

/// Either order tells any two spans apart one way or the other, and carries over.
proof fn lemma_order(keys: Seq<SpanKey>, axis: Axis, i: int, j: int, k: int)
    ensures
        no_later(keys, axis, i, j) || no_later(keys, axis, j, i),
        no_later(keys, axis, i, j) && no_later(keys, axis, j, k) ==> no_later(keys, axis, i, k),
{
}

/// Inserting adds the new span and nothing else.
proof fn lemma_insert_members(keys: Seq<SpanKey>, axis: Axis, sorted: Seq<usize>, x: usize)
    ensures
        insert_by(keys, axis, sorted, x).len() == sorted.len() + 1,
        forall|y: usize|
            #[trigger] insert_by(keys, axis, sorted, x).contains(y) <==> sorted.contains(y) || y
                == x,
    decreases sorted.len(),
{
    let out = insert_by(keys, axis, sorted, x);
    if sorted.len() == 0 {
        assert(out[0] == x);
        assert forall|y: usize| #[trigger] out.contains(y) <==> sorted.contains(y) || y == x by {
            if out.contains(y) {
                let i = choose|i: int| 0 <= i < out.len() && out[i] == y;
            }
        }
    } else if no_later(keys, axis, sorted.last() as int, x as int) {
        assert forall|y: usize| #[trigger] out.contains(y) <==> sorted.contains(y) || y == x by {
            if out.contains(y) {
                let i = choose|i: int| 0 <= i < out.len() && out[i] == y;
                if i < sorted.len() {
                    assert(sorted[i] == y);
                }
            }
            if sorted.contains(y) {
                let i = choose|i: int| 0 <= i < sorted.len() && sorted[i] == y;
                assert(out[i] == y);
            }
            if y == x {
                assert(out[sorted.len() as int] == y);
            }
        }
    } else {
        let shorter = sorted.drop_last();
        let inner = insert_by(keys, axis, shorter, x);
        lemma_insert_members(keys, axis, shorter, x);
        assert forall|y: usize| #[trigger] out.contains(y) <==> sorted.contains(y) || y == x by {
            if out.contains(y) {
                let i = choose|i: int| 0 <= i < out.len() && out[i] == y;
                if i < inner.len() {
                    assert(inner[i] == y);
                    assert(inner.contains(y));
                    if shorter.contains(y) {
                        let j = choose|j: int| 0 <= j < shorter.len() && shorter[j] == y;
                        assert(sorted[j] == y);
                    }
                } else {
                    assert(sorted[sorted.len() - 1] == y);
                }
            }
            if sorted.contains(y) {
                let j = choose|j: int| 0 <= j < sorted.len() && sorted[j] == y;
                if j < shorter.len() {
                    assert(shorter[j] == y);
                    assert(shorter.contains(y));
                    assert(inner.contains(y));
                    let i = choose|i: int| 0 <= i < inner.len() && inner[i] == y;
                    assert(out[i] == y);
                } else {
                    assert(out[inner.len() as int] == y);
                }
            }
            if y == x {
                assert(inner.contains(y));
                let i = choose|i: int| 0 <= i < inner.len() && inner[i] == y;
                assert(out[i] == y);
            }
        }
    }
}

/// Sorting a list keeps its spans, each of them and no other.
pub proof fn lemma_sorted_members(keys: Seq<SpanKey>, axis: Axis, items: Seq<usize>)
    ensures
        stable_sorted(keys, axis, items).len() == items.len(),
        forall|y: usize|
            #[trigger] stable_sorted(keys, axis, items).contains(y) <==> items.contains(y),
    decreases items.len(),
{
    let out = stable_sorted(keys, axis, items);
    if items.len() == 0 {
        assert forall|y: usize| #[trigger] out.contains(y) <==> items.contains(y) by {
            if out.contains(y) {
                let i = choose|i: int| 0 <= i < out.len() && out[i] == y;
            }
            if items.contains(y) {
                let i = choose|i: int| 0 <= i < items.len() && items[i] == y;
            }
        }
    } else {
        let shorter = items.drop_last();
        let inner = stable_sorted(keys, axis, shorter);
        lemma_sorted_members(keys, axis, shorter);
        lemma_insert_members(keys, axis, inner, items.last());
        assert forall|y: usize| #[trigger] out.contains(y) <==> items.contains(y) by {
            if out.contains(y) && y != items.last() {
                assert(inner.contains(y));
                assert(shorter.contains(y));
                let j = choose|j: int| 0 <= j < shorter.len() && shorter[j] == y;
                assert(items[j] == y);
            }
            if items.contains(y) {
                let j = choose|j: int| 0 <= j < items.len() && items[j] == y;
                if j < shorter.len() {
                    assert(shorter[j] == y);
                    assert(shorter.contains(y));
                } else {
                    assert(y == items.last());
                }
            }
            if y == items.last() {
                assert(items[items.len() - 1] == y);
            }
        }
    }
}

/// Inserting into a rising list gives a rising list.
proof fn lemma_insert_ascending(keys: Seq<SpanKey>, axis: Axis, sorted: Seq<usize>, x: usize)
    requires
        ascending(keys, axis, sorted),
    ensures
        ascending(keys, axis, insert_by(keys, axis, sorted, x)),
    decreases sorted.len(),
{
    let out = insert_by(keys, axis, sorted, x);
    if sorted.len() == 0 {
    } else if no_later(keys, axis, sorted.last() as int, x as int) {
        assert forall|a: int, b: int| 0 <= a < b < out.len() implies no_later(
            keys,
            axis,
            #[trigger] out[a] as int,
            #[trigger] out[b] as int,
        ) by {
            if b == sorted.len() {
                if a < sorted.len() - 1 {
                    assert(no_later(keys, axis, sorted[a] as int, sorted[sorted.len() - 1] as int));
                }
                lemma_order(keys, axis, out[a] as int, sorted.last() as int, x as int);
            } else {
                assert(no_later(keys, axis, sorted[a] as int, sorted[b] as int));
            }
        }
    } else {
        let shorter = sorted.drop_last();
        let inner = insert_by(keys, axis, shorter, x);
        assert(ascending(keys, axis, shorter)) by {
            assert forall|a: int, b: int| 0 <= a < b < shorter.len() implies no_later(
                keys,
                axis,
                #[trigger] shorter[a] as int,
                #[trigger] shorter[b] as int,
            ) by {
                assert(no_later(keys, axis, sorted[a] as int, sorted[b] as int));
            }
        }
        lemma_insert_ascending(keys, axis, shorter, x);
        lemma_insert_members(keys, axis, shorter, x);
        lemma_order(keys, axis, sorted.last() as int, x as int, x as int);
        assert forall|a: int, b: int| 0 <= a < b < out.len() implies no_later(
            keys,
            axis,
            #[trigger] out[a] as int,
            #[trigger] out[b] as int,
        ) by {
            if b == inner.len() {
                let y = inner[a];
                assert(inner.contains(y));
                if y != x {
                    assert(shorter.contains(y));
                    let j = choose|j: int| 0 <= j < shorter.len() && shorter[j] == y;
                    assert(no_later(keys, axis, sorted[j] as int, sorted[sorted.len() - 1] as int));
                }
            } else {
                assert(no_later(keys, axis, inner[a] as int, inner[b] as int));
            }
        }
    }
}

/// A sorted list rises in the order that it was sorted in.
pub proof fn lemma_sorted_ascending(keys: Seq<SpanKey>, axis: Axis, items: Seq<usize>)
    ensures
        ascending(keys, axis, stable_sorted(keys, axis, items)),
    decreases items.len(),
{
    if items.len() > 0 {
        lemma_sorted_ascending(keys, axis, items.drop_last());
        lemma_insert_ascending(
            keys,
            axis,
            stable_sorted(keys, axis, items.drop_last()),
            items.last(),
        );
    }
}

/// Whether the spans that are on a line already fit the place `k` of the reading
/// order: they end with the span before that place and are all on one page, and
/// there are none only at the start.
pub open spec fn well_started(
    keys: Seq<SpanKey>,
    order: Seq<usize>,
    k: int,
    current: Seq<usize>,
) -> bool {
    &&& current.len() == 0 ==> k == 0
    &&& current.len() > 0 ==> 0 < k <= order.len() && current.last() == order[k - 1]
    &&& one_page(keys, current)
}

/// Whether the lines between two lines are all empty.
#[verifier::opaque]
pub open spec fn empty_between(lines: Seq<Seq<usize>>, i: int, j: int) -> bool {
    forall|k: int| i < k < j ==> (#[trigger] lines[k]).len() == 0
}

/// A line that is not empty does not stand between lines with only empty lines
/// between them.
proof fn lemma_not_between(lines: Seq<Seq<usize>>, i: int, j: int, k: int)
    requires
        i < k < j,
        lines[k].len() > 0,
    ensures
        !empty_between(lines, i, j),
{
    reveal(empty_between);
}

/// What holds of the lines whatever the order of the spans: each line runs from
/// left to right and stays on one page; the first and the last line are not empty;
/// and where the page changes from one line to the next that is not empty, exactly
/// one empty line stands between the two.
pub open spec fn well_shaped(keys: Seq<SpanKey>, lines: Seq<Seq<usize>>) -> bool {
    &&& forall|i: int| 0 <= i < lines.len() ==> ascending(keys, Axis::Across, #[trigger] lines[i])
    &&& forall|i: int| 0 <= i < lines.len() ==> one_page(keys, #[trigger] lines[i])
    &&& lines.len() > 0 ==> lines[0].len() > 0 && lines.last().len() > 0
    &&& forall|i: int, j: int|
        #![trigger lines[i], lines[j]]
        0 <= i < j < lines.len() && lines[i].len() > 0 && lines[j].len() > 0 && empty_between(
            lines,
            i,
            j,
        ) && keys[lines[i][0] as int].page != keys[lines[j][0] as int].page ==> j == i + 2
}

/// A line that is done is sorted, on one page, and holds the spans that were on
/// it.
proof fn lemma_closed(keys: Seq<SpanKey>, current: Seq<usize>)
    requires
        one_page(keys, current),
        current.len() > 0,
    ensures
        closed(keys, current).len() == 1,
        closed(keys, current)[0].len() == current.len(),
        ascending(keys, Axis::Across, closed(keys, current)[0]),
        one_page(keys, closed(keys, current)[0]),
        forall|x: usize| #[trigger] closed(keys, current)[0].contains(x) <==> current.contains(x),
{
    let line = stable_sorted(keys, Axis::Across, current);
    lemma_sorted_members(keys, Axis::Across, current);
    lemma_sorted_ascending(keys, Axis::Across, current);
    assert forall|a: int, b: int| 0 <= a < line.len() && 0 <= b < line.len() implies keys[
        #[trigger] line[a] as int].page == keys[#[trigger] line[b] as int].page by {
        assert(line.contains(line[a]));
        assert(line.contains(line[b]));
        let p = choose|p: int| 0 <= p < current.len() && current[p] == line[a];
        let q = choose|q: int| 0 <= q < current.len() && current[q] == line[b];
        assert(keys[current[p] as int].page == keys[current[q] as int].page);
    }
}

/// The lines from any place on are well shaped, and the first of them holds the
/// spans that were on a line already.
proof fn lemma_shape(
    keys: Seq<SpanKey>,
    order: Seq<usize>,
    gaps: Seq<Gap>,
    k: int,
    current: Seq<usize>,
)
    requires
        0 <= k <= order.len(),
        well_started(keys, order, k, current),
    ensures
        well_shaped(keys, lines_from(keys, order, gaps, k, current)),
        current.len() > 0 ==> lines_from(keys, order, gaps, k, current).len() > 0 && forall|
            x: usize,
        |
            current.contains(x) ==> #[trigger] lines_from(keys, order, gaps, k, current)[0].contains(
                x,
            ),
    decreases order.len() - k,
{
    let lines = lines_from(keys, order, gaps, k, current);
    if k >= order.len() {
        if current.len() > 0 {
            lemma_closed(keys, current);
        }
    } else {
        let here = order[k];
        let single = seq![here];
        match separator(keys, order, gaps, k) {
            Separator::Joined => {
                let next = current.push(here);
                assert(next.last() == order[k]);
                assert(one_page(keys, next)) by {
                    assert forall|a: int, b: int|
                        0 <= a < next.len() && 0 <= b < next.len() implies keys[
                    #[trigger] next[a] as int].page == keys[#[trigger] next[b] as int].page by {
                        if current.len() > 0 {
                            let last = current.len() - 1;
                            assert(keys[current[last] as int].page == keys[here as int].page);
                            if a < current.len() {
                                assert(keys[current[a] as int].page == keys[current[last] as int].page);
                            }
                            if b < current.len() {
                                assert(keys[current[b] as int].page == keys[current[last] as int].page);
                            }
                        }
                    }
                }
                lemma_shape(keys, order, gaps, k + 1, next);
                assert forall|x: usize| current.contains(x) implies #[trigger] lines[0].contains(
                    x,
                ) by {
                    let p = choose|p: int| 0 <= p < current.len() && current[p] == x;
                    assert(next[p] == x);
                    assert(next.contains(x));
                }
            },
            Separator::Broken => {
                assert(k > 0);
                assert(single.last() == order[k]);
                lemma_shape(keys, order, gaps, k + 1, single);
                lemma_closed(keys, current);
                let rest = lines_from(keys, order, gaps, k + 1, single);
                let head = closed(keys, current);
                assert(lines == head + rest);
                assert(single[0] == here);
                assert(single.contains(here));
                assert(rest[0].contains(here));
                assert(current[current.len() - 1] == order[k - 1]);
                assert(current.contains(order[k - 1]));
                assert(head[0].contains(order[k - 1]));
                lemma_same_page(keys, rest[0], rest[0][0], here);
                lemma_same_page(keys, head[0], head[0][0], order[k - 1]);
                lemma_joined_shape(keys, head, rest);
            },
            Separator::Parted(n) => {
                assert(k > 0);
                assert(n >= 1);
                assert(single.last() == order[k]);
                lemma_shape(keys, order, gaps, k + 1, single);
                lemma_closed(keys, current);
                let rest = lines_from(keys, order, gaps, k + 1, single);
                let head = closed(keys, current);
                assert(lines == head + blanks(n) + rest);
                assert(single[0] == here);
                assert(single.contains(here));
                assert(rest[0].contains(here));
                assert(current[current.len() - 1] == order[k - 1]);
                assert(current.contains(order[k - 1]));
                assert(head[0].contains(order[k - 1]));
                lemma_same_page(keys, rest[0], rest[0][0], here);
                lemma_same_page(keys, head[0], head[0][0], order[k - 1]);
                lemma_parted_shape(keys, head, n, rest);
            },
        }
    }
}

/// Two spans of a line that is on one page are on the same page.
proof fn lemma_same_page(keys: Seq<SpanKey>, line: Seq<usize>, x: usize, y: usize)
    requires
        one_page(keys, line),
        line.contains(x),
        line.contains(y),
    ensures
        keys[x as int].page == keys[y as int].page,
{
    let p = choose|p: int| 0 <= p < line.len() && line[p] == x;
    let q = choose|q: int| 0 <= q < line.len() && line[q] == y;
    assert(keys[line[p] as int].page == keys[line[q] as int].page);
}

/// A line followed, after a line break, by well-shaped lines of the same page.
proof fn lemma_joined_shape(keys: Seq<SpanKey>, head: Seq<Seq<usize>>, rest: Seq<Seq<usize>>)
    requires
        head.len() == 1,
        head[0].len() > 0,
        ascending(keys, Axis::Across, head[0]),
        one_page(keys, head[0]),
        well_shaped(keys, rest),
        rest.len() > 0,
        keys[head[0][0] as int].page == keys[rest[0][0] as int].page,
    ensures
        well_shaped(keys, head + rest),
{
    let lines = head + rest;
    assert forall|i: int| 0 <= i < lines.len() implies ascending(
        keys,
        Axis::Across,
        #[trigger] lines[i],
    ) && one_page(keys, lines[i]) by {
        if i > 0 {
            assert(lines[i] == rest[i - 1]);
        }
    }
    assert(lines.last() == rest.last());
    assert(lines[1] == rest[0]);
    assert forall|i: int, j: int|
        #![trigger lines[i], lines[j]]
        0 <= i < j < lines.len() && lines[i].len() > 0 && lines[j].len() > 0 && empty_between(
            lines,
            i,
            j,
        ) && keys[lines[i][0] as int].page != keys[lines[j][0] as int].page implies j == i
        + 2 by {
        if i == 0 {
            if j > 1 {
                lemma_not_between(lines, i, j, 1);
            }
        } else {
            lemma_shifted_pair(keys, lines, rest, 1, i, j);
        }
    }
}

/// The lines of a list that is a line, empty lines and more lines.
proof fn lemma_parted_lines(head: Seq<Seq<usize>>, n: usize, rest: Seq<Seq<usize>>)
    requires
        head.len() == 1,
    ensures
        (head + blanks(n) + rest).len() == 1 + n + rest.len(),
        (head + blanks(n) + rest)[0] == head[0],
        forall|i: int| 1 <= i <= n ==> (#[trigger] (head + blanks(n) + rest)[i]).len() == 0,
        forall|i: int|
            n < i < 1 + n + rest.len() ==> #[trigger] (head + blanks(n) + rest)[i] == rest[i - n
                - 1],
{
    let lines = head + blanks(n) + rest;
    assert forall|i: int| 1 <= i <= n implies (#[trigger] lines[i]).len() == 0 by {
        assert(lines[i] == blanks(n)[i - 1]);
    }
}

/// A line followed, after empty lines, by well-shaped lines: of the same page, or
/// after one empty line only.
proof fn lemma_parted_shape(
    keys: Seq<SpanKey>,
    head: Seq<Seq<usize>>,
    n: usize,
    rest: Seq<Seq<usize>>,
)
    requires
        head.len() == 1,
        head[0].len() > 0,
        ascending(keys, Axis::Across, head[0]),
        one_page(keys, head[0]),
        well_shaped(keys, rest),
        rest.len() > 0,
        n >= 1,
        n == 1 || keys[head[0][0] as int].page == keys[rest[0][0] as int].page,
    ensures
        well_shaped(keys, head + blanks(n) + rest),
{
    let lines = head + blanks(n) + rest;
    lemma_parted_lines(head, n, rest);
    assert(one_page(keys, Seq::<usize>::empty()));
    assert(ascending(keys, Axis::Across, Seq::<usize>::empty()));
    assert forall|i: int| 0 <= i < lines.len() implies ascending(
        keys,
        Axis::Across,
        #[trigger] lines[i],
    ) && one_page(keys, lines[i]) by {
        if i > n {
            assert(lines[i] == rest[i - n - 1]);
        } else if i > 0 {
            assert(lines[i].len() == 0);
            assert(lines[i] =~= Seq::<usize>::empty());
        }
    }
    assert(lines[lines.len() - 1] == rest[rest.len() - 1]);
    assert(lines[n + 1] == rest[0]);
    assert forall|i: int, j: int|
        #![trigger lines[i], lines[j]]
        0 <= i < j < lines.len() && lines[i].len() > 0 && lines[j].len() > 0 && empty_between(
            lines,
            i,
            j,
        ) && keys[lines[i][0] as int].page != keys[lines[j][0] as int].page implies j == i
        + 2 by {
        if i == 0 {
            if j <= n {
                assert(lines[j].len() == 0);
            } else if j > n + 1 {
                lemma_not_between(lines, i, j, n + 1);
            }
        } else if i <= n {
            assert(lines[i].len() == 0);
        } else {
            lemma_shifted_pair(keys, lines, rest, n + 1, i, j);
        }
    }
}

/// Empty lines between two lines stay between them where other lines are put in
/// front.
proof fn lemma_between_shifted(
    lines: Seq<Seq<usize>>,
    rest: Seq<Seq<usize>>,
    shift: int,
    i: int,
    j: int,
)
    requires
        shift >= 0,
        lines.len() == shift + rest.len(),
        forall|k: int| shift <= k < lines.len() ==> #[trigger] lines[k] == rest[k - shift],
        shift <= i < j < lines.len(),
        empty_between(lines, i, j),
    ensures
        empty_between(rest, i - shift, j - shift),
{
    reveal(empty_between);
    assert forall|k: int| i - shift < k < j - shift implies (#[trigger] rest[k]).len() == 0 by {
        assert(lines[k + shift] == rest[k]);
    }
}

/// What holds of two lines among well-shaped lines holds of them behind other
/// lines.
proof fn lemma_shifted_pair(
    keys: Seq<SpanKey>,
    lines: Seq<Seq<usize>>,
    rest: Seq<Seq<usize>>,
    shift: int,
    i: int,
    j: int,
)
    requires
        well_shaped(keys, rest),
        shift >= 0,
        lines.len() == shift + rest.len(),
        forall|k: int| shift <= k < lines.len() ==> #[trigger] lines[k] == rest[k - shift],
        shift <= i < j < lines.len(),
        lines[i].len() > 0,
        lines[j].len() > 0,
        empty_between(lines, i, j),
        keys[lines[i][0] as int].page != keys[lines[j][0] as int].page,
    ensures
        j == i + 2,
{
    assert(lines[i] == rest[i - shift]);
    assert(lines[j] == rest[j - shift]);
    lemma_between_shifted(lines, rest, shift, i, j);
}

/// Within a line the spans run from left to right.
pub proof fn law_line_runs_left_to_right(
    keys: Seq<SpanKey>,
    order: Seq<usize>,
    gaps: Seq<Gap>,
    i: int,
    a: int,
    b: int,
)
    requires
        0 <= i < lines_of(keys, order, gaps).len(),
        0 <= a <= b < lines_of(keys, order, gaps)[i].len(),
    ensures
        keys[lines_of(keys, order, gaps)[i][a] as int].left <= keys[lines_of(
            keys,
            order,
            gaps,
        )[i][b] as int].left,
{
    assert(one_page(keys, Seq::<usize>::empty()));
    lemma_shape(keys, order, gaps, 0, Seq::empty());
    let line = lines_of(keys, order, gaps)[i];
    assert(ascending(keys, Axis::Across, line));
    if a < b {
        assert(no_later(keys, Axis::Across, line[a] as int, line[b] as int));
    }
}

/// Pages keep apart. No line holds spans of two pages. Where a line is on another
/// page than the line before it that is not empty, exactly one empty line stands
/// between the two. The first and the last line are not empty.
pub proof fn law_pages_keep_apart(keys: Seq<SpanKey>, order: Seq<usize>, gaps: Seq<Gap>)
    ensures
        forall|i: int|
            0 <= i < lines_of(keys, order, gaps).len() ==> one_page(
                keys,
                #[trigger] lines_of(keys, order, gaps)[i],
            ),
        forall|i: int, j: int|
            #![trigger lines_of(keys, order, gaps)[i], lines_of(keys, order, gaps)[j]]
            0 <= i < j < lines_of(keys, order, gaps).len() && lines_of(keys, order, gaps)[i].len()
                > 0 && lines_of(keys, order, gaps)[j].len() > 0 && empty_between(
                lines_of(keys, order, gaps),
                i,
                j,
            ) && keys[lines_of(keys, order, gaps)[i][0] as int].page != keys[lines_of(
                keys,
                order,
                gaps,
            )[j][0] as int].page ==> j == i + 2,
        lines_of(keys, order, gaps).len() > 0 ==> lines_of(keys, order, gaps)[0].len() > 0
            && lines_of(keys, order, gaps).last().len() > 0,
{
    assert(one_page(keys, Seq::<usize>::empty()));
    lemma_shape(keys, order, gaps, 0, Seq::empty());
}

/// Whether each span that is on a line already comes no later than each span from
/// place `k` of the reading order on.
pub open spec fn leads(keys: Seq<SpanKey>, order: Seq<usize>, k: int, current: Seq<usize>) -> bool {
    forall|p: int, b: int|
        0 <= p < current.len() && k <= b < order.len() ==> no_later(
            keys,
            Axis::Down,
            #[trigger] current[p] as int,
            #[trigger] order[b] as int,
        )
}

/// Whether a span is on a line already or stands at place `k` of the reading order
/// or behind it.
pub open spec fn at_hand(order: Seq<usize>, k: int, current: Seq<usize>, x: usize) -> bool {
    current.contains(x) || exists|b: int| k <= b < order.len() && #[trigger] order[b] == x
}

/// Whether the lines follow each other down the document: each span of a line
/// comes no later than each span of a later line.
pub open spec fn lines_descend(keys: Seq<SpanKey>, lines: Seq<Seq<usize>>) -> bool {
    forall|i: int, j: int, a: int, b: int|
        0 <= i < j < lines.len() && 0 <= a < lines[i].len() && 0 <= b < lines[j].len()
            ==> no_later(
            keys,
            Axis::Down,
            #[trigger] lines[i][a] as int,
            #[trigger] lines[j][b] as int,
        )
}

/// Whether the lines hold no span but those at hand.
pub open spec fn lines_within(
    order: Seq<usize>,
    k: int,
    current: Seq<usize>,
    lines: Seq<Seq<usize>>,
) -> bool {
    forall|i: int, a: int|
        0 <= i < lines.len() && 0 <= a < lines[i].len() ==> at_hand(
            order,
            k,
            current,
            #[trigger] lines[i][a],
        )
}

/// A line that is done holds no span but those that were on it.
proof fn lemma_closed_within(keys: Seq<SpanKey>, order: Seq<usize>, k: int, current: Seq<usize>)
    ensures
        lines_within(order, k, current, closed(keys, current)),
        lines_descend(keys, closed(keys, current)),
        forall|i: int, a: int|
            0 <= i < closed(keys, current).len() && 0 <= a < closed(keys, current)[i].len()
                ==> current.contains(#[trigger] closed(keys, current)[i][a]),
{
    let lines = closed(keys, current);
    lemma_sorted_members(keys, Axis::Across, current);
    assert forall|i: int, a: int|
        0 <= i < lines.len() && 0 <= a < lines[i].len() implies current.contains(
        #[trigger] lines[i][a],
    ) by {
        assert(lines[i].contains(lines[i][a]));
    }
}

/// In reading order, the lines from any place on follow each other down the
/// document.
proof fn lemma_reading(
    keys: Seq<SpanKey>,
    order: Seq<usize>,
    gaps: Seq<Gap>,
    k: int,
    current: Seq<usize>,
)
    requires
        0 <= k <= order.len(),
        ascending(keys, Axis::Down, order),
        leads(keys, order, k, current),
    ensures
        lines_descend(keys, lines_from(keys, order, gaps, k, current)),
        lines_within(order, k, current, lines_from(keys, order, gaps, k, current)),
    decreases order.len() - k,
{
    let lines = lines_from(keys, order, gaps, k, current);
    if k >= order.len() {
        lemma_closed_within(keys, order, k, current);
    } else {
        let here = order[k];
        let single = seq![here];
        match separator(keys, order, gaps, k) {
            Separator::Joined => {
                let next = current.push(here);
                assert(leads(keys, order, k + 1, next)) by {
                    assert forall|p: int, b: int|
                        0 <= p < next.len() && k + 1 <= b < order.len() implies no_later(
                        keys,
                        Axis::Down,
                        #[trigger] next[p] as int,
                        #[trigger] order[b] as int,
                    ) by {
                        if p < current.len() {
                            assert(no_later(keys, Axis::Down, current[p] as int, order[b] as int));
                        } else {
                            assert(no_later(keys, Axis::Down, order[k] as int, order[b] as int));
                        }
                    }
                }
                lemma_reading(keys, order, gaps, k + 1, next);
                assert forall|i: int, a: int|
                    0 <= i < lines.len() && 0 <= a < lines[i].len() implies at_hand(
                    order,
                    k,
                    current,
                    #[trigger] lines[i][a],
                ) by {
                    let x = lines[i][a];
                    assert(at_hand(order, k + 1, next, x));
                    if next.contains(x) {
                        let p = choose|p: int| 0 <= p < next.len() && next[p] == x;
                        if p < current.len() {
                            assert(current[p] == x);
                        } else {
                            assert(order[k] == x);
                        }
                    } else {
                        let b = choose|b: int| k + 1 <= b < order.len() && #[trigger] order[b] == x;
                        assert(order[b] == x);
                    }
                }
            },
            Separator::Broken => {
                lemma_single_leads(keys, order, k);
                lemma_reading(keys, order, gaps, k + 1, single);
                lemma_closed_within(keys, order, k, current);
                let rest = lines_from(keys, order, gaps, k + 1, single);
                lemma_after(keys, order, k, current, closed(keys, current), rest);
                assert(lines == closed(keys, current) + rest);
            },
            Separator::Parted(n) => {
                lemma_single_leads(keys, order, k);
                lemma_reading(keys, order, gaps, k + 1, single);
                lemma_closed_within(keys, order, k, current);
                let rest = lines_from(keys, order, gaps, k + 1, single);
                let first = closed(keys, current);
                let head = first + blanks(n);
                assert(lines_descend(keys, head) && (forall|i: int, a: int|
                    0 <= i < head.len() && 0 <= a < head[i].len() ==> current.contains(
                        #[trigger] head[i][a],
                    ))) by {
                    assert forall|i: int, a: int|
                        0 <= i < head.len() && 0 <= a < head[i].len() implies current.contains(
                        #[trigger] head[i][a],
                    ) by {
                        if i < first.len() {
                            assert(head[i][a] == first[i][a]);
                        }
                    }
                    assert forall|i: int, j: int, a: int, b: int|
                        0 <= i < j < head.len() && 0 <= a < head[i].len() && 0 <= b
                            < head[j].len() implies no_later(
                        keys,
                        Axis::Down,
                        #[trigger] head[i][a] as int,
                        #[trigger] head[j][b] as int,
                    ) by {
                        assert(head[j].len() == 0);
                    }
                }
                lemma_after(keys, order, k, current, head, rest);
                assert(lines == head + rest);
            },
        }
    }
}

/// The span at a place of a reading order comes no later than those behind it.
proof fn lemma_single_leads(keys: Seq<SpanKey>, order: Seq<usize>, k: int)
    requires
        0 <= k < order.len(),
        ascending(keys, Axis::Down, order),
    ensures
        leads(keys, order, k + 1, seq![order[k]]),
{
    let single = seq![order[k]];
    assert forall|p: int, b: int|
        0 <= p < single.len() && k + 1 <= b < order.len() implies no_later(
        keys,
        Axis::Down,
        #[trigger] single[p] as int,
        #[trigger] order[b] as int,
    ) by {
        assert(no_later(keys, Axis::Down, order[k] as int, order[b] as int));
    }
}

/// Lines made of the spans that were on a line, followed by the lines of the
/// spans from place `k` on.
proof fn lemma_after(
    keys: Seq<SpanKey>,
    order: Seq<usize>,
    k: int,
    current: Seq<usize>,
    head: Seq<Seq<usize>>,
    rest: Seq<Seq<usize>>,
)
    requires
        0 <= k < order.len(),
        leads(keys, order, k, current),
        lines_descend(keys, head),
        forall|i: int, a: int|
            0 <= i < head.len() && 0 <= a < head[i].len() ==> current.contains(
                #[trigger] head[i][a],
            ),
        lines_descend(keys, rest),
        lines_within(order, k + 1, seq![order[k]], rest),
    ensures
        lines_descend(keys, head + rest),
        lines_within(order, k, current, head + rest),
{
    let lines = head + rest;
    let single = seq![order[k]];
    assert forall|i: int, a: int| 0 <= i < lines.len() && 0 <= a < lines[i].len() implies at_hand(
        order,
        k,
        current,
        #[trigger] lines[i][a],
    ) by {
        let x = lines[i][a];
        if i < head.len() {
            assert(head[i][a] == x);
        } else {
            assert(rest[i - head.len()][a] == x);
            assert(at_hand(order, k + 1, single, x));
            if single.contains(x) {
                let p = choose|p: int| 0 <= p < single.len() && single[p] == x;
                assert(order[k] == x);
            } else {
                let b = choose|b: int| k + 1 <= b < order.len() && #[trigger] order[b] == x;
                assert(order[b] == x);
            }
        }
    }
    assert forall|i: int, j: int, a: int, b: int|
        0 <= i < j < lines.len() && 0 <= a < lines[i].len() && 0 <= b
            < lines[j].len() implies no_later(
        keys,
        Axis::Down,
        #[trigger] lines[i][a] as int,
        #[trigger] lines[j][b] as int,
    ) by {
        let x = lines[i][a];
        let y = lines[j][b];
        if j < head.len() {
            assert(no_later(keys, Axis::Down, head[i][a] as int, head[j][b] as int));
        } else if i >= head.len() {
            assert(no_later(
                keys,
                Axis::Down,
                rest[i - head.len()][a] as int,
                rest[j - head.len()][b] as int,
            ));
        } else {
            assert(head[i][a] == x);
            assert(current.contains(x));
            let p = choose|p: int| 0 <= p < current.len() && current[p] == x;
            assert(rest[j - head.len()][b] == y);
            assert(at_hand(order, k + 1, single, y));
            if single.contains(y) {
                let q = choose|q: int| 0 <= q < single.len() && single[q] == y;
                assert(order[k] == y);
                assert(no_later(keys, Axis::Down, current[p] as int, order[k] as int));
            } else {
                let c = choose|c: int| k + 1 <= c < order.len() && #[trigger] order[c] == y;
                assert(no_later(keys, Axis::Down, current[p] as int, order[c] as int));
            }
        }
    }
}

/// The reading order of the spans at hand.
pub open spec fn reading(keys: Seq<SpanKey>) -> Seq<usize> {
    stable_sorted(keys, Axis::Down, first_spans(keys.len()))
}

/// The lines of a page follow each other by the baseline of their first span: of
/// two lines of one page the earlier starts with a span whose baseline is no
/// greater.
pub proof fn law_lines_follow_baselines(keys: Seq<SpanKey>, gaps: Seq<Gap>, i: int, j: int)
    requires
        0 <= i <= j < lines_of(keys, reading(keys), gaps).len(),
        lines_of(keys, reading(keys), gaps)[i].len() > 0,
        lines_of(keys, reading(keys), gaps)[j].len() > 0,
        keys[lines_of(keys, reading(keys), gaps)[i][0] as int].page == keys[lines_of(
            keys,
            reading(keys),
            gaps,
        )[j][0] as int].page,
    ensures
        keys[lines_of(keys, reading(keys), gaps)[i][0] as int].baseline <= keys[lines_of(
            keys,
            reading(keys),
            gaps,
        )[j][0] as int].baseline,
{
    let order = reading(keys);
    lemma_sorted_ascending(keys, Axis::Down, first_spans(keys.len()));
    assert(leads(keys, order, 0, Seq::<usize>::empty()));
    lemma_reading(keys, order, gaps, 0, Seq::empty());
    let lines = lines_of(keys, order, gaps);
    if i < j {
        assert(no_later(keys, Axis::Down, lines[i][0] as int, lines[j][0] as int));
    }
}

/// A list without spans holds no span.
proof fn lemma_none_counts()
    ensures
        Seq::<usize>::empty().to_multiset() == Multiset::<usize>::empty(),
{
    let none = Seq::<usize>::empty();
    vstd::seq_lib::to_multiset_len(none);
    vstd::multiset::lemma_multiset_empty_len(none.to_multiset());
}

/// Inserting adds the new span once.
proof fn lemma_insert_counts(keys: Seq<SpanKey>, axis: Axis, sorted: Seq<usize>, x: usize)
    ensures
        insert_by(keys, axis, sorted, x).to_multiset() == sorted.to_multiset().insert(x),
    decreases sorted.len(),
{
    if sorted.len() == 0 {
        assert(seq![x] =~= sorted.push(x));
        to_multiset_build(sorted, x);
    } else if no_later(keys, axis, sorted.last() as int, x as int) {
        to_multiset_build(sorted, x);
    } else {
        let shorter = sorted.drop_last();
        lemma_insert_counts(keys, axis, shorter, x);
        to_multiset_build(insert_by(keys, axis, shorter, x), sorted.last());
        assert(sorted =~= shorter.push(sorted.last()));
        to_multiset_build(shorter, sorted.last());
        assert(shorter.to_multiset().insert(x).insert(sorted.last()) =~= shorter.to_multiset().insert(
            sorted.last(),
        ).insert(x));
    }
}

/// Sorting a list keeps each span as often as it was there.
pub proof fn lemma_sorted_counts(keys: Seq<SpanKey>, axis: Axis, items: Seq<usize>)
    ensures
        stable_sorted(keys, axis, items).to_multiset() == items.to_multiset(),
    decreases items.len(),
{
    if items.len() > 0 {
        let shorter = items.drop_last();
        lemma_sorted_counts(keys, axis, shorter);
        lemma_insert_counts(keys, axis, stable_sorted(keys, axis, shorter), items.last());
        assert(items =~= shorter.push(items.last()));
        to_multiset_build(shorter, items.last());
    } else {
        assert(stable_sorted(keys, axis, items) =~= items);
    }
}

/// Empty lines hold no span.
proof fn lemma_blanks_hold_nothing(n: usize)
    ensures
        blanks(n).flatten() == Seq::<usize>::empty(),
    decreases n,
{
    if n > 0 {
        let shorter = (n - 1) as usize;
        lemma_blanks_hold_nothing(shorter);
        assert(blanks(n).drop_first() =~= blanks(shorter));
        assert(blanks(n).first() =~= Seq::<usize>::empty());
        assert(blanks(n).flatten() =~= Seq::<usize>::empty());
    } else {
        assert(blanks(n) =~= Seq::<Seq<usize>>::empty());
    }
}

/// A line that is done holds the spans that were on it, each as often.
proof fn lemma_closed_counts(keys: Seq<SpanKey>, current: Seq<usize>)
    ensures
        closed(keys, current).flatten().to_multiset() == current.to_multiset(),
{
    if current.len() > 0 {
        let line = stable_sorted(keys, Axis::Across, current);
        let lines = seq![line];
        lines.lemma_flatten_one_element();
        assert(lines.first() == line);
        lemma_sorted_counts(keys, Axis::Across, current);
    } else {
        assert(current =~= Seq::<usize>::empty());
    }
}

/// The lines from any place on hold the spans that were on a line already and
/// those from that place on, each as often as it is there.
proof fn lemma_lines_count(
    keys: Seq<SpanKey>,
    order: Seq<usize>,
    gaps: Seq<Gap>,
    k: int,
    current: Seq<usize>,
)
    requires
        0 <= k <= order.len(),
    ensures
        lines_from(keys, order, gaps, k, current).flatten().to_multiset() == current.to_multiset().add(
            order.skip(k).to_multiset(),
        ),
    decreases order.len() - k,
{
    broadcast use vstd::multiset::group_multiset_axioms;

    let lines = lines_from(keys, order, gaps, k, current);
    let tail = order.skip(k);
    lemma_none_counts();
    if k >= order.len() {
        lemma_closed_counts(keys, current);
        assert(tail =~= Seq::<usize>::empty());
        assert(current.to_multiset().add(tail.to_multiset()) =~= current.to_multiset());
    } else {
        let here = order[k];
        let single = seq![here];
        let behind = order.skip(k + 1);
        assert(tail =~= single + behind);
        lemma_multiset_commutative(single, behind);
        assert(single =~= Seq::<usize>::empty().push(here));
        to_multiset_build(Seq::<usize>::empty(), here);
        match separator(keys, order, gaps, k) {
            Separator::Joined => {
                let next = current.push(here);
                lemma_lines_count(keys, order, gaps, k + 1, next);
                to_multiset_build(current, here);
                assert(next.to_multiset().add(behind.to_multiset()) =~= current.to_multiset().add(
                    tail.to_multiset(),
                ));
            },
            Separator::Broken => {
                let head = closed(keys, current);
                let rest = lines_from(keys, order, gaps, k + 1, single);
                lemma_lines_count(keys, order, gaps, k + 1, single);
                lemma_closed_counts(keys, current);
                lemma_flatten_concat(head, rest);
                lemma_multiset_commutative(head.flatten(), rest.flatten());
            },
            Separator::Parted(n) => {
                let head = closed(keys, current);
                let rest = lines_from(keys, order, gaps, k + 1, single);
                lemma_lines_count(keys, order, gaps, k + 1, single);
                lemma_closed_counts(keys, current);
                lemma_blanks_hold_nothing(n);
                lemma_flatten_concat(head, blanks(n));
                lemma_flatten_concat(head + blanks(n), rest);
                assert(head.flatten() + blanks(n).flatten() =~= head.flatten());
                lemma_multiset_commutative(head.flatten(), rest.flatten());
            },
        }
    }
}

/// The lines hold the spans that were parted into them, each as often as it was
/// given: no span is lost and none is made.
pub proof fn law_lines_hold_the_spans(keys: Seq<SpanKey>, order: Seq<usize>, gaps: Seq<Gap>)
    ensures
        lines_of(keys, order, gaps).flatten().to_multiset() == order.to_multiset(),
{
    broadcast use vstd::multiset::group_multiset_axioms;

    lemma_lines_count(keys, order, gaps, 0, Seq::empty());
    lemma_none_counts();
    assert(order.skip(0) =~= order);
    assert(Seq::<usize>::empty().to_multiset().add(order.to_multiset()) =~= order.to_multiset());
}

/// The reading order holds every span once.
pub proof fn law_reading_order_holds_every_span(keys: Seq<SpanKey>)
    ensures
        reading(keys).to_multiset() == first_spans(keys.len()).to_multiset(),
{
    lemma_sorted_counts(keys, Axis::Down, first_spans(keys.len()));
}

} // verus!
