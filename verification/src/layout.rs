use vstd::prelude::*;
use vstd::string::{StrSliceExecFns, StringExecFns};

verus! {

/// Where a span goes on the character grid.
#[derive(Debug, Clone, Copy, PartialEq, Eq, Structural)]
pub enum Placement {
    /// The span starts at a column.
    StartAt(usize),
    /// The span is right-aligned: it ends at a column.
    EndAt(usize),
}

/// A span of a line as the printers take it: its text and its place on the grid.
#[derive(Debug, Clone)]
pub struct Cell {
    pub text: String,
    pub place: Placement,
}

/// The plain text of a line: its spans with one space between each two.
pub open spec fn plain_line(cells: Seq<Cell>) -> Seq<char>
    decreases cells.len(),
{
    if cells.len() == 0 {
        Seq::empty()
    } else if cells.len() == 1 {
        cells[0].text@
    } else {
        plain_line(cells.drop_last()) + seq![' '] + cells.last().text@
    }
}

/// The cells of each line.
pub open spec fn line_cells(lines: Seq<Vec<Cell>>) -> Seq<Seq<Cell>> {
    Seq::new(lines.len(), |i: int| lines[i]@)
}

/// The plain text of the lines: each line followed by a line feed.
pub open spec fn plain_text(lines: Seq<Seq<Cell>>) -> Seq<char>
    decreases lines.len(),
{
    if lines.len() == 0 {
        Seq::empty()
    } else {
        plain_text(lines.drop_last()) + plain_line(lines.last()) + seq!['\n']
    }
}

/// Prints the lines as plain text.
pub fn to_string_plain(lines: &Vec<Vec<Cell>>) -> (text: String)
    ensures
        text@ == plain_text(line_cells(lines@)),
{
    proof {
        reveal_strlit(" ");
        reveal_strlit("\n");
        assert(" "@ =~= seq![' ']);
        assert("\n"@ =~= seq!['\n']);
    }
    let mut text = String::new();
    let mut i: usize = 0;
    assert(line_cells(lines@).take(0) =~= Seq::<Seq<Cell>>::empty());
    while i < lines.len()
        invariant
            i <= lines.len(),
            " "@ == seq![' '],
            "\n"@ == seq!['\n'],
            text@ == plain_text(line_cells(lines@).take(i as int)),
        decreases lines.len() - i,
    {
        let line = &lines[i];
        let ghost before = text@;
        let mut k: usize = 0;
        assert(line@.take(0) =~= Seq::<Cell>::empty());
        while k < line.len()
            invariant
                k <= line.len(),
                " "@ == seq![' '],
                text@ == before + plain_line(line@.take(k as int)),
            decreases line.len() - k,
        {
            proof {
                assert(line@.take(k as int + 1).drop_last() =~= line@.take(k as int));
                assert(line@.take(k as int + 1).last() == line@[k as int]);
                if k == 0 {
                    assert(line@.take(1)[0] == line@[0]);
                }
            }
            if k > 0 {
                text.append(" ");
            }
            text.append(line[k].text.as_str());
            k = k + 1;
        }
        text.append("\n");
        proof {
            assert(line@.take(line@.len() as int) =~= line@);
            assert(line_cells(lines@).take(i as int + 1).drop_last() =~= line_cells(lines@).take(
                i as int,
            ));
            assert(line_cells(lines@).take(i as int + 1).last() == line@);
        }
        i = i + 1;
    }
    assert(line_cells(lines@).take(lines@.len() as int) =~= line_cells(lines@));
    text
}

/// Two spans of one line print as their texts with one space between them,
/// wherever the two stand on the page.
pub proof fn law_one_space_between(first: Cell, second: Cell)
    ensures
        plain_text(seq![seq![first, second]]) == first.text@ + seq![' '] + second.text@ + seq![
            '\n',
        ],
{
    let line = seq![first, second];
    let lines = seq![line];
    assert(line.drop_last() =~= seq![first]);
    assert(plain_line(seq![first]) == first.text@);
    assert(plain_line(line) == first.text@ + seq![' '] + second.text@);
    assert(lines.drop_last() =~= Seq::<Seq<Cell>>::empty());
    assert(plain_text(lines.drop_last()) =~= Seq::<char>::empty());
    assert(plain_text(lines) =~= first.text@ + seq![' '] + second.text@ + seq!['\n']);
}

/// A run of spaces.
pub open spec fn spaces(n: int) -> Seq<char> {
    Seq::new(
        (if n > 0 {
            n
        } else {
            0
        }) as nat,
        |i: int| ' ',
    )
}

/// The column at which a span starts: its own, or for a right-aligned span the
/// column that lets it end where it should, and column 0 where it is too long.
pub open spec fn start_column(cell: Cell) -> int {
    match cell.place {
        Placement::StartAt(c) => c as int,
        Placement::EndAt(c) => if c >= cell.text@.len() {
            c - cell.text@.len()
        } else {
            0
        },
    }
}

/// A line of the grid as far as it is laid out: its text and the column after it.
pub struct Row {
    pub text: Seq<char>,
    pub cursor: int,
}

/// A row with one more span: padded with spaces up to the span's column where the
/// row ends before it, otherwise parted from it by one space, unless the row is
/// still at column 0.
pub open spec fn placed(row: Row, cell: Cell) -> Row {
    let start = start_column(cell);
    if start > row.cursor {
        Row {
            text: row.text + spaces(start - row.cursor) + cell.text@,
            cursor: start + cell.text@.len(),
        }
    } else if row.cursor > 0 {
        Row {
            text: row.text + seq![' '] + cell.text@,
            cursor: row.cursor + 1 + cell.text@.len(),
        }
    } else {
        Row { text: row.text + cell.text@, cursor: row.cursor + cell.text@.len() }
    }
}

/// The row that the spans of a line make, taken from left to right.
pub open spec fn pretty_row(cells: Seq<Cell>) -> Row
    decreases cells.len(),
{
    if cells.len() == 0 {
        Row { text: Seq::empty(), cursor: 0 }
    } else {
        placed(pretty_row(cells.drop_last()), cells.last())
    }
}

/// The lines laid out on the grid: each row followed by a line feed.
pub open spec fn pretty_text(lines: Seq<Seq<Cell>>) -> Seq<char>
    decreases lines.len(),
{
    if lines.len() == 0 {
        Seq::empty()
    } else {
        pretty_text(lines.drop_last()) + pretty_row(lines.last()).text + seq!['\n']
    }
}

/// Whether every row of the lines ends at a column that the machine can count to.
pub open spec fn rows_fit(lines: Seq<Seq<Cell>>) -> bool {
    forall|i: int| 0 <= i < lines.len() ==> pretty_row(#[trigger] lines[i]).cursor <= usize::MAX
}

/// A row never moves back.
pub proof fn lemma_row_grows(cells: Seq<Cell>, n: int)
    requires
        0 <= n <= cells.len(),
    ensures
        0 <= pretty_row(cells.take(n)).cursor <= pretty_row(cells).cursor,
    decreases cells.len() - n,
{
    if n < cells.len() {
        assert(cells.take(n + 1).drop_last() =~= cells.take(n));
        lemma_row_grows(cells, n + 1);
        lemma_row_starts(cells.take(n));
    } else {
        assert(cells.take(n) =~= cells);
        lemma_row_starts(cells);
    }
}

/// No row ends before column 0.
proof fn lemma_row_starts(cells: Seq<Cell>)
    ensures
        pretty_row(cells).cursor >= 0,
    decreases cells.len(),
{
    if cells.len() > 0 {
        lemma_row_starts(cells.drop_last());
    }
}

/// Whether the row of a line ends at a column that the machine can count to.
fn row_fits(line: &Vec<Cell>) -> (ok: bool)
    ensures
        ok == (pretty_row(line@).cursor <= usize::MAX),
{
    let mut cursor: usize = 0;
    let mut k: usize = 0;
    assert(line@.take(0) =~= Seq::<Cell>::empty());
    while k < line.len()
        invariant
            k <= line.len(),
            cursor == pretty_row(line@.take(k as int)).cursor,
        decreases line.len() - k,
    {
        proof {
            assert(line@.take(k as int + 1).drop_last() =~= line@.take(k as int));
            assert(line@.take(k as int + 1).last() == line@[k as int]);
            lemma_row_grows(line@, k as int + 1);
        }
        let cell = &line[k];
        let len = cell.text.as_str().unicode_len();
        let start = match cell.place {
            Placement::StartAt(c) => c,
            Placement::EndAt(c) => if c >= len {
                c - len
            } else {
                0
            },
        };
        let from: usize = if start > cursor {
            start
        } else if cursor > 0 {
            if cursor == usize::MAX {
                return false;
            }
            cursor + 1
        } else {
            cursor
        };
        if len > usize::MAX - from {
            return false;
        }
        cursor = from + len;
        k = k + 1;
    }
    assert(line@.take(line@.len() as int) =~= line@);
    true
}

/// Whether every row of the lines ends at a column that the machine can count to.
pub fn rows_within_reach(lines: &Vec<Vec<Cell>>) -> (ok: bool)
    ensures
        ok == rows_fit(line_cells(lines@)),
{
    let mut i: usize = 0;
    while i < lines.len()
        invariant
            i <= lines.len(),
            forall|j: int|
                0 <= j < i ==> pretty_row(#[trigger] line_cells(lines@)[j]).cursor <= usize::MAX,
        decreases lines.len() - i,
    {
        assert(line_cells(lines@)[i as int] == lines@[i as int]@);
        if !row_fits(&lines[i]) {
            return false;
        }
        i = i + 1;
    }
    true
}

/// Lays the lines out on the character grid.
pub fn to_string_pretty(lines: &Vec<Vec<Cell>>) -> (text: String)
    requires
        rows_fit(line_cells(lines@)),
    ensures
        text@ == pretty_text(line_cells(lines@)),
{
    proof {
        reveal_strlit(" ");
        reveal_strlit("\n");
        assert(" "@ =~= seq![' ']);
        assert("\n"@ =~= seq!['\n']);
    }
    let mut text = String::new();
    let mut i: usize = 0;
    assert(line_cells(lines@).take(0) =~= Seq::<Seq<Cell>>::empty());
    while i < lines.len()
        invariant
            i <= lines.len(),
            " "@ == seq![' '],
            "\n"@ == seq!['\n'],
            rows_fit(line_cells(lines@)),
            text@ == pretty_text(line_cells(lines@).take(i as int)),
        decreases lines.len() - i,
    {
        let line = &lines[i];
        let ghost before = text@;
        let mut cursor: usize = 0;
        let mut k: usize = 0;
        assert(line@.take(0) =~= Seq::<Cell>::empty());
        assert(line_cells(lines@)[i as int] == line@);
        assert(before + Seq::<char>::empty() =~= before);
        while k < line.len()
            invariant
                k <= line.len(),
                " "@ == seq![' '],
                pretty_row(line@).cursor <= usize::MAX,
                cursor == pretty_row(line@.take(k as int)).cursor,
                text@ == before + pretty_row(line@.take(k as int)).text,
            decreases line.len() - k,
        {
            let ghost row = pretty_row(line@.take(k as int));
            proof {
                assert(line@.take(k as int + 1).drop_last() =~= line@.take(k as int));
                assert(line@.take(k as int + 1).last() == line@[k as int]);
                lemma_row_grows(line@, k as int + 1);
            }
            let cell = &line[k];
            let len = cell.text.as_str().unicode_len();
            let start = match cell.place {
                Placement::StartAt(c) => c,
                Placement::EndAt(c) => if c >= len {
                    c - len
                } else {
                    0
                },
            };
            if start > cursor {
                let ghost padded = text@;
                let mut p: usize = cursor;
                while p < start
                    invariant
                        cursor <= p <= start,
                        " "@ == seq![' '],
                        text@ == padded + spaces(p - cursor),
                    decreases start - p,
                {
                    text.append(" ");
                    assert(spaces(p + 1 - cursor) =~= spaces(p - cursor) + seq![' ']);
                    p = p + 1;
                }
                cursor = start;
            } else if cursor > 0 {
                text.append(" ");
                cursor = cursor + 1;
            }
            text.append(cell.text.as_str());
            cursor = cursor + len;
            proof {
                let next = placed(row, line@[k as int]);
                assert(text@ =~= before + next.text);
            }
            k = k + 1;
        }
        text.append("\n");
        proof {
            assert(line@.take(line@.len() as int) =~= line@);
            assert(line_cells(lines@).take(i as int + 1).drop_last() =~= line_cells(lines@).take(
                i as int,
            ));
            assert(line_cells(lines@).take(i as int + 1).last() == line@);
        }
        i = i + 1;
    }
    assert(line_cells(lines@).take(lines@.len() as int) =~= line_cells(lines@));
    text
}

/// The width of a span on the grid: the columns between its edges, and at least
/// the length of its text.
pub fn grid_width(start_col: usize, end_col: usize, text: &str) -> (width: usize)
    ensures
        width == (if end_col - start_col > text@.len() {
            end_col - start_col
        } else {
            text@.len() as int
        }),
{
    let span = if end_col >= start_col {
        end_col - start_col
    } else {
        0
    };
    let len = text.unicode_len();
    if span > len {
        span
    } else {
        len
    }
}

} // verus!
