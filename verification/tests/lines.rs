use pdf_strings::extract::{PdfExtractor, PdfExtractorBuilder};
use pdf_strings::layout::{grid_width, to_string_plain, to_string_pretty, Cell, Placement};
use pdf_strings::lines::{
    all_spans_known, group_lines, reading_order, sort_spans, Axis, Gap, SpanKey,
};
use pdf_strings::span::{white_space, SpanBuffer};
use pdf_strings::layout::rows_within_reach;

fn key(page: u32, baseline: i64, left: i64) -> SpanKey {
    SpanKey { page, baseline, left }
}

fn cell(text: &str, column: usize) -> Cell {
    Cell { text: text.to_string(), place: Placement::StartAt(column) }
}

fn right(text: &str, column: usize) -> Cell {
    Cell { text: text.to_string(), place: Placement::EndAt(column) }
}

/// The gaps of spans in reading order, by the distance of their baselines.
fn gaps(keys: &[SpanKey], order: &[usize], line: i64, blank: i64) -> Vec<Gap> {
    let mut out = Vec::new();
    for k in 0..order.len() {
        if k == 0 || keys[order[k]].page != keys[order[k - 1]].page {
            out.push(Gap::Near);
        } else {
            let gap = (keys[order[k]].baseline - keys[order[k - 1]].baseline).abs();
            out.push(if gap > blank {
                Gap::Blank(((gap - 5) / 10) as usize)
            } else if gap > line {
                Gap::Line
            } else {
                Gap::Near
            });
        }
    }
    out
}

#[test]
fn reading_order_goes_by_page_then_baseline() {
    let keys = vec![
        key(2, 10, 0),
        key(1, 50, 0),
        key(1, 10, 5),
        key(1, 50, 1),
        key(2, 5, 0),
        key(1, 10, 0),
        key(1, -3, 9),
    ];
    assert_eq!(reading_order(&keys), vec![6, 2, 5, 1, 3, 4, 0]);
    assert_eq!(reading_order(&Vec::new()), Vec::<usize>::new());
    assert_eq!(reading_order(&vec![key(1, 1, 1)]), vec![0]);
}

#[test]
fn sort_spans_keeps_equal_spans_in_their_order() {
    let keys = vec![key(1, 0, 30), key(1, 0, 10), key(1, 0, 30), key(1, 0, 10), key(1, 0, 20)];
    assert_eq!(sort_spans(&keys, Axis::Across, &vec![0, 1, 2, 3, 4]), vec![1, 3, 4, 0, 2]);
    assert_eq!(sort_spans(&keys, Axis::Across, &vec![4, 3, 2, 1, 0]), vec![3, 1, 4, 2, 0]);
    assert_eq!(sort_spans(&keys, Axis::Across, &vec![2, 0]), vec![2, 0]);
    assert_eq!(sort_spans(&keys, Axis::Down, &vec![4, 3, 2, 1, 0]), vec![4, 3, 2, 1, 0]);
    assert_eq!(sort_spans(&keys, Axis::Across, &Vec::new()), Vec::<usize>::new());
    let extremes = vec![key(u32::MAX, i64::MAX, i64::MIN), key(0, i64::MIN, i64::MAX)];
    assert_eq!(sort_spans(&extremes, Axis::Down, &vec![0, 1]), vec![1, 0]);
    assert_eq!(sort_spans(&extremes, Axis::Across, &vec![1, 0]), vec![0, 1]);
}

#[test]
fn two_pages_are_parted_by_one_empty_line() {
    let keys = vec![key(1, 700, 100), key(2, 700, 100)];
    let order = reading_order(&keys);
    let lines = group_lines(&keys, &order, &vec![Gap::Near, Gap::Near]);
    assert_eq!(lines, vec![vec![0], vec![], vec![1]]);
    let lines = group_lines(&keys, &order, &vec![Gap::Blank(3), Gap::Blank(3)]);
    assert_eq!(lines, vec![vec![0], vec![], vec![1]]);
    let lines = group_lines(&keys, &order, &vec![Gap::Line, Gap::Line]);
    assert_eq!(lines, vec![vec![0], vec![], vec![1]]);
}

#[test]
fn lines_break_by_the_gap_between_baselines() {
    let keys = vec![
        key(1, 100, 50),
        key(1, 100, 10),
        key(1, 103, 30),
        key(1, 112, 10),
        key(1, 140, 5),
        key(1, 141, 1),
        key(1, 176, 1),
    ];
    let order = reading_order(&keys);
    assert_eq!(order, vec![0, 1, 2, 3, 4, 5, 6]);
    let g = gaps(&keys, &order, 5, 24);
    assert_eq!(
        g,
        vec![
            Gap::Near,
            Gap::Near,
            Gap::Near,
            Gap::Line,
            Gap::Blank(2),
            Gap::Near,
            Gap::Blank(3)
        ]
    );
    let lines = group_lines(&keys, &order, &g);
    assert_eq!(
        lines,
        vec![vec![1, 2, 0], vec![3], vec![], vec![], vec![5, 4], vec![], vec![], vec![], vec![6]]
    );
}

#[test]
fn spans_are_known_by_their_numbers() {
    let keys = vec![key(1, 0, 0), key(1, 0, 0)];
    assert!(all_spans_known(&keys, &vec![0, 1, 1, 0]));
    assert!(all_spans_known(&keys, &Vec::new()));
    assert!(!all_spans_known(&keys, &vec![0, 2]));
    assert!(!all_spans_known(&Vec::new(), &vec![0]));
    assert!(all_spans_known(&keys, &reading_order(&keys)));
}

#[test]
fn no_spans_make_no_lines() {
    assert_eq!(group_lines(&Vec::new(), &Vec::new(), &Vec::new()), Vec::<Vec<usize>>::new());
    let keys = vec![key(3, 0, 0)];
    assert_eq!(group_lines(&keys, &vec![0], &vec![Gap::Blank(4)]), vec![vec![0]]);
}

#[test]
fn lines_run_left_to_right_and_pages_keep_apart() {
    let mut keys = Vec::new();
    let mut seed: u64 = 7;
    for _ in 0..200 {
        seed = seed.wrapping_mul(6364136223846793005).wrapping_add(1442695040888963407);
        let page = 1 + ((seed >> 33) % 4) as u32;
        let baseline = ((seed >> 40) % 15) as i64 * 4;
        let left = ((seed >> 50) % 600) as i64;
        keys.push(key(page, baseline, left));
    }
    let order = reading_order(&keys);
    let g = gaps(&keys, &order, 5, 24);
    let lines = group_lines(&keys, &order, &g);

    let mut seen = vec![false; keys.len()];
    for line in &lines {
        for a in 0..line.len() {
            assert!(!seen[line[a]]);
            seen[line[a]] = true;
            assert_eq!(keys[line[a]].page, keys[line[0]].page);
            if a > 0 {
                assert!(keys[line[a - 1]].left <= keys[line[a]].left);
            }
        }
    }
    assert!(seen.iter().all(|s| *s));
    assert!(!lines[0].is_empty());
    assert!(!lines[lines.len() - 1].is_empty());
    let full: Vec<usize> = (0..lines.len()).filter(|&i| !lines[i].is_empty()).collect();
    let mut changes = 0;
    for w in full.windows(2) {
        let (a, b) = (keys[lines[w[0]][0]], keys[lines[w[1]][0]]);
        assert!(a.page <= b.page);
        if a.page == b.page {
            assert!(a.baseline <= b.baseline);
        } else {
            assert_eq!(w[1], w[0] + 2);
            changes += 1;
        }
    }
    assert_eq!(changes, 3);
}

#[test]
fn plain_text_joins_spans_with_one_space() {
    let lines = vec![vec![cell("hello", 0), cell("world", 500)]];
    assert_eq!(to_string_plain(&lines), "hello world\n");
    let lines = vec![vec![right("hello", 3), cell("world", 3)]];
    assert_eq!(to_string_plain(&lines), "hello world\n");
    assert_eq!(to_string_plain(&vec![vec![cell("Hello", 25)]]), "Hello\n");
}

#[test]
fn plain_text_ends_every_line_with_a_line_feed() {
    let lines = vec![vec![cell("A", 0)], Vec::new(), vec![cell("B", 0), cell("", 9), cell("C", 1)]];
    assert_eq!(to_string_plain(&lines), "A\n\nB  C\n");
    assert_eq!(to_string_plain(&Vec::new()), "");
    assert_eq!(to_string_plain(&vec![Vec::new()]), "\n");
}

#[test]
fn pretty_text_puts_spans_at_their_columns() {
    let lines = vec![vec![cell("Name", 2), cell("Qty", 10)]];
    assert_eq!(to_string_pretty(&lines), "  Name    Qty\n");
    let lines = vec![vec![cell("Name", 0), cell("Qty", 4)]];
    assert_eq!(to_string_pretty(&lines), "Name Qty\n");
    let lines = vec![vec![cell("Longer", 0), cell("Qty", 2), cell("x", 11)]];
    assert_eq!(to_string_pretty(&lines), "Longer Qty x\n");
    let lines = vec![vec![cell("", 0), cell("a", 0)]];
    assert_eq!(to_string_pretty(&lines), "a\n");
    let lines = vec![vec![cell("", 1), cell("a", 0)]];
    assert_eq!(to_string_pretty(&lines), "  a\n");
    assert_eq!(to_string_pretty(&Vec::new()), "");
    assert_eq!(to_string_pretty(&vec![Vec::new(), vec![cell("a", 1)]]), "\n a\n");
}

#[test]
fn pretty_text_aligns_numbers_at_their_right_edge() {
    let lines = vec![
        vec![cell("Apples", 12), right("1.50", 125)],
        vec![cell("Bananas and pears", 12), right("12.25", 125)],
        vec![cell("Figs", 13), right("100.00", 125)],
        vec![cell("Total", 12), right("113.75", 125)],
    ];
    let text = to_string_pretty(&lines);
    let rows: Vec<&str> = text.lines().collect();
    assert_eq!(rows.len(), 4);
    for row in &rows {
        assert_eq!(row.chars().count(), 125);
    }
    assert!(rows[0].ends_with(" 1.50"));
    assert!(rows[1].ends_with(" 12.25"));
    assert!(rows[2].starts_with("             Figs "));
    assert_eq!(rows[0].find("Apples"), Some(12));
}

#[test]
fn a_right_aligned_span_that_is_too_long_starts_at_column_0() {
    assert_eq!(to_string_pretty(&vec![vec![right("abcdef", 3)]]), "abcdef\n");
    assert_eq!(to_string_pretty(&vec![vec![right("abc", 3)]]), "abc\n");
    assert_eq!(to_string_pretty(&vec![vec![right("ab", 3)]]), " ab\n");
    assert_eq!(to_string_pretty(&vec![vec![cell("x", 0), right("abcdef", 3)]]), "x abcdef\n");
    assert_eq!(to_string_pretty(&vec![vec![right("\u{e9}\u{e9}", 4)]]), "  \u{e9}\u{e9}\n");
}

#[test]
fn grid_width_is_at_least_the_text() {
    assert_eq!(grid_width(10, 25, "Hello"), 15);
    assert_eq!(grid_width(10, 12, "Hello"), 5);
    assert_eq!(grid_width(12, 10, "Hello"), 5);
    assert_eq!(grid_width(0, 0, ""), 0);
    assert_eq!(grid_width(3, 5, "\u{1f600}\u{e9}"), 2);
    assert_eq!(grid_width(0, usize::MAX, "a"), usize::MAX);
}

#[test]
fn a_span_is_put_together_from_glyphs() {
    let mut buffer = SpanBuffer::new();
    assert!(buffer.is_empty());
    assert_eq!(buffer.flush(), None);
    for glyph in ["H", "e", "l", "l", "o"] {
        buffer.push(glyph, false);
    }
    assert!(!buffer.is_empty());
    assert_eq!(buffer.flush(), Some("Hello".to_string()));
    assert!(buffer.is_empty());
    assert_eq!(buffer.flush(), None);
}

#[test]
fn a_kerned_pair_stays_one_word() {
    let mut buffer = SpanBuffer::new();
    buffer.push("A", false);
    buffer.push("V", false);
    assert_eq!(buffer.flush(), Some("AV".to_string()));
    buffer.push("A", true);
    buffer.push("V", true);
    assert_eq!(buffer.flush(), Some("A V".to_string()));
}

#[test]
fn a_wide_gap_adds_no_second_space() {
    let mut buffer = SpanBuffer::new();
    buffer.push("a", false);
    buffer.push(" ", false);
    buffer.push("b", true);
    buffer.push("\t", true);
    buffer.push("c", true);
    buffer.push("\u{a0}", false);
    buffer.push("d", true);
    buffer.push("fi", true);
    assert_eq!(buffer.flush(), Some("a b  c\u{a0}d fi".to_string()));
}

#[test]
fn a_tab_becomes_a_space() {
    let mut buffer = SpanBuffer::new();
    buffer.push("\t", true);
    buffer.push("\t", false);
    buffer.push("\t\t", false);
    assert_eq!(buffer.flush(), Some("  \t\t".to_string()));
}

#[test]
fn glyphs_without_text_make_no_span() {
    let mut buffer = SpanBuffer::new();
    buffer.push("", false);
    buffer.push("", true);
    assert!(buffer.is_empty());
    assert_eq!(buffer.flush(), None);
    buffer.push("", true);
    buffer.push("x", true);
    buffer.push("", true);
    assert_eq!(buffer.flush(), Some("x ".to_string()));
}

#[test]
fn white_space_is_the_unicode_property() {
    let mut cp: u32 = 0;
    while cp < 0x11_0000 {
        if let Some(c) = char::from_u32(cp) {
            assert_eq!(white_space(c), c.is_whitespace(), "{:x}", cp);
        }
        cp += 1;
    }
}

#[test]
fn a_builder_keeps_the_password() {
    assert_eq!(PdfExtractorBuilder::new().build().decryption_password(), "");
    assert_eq!(PdfExtractor::builder().build().decryption_password(), "");
    assert_eq!(PdfExtractor::default().decryption_password(), "");
    assert_eq!(PdfExtractorBuilder::default().build().decryption_password(), "");
    let extractor = PdfExtractor::builder().password("secret").build();
    assert_eq!(extractor.decryption_password(), "secret");
    let extractor = PdfExtractor::builder().password("one").password("").build();
    assert_eq!(extractor.decryption_password(), "");
    let extractor = PdfExtractor::builder().password("one").password("two").build();
    assert_eq!(extractor.clone().decryption_password(), "two");
}

#[test]
fn the_same_spans_make_the_same_text_every_time() {
    let keys = vec![key(1, 100, 50), key(2, 10, 0), key(1, 100, 10), key(1, 130, 0)];
    let texts = ["world", "next", "hello", "below"];
    let mut outputs = Vec::new();
    for _ in 0..2 {
        let order = reading_order(&keys);
        let g = gaps(&keys, &order, 5, 24);
        let lines: Vec<Vec<Cell>> = group_lines(&keys, &order, &g)
            .iter()
            .map(|line| line.iter().map(|&i| cell(texts[i], keys[i].left as usize)).collect())
            .collect();
        outputs.push((to_string_plain(&lines), to_string_pretty(&lines)));
    }
    assert_eq!(outputs[0], outputs[1]);
    assert_eq!(outputs[0].0, "hello world\n\n\nbelow\n\nnext\n");
    let pretty = "          hello                                   world\n\n\nbelow\n\nnext\n";
    assert_eq!(outputs[0].1, pretty);
}

#[test]
fn rows_are_within_reach_of_the_machine() {
    assert!(rows_within_reach(&Vec::new()));
    assert!(rows_within_reach(&vec![vec![cell("abc", usize::MAX - 3)]]));
    assert!(!rows_within_reach(&vec![vec![cell("abc", usize::MAX - 2)]]));
    assert!(!rows_within_reach(&vec![Vec::new(), vec![cell("abc", usize::MAX - 3), cell("", 0)]]));
    assert!(rows_within_reach(&vec![vec![right("abc", usize::MAX)]]));
    assert!(!rows_within_reach(&vec![vec![right("abc", usize::MAX), cell("", 0)]]));
    assert!(rows_within_reach(&vec![vec![cell("", 0), cell("", usize::MAX)]]));
}
