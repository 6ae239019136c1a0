use code_editor::geometry::{Metrics, Point, GRID_UNIT};
use code_editor::layout::{BlockElement, BlockInlay, Layout, LineEntry};
use code_editor::line::{Line, WrappedElement};
use code_editor::pick::pick_line;
use code_editor::text::{Affinity, Position};
use code_editor::token::TokenKind;
use code_editor::walk::{Cell, CellKind};

fn text(text: &str) -> WrappedElement {
    WrappedElement::Text { is_inlay: false, text: text.as_bytes().to_vec() }
}

fn inlay(text: &str) -> WrappedElement {
    WrappedElement::Text { is_inlay: true, text: text.as_bytes().to_vec() }
}

fn line_of(elements: Vec<WrappedElement>, wrap_indent_column_count: usize) -> Line {
    let line = Line {
        scale: GRID_UNIT,
        fold_column: 0,
        indent_column_count: 0,
        wrap_indent_column_count,
        tokens: Vec::new(),
        elements,
    };
    assert!(line.is_valid());
    line
}

fn layout_of(lines: Vec<Line>) -> Layout {
    let mut entries = Vec::new();
    let mut y = 0;
    for line in lines {
        let height = line.height();
        entries.push(LineEntry { y, inlays: Vec::new(), line });
        y += height;
    }
    let layout = Layout { entries };
    assert!(layout.is_valid());
    layout
}

fn metrics() -> Metrics {
    Metrics { cell_width: 10, cell_height: 20, origin: Point { x: 0, y: 0 }, stroke_width: 2 }
}

fn hit(byte_index: usize, affinity: Affinity) -> Option<(Position, Affinity)> {
    Some((Position { line_index: 0, byte_index }, affinity))
}

fn cell(
    kind: CellKind,
    byte_index: usize,
    byte_len: usize,
    row: usize,
    column: usize,
    column_count: usize,
) -> Cell {
    Cell { kind, byte_index, byte_len, row, column, column_count }
}

fn mixed_line() -> Line {
    line_of(
        vec![
            text("a好"),
            inlay("..."),
            WrappedElement::Widget { column_count: 2 },
            WrappedElement::Wrap,
            text("b"),
        ],
        4,
    )
}

#[test]
fn cells_of_a_line_with_every_kind_of_element() {
    assert_eq!(
        mixed_line().cells(),
        vec![
            cell(CellKind::Grapheme, 0, 1, 0, 0, 1),
            cell(CellKind::Grapheme, 1, 3, 0, 1, 2),
            cell(CellKind::Inlay, 4, 0, 0, 3, 3),
            cell(CellKind::Widget, 4, 0, 0, 6, 2),
            cell(CellKind::Wrap, 4, 0, 0, 8, 0),
            cell(CellKind::Grapheme, 4, 1, 1, 4, 1),
            cell(CellKind::End, 5, 0, 1, 5, 0),
        ]
    );
}

#[test]
fn cells_of_an_empty_line() {
    assert_eq!(line_of(Vec::new(), 0).cells(), vec![cell(CellKind::End, 0, 0, 0, 0, 0)]);
}

#[test]
fn column_advances_add_up_within_each_row() {
    let line = mixed_line();
    let cells = line.cells();
    let mut row = 0;
    let mut column = 0;
    for cell in &cells {
        assert_eq!((cell.row, cell.column), (row, column));
        if cell.kind == CellKind::Wrap {
            row += 1;
            column = line.wrap_indent_column_count;
        } else {
            column += cell.column_count;
        }
    }
    // Row 0 is as wide as its elements together: 1 + 2 + 3 + 2 columns.
    assert_eq!(cells[4].column, 8);
}

#[test]
fn pick_resolves_the_exact_midpoint_to_the_left_half() {
    let layout = layout_of(vec![line_of(vec![text("fn main() {}")], 0)]);
    // Character 3 spans the device x range [30, 40]; its midpoint is 35.
    assert_eq!(layout.pick(&metrics(), Point { x: 34, y: 10 }), hit(3, Affinity::After));
    assert_eq!(layout.pick(&metrics(), Point { x: 35, y: 10 }), hit(3, Affinity::After));
    assert_eq!(layout.pick(&metrics(), Point { x: 36, y: 10 }), hit(4, Affinity::Before));
    // The shared edge of two characters belongs to the one on the left.
    assert_eq!(layout.pick(&metrics(), Point { x: 30, y: 10 }), hit(3, Affinity::Before));
    assert_eq!(layout.pick(&metrics(), Point { x: 0, y: 10 }), hit(0, Affinity::After));
}

#[test]
fn pick_is_repeatable() {
    let layout = layout_of(vec![mixed_line(), line_of(vec![text("second")], 0)]);
    for x in [-5, 0, 7, 35, 64, 500] {
        for y in [-1, 0, 19, 20, 39, 40, 50, 60, 61] {
            let p = Point { x, y };
            assert_eq!(layout.pick(&metrics(), p), layout.pick(&metrics(), p));
        }
    }
}

#[test]
fn pick_right_of_the_text_falls_back_to_the_end_of_the_row() {
    let layout = layout_of(vec![mixed_line()]);
    // Row 0 ends with a wrap break at byte 4.
    assert_eq!(layout.pick(&metrics(), Point { x: 500, y: 10 }), hit(4, Affinity::Before));
    // Row 1 ends with the end of the line at byte 5.
    assert_eq!(layout.pick(&metrics(), Point { x: 500, y: 30 }), hit(5, Affinity::After));
    // Left of the wrap indent of row 1 nothing but the end of the line is hit.
    assert_eq!(layout.pick(&metrics(), Point { x: 5, y: 30 }), hit(5, Affinity::After));
}

#[test]
fn pick_on_inlay_text_and_on_a_widget() {
    let layout = layout_of(vec![mixed_line()]);
    // The inlay text spans columns 3 to 6 and is anchored at byte 4.
    assert_eq!(layout.pick(&metrics(), Point { x: 45, y: 10 }), hit(4, Affinity::Before));
    // The widget spans columns 6 to 8 and is not hit; the wrap break behind it is.
    assert_eq!(layout.pick(&metrics(), Point { x: 75, y: 10 }), hit(4, Affinity::Before));
    // The wide character spans columns 1 to 3.
    assert_eq!(layout.pick(&metrics(), Point { x: 15, y: 10 }), hit(1, Affinity::After));
    assert_eq!(layout.pick(&metrics(), Point { x: 25, y: 10 }), hit(4, Affinity::Before));
}

#[test]
fn pick_outside_the_rows_of_the_line_hits_nothing() {
    let line = line_of(vec![text("abc")], 0);
    assert_eq!(pick_line(&line, 0, 0, &metrics(), Point { x: 5, y: 21 }), None);
    assert_eq!(pick_line(&line, 0, 0, &metrics(), Point { x: 5, y: -1 }), None);
    // The band of a row includes both of its edges.
    assert_eq!(
        pick_line(&line, 0, 0, &metrics(), Point { x: 5, y: 20 }),
        hit(0, Affinity::After)
    );
    assert_eq!(pick_line(&line, 0, 0, &metrics(), Point { x: 5, y: 0 }), hit(0, Affinity::After));
}

#[test]
fn pick_within_the_height_of_a_line_always_hits() {
    let layout = layout_of(vec![mixed_line()]);
    for x in [-1000, -1, 0, 33, 81, 1000] {
        for y in 0..=40 {
            assert!(layout.pick(&metrics(), Point { x, y }).is_some());
        }
    }
}

#[test]
fn pick_selects_the_line_by_y() {
    let layout = layout_of(vec![
        line_of(vec![text("one")], 0),
        line_of(vec![text("two")], 0),
        line_of(vec![text("three")], 0),
    ]);
    let at = |y: i64| layout.pick(&metrics(), Point { x: 12, y }).map(|(p, _)| p.line_index);
    assert_eq!(at(5), Some(0));
    assert_eq!(at(25), Some(1));
    assert_eq!(at(45), Some(2));
    assert_eq!(at(60), Some(2));
    // Below the last line nothing is hit; above the first line neither.
    assert_eq!(at(61), None);
    assert_eq!(at(-1), None);
}

#[test]
fn pick_in_a_document_without_lines_hits_nothing() {
    let layout = Layout { entries: Vec::new() };
    assert!(layout.is_valid());
    assert_eq!(layout.pick(&metrics(), Point { x: 0, y: 0 }), None);
}

#[test]
fn pick_on_an_inlay_line_gives_the_start_of_the_line_below() {
    let summary = line_of(vec![inlay("folded")], 0);
    let entries = vec![
        LineEntry { y: 0, inlays: Vec::new(), line: line_of(vec![text("one")], 0) },
        LineEntry {
            y: 1024,
            inlays: vec![BlockInlay::Widget { height: 512 }, BlockInlay::Line(summary)],
            line: line_of(vec![text("two")], 0),
        },
    ];
    let layout = Layout { entries };
    assert!(layout.is_valid());
    let m = metrics();
    // The widget takes the device rows 20 to 30 and is never hit.
    assert_eq!(layout.pick(&m, Point { x: 5, y: 25 }), None);
    // The inlay line takes the rows 30 to 50.
    assert_eq!(
        layout.pick(&m, Point { x: 500, y: 35 }),
        Some((Position { line_index: 1, byte_index: 0 }, Affinity::Before))
    );
    // The line itself takes the rows 50 to 70.
    assert_eq!(
        layout.pick(&m, Point { x: 12, y: 60 }),
        Some((Position { line_index: 1, byte_index: 1 }, Affinity::After))
    );
}

#[test]
fn blocks_of_a_range_of_lines() {
    let entries = vec![
        LineEntry { y: 0, inlays: Vec::new(), line: line_of(vec![text("one")], 0) },
        LineEntry {
            y: 1024,
            inlays: vec![BlockInlay::Widget { height: 512 }],
            line: line_of(vec![text("two")], 0),
        },
        LineEntry { y: 2560, inlays: Vec::new(), line: line_of(vec![text("three")], 0) },
    ];
    let layout = Layout { entries };
    assert!(layout.is_valid());
    let kinds = |start: usize, end: usize| -> Vec<&'static str> {
        layout
            .block_elements(start, end)
            .iter()
            .map(|block| match block {
                BlockElement::Line { is_inlay: false, .. } => "line",
                BlockElement::Line { is_inlay: true, .. } => "inlay",
                BlockElement::Widget { .. } => "widget",
            })
            .collect()
    };
    assert_eq!(kinds(0, 3), vec!["line", "widget", "line", "line"]);
    assert_eq!(kinds(1, 2), vec!["widget", "line"]);
    assert_eq!(kinds(1, 1), Vec::<&str>::new());
    assert_eq!(kinds(2, 1), Vec::<&str>::new());
    assert_eq!(kinds(2, 100), vec!["line"]);
    assert_eq!(layout.line_count(), 3);
    assert_eq!(layout.line_y(1), 1024);
    assert_eq!(layout.line(2).elements.len(), 1);
    assert_eq!(layout.height(), 3584);
    assert_eq!(layout.width(), 5 * 1024);
    let _ = TokenKind::Unknown;
}

#[test]
fn searching_lines_by_y() {
    let layout = layout_of(vec![
        line_of(vec![text("a")], 0),
        line_of(vec![text("b"), WrappedElement::Wrap, text("c")], 0),
        line_of(vec![text("d")], 0),
    ]);
    // The lines take the normalized y ranges [0, 1024), [1024, 3072) and [3072, 4096).
    assert_eq!(layout.find_first_line_ending_after_y(-1), 0);
    assert_eq!(layout.find_first_line_ending_after_y(0), 0);
    assert_eq!(layout.find_first_line_ending_after_y(1023), 0);
    assert_eq!(layout.find_first_line_ending_after_y(1024), 1);
    assert_eq!(layout.find_first_line_ending_after_y(3071), 1);
    assert_eq!(layout.find_first_line_ending_after_y(3072), 2);
    assert_eq!(layout.find_first_line_ending_after_y(1_000_000), 2);
    assert_eq!(layout.find_first_line_starting_after_y(-1), 0);
    assert_eq!(layout.find_first_line_starting_after_y(0), 1);
    assert_eq!(layout.find_first_line_starting_after_y(1024), 2);
    assert_eq!(layout.find_first_line_starting_after_y(3071), 2);
    assert_eq!(layout.find_first_line_starting_after_y(3072), 3);
    let empty = Layout { entries: Vec::new() };
    assert_eq!(empty.find_first_line_ending_after_y(5), 0);
    assert_eq!(empty.find_first_line_starting_after_y(5), 0);
}

#[test]
fn invalid_layouts_are_recognised() {
    let mut layout = layout_of(vec![line_of(vec![text("a")], 0), line_of(vec![text("b")], 0)]);
    layout.entries[1].y = 1000;
    assert!(!layout.is_valid());
    let mut layout = layout_of(vec![line_of(vec![text("a")], 0)]);
    layout.entries[0].y = 0x100_0000_0000;
    assert!(!layout.is_valid());
    let mut layout = layout_of(vec![line_of(vec![text("a")], 0)]);
    layout.entries[0].inlays.push(BlockInlay::Widget { height: u64::MAX });
    assert!(!layout.is_valid());
}
