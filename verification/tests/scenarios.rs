use code_editor::editor::{CodeEditor, Session, Settings};
use code_editor::geometry::{Metrics, Point, Rect, GRID_UNIT};
use code_editor::layout::{Layout, LineEntry};
use code_editor::line::{Line, WrappedElement};
use code_editor::text::{Affinity, Cursor, Position, Selection};
use code_editor::token::{cursor_at, split_run, SubRun, Token, TokenColors, TokenKind};

fn plain_line(text: &str) -> Line {
    Line {
        scale: GRID_UNIT,
        fold_column: 0,
        indent_column_count: 0,
        wrap_indent_column_count: 0,
        tokens: vec![Token { len: text.len(), kind: TokenKind::Unknown }],
        elements: vec![WrappedElement::Text { is_inlay: false, text: text.as_bytes().to_vec() }],
    }
}

fn layout_of(lines: Vec<Line>) -> Layout {
    let mut entries = Vec::new();
    let mut y = 0;
    for line in lines {
        let height = line.height();
        entries.push(LineEntry { y, inlays: Vec::new(), line });
        y += height;
    }
    Layout { entries }
}

fn session_of(lines: Vec<Line>, selections: Vec<Selection>) -> Session {
    let session = Session {
        layout: layout_of(lines),
        selections,
        settings: Settings { tab_column_count: 4 },
    };
    assert!(session.is_valid());
    session
}

fn metrics(cell_width: u64, cell_height: u64) -> Metrics {
    let metrics =
        Metrics { cell_width, cell_height, origin: Point { x: 0, y: 0 }, stroke_width: 2 };
    assert!(metrics.is_valid());
    metrics
}

fn cursor(line_index: usize, byte_index: usize, affinity: Affinity) -> Cursor {
    Cursor { position: Position { line_index, byte_index }, affinity }
}

fn editor_at_origin(cell_width: u64, cell_height: u64, height: i64) -> CodeEditor {
    let mut editor = CodeEditor::new(TokenColors::default(), 0, 2);
    editor.cell_size = (cell_width, cell_height);
    editor.viewport_rect = Rect { x: 0, y: 0, width: 10_000, height };
    editor
}

#[test]
fn click_in_left_half_of_a_character() {
    let layout = layout_of(vec![plain_line("fn main() {}")]);
    assert!(layout.is_valid());
    let hit = layout.pick(&metrics(10, 20), Point { x: 35, y: 10 });
    assert_eq!(hit, Some((Position { line_index: 0, byte_index: 3 }, Affinity::After)));
    let hit = layout.pick(&metrics(10, 20), Point { x: 32, y: 10 });
    assert_eq!(hit, Some((Position { line_index: 0, byte_index: 3 }, Affinity::After)));
}

#[test]
fn click_in_right_half_of_a_character() {
    let layout = layout_of(vec![plain_line("fn main() {}")]);
    let hit = layout.pick(&metrics(10, 20), Point { x: 36, y: 10 });
    assert_eq!(hit, Some((Position { line_index: 0, byte_index: 4 }, Affinity::Before)));
}

#[test]
fn selection_within_one_row_is_one_rectangle() {
    let selection = Selection {
        anchor: cursor(0, 0, Affinity::Before),
        cursor: cursor(0, 5, Affinity::Before),
    };
    let session = session_of(vec![plain_line("fn main() {}")], vec![selection]);
    let mut editor = editor_at_origin(10, 20, 100);
    let frame = editor.draw(&session, 0);
    assert_eq!(frame.selections.len(), 1);
    let joined = frame.selections[0];
    assert_eq!(joined.rect, Rect { x: 0, y: 0, width: 50, height: 20 });
    assert_eq!((joined.prev_x, joined.prev_w, joined.next_x, joined.next_w), (0, 0, 0, 0));
    assert_eq!(frame.carets, vec![Rect { x: 50, y: 0, width: 2, height: 20 }]);
}

#[test]
fn selection_across_a_wrap_and_a_line_end() {
    let line0 = Line {
        scale: GRID_UNIT,
        fold_column: 0,
        indent_column_count: 0,
        wrap_indent_column_count: 2,
        tokens: Vec::new(),
        elements: vec![
            WrappedElement::Text { is_inlay: false, text: b"01234567890123456789".to_vec() },
            WrappedElement::Wrap,
            WrappedElement::Text { is_inlay: false, text: b"abcd".to_vec() },
        ],
    };
    let selection = Selection {
        anchor: cursor(0, 8, Affinity::Before),
        cursor: cursor(1, 3, Affinity::Before),
    };
    let session = session_of(vec![line0, plain_line("second")], vec![selection]);
    let mut editor = editor_at_origin(10, 20, 1000);
    let frame = editor.draw(&session, 0);
    let rects: Vec<Rect> = frame.selections.iter().map(|joined| joined.rect).collect();
    assert_eq!(
        rects,
        vec![
            // Row 0 of line 0: from column 8 to the right edge of the row, at column 20.
            Rect { x: 80, y: 0, width: 120, height: 20 },
            // Row 1 of line 0: from the wrap indent to one column past the end of the line.
            Rect { x: 20, y: 20, width: 50, height: 20 },
            // Line 1: from column 0 to column 3.
            Rect { x: 0, y: 40, width: 30, height: 20 },
        ]
    );
    // Each rectangle knows its neighbours in the shape.
    assert_eq!((frame.selections[0].prev_x, frame.selections[0].prev_w), (0, 0));
    assert_eq!((frame.selections[0].next_x, frame.selections[0].next_w), (20, 50));
    assert_eq!((frame.selections[1].prev_x, frame.selections[1].prev_w), (80, 120));
    assert_eq!((frame.selections[1].next_x, frame.selections[1].next_w), (0, 30));
    assert_eq!((frame.selections[2].prev_x, frame.selections[2].prev_w), (20, 50));
    assert_eq!((frame.selections[2].next_x, frame.selections[2].next_w), (0, 0));
}

#[test]
fn tokens_cut_a_run_into_coloured_sub_runs() {
    let tokens = vec![
        Token { len: 2, kind: TokenKind::OtherKeyword },
        Token { len: 3, kind: TokenKind::Identifier },
    ];
    let text = b"fnabc";
    let mut cursor = cursor_at(&tokens, 0);
    let mut runs = Vec::new();
    split_run(&tokens, &mut cursor, 0, text.len(), &mut runs);
    assert_eq!(
        runs,
        vec![
            SubRun { start: 0, len: 2, kind: TokenKind::OtherKeyword },
            SubRun { start: 2, len: 3, kind: TokenKind::Identifier },
        ]
    );
    assert_eq!(&text[runs[0].start..runs[0].start + runs[0].len], b"fn");
    assert_eq!(&text[runs[1].start..runs[1].start + runs[1].len], b"abc");
}
