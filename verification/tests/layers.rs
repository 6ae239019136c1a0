use code_editor::editor::{CodeEditor, Session, Settings};
use code_editor::events::{block_events, Event, Place};
use code_editor::geometry::{Metrics, Point, Rect, GRID_UNIT};
use code_editor::gutter::{draw_gutter, GutterCommand};
use code_editor::indent::draw_indent_guide_layer;
use code_editor::join::{DrawSelection, JoinedRect};
use code_editor::layout::{BlockInlay, Layout, LineEntry};
use code_editor::line::{Line, WrappedElement};
use code_editor::selection::DrawSelectionLayer;
use code_editor::text::{Affinity, Cursor, Position, Selection};
use code_editor::text_layer::{draw_text_layer, TextCommand};
use code_editor::token::{cursor_at, split_run, SubRun, Token, TokenColors, TokenKind};

fn text(text: &str) -> WrappedElement {
    WrappedElement::Text { is_inlay: false, text: text.as_bytes().to_vec() }
}

fn line_of(elements: Vec<WrappedElement>, tokens: Vec<Token>) -> Line {
    let line = Line {
        scale: GRID_UNIT,
        fold_column: 0,
        indent_column_count: 0,
        wrap_indent_column_count: 0,
        tokens,
        elements,
    };
    assert!(line.is_valid());
    line
}

fn layout_of(lines: Vec<Line>) -> Layout {
    let mut entries = Vec::new();
    let mut y = 0;
    for line in lines {
        let height = line.height();
        entries.push(LineEntry { y, inlays: Vec::new(), line });
        y += height;
    }
    let layout = Layout { entries };
    assert!(layout.is_valid());
    layout
}

fn metrics() -> Metrics {
    Metrics { cell_width: 10, cell_height: 20, origin: Point { x: 0, y: 0 }, stroke_width: 2 }
}

fn cursor(line_index: usize, byte_index: usize, affinity: Affinity) -> Cursor {
    Cursor { position: Position { line_index, byte_index }, affinity }
}

fn selection(anchor: Cursor, cursor: Cursor) -> Selection {
    Selection { anchor, cursor }
}

fn token(len: usize, kind: TokenKind) -> Token {
    Token { len, kind }
}

fn split(tokens: &Vec<Token>, len: usize) -> Vec<SubRun> {
    let mut cursor = cursor_at(tokens, 0);
    let mut runs = Vec::new();
    split_run(tokens, &mut cursor, 0, len, &mut runs);
    runs
}

fn drawn_text(commands: &[TextCommand], layout: &Layout, start: usize, end: usize) -> Vec<String> {
    let blocks = layout.block_elements(start, end);
    commands
        .iter()
        .map(|command| {
            let line = match &blocks[command.block_index] {
                code_editor::layout::BlockElement::Line { line, .. } => *line,
                code_editor::layout::BlockElement::Widget { .. } => unreachable!(),
            };
            let bytes = match &line.elements[command.element_index] {
                WrappedElement::Text { text, .. } => text,
                _ => unreachable!(),
            };
            let slice = &bytes[command.byte_start..command.byte_start + command.byte_len];
            String::from_utf8_lossy(slice).into_owned()
        })
        .collect()
}

#[test]
fn sub_runs_consume_the_whole_run_for_any_token_stream() {
    let cases: Vec<Vec<Token>> = vec![
        Vec::new(),
        vec![token(3, TokenKind::Comment)],
        vec![token(100, TokenKind::Comment)],
        vec![token(0, TokenKind::Comment), token(4, TokenKind::Number), token(0, TokenKind::String)],
        vec![token(2, TokenKind::Comment), token(2, TokenKind::Number), token(9, TokenKind::String)],
    ];
    let text = b"0123456789";
    for tokens in cases {
        let runs = split(&tokens, text.len());
        let total: usize = runs.iter().map(|run| run.len).sum();
        assert_eq!(total, text.len());
        let mut joined = Vec::new();
        let mut expected_start = 0;
        for run in &runs {
            assert!(run.len > 0);
            assert_eq!(run.start, expected_start);
            expected_start += run.len;
            joined.extend_from_slice(&text[run.start..run.start + run.len]);
        }
        assert_eq!(joined, text);
    }
}

#[test]
fn bytes_that_no_token_covers_are_of_unknown_kind() {
    let tokens = vec![token(2, TokenKind::Comment)];
    assert_eq!(
        split(&tokens, 5),
        vec![
            SubRun { start: 0, len: 2, kind: TokenKind::Comment },
            SubRun { start: 2, len: 3, kind: TokenKind::Unknown },
        ]
    );
    assert_eq!(split(&Vec::new(), 4), vec![SubRun { start: 0, len: 4, kind: TokenKind::Unknown }]);
    assert_eq!(split(&tokens, 0), Vec::new());
}

#[test]
fn a_token_continues_in_the_next_run() {
    let tokens = vec![token(5, TokenKind::String), token(1, TokenKind::Punctuator)];
    let mut cursor = cursor_at(&tokens, 0);
    let mut runs = Vec::new();
    split_run(&tokens, &mut cursor, 0, 3, &mut runs);
    assert_eq!((cursor.index, cursor.remaining), (0, 2));
    split_run(&tokens, &mut cursor, 0, 3, &mut runs);
    assert_eq!(
        runs,
        vec![
            SubRun { start: 0, len: 3, kind: TokenKind::String },
            SubRun { start: 0, len: 2, kind: TokenKind::String },
            SubRun { start: 2, len: 1, kind: TokenKind::Punctuator },
        ]
    );
    assert_eq!(cursor.index, 2);
}

#[test]
fn token_colours() {
    let colors = TokenColors::default();
    assert_eq!(colors.color(TokenKind::Unknown), 0x808080FF);
    assert_eq!(colors.color(TokenKind::BranchKeyword), 0xC485BEFF);
    assert_eq!(colors.color(TokenKind::Comment), 0x638D54FF);
    assert_eq!(colors.color(TokenKind::Constant), 0xCC917BFF);
    assert_eq!(colors.color(TokenKind::Identifier), 0xD4D4D4FF);
    assert_eq!(colors.color(TokenKind::LoopKeyword), 0xFF8C00FF);
    assert_eq!(colors.color(TokenKind::Number), 0xB6CEAAFF);
    assert_eq!(colors.color(TokenKind::OtherKeyword), 0x5B9BD3FF);
    assert_eq!(colors.color(TokenKind::Punctuator), 0xD4D4D4FF);
    assert_eq!(colors.color(TokenKind::String), 0xCC917BFF);
    assert_eq!(colors.color(TokenKind::Typename), 0x56C9B1FF);
    assert_eq!(colors.color(TokenKind::Whitespace), 0x6E6E6EFF);
}

#[test]
fn text_layer_draws_every_grapheme_in_its_token_colour() {
    let line = line_of(
        vec![text("fn"), WrappedElement::Wrap, text(" 好x")],
        vec![
            token(2, TokenKind::OtherKeyword),
            token(1, TokenKind::Whitespace),
            token(3, TokenKind::Identifier),
        ],
    );
    let layout = layout_of(vec![line]);
    let blocks = layout.block_elements(0, 1);
    let colors = TokenColors::default();
    let commands = draw_text_layer(&metrics(), &colors, &blocks, 0);
    let summary: Vec<(i64, i64, TokenKind, usize, usize, usize)> = commands
        .iter()
        .map(|c| (c.position.x, c.position.y, c.kind, c.element_index, c.byte_start, c.byte_len))
        .collect();
    assert_eq!(
        summary,
        vec![
            (0, 0, TokenKind::OtherKeyword, 0, 0, 1),
            (10, 0, TokenKind::OtherKeyword, 0, 1, 1),
            (0, 20, TokenKind::Whitespace, 2, 0, 1),
            (10, 20, TokenKind::Identifier, 2, 1, 3),
            // The wide character took two columns; the last byte has no token.
            (30, 20, TokenKind::Unknown, 2, 4, 1),
        ]
    );
    assert!(commands.iter().all(|c| c.color == colors.color(c.kind) && c.scale == GRID_UNIT));
    assert_eq!(drawn_text(&commands, &layout, 0, 1).concat(), "fn 好x");
}

#[test]
fn text_layer_draws_inlay_text_in_one_piece() {
    let line = line_of(
        vec![
            text("ab"),
            WrappedElement::Text { is_inlay: true, text: b"...".to_vec() },
            WrappedElement::Widget { column_count: 4 },
            text("c"),
        ],
        vec![token(3, TokenKind::Identifier)],
    );
    let layout = layout_of(vec![line]);
    let blocks = layout.block_elements(0, 1);
    let commands = draw_text_layer(&metrics(), &TokenColors::default(), &blocks, 0);
    let summary: Vec<(i64, TokenKind, usize, usize)> =
        commands.iter().map(|c| (c.position.x, c.kind, c.element_index, c.byte_len)).collect();
    assert_eq!(
        summary,
        vec![
            (0, TokenKind::Identifier, 0, 1),
            (10, TokenKind::Identifier, 0, 1),
            (20, TokenKind::Unknown, 1, 3),
            // The inlay text took three columns and the widget four; the token goes on.
            (90, TokenKind::Identifier, 3, 1),
        ]
    );
}

#[test]
fn text_layer_of_an_empty_range_draws_nothing() {
    let layout = layout_of(vec![line_of(vec![text("abc")], Vec::new())]);
    let blocks = layout.block_elements(1, 1);
    assert!(draw_text_layer(&metrics(), &TokenColors::default(), &blocks, 0).is_empty());
    assert!(draw_gutter(&metrics(), &blocks, 1, 0).is_empty());
    assert!(draw_indent_guide_layer(&metrics(), &blocks, 0, 4).is_empty());
    assert!(block_events(&blocks, 1, 0).is_empty());
}

fn layout_with_inlays() -> Layout {
    let wrapped = line_of(vec![text("ab"), WrappedElement::Wrap, text("cd")], Vec::new());
    let summary = line_of(
        vec![WrappedElement::Text { is_inlay: true, text: b"summary".to_vec() }],
        Vec::new(),
    );
    let entries = vec![
        LineEntry { y: 0, inlays: Vec::new(), line: wrapped },
        LineEntry {
            y: 2048,
            inlays: vec![BlockInlay::Line(summary), BlockInlay::Widget { height: 512 }],
            line: line_of(vec![text("ef")], Vec::new()),
        },
    ];
    let layout = Layout { entries };
    assert!(layout.is_valid());
    layout
}

#[test]
fn gutter_numbers_only_the_lines_of_the_document() {
    let layout = layout_with_inlays();
    let blocks = layout.block_elements(0, 2);
    let gutter = Metrics {
        cell_width: 10,
        cell_height: 20,
        origin: Point { x: 3, y: 7 },
        stroke_width: 2,
    };
    assert_eq!(
        draw_gutter(&gutter, &blocks, 40, 0),
        vec![
            GutterCommand { position: Point { x: 3, y: 7 }, scale: GRID_UNIT, line_index: 40 },
            // Two rows, an inlay line and half a row of widget lie above the second line.
            GutterCommand { position: Point { x: 3, y: 77 }, scale: GRID_UNIT, line_index: 41 },
        ]
    );
}

#[test]
fn inlay_lines_are_drawn_as_text() {
    let layout = layout_with_inlays();
    let blocks = layout.block_elements(0, 2);
    let commands = draw_text_layer(&metrics(), &TokenColors::default(), &blocks, 0);
    let inlay: Vec<&TextCommand> = commands.iter().filter(|c| c.block_index == 1).collect();
    assert_eq!(inlay.len(), 1);
    assert_eq!(inlay[0].position, Point { x: 0, y: 40 });
    assert_eq!(inlay[0].byte_len, 7);
    let last = commands.last().unwrap();
    assert_eq!((last.block_index, last.position), (3, Point { x: 10, y: 70 }));
}

#[test]
fn indent_guides_stand_at_every_tab_stop_of_every_row() {
    let mut line = line_of(vec![text("          x"), WrappedElement::Wrap, text("y")], Vec::new());
    line.indent_column_count = 10;
    line.scale = 512;
    line.fold_column = 100;
    let layout = layout_of(vec![line]);
    let blocks = layout.block_elements(0, 1);
    let guides = draw_indent_guide_layer(&metrics(), &blocks, 0, 4);
    assert_eq!(
        guides,
        vec![
            Rect { x: 0, y: 0, width: 2, height: 10 },
            Rect { x: 40, y: 0, width: 2, height: 10 },
            Rect { x: 80, y: 0, width: 2, height: 10 },
            Rect { x: 0, y: 10, width: 2, height: 10 },
            Rect { x: 40, y: 10, width: 2, height: 10 },
            Rect { x: 80, y: 10, width: 2, height: 10 },
        ]
    );
    // A tab as wide as the indent or wider gives one guide per row.
    assert_eq!(draw_indent_guide_layer(&metrics(), &blocks, 0, 10).len(), 2);
    assert_eq!(draw_indent_guide_layer(&metrics(), &blocks, 0, usize::MAX).len(), 2);
}

#[test]
fn inlay_lines_and_lines_without_indent_have_no_guides() {
    let layout = layout_with_inlays();
    let blocks = layout.block_elements(0, 2);
    assert!(draw_indent_guide_layer(&metrics(), &blocks, 0, 4).is_empty());
}

#[test]
fn events_of_a_line() {
    let layout = layout_of(vec![line_of(vec![text("é"), WrappedElement::Wrap, text("z")], Vec::new())]);
    let blocks = layout.block_elements(0, 1);
    let events = block_events(&blocks, 7, 0);
    let boundary = |byte_index: usize, affinity: Affinity, x: u64, top: u64| Event::Boundary {
        cursor: cursor(7, byte_index, affinity),
        place: Place { x, top, bottom: top + 1024 },
    };
    assert_eq!(
        events,
        vec![
            boundary(0, Affinity::Before, 0, 0),
            boundary(0, Affinity::After, 0, 0),
            boundary(2, Affinity::Before, 1024, 0),
            Event::RowBreak { place: Place { x: 1024, top: 0, bottom: 1024 }, next_x: 0 },
            boundary(2, Affinity::After, 0, 1024),
            boundary(3, Affinity::Before, 1024, 1024),
            boundary(3, Affinity::After, 1024, 1024),
            Event::LineEnd { place: Place { x: 2048, top: 1024, bottom: 2048 } },
        ]
    );
}

#[test]
fn boundaries_come_in_walk_order() {
    let layout = layout_with_inlays();
    let blocks = layout.block_elements(0, 2);
    let cursors: Vec<Cursor> = block_events(&blocks, 0, 0)
        .iter()
        .filter_map(|event| match event {
            Event::Boundary { cursor, .. } => Some(*cursor),
            _ => None,
        })
        .collect();
    assert!(cursors.len() > 4);
    for pair in cursors.windows(2) {
        assert!(pair[0].lt(&pair[1]));
    }
}

#[test]
fn join_memory_hands_rectangles_on_one_step_late() {
    let a = Rect { x: 1, y: 0, width: 10, height: 5 };
    let b = Rect { x: 2, y: 5, width: 20, height: 5 };
    let c = Rect { x: 3, y: 10, width: 30, height: 5 };
    let mut memory = DrawSelection::new();
    let mut out = Vec::new();
    memory.begin();
    memory.draw(&mut out, a);
    assert!(out.is_empty());
    memory.draw(&mut out, b);
    assert_eq!(out, vec![JoinedRect { rect: a, prev_x: 0, prev_w: 0, next_x: 2, next_w: 20 }]);
    memory.draw(&mut out, c);
    assert_eq!(out[1], JoinedRect { rect: b, prev_x: 1, prev_w: 10, next_x: 3, next_w: 30 });
    memory.end(&mut out);
    assert_eq!(out[2], JoinedRect { rect: c, prev_x: 2, prev_w: 20, next_x: 0, next_w: 0 });
    assert_eq!(out.len(), 3);
    assert_eq!(memory, DrawSelection::new());
    // Ending a shape without rectangles hands nothing on.
    memory.end(&mut out);
    memory.draw_rect_internal(&mut out, Some(a));
    assert_eq!(out.len(), 3);
}

fn session_of(lines: Vec<Line>, selections: Vec<Selection>) -> Session {
    let session = Session {
        layout: layout_of(lines),
        selections,
        settings: Settings { tab_column_count: 4 },
    };
    assert!(session.is_valid());
    session
}

fn editor(height: i64) -> CodeEditor {
    let mut editor = CodeEditor::new(TokenColors::default(), 0, 2);
    editor.cell_size = (10, 20);
    editor.viewport_rect = Rect { x: 0, y: 0, width: 10_000, height };
    assert!(editor.is_valid());
    editor
}

#[test]
fn a_selection_has_one_rectangle_for_each_row_it_crosses() {
    let wrapped = line_of(
        vec![text("aaaa"), WrappedElement::Wrap, text("bbbb"), WrappedElement::Wrap, text("cc")],
        Vec::new(),
    );
    // From the middle of row 0 to the middle of row 2: three rows.
    let inside = selection(cursor(0, 2, Affinity::Before), cursor(0, 9, Affinity::Before));
    let session = session_of(vec![wrapped], vec![inside]);
    let frame = editor(500).draw(&session, 0);
    let rects: Vec<Rect> = frame.selections.iter().map(|joined| joined.rect).collect();
    assert_eq!(
        rects,
        vec![
            Rect { x: 20, y: 0, width: 20, height: 20 },
            Rect { x: 0, y: 20, width: 40, height: 20 },
            Rect { x: 0, y: 40, width: 10, height: 20 },
        ]
    );
    assert_eq!(frame.carets, vec![Rect { x: 10, y: 40, width: 2, height: 20 }]);
}

#[test]
fn a_backward_selection_draws_its_caret_at_its_start() {
    let backward = selection(cursor(0, 3, Affinity::Before), cursor(0, 1, Affinity::Before));
    let session = session_of(vec![line_of(vec![text("abcd")], Vec::new())], vec![backward]);
    let frame = editor(100).draw(&session, 0);
    assert_eq!(frame.selections.len(), 1);
    assert_eq!(frame.selections[0].rect, Rect { x: 10, y: 0, width: 20, height: 20 });
    assert_eq!(frame.carets, vec![Rect { x: 10, y: 0, width: 2, height: 20 }]);
}

#[test]
fn an_empty_selection_is_only_a_caret() {
    let at = cursor(0, 2, Affinity::After);
    let session = session_of(vec![line_of(vec![text("abcd")], Vec::new())], vec![selection(at, at)]);
    let frame = editor(100).draw(&session, 0);
    assert!(frame.selections.is_empty());
    assert_eq!(frame.carets, vec![Rect { x: 20, y: 0, width: 2, height: 20 }]);
}

#[test]
fn neighbouring_selections_are_separate_shapes() {
    let first = selection(cursor(0, 0, Affinity::Before), cursor(0, 2, Affinity::Before));
    let second = selection(cursor(0, 2, Affinity::Before), cursor(0, 4, Affinity::Before));
    let session = session_of(vec![line_of(vec![text("abcd")], Vec::new())], vec![first, second]);
    let frame = editor(100).draw(&session, 0);
    assert_eq!(
        frame.selections,
        vec![
            JoinedRect {
                rect: Rect { x: 0, y: 0, width: 20, height: 20 },
                prev_x: 0,
                prev_w: 0,
                next_x: 0,
                next_w: 0,
            },
            JoinedRect {
                rect: Rect { x: 20, y: 0, width: 20, height: 20 },
                prev_x: 0,
                prev_w: 0,
                next_x: 0,
                next_w: 0,
            },
        ]
    );
    assert_eq!(frame.carets.len(), 2);
}

#[test]
fn a_selection_that_starts_above_the_viewport_is_open_from_the_left_edge() {
    let lines = vec![
        line_of(vec![text("one")], Vec::new()),
        line_of(vec![text("two")], Vec::new()),
        line_of(vec![text("three")], Vec::new()),
        line_of(vec![text("four")], Vec::new()),
    ];
    let above = selection(cursor(0, 0, Affinity::Before), cursor(0, 1, Affinity::Before));
    let long = selection(cursor(0, 2, Affinity::Before), cursor(2, 2, Affinity::Before));
    let session = session_of(lines, vec![above, long]);
    let mut editor = editor(40);
    // Scrolled down by one line and a bit: lines 1 and 2 and the top of line 3 are visible.
    let frame = editor.draw(&session, 25);
    assert_eq!((editor.line_start, editor.line_end), (1, 4));
    let rects: Vec<Rect> = frame.selections.iter().map(|joined| joined.rect).collect();
    assert_eq!(
        rects,
        vec![
            // Line 1 from the left edge to one column past its end.
            Rect { x: 0, y: 20, width: 40, height: 20 },
            Rect { x: 0, y: 40, width: 20, height: 20 },
        ]
    );
    assert_eq!(frame.carets, vec![Rect { x: 20, y: 40, width: 2, height: 20 }]);
    assert_eq!(frame.gutter.len(), 3);
    assert_eq!(frame.gutter[0].line_index, 1);
    assert_eq!(frame.gutter[0].position, Point { x: 0, y: 20 });
}

#[test]
fn a_selection_that_ends_below_the_viewport_is_flushed_at_the_end() {
    let lines = vec![
        line_of(vec![text("one")], Vec::new()),
        line_of(vec![text("two")], Vec::new()),
        line_of(vec![text("three")], Vec::new()),
    ];
    let long = selection(cursor(0, 1, Affinity::Before), cursor(2, 2, Affinity::Before));
    let session = session_of(lines, vec![long]);
    let mut editor = editor(30);
    let frame = editor.draw(&session, 0);
    assert_eq!((editor.line_start, editor.line_end), (0, 2));
    assert_eq!(
        frame.selections,
        vec![
            JoinedRect {
                rect: Rect { x: 10, y: 0, width: 30, height: 20 },
                prev_x: 0,
                prev_w: 0,
                next_x: 0,
                next_w: 40,
            },
            JoinedRect {
                rect: Rect { x: 0, y: 20, width: 40, height: 20 },
                prev_x: 10,
                prev_w: 30,
                next_x: 0,
                next_w: 0,
            },
        ]
    );
    assert!(frame.carets.is_empty());
}

#[test]
fn the_selection_layer_can_be_driven_event_by_event() {
    let m = metrics();
    let selections = vec![selection(cursor(0, 0, Affinity::After), cursor(0, 1, Affinity::Before))];
    let mut layer = DrawSelectionLayer::new(&selections, 0);
    assert_eq!(layer.next, 0);
    let place = |x: u64| Place { x, top: 0, bottom: 1024 };
    layer.handle_event(&m, &selections, cursor(0, 0, Affinity::Before), place(0));
    assert!(layer.active_selection.is_none());
    layer.step(&m, &selections, Event::Boundary { cursor: cursor(0, 0, Affinity::After), place: place(0) });
    assert_eq!(layer.active_selection.map(|active| active.start_x), Some(0));
    layer.step(&m, &selections, Event::RowBreak { place: place(3072), next_x: 2048 });
    assert_eq!(layer.active_selection.map(|active| active.start_x), Some(2048));
    layer.draw_selection(&m, place(4096));
    assert_eq!(layer.active_selection.map(|active| active.start_x), Some(0));
    layer.draw_cursor(&m, place(1024));
    layer.finish();
    let rects: Vec<Rect> = layer.rects.iter().map(|joined| joined.rect).collect();
    assert_eq!(
        rects,
        vec![
            Rect { x: 0, y: 0, width: 30, height: 20 },
            Rect { x: 20, y: 0, width: 20, height: 20 },
        ]
    );
    assert_eq!(layer.carets, vec![Rect { x: 10, y: 0, width: 2, height: 20 }]);
    let events = vec![Event::LineEnd { place: place(1024) }];
    let idle = DrawSelectionLayer::draw_selection_layer(&m, &selections, 1, &events);
    assert!(idle.rects.is_empty() && idle.carets.is_empty());
}

#[test]
fn the_editor_places_gutter_and_viewport() {
    let mut editor = CodeEditor::new(TokenColors::default(), 10, 2);
    let wrap_column = editor.begin(8, 16, Rect { x: 100, y: 50, width: 500, height: 300 }, 1234);
    // Four digits and one column more.
    assert_eq!(editor.gutter_rect, Rect { x: 110, y: 60, width: 30, height: 290 });
    assert_eq!(editor.viewport_rect, Rect { x: 150, y: 60, width: 450, height: 290 });
    assert_eq!(wrap_column, 56);
    assert_eq!(editor.cell_size, (8, 16));
    assert_eq!(editor.metrics().origin, Point { x: 150, y: 60 });
    assert_eq!(editor.gutter_metrics().origin, Point { x: 110, y: 60 });
    // A widget too narrow for its gutter has no room for text.
    assert_eq!(editor.begin(8, 16, Rect { x: 0, y: 0, width: 20, height: 300 }, 1234), 0);
}

#[test]
fn the_editor_draws_the_visible_lines() {
    let lines: Vec<Line> = (0..10).map(|_| line_of(vec![text("  text")], Vec::new())).collect();
    let session = session_of(lines, Vec::new());
    let mut editor = CodeEditor::new(TokenColors::default(), 0, 2);
    editor.begin(10, 20, Rect { x: 0, y: 0, width: 400, height: 50 }, 10);
    let frame = editor.draw(&session, 45);
    // The viewport shows the device rows 45 to 95: lines 2, 3 and 4.
    assert_eq!((editor.line_start, editor.line_end), (2, 5));
    assert_eq!(frame.gutter.iter().map(|c| c.line_index).collect::<Vec<_>>(), vec![2, 3, 4]);
    assert_eq!(frame.text.len(), 18);
    assert_eq!(frame.text[0].position, Point { x: 30, y: 40 });
    assert_eq!(editor.used_size(&session), (60, 200));
    assert_eq!(
        editor.pick(&session, Point { x: 30 + 25, y: 50 }),
        Some((Position { line_index: 2, byte_index: 2 }, Affinity::After))
    );
    // Scrolled past the end, the last line is still the first visible one.
    editor.draw(&session, 10_000);
    assert_eq!((editor.line_start, editor.line_end), (9, 10));
    editor.draw(&session, -10_000);
    assert_eq!((editor.line_start, editor.line_end), (0, 0));
}

#[test]
fn an_unplaced_editor_is_valid_and_an_oversized_one_is_not() {
    let mut editor = CodeEditor::new(TokenColors::default(), 0, 2);
    assert!(editor.is_valid());
    editor.cell_size = (0, 20);
    assert!(!editor.is_valid());
    editor.cell_size = (10, 20);
    editor.gutter_rect.x = i64::MIN;
    assert!(!editor.is_valid());
}

#[test]
fn an_invalid_session_is_recognised() {
    let mut session = session_of(vec![line_of(vec![text("a")], Vec::new())], Vec::new());
    session.settings.tab_column_count = 0;
    assert!(!session.is_valid());
}
