use code_editor::geometry::{normalized_floor, Metrics, Point, Rect, GRID_UNIT};
use code_editor::gutter::digit_count;
use code_editor::line::{Line, WrappedElement};
use code_editor::text::{
    code_point, column_count, grapheme_len, grapheme_width, is_continuation, is_wide, Affinity,
    Cursor, Position, Selection,
};

fn cursor(line_index: usize, byte_index: usize, affinity: Affinity) -> Cursor {
    Cursor { position: Position { line_index, byte_index }, affinity }
}

fn metrics(cell_width: u64, cell_height: u64, x: i64, y: i64) -> Metrics {
    Metrics { cell_width, cell_height, origin: Point { x, y }, stroke_width: 2 }
}

#[test]
fn device_coordinates_scale_and_round_down() {
    let m = metrics(10, 20, 100, -50);
    assert!(m.is_valid());
    assert_eq!(m.device_x(0), 100);
    assert_eq!(m.device_x(GRID_UNIT), 110);
    assert_eq!(m.device_x(3 * GRID_UNIT), 130);
    // Half a cell is 5 device units; a third of a cell is 3.33, rounded down.
    assert_eq!(m.device_x(GRID_UNIT / 2), 105);
    assert_eq!(m.device_x(341), 103);
    assert_eq!(m.device_y(2 * GRID_UNIT), -10);
}

#[test]
fn device_rectangles_share_edges() {
    let m = metrics(7, 9, 0, 0);
    let left = m.device_rect(100, 0, 700, 1024);
    let right = m.device_rect(700, 0, 2000, 1024);
    assert_eq!(left, Rect { x: 0, y: 0, width: 4, height: 9 });
    assert_eq!(left.x + left.width, right.x);
    assert_eq!(right, Rect { x: 4, y: 0, width: 9, height: 9 });
}

#[test]
fn strokes_have_the_stroke_width() {
    let m = metrics(10, 20, 5, 5);
    assert_eq!(
        m.stroke(2 * GRID_UNIT, GRID_UNIT, 2 * GRID_UNIT),
        Rect { x: 25, y: 25, width: 2, height: 20 }
    );
}

#[test]
fn invalid_metrics_are_recognised() {
    assert!(!metrics(0, 20, 0, 0).is_valid());
    assert!(!metrics(10, 0x1_0001, 0, 0).is_valid());
    assert!(!metrics(10, 20, i64::MAX, 0).is_valid());
    assert!(metrics(1, 0x1_0000, 0, 0).is_valid());
}

#[test]
fn normalized_floor_rounds_down_and_clamps() {
    assert_eq!(normalized_floor(-1, 20), -1);
    assert_eq!(normalized_floor(0, 20), 0);
    assert_eq!(normalized_floor(10, 20), 512);
    assert_eq!(normalized_floor(19, 20), 972);
    assert_eq!(normalized_floor(20, 20), 1024);
    assert_eq!(normalized_floor(1 << 62, 1), 0x200_0000_0000);
}

#[test]
fn positions_and_cursors_are_ordered() {
    let a = Position { line_index: 1, byte_index: 9 };
    let b = Position { line_index: 2, byte_index: 0 };
    assert!(a.lt(&b));
    assert!(!b.lt(&a));
    assert!(!a.lt(&a));
    let before = cursor(1, 9, Affinity::Before);
    let after = cursor(1, 9, Affinity::After);
    assert!(before.lt(&after));
    assert!(!after.lt(&before));
    assert!(after.lt(&cursor(1, 10, Affinity::Before)));
    assert!(before.is_at(a, Affinity::Before));
    assert!(!before.is_at(a, Affinity::After));
}

#[test]
fn selection_start_and_end_do_not_depend_on_direction() {
    let forward = Selection {
        anchor: cursor(0, 2, Affinity::After),
        cursor: cursor(3, 1, Affinity::Before),
    };
    let backward = Selection { anchor: forward.cursor, cursor: forward.anchor };
    for selection in [forward, backward] {
        assert_eq!(selection.start(), Position { line_index: 0, byte_index: 2 });
        assert_eq!(selection.start_affinity(), Affinity::After);
        assert_eq!(selection.end(), Position { line_index: 3, byte_index: 1 });
        assert_eq!(selection.end_affinity(), Affinity::Before);
        assert!(!selection.is_empty());
    }
    let caret = Selection { anchor: forward.anchor, cursor: forward.anchor };
    assert!(caret.is_empty());
    assert_eq!(caret.start_cursor(), caret.end_cursor());
}

#[test]
fn graphemes_follow_utf8_sequences() {
    let text = "aé好😀".as_bytes();
    assert_eq!(text.len(), 10);
    assert_eq!(grapheme_len(text, 0), 1);
    assert_eq!(grapheme_len(text, 1), 2);
    assert_eq!(grapheme_len(text, 3), 3);
    assert_eq!(grapheme_len(text, 6), 4);
    assert_eq!(code_point(text, 0, 1), 'a' as u32);
    assert_eq!(code_point(text, 1, 2), 'é' as u32);
    assert_eq!(code_point(text, 3, 3), '好' as u32);
    assert_eq!(code_point(text, 6, 4), '😀' as u32);
    assert_eq!(grapheme_width(text, 0, 1), 1);
    assert_eq!(grapheme_width(text, 1, 2), 1);
    assert_eq!(grapheme_width(text, 3, 3), 2);
    assert_eq!(grapheme_width(text, 6, 4), 2);
    assert_eq!(column_count(text), 6);
    assert_eq!(column_count(b""), 0);
}

#[test]
fn graphemes_of_malformed_bytes_are_still_defined() {
    // A continuation byte at the start forms a grapheme with those that follow it.
    let text = [0x80u8, 0x81, b'a', 0xC3];
    assert!(is_continuation(0x80));
    assert!(is_continuation(0xBF));
    assert!(!is_continuation(0x7F));
    assert!(!is_continuation(0xC0));
    assert_eq!(grapheme_len(&text, 0), 2);
    assert_eq!(grapheme_len(&text, 2), 1);
    assert_eq!(grapheme_len(&text, 3), 1);
    assert_eq!(code_point(&text, 0, 2), 0x80);
    assert_eq!(column_count(&text), 3);
}

#[test]
fn wide_code_points() {
    assert!(is_wide(0x1100));
    assert!(is_wide(0x4E00));
    assert!(!is_wide(0x303F));
    assert!(is_wide(0xFF01));
    assert!(is_wide(0x1F600));
    assert!(!is_wide('a' as u32));
    assert!(!is_wide(0x20AC));
}

#[test]
fn digit_counts() {
    assert_eq!(digit_count(0), 1);
    assert_eq!(digit_count(9), 1);
    assert_eq!(digit_count(10), 2);
    assert_eq!(digit_count(999), 3);
    assert_eq!(digit_count(1000), 4);
    assert_eq!(digit_count(usize::MAX), usize::MAX.to_string().len());
}

fn folded_line() -> Line {
    Line {
        scale: 256,
        fold_column: 4,
        indent_column_count: 4,
        wrap_indent_column_count: 6,
        tokens: Vec::new(),
        elements: vec![
            WrappedElement::Text { is_inlay: false, text: b"    let x".to_vec() },
            WrappedElement::Wrap,
            WrappedElement::Text { is_inlay: false, text: b"= 1;".to_vec() },
        ],
    }
}

#[test]
fn grid_positions_of_a_scaled_line() {
    let line = folded_line();
    assert!(line.is_valid());
    assert_eq!(line.row_count(), 2);
    assert_eq!(line.height(), 512);
    // Columns up to the fold column keep their width, those behind it are scaled.
    assert_eq!(line.grid_to_normalized_position(0, 0), (0, 0));
    assert_eq!(line.grid_to_normalized_position(0, 4), (4096, 0));
    assert_eq!(line.grid_to_normalized_position(1, 6), (4096 + 2 * 256, 256));
    assert_eq!(line.column_x(3), 3072);
    assert_eq!(line.row_y(3), 768);
    // Both rows end at column 10: four full columns and six scaled ones.
    assert_eq!(line.width(), 4096 + 6 * 256);
}

#[test]
fn x_never_decreases_with_the_column() {
    let line = folded_line();
    let mut previous = 0;
    for column in 0..40 {
        let x = line.column_x(column);
        assert!(previous <= x);
        previous = x;
    }
}

#[test]
fn invalid_lines_are_recognised() {
    let mut line = folded_line();
    line.scale = GRID_UNIT + 1;
    assert!(!line.is_valid());
    let mut line = folded_line();
    line.wrap_indent_column_count = 0x10_0000;
    assert!(!line.is_valid());
    let mut line = folded_line();
    line.elements.push(WrappedElement::Widget { column_count: 0x10_0000 });
    assert!(!line.is_valid());
    let mut line = folded_line();
    line.elements.push(WrappedElement::Text { is_inlay: true, text: vec![b'x'; 0x10_0000] });
    assert!(!line.is_valid());
}
