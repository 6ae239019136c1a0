//! The text renderer: one draw command per grapheme of the visible lines,
//! coloured by the token that covers it.

use crate::geometry::{Metrics, Point, MAX_DOCUMENT_HEIGHT, MAX_LINE_SPAN};
use crate::layout::{spec_blocks_height, BlockElement};
use crate::line::{spec_element_bytes, spec_total_bytes, spec_total_width, Line, WrappedElement};
use crate::text::{
    column_count, grapheme_len, grapheme_width, lemma_column_count_bound,
    lemma_grapheme_len_bound, spec_column_count, spec_grapheme_len, spec_grapheme_width,
};
use crate::token::{
    cursor_at, lemma_split_covers, lemma_split_tiles, spec_concat, spec_total_len, spec_advance, spec_cursor_at, spec_cursor_wf, spec_split,
    spec_tiles, split_run, SubRun, Token, TokenColors, TokenCursor, TokenCursorView, TokenKind,
};
use vstd::prelude::*;
use vstd::slice::slice_subrange;

verus! {

/// Draw the bytes `[byte_start, byte_start + byte_len)` of the text element `element_index`
/// of the block `block_index` at `position`, in `color`, at the line's `scale`.
#[derive(Clone, Copy, Debug, PartialEq, Eq, Structural)]
pub struct TextCommand {
    /// Device position of the top-left corner.
    pub position: Point,
    /// Scale of the line, in normalized units per cell.
    pub scale: u64,
    pub kind: TokenKind,
    pub color: u32,
    /// Index of the block among the visible blocks.
    pub block_index: usize,
    /// Index of the text element in the line of that block.
    pub element_index: usize,
    pub byte_start: usize,
    pub byte_len: usize,
}

/// Where a piece of text comes from and where its line lies.
pub struct TextSite {
    pub block_index: int,
    pub element_index: int,
    /// Normalized y of the top of the line.
    pub top: int,
}

/// The command that draws `len` bytes at offset `start` of the element at (`row`, `column`).
pub open spec fn spec_command(
    line: &Line,
    metrics: Metrics,
    colors: TokenColors,
    site: TextSite,
    kind: TokenKind,
    start: int,
    len: int,
    row: int,
    column: int,
) -> TextCommand {
    TextCommand {
        position: Point {
            x: metrics.spec_device_x(line.spec_x(column)) as i64,
            y: metrics.spec_device_y(site.top + line.spec_y(row)) as i64,
        },
        scale: line.scale,
        kind,
        color: colors.spec_color(kind),
        block_index: site.block_index as usize,
        element_index: site.element_index as usize,
        byte_start: start as usize,
        byte_len: len as usize,
    }
}

/// The commands for the graphemes of the sub-run `sub` from its offset `pos` on. The sub-run
/// lies at offset `base` of its element, and the walk stands at (`row`, `column`).
pub open spec fn spec_glyphs(
    line: &Line,
    metrics: Metrics,
    colors: TokenColors,
    site: TextSite,
    kind: TokenKind,
    sub: Seq<u8>,
    base: int,
    pos: int,
    row: int,
    column: int,
) -> Seq<TextCommand>
    decreases sub.len() - pos,
{
    if 0 <= pos < sub.len() {
        let len = spec_grapheme_len(sub, pos);
        proof {
            lemma_grapheme_len_bound(sub, pos);
        }
        seq![spec_command(line, metrics, colors, site, kind, base + pos, len, row, column)]
            + spec_glyphs(
            line,
            metrics,
            colors,
            site,
            kind,
            sub,
            base,
            pos + len,
            row,
            column + spec_grapheme_width(sub, pos, len),
        )
    } else {
        Seq::empty()
    }
}

/// The bytes of `text` that the sub-run `run` covers.
pub open spec fn spec_run_bytes(text: Seq<u8>, run: SubRun) -> Seq<u8> {
    text.subrange(run.start as int, run.start + run.len)
}

/// The commands for the sub-runs of `text` from index `r` on, the walk standing at
/// (`row`, `column`). Each sub-run is split into graphemes on its own.
pub open spec fn spec_runs_glyphs(
    line: &Line,
    metrics: Metrics,
    colors: TokenColors,
    site: TextSite,
    text: Seq<u8>,
    runs: Seq<SubRun>,
    r: int,
    row: int,
    column: int,
) -> Seq<TextCommand>
    decreases runs.len() - r,
{
    if 0 <= r < runs.len() {
        let sub = spec_run_bytes(text, runs[r]);
        spec_glyphs(
            line,
            metrics,
            colors,
            site,
            runs[r].kind,
            sub,
            runs[r].start as int,
            0,
            row,
            column,
        ) + spec_runs_glyphs(
            line,
            metrics,
            colors,
            site,
            text,
            runs,
            r + 1,
            row,
            column + spec_column_count(sub, 0),
        )
    } else {
        Seq::empty()
    }
}

/// The columns that the sub-runs of `text` from index `r` on take up together.
pub open spec fn spec_runs_width(text: Seq<u8>, runs: Seq<SubRun>, r: int) -> nat
    decreases runs.len() - r,
{
    if 0 <= r < runs.len() {
        spec_column_count(spec_run_bytes(text, runs[r]), 0) + spec_runs_width(text, runs, r + 1)
    } else {
        0
    }
}

/// The state of the text renderer within a line.
pub struct TextState {
    pub cursor: TokenCursorView,
    pub row: int,
    pub column: int,
}

/// The commands for element `e`. Text of the line is cut by the tokens and drawn grapheme by
/// grapheme; inlay text is drawn in one piece, as of unknown kind; widgets and wrap breaks
/// draw nothing.
pub open spec fn spec_element_text(
    line: &Line,
    metrics: Metrics,
    colors: TokenColors,
    site: TextSite,
    e: WrappedElement,
    st: TextState,
) -> Seq<TextCommand> {
    match e {
        WrappedElement::Text { is_inlay: false, text } => spec_runs_glyphs(
            line,
            metrics,
            colors,
            site,
            text@,
            spec_split(line.tokens@, st.cursor, 0, text@.len() as int),
            0,
            st.row,
            st.column,
        ),
        WrappedElement::Text { is_inlay: true, text } => seq![
            spec_command(
                line,
                metrics,
                colors,
                site,
                TokenKind::Unknown,
                0,
                text@.len() as int,
                st.row,
                st.column,
            ),
        ],
        WrappedElement::Widget { .. } => Seq::empty(),
        WrappedElement::Wrap => Seq::empty(),
    }
}

/// The state after element `e`.
pub open spec fn spec_element_after(line: &Line, e: WrappedElement, st: TextState) -> TextState {
    match e {
        WrappedElement::Text { is_inlay: false, text } => TextState {
            cursor: spec_advance(line.tokens@, st.cursor, text@.len() as int),
            row: st.row,
            column: st.column + spec_runs_width(
                text@,
                spec_split(line.tokens@, st.cursor, 0, text@.len() as int),
                0,
            ),
        },
        WrappedElement::Text { is_inlay: true, text } => TextState {
            cursor: st.cursor,
            row: st.row,
            column: st.column + spec_column_count(text@, 0),
        },
        WrappedElement::Widget { column_count } => TextState {
            cursor: st.cursor,
            row: st.row,
            column: st.column + column_count,
        },
        WrappedElement::Wrap => TextState {
            cursor: st.cursor,
            row: st.row + 1,
            column: line.wrap_indent_column_count as int,
        },
    }
}

/// The commands for the elements of `line` from index `i` on. The line is the block
/// `block_index` and its top lies at `top`.
pub open spec fn spec_line_text_from(
    line: &Line,
    metrics: Metrics,
    colors: TokenColors,
    block_index: int,
    top: int,
    i: int,
    st: TextState,
) -> Seq<TextCommand>
    decreases line.elements@.len() - i,
{
    if 0 <= i < line.elements@.len() {
        spec_element_text(
            line,
            metrics,
            colors,
            TextSite { block_index, element_index: i, top },
            line.elements@[i],
            st,
        ) + spec_line_text_from(
            line,
            metrics,
            colors,
            block_index,
            top,
            i + 1,
            spec_element_after(line, line.elements@[i], st),
        )
    } else {
        Seq::empty()
    }
}

/// The commands for `line`: the walk starts at the first token, in row 0 and column 0.
pub open spec fn spec_line_text(
    line: &Line,
    metrics: Metrics,
    colors: TokenColors,
    block_index: int,
    top: int,
) -> Seq<TextCommand> {
    spec_line_text_from(
        line,
        metrics,
        colors,
        block_index,
        top,
        0,
        TextState { cursor: spec_cursor_at(line.tokens@, 0), row: 0, column: 0 },
    )
}

/// The commands for the blocks from index `b` on, the first of them lying at `top`. Lines are
/// drawn, inlay lines too; widgets only take up their height.
pub open spec fn spec_text_layer<'a>(
    metrics: Metrics,
    colors: TokenColors,
    blocks: Seq<BlockElement<'a>>,
    b: int,
    top: int,
) -> Seq<TextCommand>
    decreases blocks.len() - b,
{
    if 0 <= b < blocks.len() {
        (match blocks[b] {
            BlockElement::Line { line, .. } => spec_line_text(line, metrics, colors, b, top),
            BlockElement::Widget { .. } => Seq::empty(),
        }) + spec_text_layer(metrics, colors, blocks, b + 1, top + blocks[b].spec_height())
    } else {
        Seq::empty()
    }
}

/// Appends the commands for the graphemes of the sub-run `sub`, which lies at offset `base`
/// of its element, and moves `column` past them.
fn draw_glyphs(
    line: &Line,
    metrics: &Metrics,
    colors: &TokenColors,
    block_index: usize,
    element_index: usize,
    top: u64,
    kind: TokenKind,
    sub: &[u8],
    base: usize,
    row: usize,
    column: &mut usize,
    out: &mut Vec<TextCommand>,
)
    requires
        line.wf(),
        metrics.wf(),
        top <= MAX_DOCUMENT_HEIGHT,
        row <= MAX_LINE_SPAN,
        base + sub@.len() <= MAX_LINE_SPAN,
        *old(column) + 2 * sub@.len() <= 4 * MAX_LINE_SPAN,
    ensures
        final(out)@ == old(out)@ + spec_glyphs(
            line,
            *metrics,
            *colors,
            TextSite {
                block_index: block_index as int,
                element_index: element_index as int,
                top: top as int,
            },
            kind,
            sub@,
            base as int,
            0,
            row as int,
            *old(column) as int,
        ),
        *final(column) == *old(column) + spec_column_count(sub@, 0),
        *final(column) <= *old(column) + 2 * sub@.len(),
{
    let ghost site = TextSite {
        block_index: block_index as int,
        element_index: element_index as int,
        top: top as int,
    };
    let ghost all = spec_glyphs(
        line,
        *metrics,
        *colors,
        site,
        kind,
        sub@,
        base as int,
        0,
        row as int,
        *column as int,
    );
    let color = colors.color(kind);
    let y = metrics.device_y(top + line.row_y(row));
    let mut pos: usize = 0;
    proof {
        lemma_column_count_bound(sub@, 0);
    }
    while pos < sub.len()
        invariant
            line.wf(),
            metrics.wf(),
            pos <= sub@.len(),
            base + sub@.len() <= MAX_LINE_SPAN,
            *column + 2 * (sub@.len() - pos) <= 4 * MAX_LINE_SPAN,
            *column + spec_column_count(sub@, pos as int) == *old(column) + spec_column_count(
                sub@,
                0,
            ),
            *column + 2 * (sub@.len() - pos) <= *old(column) + 2 * sub@.len(),
            y == metrics.spec_device_y(top + line.spec_y(row as int)),
            color == colors.spec_color(kind),
            site == (TextSite {
                block_index: block_index as int,
                element_index: element_index as int,
                top: top as int,
            }),
            old(out)@ + all == out@ + spec_glyphs(
                line,
                *metrics,
                *colors,
                site,
                kind,
                sub@,
                base as int,
                pos as int,
                row as int,
                *column as int,
            ),
        decreases sub@.len() - pos,
    {
        let len = grapheme_len(sub, pos);
        let width = grapheme_width(sub, pos, len);
        proof {
            lemma_column_count_bound(sub@, pos + len);
        }
        out.push(
            TextCommand {
                position: Point { x: metrics.device_x(line.column_x(*column)), y },
                scale: line.scale,
                kind,
                color,
                block_index,
                element_index,
                byte_start: base + pos,
                byte_len: len,
            },
        );
        *column = *column + width;
        pos = pos + len;
        assert(old(out)@ + all =~= out@ + spec_glyphs(
            line,
            *metrics,
            *colors,
            site,
            kind,
            sub@,
            base as int,
            pos as int,
            row as int,
            *column as int,
        ));
    }
    assert(old(out)@ + all =~= out@);
}

/// The sub-runs from index `r` on are at most two columns wide per byte.
proof fn lemma_runs_width_bound(text: Seq<u8>, runs: Seq<SubRun>, r: int, hi: int)
    requires
        0 <= r <= runs.len(),
        hi <= text.len(),
        spec_tiles(runs, 0, hi),
    ensures
        r < runs.len() ==> spec_runs_width(text, runs, r) <= 2 * (hi - runs[r].start),
        r == runs.len() ==> spec_runs_width(text, runs, r) == 0,
    decreases runs.len() - r,
{
    if r < runs.len() {
        lemma_runs_width_bound(text, runs, r + 1, hi);
        lemma_column_count_bound(spec_run_bytes(text, runs[r]), 0);
        if r + 1 < runs.len() {
            assert(runs[r + 1].start == runs[r].start + runs[r].len);
        }
    }
}

/// Cuts the text of element `element_index` by the tokens from `cursor` on, appends the
/// commands for its graphemes and moves `cursor` and `column` past it.
fn draw_text_runs(
    line: &Line,
    metrics: &Metrics,
    colors: &TokenColors,
    block_index: usize,
    element_index: usize,
    top: u64,
    text: &[u8],
    cursor: &mut TokenCursor,
    row: usize,
    column: &mut usize,
    out: &mut Vec<TextCommand>,
)
    requires
        line.wf(),
        metrics.wf(),
        top <= MAX_DOCUMENT_HEIGHT,
        row <= MAX_LINE_SPAN,
        text@.len() <= MAX_LINE_SPAN,
        *old(column) + 2 * text@.len() <= 4 * MAX_LINE_SPAN,
        spec_cursor_wf(line.tokens@, old(cursor)@),
    ensures
        final(out)@ == old(out)@ + spec_runs_glyphs(
            line,
            *metrics,
            *colors,
            TextSite {
                block_index: block_index as int,
                element_index: element_index as int,
                top: top as int,
            },
            text@,
            spec_split(line.tokens@, old(cursor)@, 0, text@.len() as int),
            0,
            row as int,
            *old(column) as int,
        ),
        final(cursor)@ == spec_advance(line.tokens@, old(cursor)@, text@.len() as int),
        spec_cursor_wf(line.tokens@, final(cursor)@),
        *final(column) == *old(column) + spec_runs_width(
            text@,
            spec_split(line.tokens@, old(cursor)@, 0, text@.len() as int),
            0,
        ),
        *final(column) <= *old(column) + 2 * text@.len(),
{
    let ghost site = TextSite {
        block_index: block_index as int,
        element_index: element_index as int,
        top: top as int,
    };
    let ghost split = spec_split(line.tokens@, cursor@, 0, text@.len() as int);
    let ghost all = spec_runs_glyphs(
        line,
        *metrics,
        *colors,
        site,
        text@,
        split,
        0,
        row as int,
        *column as int,
    );
    let mut runs: Vec<SubRun> = Vec::new();
    split_run(&line.tokens, cursor, 0, text.len(), &mut runs);
    assert(runs@ =~= split);
    proof {
        lemma_split_tiles(line.tokens@, old(cursor)@, 0, text@.len() as int);
        lemma_runs_width_bound(text@, split, 0, text@.len() as int);
    }
    let mut r: usize = 0;
    while r < runs.len()
        invariant
            line.wf(),
            metrics.wf(),
            top <= MAX_DOCUMENT_HEIGHT,
            row <= MAX_LINE_SPAN,
            text@.len() <= MAX_LINE_SPAN,
            r <= runs@.len(),
            runs@ == split,
            spec_tiles(split, 0, text@.len() as int),
            site == (TextSite {
                block_index: block_index as int,
                element_index: element_index as int,
                top: top as int,
            }),
            *old(column) + 2 * text@.len() <= 4 * MAX_LINE_SPAN,
            r < runs@.len() ==> *column <= *old(column) + 2 * split[r as int].start,
            r == runs@.len() ==> *column <= *old(column) + 2 * text@.len(),
            *column + spec_runs_width(text@, split, r as int) == *old(column) + spec_runs_width(
                text@,
                split,
                0,
            ),
            old(out)@ + all == out@ + spec_runs_glyphs(
                line,
                *metrics,
                *colors,
                site,
                text@,
                split,
                r as int,
                row as int,
                *column as int,
            ),
        decreases runs@.len() - r,
    {
        let run = runs[r];
        assert(split[r as int].len > 0 && split[r as int].start + split[r as int].len
            <= text@.len());
        let sub = slice_subrange(text, run.start, run.start + run.len);
        draw_glyphs(
            line,
            metrics,
            colors,
            block_index,
            element_index,
            top,
            run.kind,
            sub,
            run.start,
            row,
            column,
            out,
        );
        proof {
            if r + 1 < runs@.len() {
                assert(split[r as int + 1].start == split[r as int].start + split[r as int].len);
            }
        }
        r = r + 1;
        assert(old(out)@ + all =~= out@ + spec_runs_glyphs(
            line,
            *metrics,
            *colors,
            site,
            text@,
            split,
            r as int,
            row as int,
            *column as int,
        ));
    }
    assert(old(out)@ + all =~= out@);
}

/// Appends the commands that draw `line`, which is the block `block_index` and whose top
/// lies at `top`.
pub fn draw_line_text(
    line: &Line,
    metrics: &Metrics,
    colors: &TokenColors,
    block_index: usize,
    top: u64,
    out: &mut Vec<TextCommand>,
)
    requires
        line.wf(),
        metrics.wf(),
        top <= MAX_DOCUMENT_HEIGHT,
    ensures
        final(out)@ == old(out)@ + spec_line_text(
            line,
            *metrics,
            *colors,
            block_index as int,
            top as int,
        ),
{
    let ghost all = spec_line_text(line, *metrics, *colors, block_index as int, top as int);
    let ghost elements = line.elements@;
    let ghost bound = line.wrap_indent_column_count + spec_total_width(elements, 0) + 2
        * spec_total_bytes(elements, 0);
    let mut cursor = cursor_at(&line.tokens, 0);
    let mut row: usize = 0;
    let mut column: usize = 0;
    let mut i: usize = 0;
    while i < line.elements.len()
        invariant
            line.wf(),
            metrics.wf(),
            top <= MAX_DOCUMENT_HEIGHT,
            elements == line.elements@,
            i <= elements.len(),
            row <= i,
            spec_cursor_wf(line.tokens@, cursor@),
            bound == line.wrap_indent_column_count + spec_total_width(elements, 0) + 2
                * spec_total_bytes(elements, 0),
            spec_total_width(elements, i as int) <= spec_total_width(elements, 0),
            spec_total_bytes(elements, i as int) <= spec_total_bytes(elements, 0),
            column + spec_total_width(elements, i as int) + 2 * spec_total_bytes(
                elements,
                i as int,
            ) <= bound,
            old(out)@ + all == out@ + spec_line_text_from(
                line,
                *metrics,
                *colors,
                block_index as int,
                top as int,
                i as int,
                TextState { cursor: cursor@, row: row as int, column: column as int },
            ),
        decreases elements.len() - i,
    {
        match &line.elements[i] {
            WrappedElement::Text { is_inlay: false, text } => {
                draw_text_runs(
                    line,
                    metrics,
                    colors,
                    block_index,
                    i,
                    top,
                    text.as_slice(),
                    &mut cursor,
                    row,
                    &mut column,
                    out,
                );
            },
            WrappedElement::Text { is_inlay: true, text } => {
                proof {
                    lemma_column_count_bound(text@, 0);
                }
                let position = Point {
                    x: metrics.device_x(line.column_x(column)),
                    y: metrics.device_y(top + line.row_y(row)),
                };
                out.push(
                    TextCommand {
                        position,
                        scale: line.scale,
                        kind: TokenKind::Unknown,
                        color: colors.color(TokenKind::Unknown),
                        block_index,
                        element_index: i,
                        byte_start: 0,
                        byte_len: text.len(),
                    },
                );
                column = column + column_count(text.as_slice());
            },
            WrappedElement::Widget { column_count } => {
                column = column + *column_count;
            },
            WrappedElement::Wrap => {
                column = line.wrap_indent_column_count;
                row = row + 1;
            },
        }
        i = i + 1;
        assert(old(out)@ + all =~= out@ + spec_line_text_from(
            line,
            *metrics,
            *colors,
            block_index as int,
            top as int,
            i as int,
            TextState { cursor: cursor@, row: row as int, column: column as int },
        ));
    }
    assert(old(out)@ + all =~= out@);
}

/// The commands that draw the text of `blocks`, the first of which lies at the normalized y
/// `origin_y`.
pub fn draw_text_layer(
    metrics: &Metrics,
    colors: &TokenColors,
    blocks: &Vec<BlockElement<'_>>,
    origin_y: u64,
) -> (commands: Vec<TextCommand>)
    requires
        metrics.wf(),
        forall|b: int| 0 <= b < blocks@.len() ==> (#[trigger] blocks@[b]).wf(),
        origin_y + spec_blocks_height(blocks@, 0) <= MAX_DOCUMENT_HEIGHT,
    ensures
        commands@ == spec_text_layer(*metrics, *colors, blocks@, 0, origin_y as int),
{
    let mut commands: Vec<TextCommand> = Vec::new();
    let mut top: u64 = origin_y;
    let mut b: usize = 0;
    let ghost all = spec_text_layer(*metrics, *colors, blocks@, 0, origin_y as int);
    while b < blocks.len()
        invariant
            metrics.wf(),
            forall|k: int| 0 <= k < blocks@.len() ==> (#[trigger] blocks@[k]).wf(),
            b <= blocks@.len(),
            top + spec_blocks_height(blocks@, b as int) <= MAX_DOCUMENT_HEIGHT,
            all == commands@ + spec_text_layer(*metrics, *colors, blocks@, b as int, top as int),
        decreases blocks@.len() - b,
    {
        assert(blocks@[b as int].wf());
        match &blocks[b] {
            BlockElement::Line { line, .. } => {
                draw_line_text(line, metrics, colors, b, top, &mut commands);
            },
            BlockElement::Widget { .. } => {},
        }
        top = top + blocks[b].height();
        b = b + 1;
        assert(all =~= commands@ + spec_text_layer(
            *metrics,
            *colors,
            blocks@,
            b as int,
            top as int,
        ));
    }
    assert(all =~= commands@);
    commands
}

/// The bytes of the line's own text in the elements from index `i` on.
pub open spec fn spec_line_bytes(elements: Seq<WrappedElement>, i: int) -> Seq<u8>
    decreases elements.len() - i,
{
    if 0 <= i < elements.len() {
        (match elements[i] {
            WrappedElement::Text { is_inlay: false, text } => text@,
            _ => Seq::empty(),
        }) + spec_line_bytes(elements, i + 1)
    } else {
        Seq::empty()
    }
}

/// The bytes of the sub-runs that the text renderer draws for the elements from index `i`
/// on, in the order in which it draws them, the token cursor standing at `cursor`.
pub open spec fn spec_drawn_bytes(
    tokens: Seq<Token>,
    elements: Seq<WrappedElement>,
    i: int,
    cursor: TokenCursorView,
) -> Seq<u8>
    decreases elements.len() - i,
{
    if 0 <= i < elements.len() {
        match elements[i] {
            WrappedElement::Text { is_inlay: false, text } => spec_concat(
                text@,
                spec_split(tokens, cursor, 0, text@.len() as int),
            ) + spec_drawn_bytes(
                tokens,
                elements,
                i + 1,
                spec_advance(tokens, cursor, text@.len() as int),
            ),
            _ => spec_drawn_bytes(tokens, elements, i + 1, cursor),
        }
    } else {
        Seq::empty()
    }
}

/// The lengths of the sub-runs that the text renderer draws for the elements from index `i`
/// on, added up.
pub open spec fn spec_drawn_len(
    tokens: Seq<Token>,
    elements: Seq<WrappedElement>,
    i: int,
    cursor: TokenCursorView,
) -> int
    decreases elements.len() - i,
{
    if 0 <= i < elements.len() {
        match elements[i] {
            WrappedElement::Text { is_inlay: false, text } => spec_total_len(
                spec_split(tokens, cursor, 0, text@.len() as int),
            ) + spec_drawn_len(
                tokens,
                elements,
                i + 1,
                spec_advance(tokens, cursor, text@.len() as int),
            ),
            _ => spec_drawn_len(tokens, elements, i + 1, cursor),
        }
    } else {
        0
    }
}

/// The text renderer consumes a line completely, whatever its tokens are: the lengths of the
/// sub-runs it draws add up to the byte length of the line, and their bytes joined in the
/// order of drawing are the text of the line.
pub proof fn lemma_text_drawn_completely(line: &Line, i: int, cursor: TokenCursorView)
    requires
        0 <= i <= line.elements@.len(),
        forall|k: int|
            0 <= k < line.elements@.len() ==> spec_element_bytes(#[trigger] line.elements@[k])
                <= usize::MAX,
    ensures
        spec_drawn_len(line.tokens@, line.elements@, i, cursor) == spec_line_bytes(
            line.elements@,
            i,
        ).len(),
        spec_drawn_bytes(line.tokens@, line.elements@, i, cursor) == spec_line_bytes(
            line.elements@,
            i,
        ),
    decreases line.elements@.len() - i,
{
    if i < line.elements@.len() {
        assert(spec_element_bytes(line.elements@[i]) <= usize::MAX);
        match line.elements@[i] {
            WrappedElement::Text { is_inlay: false, text } => {
                lemma_split_covers(text@, line.tokens@, cursor, 0, text@.len() as int);
                assert(text@.subrange(0, text@.len() as int) =~= text@);
                lemma_text_drawn_completely(
                    line,
                    i + 1,
                    spec_advance(line.tokens@, cursor, text@.len() as int),
                );
            },
            _ => {
                lemma_text_drawn_completely(line, i + 1, cursor);
                assert(Seq::<u8>::empty() + spec_line_bytes(line.elements@, i + 1)
                    =~= spec_line_bytes(line.elements@, i + 1));
            },
        }
    }
}

/// The commands draw the bytes `[lo, hi)` of one element, each byte once and in order: every
/// command draws at least one byte, the first starts at `lo`, each next one starts where the
/// one before it ends, and the last ends at `hi`.
pub open spec fn spec_commands_tile(commands: Seq<TextCommand>, lo: int, hi: int) -> bool
    decreases commands.len(),
{
    if commands.len() == 0 {
        lo == hi
    } else {
        &&& commands[0].byte_start == lo
        &&& commands[0].byte_len > 0
        &&& spec_commands_tile(commands.drop_first(), lo + commands[0].byte_len, hi)
    }
}

/// The commands for the graphemes of a sub-run draw the sub-run completely: no byte is
/// skipped and none is drawn twice.
pub proof fn lemma_glyphs_tile(
    line: &Line,
    metrics: Metrics,
    colors: TokenColors,
    site: TextSite,
    kind: TokenKind,
    sub: Seq<u8>,
    base: int,
    pos: int,
    row: int,
    column: int,
)
    requires
        0 <= base,
        0 <= pos <= sub.len(),
        base + sub.len() <= usize::MAX,
    ensures
        spec_commands_tile(
            spec_glyphs(line, metrics, colors, site, kind, sub, base, pos, row, column),
            base + pos,
            base + sub.len(),
        ),
    decreases sub.len() - pos,
{
    if pos < sub.len() {
        let len = spec_grapheme_len(sub, pos);
        let width = spec_grapheme_width(sub, pos, len);
        lemma_grapheme_len_bound(sub, pos);
        let all = spec_glyphs(line, metrics, colors, site, kind, sub, base, pos, row, column);
        let rest = spec_glyphs(
            line,
            metrics,
            colors,
            site,
            kind,
            sub,
            base,
            pos + len,
            row,
            column + width,
        );
        lemma_glyphs_tile(line, metrics, colors, site, kind, sub, base, pos + len, row, column + width);
        assert(all.drop_first() =~= rest);
        assert(all[0].byte_start == base + pos && all[0].byte_len == len);
    }
}

} // verus!
