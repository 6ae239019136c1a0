//! The editor widget's core: where gutter and viewport lie, which lines are
//! visible, what a frame draws, and what a pointer hits.

use crate::events::{block_events, spec_block_events};
use crate::geometry::{
    lemma_scale_bound, normalized_floor, spec_normalized_floor, spec_scale, Metrics, Point, Rect,
    GRID_UNIT, MAX_CELL_SIZE, MAX_ORIGIN,
};
use crate::gutter::{digit_count, draw_gutter, spec_digit_count, spec_gutter, GutterCommand};
use crate::indent::{draw_indent_guide_layer, spec_indent_guides};
use crate::join::JoinedRect;
use crate::layout::{
    lemma_blocks_height, lemma_entry_blocks, spec_entries_width, BlockElement, Layout,
};
use crate::pick::spec_pick;
use crate::selection::{spec_selection_layer, DrawSelectionLayer};
use crate::text::{Affinity, Position, Selection};
use crate::text_layer::{draw_text_layer, spec_text_layer, TextCommand};
use crate::token::TokenColors;
use vstd::prelude::*;

verus! {

/// Largest magnitude of a coordinate, and largest size, of the rectangle that the widget is
/// given, in device units.
pub const MAX_WIDGET_EXTENT: i64 = 0x400_0000_0000_0000;

/// Layout settings that the renderer reads.
#[derive(Clone, Copy, Debug, PartialEq, Eq, Structural)]
pub struct Settings {
    /// Columns between two tab stops.
    pub tab_column_count: usize,
}

/// What the renderer reads of an editing session: a snapshot taken for one frame.
pub struct Session {
    pub layout: Layout,
    /// The selections in document order, none overlapping another.
    pub selections: Vec<Selection>,
    pub settings: Settings,
}

impl Session {
    pub open spec fn wf(&self) -> bool {
        self.layout.wf() && self.settings.tab_column_count > 0
    }

    /// Whether the snapshot is well formed.
    pub fn is_valid(&self) -> (ok: bool)
        ensures
            ok == self.wf(),
    {
        self.settings.tab_column_count > 0 && self.layout.is_valid()
    }
}

/// The geometry of the widget.
pub struct CodeEditor {
    pub token_colors: TokenColors,
    /// Device units kept free at the left and at the top of the widget.
    pub padding: u64,
    /// Width of carets and indent guides, in device units.
    pub stroke_width: u64,
    /// Size of one unscaled cell, in device units.
    pub cell_size: (u64, u64),
    /// Where the line numbers are drawn.
    pub gutter_rect: Rect,
    /// Where the text is drawn.
    pub viewport_rect: Rect,
    /// Index of the first visible line.
    pub line_start: usize,
    /// Index just past the last visible line.
    pub line_end: usize,
}

/// What one frame draws, layer by layer.
pub struct Frame {
    pub gutter: Vec<GutterCommand>,
    pub text: Vec<TextCommand>,
    pub indent_guides: Vec<Rect>,
    pub selections: Vec<JoinedRect>,
    pub carets: Vec<Rect>,
}

/// `rect` without a strip of `padding` device units at its left and at its top.
pub open spec fn spec_pad(rect: Rect, padding: int) -> Rect {
    Rect {
        x: (rect.x + padding) as i64,
        y: (rect.y + padding) as i64,
        width: (rect.width - padding) as i64,
        height: (rect.height - padding) as i64,
    }
}

/// Width of the gutter of a document of `line_count` lines: room for the digits of the
/// line count and one column more.
pub open spec fn spec_gutter_width(line_count: nat, cell_width: int) -> int {
    (spec_digit_count(line_count) + 1) * cell_width
}

impl CodeEditor {
    /// The metrics by which text, guides and selections are placed: the document's origin is
    /// the top-left corner of the viewport.
    pub open spec fn spec_metrics(&self) -> Metrics {
        Metrics {
            cell_width: self.cell_size.0,
            cell_height: self.cell_size.1,
            origin: Point { x: self.viewport_rect.x, y: self.viewport_rect.y },
            stroke_width: self.stroke_width,
        }
    }

    /// The metrics by which line numbers are placed: the origin is the top-left corner of the
    /// gutter.
    pub open spec fn spec_gutter_metrics(&self) -> Metrics {
        Metrics {
            cell_width: self.cell_size.0,
            cell_height: self.cell_size.1,
            origin: Point { x: self.gutter_rect.x, y: self.gutter_rect.y },
            stroke_width: self.stroke_width,
        }
    }

    pub open spec fn wf(&self) -> bool {
        &&& self.spec_metrics().wf()
        &&& self.spec_gutter_metrics().wf()
        &&& -MAX_ORIGIN <= self.viewport_rect.height <= MAX_ORIGIN
    }

    /// Whether the editor is placed well enough to draw and to pick.
    pub fn is_valid(&self) -> (ok: bool)
        ensures
            ok == self.wf(),
    {
        self.metrics().is_valid() && self.gutter_metrics().is_valid() && -MAX_ORIGIN
            <= self.viewport_rect.height && self.viewport_rect.height <= MAX_ORIGIN
    }

    /// An editor with the given colours, padding and stroke width, not yet placed.
    pub fn new(token_colors: TokenColors, padding: u64, stroke_width: u64) -> (editor: CodeEditor)
        ensures
            editor.token_colors == token_colors,
            editor.padding == padding,
            editor.stroke_width == stroke_width,
            editor.cell_size == (1u64, 1u64),
            editor.gutter_rect == (Rect { x: 0, y: 0, width: 0, height: 0 }),
            editor.viewport_rect == (Rect { x: 0, y: 0, width: 0, height: 0 }),
            editor.line_start == 0,
            editor.line_end == 0,
    {
        CodeEditor {
            token_colors,
            padding,
            stroke_width,
            cell_size: (1, 1),
            gutter_rect: Rect { x: 0, y: 0, width: 0, height: 0 },
            viewport_rect: Rect { x: 0, y: 0, width: 0, height: 0 },
            line_start: 0,
            line_end: 0,
        }
    }

    /// See `spec_metrics`.
    pub fn metrics(&self) -> (m: Metrics)
        ensures
            m == self.spec_metrics(),
    {
        Metrics {
            cell_width: self.cell_size.0,
            cell_height: self.cell_size.1,
            origin: Point { x: self.viewport_rect.x, y: self.viewport_rect.y },
            stroke_width: self.stroke_width,
        }
    }

    /// See `spec_gutter_metrics`.
    pub fn gutter_metrics(&self) -> (m: Metrics)
        ensures
            m == self.spec_gutter_metrics(),
    {
        Metrics {
            cell_width: self.cell_size.0,
            cell_height: self.cell_size.1,
            origin: Point { x: self.gutter_rect.x, y: self.gutter_rect.y },
            stroke_width: self.stroke_width,
        }
    }

    /// Places the widget in `rect` for a document of `line_count` lines drawn with cells of
    /// the given size. The gutter takes a strip at the left, wide enough for the largest line
    /// number and one column more; the viewport takes the rest; both leave the padding free
    /// at the left and at the top. Returns the column at which lines have to wrap: the number
    /// of whole cells that fit into the width of the viewport, or the largest number that a
    /// column index can hold if that is less.
    pub fn begin(
        &mut self,
        cell_width: u64,
        cell_height: u64,
        rect: Rect,
        line_count: usize,
    ) -> (wrap_column: usize)
        requires
            1 <= cell_width <= MAX_CELL_SIZE,
            1 <= cell_height <= MAX_CELL_SIZE,
            old(self).padding <= MAX_CELL_SIZE,
            old(self).stroke_width <= MAX_CELL_SIZE,
            -MAX_WIDGET_EXTENT <= rect.x <= MAX_WIDGET_EXTENT,
            -MAX_WIDGET_EXTENT <= rect.y <= MAX_WIDGET_EXTENT,
            0 <= rect.width <= MAX_WIDGET_EXTENT,
            0 <= rect.height <= MAX_WIDGET_EXTENT,
        ensures
            final(self).wf(),
            final(self).cell_size == (cell_width, cell_height),
            final(self).gutter_rect == spec_pad(
                Rect {
                    x: rect.x,
                    y: rect.y,
                    width: spec_gutter_width(line_count as nat, cell_width as int) as i64,
                    height: rect.height,
                },
                old(self).padding as int,
            ),
            final(self).viewport_rect == spec_pad(
                Rect {
                    x: (rect.x + spec_gutter_width(line_count as nat, cell_width as int)) as i64,
                    y: rect.y,
                    width: (rect.width - spec_gutter_width(line_count as nat, cell_width as int))
                        as i64,
                    height: rect.height,
                },
                old(self).padding as int,
            ),
            wrap_column == (if final(self).viewport_rect.width <= 0 {
                0
            } else if final(self).viewport_rect.width as int / cell_width as int > usize::MAX {
                usize::MAX as int
            } else {
                final(self).viewport_rect.width as int / cell_width as int
            }),
            final(self).token_colors == old(self).token_colors,
            final(self).padding == old(self).padding,
            final(self).stroke_width == old(self).stroke_width,
            final(self).line_start == old(self).line_start,
            final(self).line_end == old(self).line_end,
    {
        let digits = digit_count(line_count) as u64;
        assert((digits + 1) * cell_width <= 21 * 0x1_0000) by (nonlinear_arith)
            requires
                digits <= 20,
                cell_width <= 0x1_0000,
        ;
        let gutter_width: i64 = ((digits + 1) * cell_width) as i64;
        let padding: i64 = self.padding as i64;
        self.cell_size = (cell_width, cell_height);
        self.gutter_rect = Rect {
            x: rect.x + padding,
            y: rect.y + padding,
            width: gutter_width - padding,
            height: rect.height - padding,
        };
        self.viewport_rect = Rect {
            x: rect.x + gutter_width + padding,
            y: rect.y + padding,
            width: rect.width - gutter_width - padding,
            height: rect.height - padding,
        };
        if self.viewport_rect.width <= 0 {
            0
        } else {
            let columns: u64 = (self.viewport_rect.width as u64) / cell_width;
            assert(columns <= self.viewport_rect.width);
            if columns > usize::MAX as u64 {
                usize::MAX
            } else {
                columns as usize
            }
        }
    }

    /// Normalized y of the top of the blocks of the first visible line; 0 for a document
    /// without lines.
    pub open spec fn spec_origin_y(layout: &Layout, line_start: int) -> int {
        if 0 <= line_start < layout.entries@.len() {
            layout.entries@[line_start].y as int
        } else {
            0
        }
    }

    /// The visible blocks: those of the lines `[line_start, line_end)`.
    pub open spec fn spec_visible_blocks<'a>(&self, layout: &'a Layout) -> Seq<BlockElement<'a>> {
        layout.spec_block_elements(
            self.line_start as int,
            if self.line_end <= layout.entries@.len() {
                self.line_end as int
            } else {
                layout.entries@.len() as int
            },
        )
    }

    /// Draws one frame of `session`, scrolled down by `scroll_y` device units.
    ///
    /// The visible lines are those from the first line that ends below the top of the
    /// viewport up to, but without, the first line that starts below its bottom. All layers
    /// walk the blocks of these lines, starting at the top of the first.
    pub fn draw(&mut self, session: &Session, scroll_y: i64) -> (frame: Frame)
        requires
            old(self).wf(),
            session.wf(),
        ensures
            final(self).line_start == session.layout.spec_first_line_ending_after(
                spec_normalized_floor(scroll_y as int, old(self).cell_size.1 as int),
            ),
            final(self).line_end == session.layout.spec_first_line_starting_after(
                spec_normalized_floor(
                    scroll_y + old(self).viewport_rect.height,
                    old(self).cell_size.1 as int,
                ),
            ),
            final(self).token_colors == old(self).token_colors,
            final(self).padding == old(self).padding,
            final(self).stroke_width == old(self).stroke_width,
            final(self).cell_size == old(self).cell_size,
            final(self).gutter_rect == old(self).gutter_rect,
            final(self).viewport_rect == old(self).viewport_rect,
            frame.gutter@ == spec_gutter(
                final(self).spec_gutter_metrics(),
                final(self).spec_visible_blocks(&session.layout),
                0,
                final(self).line_start as int,
                Self::spec_origin_y(&session.layout, final(self).line_start as int),
            ),
            frame.text@ == spec_text_layer(
                final(self).spec_metrics(),
                final(self).token_colors,
                final(self).spec_visible_blocks(&session.layout),
                0,
                Self::spec_origin_y(&session.layout, final(self).line_start as int),
            ),
            frame.indent_guides@ == spec_indent_guides(
                final(self).spec_metrics(),
                final(self).spec_visible_blocks(&session.layout),
                0,
                Self::spec_origin_y(&session.layout, final(self).line_start as int),
                session.settings.tab_column_count as int,
            ),
            frame.selections@ == spec_selection_layer(
                final(self).spec_metrics(),
                session.selections@,
                final(self).line_start as int,
                spec_block_events(
                    final(self).spec_visible_blocks(&session.layout),
                    0,
                    final(self).line_start as int,
                    Self::spec_origin_y(&session.layout, final(self).line_start as int),
                ),
            ).rects,
            frame.carets@ == spec_selection_layer(
                final(self).spec_metrics(),
                session.selections@,
                final(self).line_start as int,
                spec_block_events(
                    final(self).spec_visible_blocks(&session.layout),
                    0,
                    final(self).line_start as int,
                    Self::spec_origin_y(&session.layout, final(self).line_start as int),
                ),
            ).carets,
    {
        let layout = &session.layout;
        let cell_height = self.cell_size.1;
        self.line_start = layout.find_first_line_ending_after_y(
            normalized_floor(scroll_y as i128, cell_height),
        );
        self.line_end = layout.find_first_line_starting_after_y(
            normalized_floor((scroll_y as i128) + (self.viewport_rect.height as i128), cell_height),
        );
        let count = layout.line_count();
        let origin_y = if self.line_start < count {
            layout.line_y(self.line_start)
        } else {
            0
        };
        let blocks = layout.block_elements(self.line_start, self.line_end);
        proof {
            let start = self.line_start as int;
            let end = self.line_end as int;
            if start < end {
                lemma_blocks_height(layout, start, end);
                lemma_entry_blocks(layout, start, end);
                assert(layout.entries@[end - 1].wf());
            } else {
                assert(blocks@ =~= Seq::empty());
            }
        }
        let metrics = self.metrics();
        let gutter = draw_gutter(&self.gutter_metrics(), &blocks, self.line_start, origin_y);
        let text = draw_text_layer(&metrics, &self.token_colors, &blocks, origin_y);
        let indent_guides = draw_indent_guide_layer(
            &metrics,
            &blocks,
            origin_y,
            session.settings.tab_column_count,
        );
        let events = block_events(&blocks, self.line_start, origin_y);
        let layer = DrawSelectionLayer::draw_selection_layer(
            &metrics,
            &session.selections,
            self.line_start,
            &events,
        );
        Frame { gutter, text, indent_guides, selections: layer.rects, carets: layer.carets }
    }

    /// The device size of the whole document, for the host's scroll bars: the width of its
    /// widest line and the height of all its blocks.
    pub fn used_size(&self, session: &Session) -> (size: (u64, u64))
        requires
            self.wf(),
            session.wf(),
        ensures
            size.0 == spec_scale(
                spec_entries_width(session.layout.entries@, 0),
                self.cell_size.0 as int,
            ),
            size.1 == spec_scale(
                if session.layout.entries@.len() == 0 {
                    0
                } else {
                    session.layout.entries@[session.layout.entries@.len() - 1].spec_end() as int
                },
                self.cell_size.1 as int,
            ),
    {
        let width = session.layout.width();
        let height = session.layout.height();
        proof {
            lemma_scale_bound(width as int, self.cell_size.0 as int);
            lemma_scale_bound(height as int, self.cell_size.1 as int);
        }
        (width * self.cell_size.0 / GRID_UNIT, height * self.cell_size.1 / GRID_UNIT)
    }

    /// What a pointer at the device position `position` hits in the document, if anything.
    pub fn pick(&self, session: &Session, position: Point) -> (hit: Option<(Position, Affinity)>)
        requires
            self.wf(),
            session.wf(),
        ensures
            hit == spec_pick(&session.layout, self.spec_metrics(), position),
            session.layout.spec_in_picked_line(self.spec_metrics(), position) ==> hit is Some,
    {
        session.layout.pick(&self.metrics(), position)
    }
}

} // verus!
