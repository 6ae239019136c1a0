//! One laid-out line: its wrapped elements, its tokens, and the mapping from
//! grid coordinates to line-local normalized coordinates.

use crate::geometry::{GRID_UNIT, MAX_LINE_SPAN};
use crate::text::{column_count, lemma_column_count_bound, spec_column_count};
use crate::token::Token;
use vstd::prelude::*;

verus! {

/// One horizontal slot of a line's visual flow.
pub enum WrappedElement {
    /// A run of text. Inlay text is synthesized: it takes up columns but no bytes of the line.
    Text { is_inlay: bool, text: Vec<u8> },
    /// An embedded widget of the given width.
    Widget { column_count: usize },
    /// A break inserted by word wrap: the flow goes on in the next row.
    Wrap,
}

/// One logical line as laid out for the current frame.
pub struct Line {
    /// Normalized units per row and per column past the fold column; `GRID_UNIT` when the
    /// line is drawn at full size.
    pub scale: u64,
    /// Columns before this one keep their full width when the line is scaled.
    pub fold_column: usize,
    /// Width of the line's leading whitespace, in columns.
    pub indent_column_count: usize,
    /// Column at which a wrapped row continues.
    pub wrap_indent_column_count: usize,
    /// The tokens of the line's text, in order.
    pub tokens: Vec<Token>,
    /// The visual flow of the line.
    pub elements: Vec<WrappedElement>,
}

/// Columns that `e` takes up.
pub open spec fn spec_element_width(e: WrappedElement) -> nat {
    match e {
        WrappedElement::Text { text, .. } => spec_column_count(text@, 0),
        WrappedElement::Widget { column_count } => column_count as nat,
        WrappedElement::Wrap => 0,
    }
}

/// Bytes of text that `e` holds, inlay or not.
pub open spec fn spec_element_bytes(e: WrappedElement) -> nat {
    match e {
        WrappedElement::Text { text, .. } => text@.len(),
        _ => 0,
    }
}

/// Columns that the elements from index `from` on take up together.
pub open spec fn spec_total_width(elements: Seq<WrappedElement>, from: int) -> nat
    decreases elements.len() - from,
{
    if 0 <= from < elements.len() {
        spec_element_width(elements[from]) + spec_total_width(elements, from + 1)
    } else {
        0
    }
}

/// Bytes of text that the elements from index `from` on hold together.
pub open spec fn spec_total_bytes(elements: Seq<WrappedElement>, from: int) -> nat
    decreases elements.len() - from,
{
    if 0 <= from < elements.len() {
        spec_element_bytes(elements[from]) + spec_total_bytes(elements, from + 1)
    } else {
        0
    }
}

/// Number of wrap breaks among the elements from index `from` on.
pub open spec fn spec_wrap_count(elements: Seq<WrappedElement>, from: int) -> nat
    decreases elements.len() - from,
{
    if 0 <= from < elements.len() {
        (if elements[from] is Wrap {
            1nat
        } else {
            0nat
        }) + spec_wrap_count(elements, from + 1)
    } else {
        0
    }
}

/// There are no more wrap breaks than elements.
pub(crate) proof fn lemma_wrap_count_bound(elements: Seq<WrappedElement>, from: int)
    requires
        0 <= from <= elements.len(),
    ensures
        spec_wrap_count(elements, from) <= elements.len() - from,
    decreases elements.len() - from,
{
    if from < elements.len() {
        lemma_wrap_count_bound(elements, from + 1);
    }
}

/// Normalized x of `column` in a line scaled to `scale` past `fold_column`.
pub open spec fn spec_column_x(scale: int, fold_column: int, column: int) -> int {
    if column <= fold_column {
        column * GRID_UNIT
    } else {
        fold_column * GRID_UNIT + (column - fold_column) * scale
    }
}

/// The normalized x coordinate never decreases as the column grows.
pub proof fn lemma_column_x_monotonic(scale: int, fold_column: int, c1: int, c2: int)
    requires
        0 <= scale,
        0 <= fold_column,
        0 <= c1 <= c2,
    ensures
        0 <= spec_column_x(scale, fold_column, c1) <= spec_column_x(scale, fold_column, c2),
{
    if c1 > fold_column {
        assert(0 <= (c1 - fold_column) * scale <= (c2 - fold_column) * scale)
            by (nonlinear_arith)
            requires
                0 <= c1 - fold_column <= c2 - fold_column,
                0 <= scale,
        ;
    } else if c2 > fold_column {
        assert(0 <= (c2 - fold_column) * scale) by (nonlinear_arith)
            requires
                0 <= c2 - fold_column,
                0 <= scale,
        ;
    }
}

/// A column's normalized x is at most the column times the full cell width.
proof fn lemma_column_x_bound(scale: int, fold_column: int, column: int)
    requires
        0 <= scale <= GRID_UNIT,
        0 <= fold_column,
        0 <= column,
    ensures
        0 <= spec_column_x(scale, fold_column, column) <= column * GRID_UNIT,
{
    if column > fold_column {
        assert(0 <= (column - fold_column) * scale <= (column - fold_column) * 1024)
            by (nonlinear_arith)
            requires
                0 <= column - fold_column,
                0 <= scale <= 1024,
        ;
    }
}

impl Line {
    /// The line is small enough for every column, row and byte offset in it to stay within
    /// `MAX_LINE_SPAN`, and it is not scaled up.
    pub open spec fn wf(&self) -> bool {
        &&& self.scale <= GRID_UNIT
        &&& self.elements@.len() <= MAX_LINE_SPAN
        &&& self.indent_column_count <= MAX_LINE_SPAN
        &&& self.wrap_indent_column_count + spec_total_width(self.elements@, 0) <= MAX_LINE_SPAN
        &&& spec_total_bytes(self.elements@, 0) <= MAX_LINE_SPAN
    }

    /// Number of rows: one more than there are wrap breaks.
    pub open spec fn spec_row_count(&self) -> nat {
        1 + spec_wrap_count(self.elements@, 0)
    }

    /// Height of all rows together, in normalized units.
    pub open spec fn spec_height(&self) -> nat {
        self.spec_row_count() * (self.scale as nat)
    }

    /// Normalized x of `column`.
    pub open spec fn spec_x(&self, column: int) -> int {
        spec_column_x(self.scale as int, self.fold_column as int, column)
    }

    /// Normalized y of the top of `row`, from the top of the line.
    pub open spec fn spec_y(&self, row: int) -> int {
        row * self.scale
    }

    /// Number of rows: one more than there are wrap breaks.
    pub fn row_count(&self) -> (n: usize)
        requires
            self.elements@.len() <= MAX_LINE_SPAN,
        ensures
            n == self.spec_row_count(),
            1 <= n <= MAX_LINE_SPAN + 1,
    {
        let mut n: usize = 1;
        let mut i: usize = 0;
        proof {
            lemma_wrap_count_bound(self.elements@, 0);
        }
        while i < self.elements.len()
            invariant
                i <= self.elements@.len() <= MAX_LINE_SPAN,
                n + spec_wrap_count(self.elements@, i as int) == self.spec_row_count(),
                1 <= n <= i + 1,
            decreases self.elements@.len() - i,
        {
            if let WrappedElement::Wrap = &self.elements[i] {
                n = n + 1;
            }
            i = i + 1;
        }
        n
    }

    /// Height of all rows together, in normalized units.
    pub fn height(&self) -> (h: u64)
        requires
            self.elements@.len() <= MAX_LINE_SPAN,
            self.scale <= GRID_UNIT,
        ensures
            h == self.spec_height(),
            h <= (MAX_LINE_SPAN + 1) * GRID_UNIT,
    {
        let rows = self.row_count() as u64;
        assert(rows * self.scale <= (0x10_0000 + 1) * 1024) by (nonlinear_arith)
            requires
                rows <= 0x10_0000 + 1,
                self.scale <= 1024,
        ;
        rows * self.scale
    }

    /// Normalized x of `column`.
    pub fn column_x(&self, column: usize) -> (x: u64)
        requires
            self.scale <= GRID_UNIT,
            column <= 4 * MAX_LINE_SPAN,
        ensures
            x == self.spec_x(column as int),
            x <= column * GRID_UNIT,
    {
        proof {
            lemma_column_x_bound(self.scale as int, self.fold_column as int, column as int);
        }
        if column <= self.fold_column {
            (column as u64) * GRID_UNIT
        } else {
            let after: u64 = (column - self.fold_column) as u64;
            assert(after * self.scale <= after * 1024) by (nonlinear_arith)
                requires
                    self.scale <= 1024,
            ;
            (self.fold_column as u64) * GRID_UNIT + after * self.scale
        }
    }

    /// Normalized y of the top of `row`, from the top of the line.
    pub fn row_y(&self, row: usize) -> (y: u64)
        requires
            self.scale <= GRID_UNIT,
            row <= 2 * MAX_LINE_SPAN,
        ensures
            y == self.spec_y(row as int),
            y <= row * GRID_UNIT,
    {
        assert(row * self.scale <= row * 1024) by (nonlinear_arith)
            requires
                self.scale <= 1024,
        ;
        (row as u64) * self.scale
    }

    /// The line-local normalized position of the top-left corner of the cell at
    /// (`row`, `column`).
    pub fn grid_to_normalized_position(&self, row: usize, column: usize) -> (p: (u64, u64))
        requires
            self.scale <= GRID_UNIT,
            row <= 2 * MAX_LINE_SPAN,
            column <= 4 * MAX_LINE_SPAN,
        ensures
            p.0 == self.spec_x(column as int),
            p.1 == self.spec_y(row as int),
            p.0 <= column * GRID_UNIT,
            p.1 <= row * GRID_UNIT,
    {
        (self.column_x(column), self.row_y(row))
    }

    /// Whether the line is well formed.
    pub fn is_valid(&self) -> (ok: bool)
        ensures
            ok == self.wf(),
    {
        if self.scale > GRID_UNIT || self.elements.len() > MAX_LINE_SPAN
            || self.indent_column_count > MAX_LINE_SPAN || self.wrap_indent_column_count
            > MAX_LINE_SPAN {
            return false;
        }
        let mut width: usize = self.wrap_indent_column_count;
        let mut bytes: usize = 0;
        let mut i: usize = 0;
        while i < self.elements.len()
            invariant
                i <= self.elements@.len(),
                width <= MAX_LINE_SPAN,
                bytes <= MAX_LINE_SPAN,
                width + spec_total_width(self.elements@, i as int)
                    == self.wrap_indent_column_count + spec_total_width(self.elements@, 0),
                bytes + spec_total_bytes(self.elements@, i as int) == spec_total_bytes(
                    self.elements@,
                    0,
                ),
            decreases self.elements@.len() - i,
        {
            match &self.elements[i] {
                WrappedElement::Text { text, .. } => {
                    if text.len() > MAX_LINE_SPAN - bytes {
                        return false;
                    }
                    bytes = bytes + text.len();
                    proof {
                        lemma_column_count_bound(text@, 0);
                    }
                    let w = column_count(text.as_slice());
                    if w > MAX_LINE_SPAN - width {
                        return false;
                    }
                    width = width + w;
                },
                WrappedElement::Widget { column_count } => {
                    if *column_count > MAX_LINE_SPAN - width {
                        return false;
                    }
                    width = width + *column_count;
                },
                WrappedElement::Wrap => {},
            }
            i = i + 1;
        }
        true
    }
}

} // verus!
