//! The gutter renderer: one line number for every visible line of the
//! document.

use crate::geometry::{Metrics, Point, MAX_DOCUMENT_HEIGHT};
use crate::layout::{spec_blocks_height, spec_line_blocks, BlockElement};
use vstd::prelude::*;

verus! {

/// Draw the number `line_index` at `position`, at the line's `scale`.
#[derive(Clone, Copy, Debug, PartialEq, Eq, Structural)]
pub struct GutterCommand {
    /// Device position of the top-left corner of the number.
    pub position: Point,
    /// Scale of the line, in normalized units per cell.
    pub scale: u64,
    /// The number to draw: the index of the line in the document, counted from 0.
    pub line_index: usize,
}

/// The commands for the blocks from index `b` on. The first of them lies at the normalized y
/// `top`, and the next line of the document among them has the index `line_index`. Every
/// line of the document gets its number at its top; inlay lines and widgets get none, and
/// only take up their height.
pub open spec fn spec_gutter<'a>(
    metrics: Metrics,
    blocks: Seq<BlockElement<'a>>,
    b: int,
    line_index: int,
    top: int,
) -> Seq<GutterCommand>
    decreases blocks.len() - b,
{
    if 0 <= b < blocks.len() {
        match blocks[b] {
            BlockElement::Line { is_inlay: false, line } => seq![
                GutterCommand {
                    position: Point {
                        x: metrics.spec_device_x(0) as i64,
                        y: metrics.spec_device_y(top) as i64,
                    },
                    scale: line.scale,
                    line_index: line_index as usize,
                },
            ] + spec_gutter(metrics, blocks, b + 1, line_index + 1, top + line.spec_height()),
            _ => spec_gutter(metrics, blocks, b + 1, line_index, top + blocks[b].spec_height()),
        }
    } else {
        Seq::empty()
    }
}

/// The line numbers for `blocks`. The first block lies at the normalized y `origin_y`, and
/// the first line of the document among the blocks has the index `line_start`. The origin of
/// `metrics` is the top-left corner of the gutter.
pub fn draw_gutter(
    metrics: &Metrics,
    blocks: &Vec<BlockElement<'_>>,
    line_start: usize,
    origin_y: u64,
) -> (commands: Vec<GutterCommand>)
    requires
        metrics.wf(),
        forall|b: int| 0 <= b < blocks@.len() ==> (#[trigger] blocks@[b]).wf(),
        origin_y + spec_blocks_height(blocks@, 0) <= MAX_DOCUMENT_HEIGHT,
        line_start + spec_line_blocks(blocks@, 0) <= usize::MAX,
    ensures
        commands@ == spec_gutter(*metrics, blocks@, 0, line_start as int, origin_y as int),
{
    let mut commands: Vec<GutterCommand> = Vec::new();
    let mut line_index: usize = line_start;
    let mut top: u64 = origin_y;
    let mut b: usize = 0;
    let ghost all = spec_gutter(*metrics, blocks@, 0, line_start as int, origin_y as int);
    let x = metrics.device_x(0);
    while b < blocks.len()
        invariant
            metrics.wf(),
            forall|k: int| 0 <= k < blocks@.len() ==> (#[trigger] blocks@[k]).wf(),
            b <= blocks@.len(),
            x == metrics.spec_device_x(0),
            top + spec_blocks_height(blocks@, b as int) <= MAX_DOCUMENT_HEIGHT,
            line_index + spec_line_blocks(blocks@, b as int) <= usize::MAX,
            all == commands@ + spec_gutter(
                *metrics,
                blocks@,
                b as int,
                line_index as int,
                top as int,
            ),
        decreases blocks@.len() - b,
    {
        assert(blocks@[b as int].wf());
        match &blocks[b] {
            BlockElement::Line { is_inlay: false, line } => {
                commands.push(
                    GutterCommand {
                        position: Point { x, y: metrics.device_y(top) },
                        scale: line.scale,
                        line_index,
                    },
                );
                line_index = line_index + 1;
            },
            _ => {},
        }
        top = top + blocks[b].height();
        b = b + 1;
        assert(all =~= commands@ + spec_gutter(
            *metrics,
            blocks@,
            b as int,
            line_index as int,
            top as int,
        ));
    }
    assert(all =~= commands@);
    commands
}

/// Number of decimal digits of `n`.
pub open spec fn spec_digit_count(n: nat) -> nat
    decreases n,
{
    if n < 10 {
        1
    } else {
        1 + spec_digit_count(n / 10)
    }
}

/// Number of decimal digits of `n`: the width, in columns, of the largest line number of a
/// document of `n` lines.
pub fn digit_count(n: usize) -> (digits: usize)
    ensures
        digits == spec_digit_count(n as nat),
        1 <= digits <= 20,
{
    let mut digits: usize = 1;
    let mut rest: usize = n;
    proof {
        let one = spec_pow10(0);
        assert(one == 1);
        assert(rest as nat * one <= n) by (nonlinear_arith)
            requires
                one == 1,
                rest == n,
        ;
    }
    while rest >= 10
        invariant
            1 <= digits <= 20,
            digits + spec_digit_count(rest as nat) == 1 + spec_digit_count(n as nat),
            rest as nat * spec_pow10((digits - 1) as nat) <= n,
        decreases rest,
    {
        proof {
            let low = spec_pow10((digits - 1) as nat);
            if digits == 20 {
                lemma_pow10_19();
                assert(rest as nat * low >= 10 * low) by (nonlinear_arith)
                    requires
                        rest >= 10,
                        low >= 0,
                ;
            }
            assert(spec_pow10(digits as nat) == 10 * low);
            assert((rest / 10) as nat * (10 * low) <= rest as nat * low) by (nonlinear_arith)
                requires
                    (rest / 10) * 10 <= rest,
                    low >= 0,
            ;
        }
        rest = rest / 10;
        digits = digits + 1;
    }
    digits
}

/// Ten to the power `e`.
pub open spec fn spec_pow10(e: nat) -> nat
    decreases e,
{
    if e == 0 {
        1
    } else {
        10 * spec_pow10((e - 1) as nat)
    }
}

proof fn lemma_pow10_19()
    ensures
        spec_pow10(19) == 10_000_000_000_000_000_000,
{
    reveal_with_fuel(spec_pow10, 20);
}

} // verus!
