//! The join memory of the selection renderer.
//!
//! A selection that spans several rows is drawn as one rectangle per row.
//! So that neighbouring rows can be fused without a seam, each rectangle is
//! handed on together with the horizontal extent of the rectangle before it
//! and of the one after it. A rectangle is therefore only handed on once its
//! successor is known, or once the shape has ended.

use crate::geometry::Rect;
use vstd::prelude::*;

verus! {

/// A selection rectangle with the horizontal extents of its neighbours in the same shape.
/// A missing neighbour has position and width zero.
#[derive(Clone, Copy, Debug, PartialEq, Eq, Structural)]
pub struct JoinedRect {
    pub rect: Rect,
    pub prev_x: i64,
    pub prev_w: i64,
    pub next_x: i64,
    pub next_w: i64,
}

/// The two rectangles drawn last in the open shape. `prev_rect` has not been handed on yet.
#[derive(Clone, Copy, Debug, PartialEq, Eq, Structural)]
pub struct DrawSelection {
    pub prev_prev_rect: Option<Rect>,
    pub prev_rect: Option<Rect>,
}

/// `rect` with the extents of the rectangle `prev` before it and `next` after it.
pub open spec fn spec_joined(prev: Option<Rect>, rect: Rect, next: Option<Rect>) -> JoinedRect {
    JoinedRect {
        rect,
        prev_x: match prev {
            Some(r) => r.x,
            None => 0,
        },
        prev_w: match prev {
            Some(r) => r.width,
            None => 0,
        },
        next_x: match next {
            Some(r) => r.x,
            None => 0,
        },
        next_w: match next {
            Some(r) => r.width,
            None => 0,
        },
    }
}

/// The element of `rects` at `i`, if there is one.
pub open spec fn spec_get(rects: Seq<Rect>, i: int) -> Option<Rect> {
    if 0 <= i < rects.len() {
        Some(rects[i])
    } else {
        None
    }
}

/// One shape: every rectangle of `rects` joined with its neighbours.
pub open spec fn spec_shape(rects: Seq<Rect>) -> Seq<JoinedRect> {
    Seq::new(
        rects.len(),
        |i: int| spec_joined(spec_get(rects, i - 1), rects[i], spec_get(rects, i + 1)),
    )
}

impl DrawSelection {
    /// The state between shapes: nothing is pending.
    pub open spec fn spec_idle() -> DrawSelection {
        DrawSelection { prev_prev_rect: None, prev_rect: None }
    }

    /// What is handed on when `next` arrives: the pending rectangle, if there is one, now
    /// that its successor is known.
    pub open spec fn spec_flush(self, next: Option<Rect>) -> Seq<JoinedRect> {
        match self.prev_rect {
            Some(prev) => seq![spec_joined(self.prev_prev_rect, prev, next)],
            None => Seq::empty(),
        }
    }

    /// The memory after `rect` has been drawn.
    pub open spec fn spec_after_draw(self, rect: Rect) -> DrawSelection {
        DrawSelection { prev_prev_rect: self.prev_rect, prev_rect: Some(rect) }
    }

    /// A memory with nothing pending.
    pub fn new() -> (s: DrawSelection)
        ensures
            s == DrawSelection::spec_idle(),
    {
        DrawSelection { prev_prev_rect: None, prev_rect: None }
    }

    /// Begins a shape: the memory is cleared, so that the first rectangle of the shape has no
    /// predecessor.
    pub fn begin(&mut self)
        ensures
            *final(self) == DrawSelection::spec_idle(),
    {
        self.prev_prev_rect = None;
        self.prev_rect = None;
    }

    /// Ends the shape: hands on the pending rectangle without a successor and clears the
    /// memory.
    pub fn end(&mut self, out: &mut Vec<JoinedRect>)
        ensures
            final(out)@ == old(out)@ + old(self).spec_flush(None),
            *final(self) == DrawSelection::spec_idle(),
    {
        self.draw_rect_internal(out, None);
        self.prev_prev_rect = None;
        self.prev_rect = None;
    }

    /// Adds `rect` to the shape: hands on the pending rectangle with `rect` as its successor
    /// and keeps `rect` pending.
    pub fn draw(&mut self, out: &mut Vec<JoinedRect>, rect: Rect)
        ensures
            final(out)@ == old(out)@ + old(self).spec_flush(Some(rect)),
            *final(self) == old(self).spec_after_draw(rect),
    {
        self.draw_rect_internal(out, Some(rect));
        self.prev_prev_rect = self.prev_rect;
        self.prev_rect = Some(rect);
    }

    /// Hands on the pending rectangle, if there is one, with `rect` as its successor.
    pub fn draw_rect_internal(&self, out: &mut Vec<JoinedRect>, rect: Option<Rect>)
        ensures
            final(out)@ == old(out)@ + self.spec_flush(rect),
    {
        if let Some(prev_rect) = self.prev_rect {
            let (prev_x, prev_w) = match self.prev_prev_rect {
                Some(prev_prev_rect) => (prev_prev_rect.x, prev_prev_rect.width),
                None => (0, 0),
            };
            let (next_x, next_w) = match rect {
                Some(rect) => (rect.x, rect.width),
                None => (0, 0),
            };
            out.push(JoinedRect { rect: prev_rect, prev_x, prev_w, next_x, next_w });
        }
        assert(out@ =~= old(out)@ + self.spec_flush(rect));
    }
}

/// What has been handed on after the rectangles of `rects` from index `from` on have been
/// drawn, starting with the memory `memory`.
pub open spec fn spec_draw_all(memory: DrawSelection, rects: Seq<Rect>, from: int) -> Seq<
    JoinedRect,
>
    decreases rects.len() - from,
{
    if 0 <= from < rects.len() {
        memory.spec_flush(Some(rects[from])) + spec_draw_all(
            memory.spec_after_draw(rects[from]),
            rects,
            from + 1,
        )
    } else {
        memory.spec_flush(None)
    }
}

/// Drawing the rectangles of a shape one after the other and then ending the shape hands on
/// exactly the shape: each rectangle once, in order, joined with the one before and the one
/// after it, the first without a predecessor and the last without a successor.
pub proof fn lemma_draw_all_is_shape(rects: Seq<Rect>)
    ensures
        spec_draw_all(DrawSelection::spec_idle(), rects, 0) == spec_shape(rects),
{
    if rects.len() == 0 {
        assert(spec_draw_all(DrawSelection::spec_idle(), rects, 0) =~= spec_shape(rects));
    } else {
        lemma_draw_all_from(rects, 0);
        assert(spec_shape(rects).subrange(0, rects.len() as int) =~= spec_shape(rects));
        assert(spec_shape(rects).subrange(0, 0) =~= Seq::<JoinedRect>::empty());
        assert(DrawSelection::spec_idle().spec_flush(Some(rects[0])) =~= Seq::<
            JoinedRect,
        >::empty());
        assert(spec_draw_all(DrawSelection::spec_idle(), rects, 0) =~= spec_draw_all(
            DrawSelection::spec_idle().spec_after_draw(rects[0]),
            rects,
            1,
        ));
    }
}

/// With the rectangle at `from` pending, drawing the rest hands on the shape from `from` on.
proof fn lemma_draw_all_from(rects: Seq<Rect>, from: int)
    requires
        0 <= from < rects.len(),
    ensures
        spec_draw_all(
            DrawSelection { prev_prev_rect: spec_get(rects, from - 1), prev_rect: Some(rects[from]) },
            rects,
            from + 1,
        ) == spec_shape(rects).subrange(from, rects.len() as int),
    decreases rects.len() - from,
{
    let memory = DrawSelection {
        prev_prev_rect: spec_get(rects, from - 1),
        prev_rect: Some(rects[from]),
    };
    if from + 1 < rects.len() {
        lemma_draw_all_from(rects, from + 1);
        assert(memory.spec_after_draw(rects[from + 1]) == DrawSelection {
            prev_prev_rect: spec_get(rects, from),
            prev_rect: Some(rects[from + 1]),
        });
        assert(spec_draw_all(memory, rects, from + 1) =~= spec_shape(rects).subrange(
            from,
            rects.len() as int,
        ));
    } else {
        assert(spec_draw_all(memory, rects, from + 1) =~= spec_shape(rects).subrange(
            from,
            rects.len() as int,
        ));
    }
}

/// Drawing the rectangles from index `from` on is drawing the sequence without the first
/// `from` of them.
pub(crate) proof fn lemma_draw_all_skip(memory: DrawSelection, rects: Seq<Rect>, from: int)
    requires
        0 <= from <= rects.len(),
    ensures
        spec_draw_all(memory, rects, from) == spec_draw_all(memory, rects.skip(from), 0),
    decreases rects.len() - from,
{
    let tail = rects.skip(from);
    if from < rects.len() {
        let next = memory.spec_after_draw(rects[from]);
        lemma_draw_all_skip(next, rects, from + 1);
        lemma_draw_all_skip(next, tail, 1);
        assert(tail.skip(1) =~= rects.skip(from + 1));
        assert(tail[0] == rects[from]);
    }
}

} // verus!
