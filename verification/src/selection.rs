//! The selection and cursor renderer: a state machine that reads the events
//! of the visible lines and the sorted selections, and hands on one rectangle
//! per row that a selection covers, joined with its neighbours, and one caret
//! per cursor.

use crate::events::{spec_boundaries_increase, Event, Place};
use crate::geometry::{Metrics, Rect, MAX_EXTENT};
use crate::join::{
    lemma_draw_all_is_shape, lemma_draw_all_skip, spec_draw_all, spec_shape, DrawSelection,
    JoinedRect,
};
use crate::text::{Cursor, Selection};
use vstd::prelude::*;

verus! {

/// The selection that is open at the current point of the walk, and the normalized x at
/// which its rectangle in the current row begins.
#[derive(Clone, Copy, Debug, PartialEq, Eq, Structural)]
pub struct ActiveSelection {
    pub selection: Selection,
    pub start_x: u64,
}

/// The renderer's state and what it has drawn so far.
pub struct DrawSelectionLayer {
    /// Index of the first selection that has not started yet.
    pub next: usize,
    pub active_selection: Option<ActiveSelection>,
    pub draw_selection: DrawSelection,
    /// The rectangles handed on so far.
    pub rects: Vec<JoinedRect>,
    /// The carets drawn so far.
    pub carets: Vec<Rect>,
}

/// The renderer's state over unbounded values.
pub struct LayerState {
    pub next: int,
    pub active: Option<ActiveSelection>,
    pub memory: DrawSelection,
    pub rects: Seq<JoinedRect>,
    pub carets: Seq<Rect>,
}

impl View for DrawSelectionLayer {
    type V = LayerState;

    open spec fn view(&self) -> LayerState {
        LayerState {
            next: self.next as int,
            active: self.active_selection,
            memory: self.draw_selection,
            rects: self.rects@,
            carets: self.carets@,
        }
    }
}

impl LayerState {
    pub open spec fn wf(self, selections: Seq<Selection>) -> bool {
        &&& 0 <= self.next <= selections.len()
        &&& self.active matches Some(active) ==> active.start_x <= MAX_EXTENT
        &&& self.active is None ==> self.memory == DrawSelection::spec_idle()
    }

    /// The state after the rectangle of the open selection that ends at `place` has been
    /// drawn: it reaches from where the selection began in this row to `place`, and the next
    /// one begins at the left edge. Without an open selection nothing changes.
    pub open spec fn spec_draw_selection(self, metrics: Metrics, place: Place) -> LayerState {
        match self.active {
            Some(active) => {
                let rect = metrics.spec_device_rect(
                    active.start_x as int,
                    place.top as int,
                    place.x as int,
                    place.bottom as int,
                );
                LayerState {
                    next: self.next,
                    active: Some(ActiveSelection { selection: active.selection, start_x: 0 }),
                    memory: self.memory.spec_after_draw(rect),
                    rects: self.rects + self.memory.spec_flush(Some(rect)),
                    carets: self.carets,
                }
            },
            None => self,
        }
    }

    /// The state after the open shape has been ended.
    pub open spec fn spec_end_shape(self) -> LayerState {
        LayerState {
            next: self.next,
            active: self.active,
            memory: DrawSelection::spec_idle(),
            rects: self.rects + self.memory.spec_flush(None),
            carets: self.carets,
        }
    }

    /// The state after a caret has been drawn at `place`.
    pub open spec fn spec_draw_cursor(self, metrics: Metrics, place: Place) -> LayerState {
        LayerState {
            next: self.next,
            active: self.active,
            memory: self.memory,
            rects: self.rects,
            carets: self.carets + seq![
                metrics.spec_stroke(place.x as int, place.top as int, place.bottom as int),
            ],
        }
    }

    /// Whether the open selection ends at `cursor`.
    pub open spec fn spec_closes(self, cursor: Cursor) -> bool {
        self.active matches Some(active) && active.selection.spec_end() == cursor
    }

    /// Whether the next selection starts at `cursor`.
    pub open spec fn spec_opens(self, selections: Seq<Selection>, cursor: Cursor) -> bool {
        0 <= self.next < selections.len() && selections[self.next].spec_start() == cursor
    }

    /// The close check: where the open selection ends, its last rectangle is drawn, its shape
    /// ended, and a caret drawn if its cursor is here.
    pub open spec fn spec_close(self, metrics: Metrics, cursor: Cursor, place: Place) -> LayerState {
        if self.spec_closes(cursor) {
            let closed = self.spec_draw_selection(metrics, place).spec_end_shape();
            let idle = LayerState {
                next: closed.next,
                active: None,
                memory: closed.memory,
                rects: closed.rects,
                carets: closed.carets,
            };
            if self.active->0.selection.cursor == cursor {
                idle.spec_draw_cursor(metrics, place)
            } else {
                idle
            }
        } else {
            self
        }
    }

    /// The open check: where the next selection starts, it is taken from the list, a caret is
    /// drawn if its cursor is here, unless it is empty it becomes the open selection,
    /// beginning at `place`, and a new shape begins.
    pub open spec fn spec_open(
        self,
        metrics: Metrics,
        selections: Seq<Selection>,
        cursor: Cursor,
        place: Place,
    ) -> LayerState {
        if self.spec_opens(selections, cursor) {
            let selection = selections[self.next];
            let drawn = if selection.cursor == cursor {
                self.spec_draw_cursor(metrics, place)
            } else {
                self
            };
            LayerState {
                next: self.next + 1,
                active: if selection.spec_is_empty() {
                    self.active
                } else {
                    Some(ActiveSelection { selection, start_x: place.x })
                },
                memory: DrawSelection::spec_idle(),
                rects: drawn.rects,
                carets: drawn.carets,
            }
        } else {
            self
        }
    }

    /// The state after the boundary `cursor` at `place`: first the close check, then the open
    /// check.
    pub open spec fn spec_handle_event(
        self,
        metrics: Metrics,
        selections: Seq<Selection>,
        cursor: Cursor,
        place: Place,
    ) -> LayerState {
        self.spec_close(metrics, cursor, place).spec_open(metrics, selections, cursor, place)
    }

    /// The state after `event`. At a boundary the close and open checks are made. At a row
    /// break an open selection gets its rectangle up to the right edge of the row, and goes
    /// on in the next row at the wrap indent. At a line end it gets its rectangle up to one
    /// column past the end, and goes on in the next line at the left edge.
    pub open spec fn spec_step(
        self,
        metrics: Metrics,
        selections: Seq<Selection>,
        event: Event,
    ) -> LayerState {
        match event {
            Event::Boundary { cursor, place } => self.spec_handle_event(
                metrics,
                selections,
                cursor,
                place,
            ),
            Event::RowBreak { place, next_x } => {
                let drawn = self.spec_draw_selection(metrics, place);
                match drawn.active {
                    Some(active) => LayerState {
                        next: drawn.next,
                        active: Some(
                            ActiveSelection { selection: active.selection, start_x: next_x },
                        ),
                        memory: drawn.memory,
                        rects: drawn.rects,
                        carets: drawn.carets,
                    },
                    None => drawn,
                }
            },
            Event::LineEnd { place } => self.spec_draw_selection(metrics, place),
        }
    }

    /// The state after the events with the indices `[from, to)`.
    pub open spec fn spec_run(
        self,
        metrics: Metrics,
        selections: Seq<Selection>,
        events: Seq<Event>,
        from: int,
        to: int,
    ) -> LayerState
        decreases to - from,
    {
        if 0 <= from < to <= events.len() {
            self.spec_step(metrics, selections, events[from]).spec_run(
                metrics,
                selections,
                events,
                from + 1,
                to,
            )
        } else {
            self
        }
    }

    /// The state at the end of the walk: a selection that is still open has its shape ended.
    pub open spec fn spec_finish(self) -> LayerState {
        if self.active is Some {
            self.spec_end_shape()
        } else {
            self
        }
    }
}

/// Index of the first selection from `from` on that ends in line `line_start` or below.
pub open spec fn spec_skip_above(selections: Seq<Selection>, line_start: int, from: int) -> int
    decreases selections.len() - from,
{
    if 0 <= from < selections.len() && selections[from].spec_end().position.line_index
        < line_start {
        spec_skip_above(selections, line_start, from + 1)
    } else {
        from
    }
}

/// The state in which the walk begins at line `line_start`. Selections that end above that
/// line are passed over. A selection that starts above it and ends in it or below is already
/// open, beginning at the left edge.
pub open spec fn spec_initial(selections: Seq<Selection>, line_start: int) -> LayerState {
    let first = spec_skip_above(selections, line_start, 0);
    if 0 <= first < selections.len() && selections[first].spec_start().position.line_index
        < line_start {
        LayerState {
            next: first + 1,
            active: Some(ActiveSelection { selection: selections[first], start_x: 0 }),
            memory: DrawSelection::spec_idle(),
            rects: Seq::empty(),
            carets: Seq::empty(),
        }
    } else {
        LayerState {
            next: first,
            active: None,
            memory: DrawSelection::spec_idle(),
            rects: Seq::empty(),
            carets: Seq::empty(),
        }
    }
}

/// What the selection layer draws for `events`, the events of the lines from `line_start`
/// on: the state at the end of the walk.
pub open spec fn spec_selection_layer(
    metrics: Metrics,
    selections: Seq<Selection>,
    line_start: int,
    events: Seq<Event>,
) -> LayerState {
    spec_initial(selections, line_start).spec_run(
        metrics,
        selections,
        events,
        0,
        events.len() as int,
    ).spec_finish()
}

impl DrawSelectionLayer {
    /// The renderer at the start of a walk that begins at line `line_start`.
    pub fn new(selections: &Vec<Selection>, line_start: usize) -> (layer: DrawSelectionLayer)
        ensures
            layer@ == spec_initial(selections@, line_start as int),
            layer@.wf(selections@),
    {
        let mut first: usize = 0;
        while first < selections.len() && selections[first].end().line_index < line_start
            invariant
                first <= selections@.len(),
                spec_skip_above(selections@, line_start as int, 0) == spec_skip_above(
                    selections@,
                    line_start as int,
                    first as int,
                ),
            decreases selections@.len() - first,
        {
            first = first + 1;
        }
        let mut layer = DrawSelectionLayer {
            next: first,
            active_selection: None,
            draw_selection: DrawSelection::new(),
            rects: Vec::new(),
            carets: Vec::new(),
        };
        if first < selections.len() && selections[first].start().line_index < line_start {
            layer.active_selection = Some(
                ActiveSelection { selection: selections[first], start_x: 0 },
            );
            layer.next = first + 1;
        }
        assert(layer.rects@ =~= Seq::empty());
        assert(layer.carets@ =~= Seq::empty());
        layer
    }

    /// Draws the rectangle of the open selection that ends at `place`.
    pub fn draw_selection(&mut self, metrics: &Metrics, place: Place)
        requires
            metrics.wf(),
            place.wf(),
            old(self).active_selection matches Some(active) ==> active.start_x <= MAX_EXTENT,
        ensures
            final(self)@ == old(self)@.spec_draw_selection(*metrics, place),
    {
        if let Some(active) = self.active_selection {
            let rect = metrics.device_rect(active.start_x, place.top, place.x, place.bottom);
            self.draw_selection.draw(&mut self.rects, rect);
            self.active_selection = Some(
                ActiveSelection { selection: active.selection, start_x: 0 },
            );
        }
    }

    /// Draws a caret at `place`.
    pub fn draw_cursor(&mut self, metrics: &Metrics, place: Place)
        requires
            metrics.wf(),
            place.wf(),
        ensures
            final(self)@ == old(self)@.spec_draw_cursor(*metrics, place),
    {
        self.carets.push(metrics.stroke(place.x, place.top, place.bottom));
        assert(self.carets@ =~= old(self).carets@ + seq![
            metrics.spec_stroke(place.x as int, place.top as int, place.bottom as int),
        ]);
    }

    /// Reacts to the boundary `cursor` at `place`: the close check, then the open check.
    pub fn handle_event(
        &mut self,
        metrics: &Metrics,
        selections: &Vec<Selection>,
        cursor: Cursor,
        place: Place,
    )
        requires
            metrics.wf(),
            place.wf(),
            old(self)@.wf(selections@),
        ensures
            final(self)@ == old(self)@.spec_handle_event(*metrics, selections@, cursor, place),
            final(self)@.wf(selections@),
    {
        if let Some(active) = self.active_selection {
            if active.selection.end_cursor() == cursor {
                self.draw_selection(metrics, place);
                self.draw_selection.end(&mut self.rects);
                self.active_selection = None;
                if active.selection.cursor == cursor {
                    self.draw_cursor(metrics, place);
                }
            }
        }
        if self.next < selections.len() && selections[self.next].start_cursor() == cursor {
            let selection = selections[self.next];
            self.next = self.next + 1;
            if selection.cursor == cursor {
                self.draw_cursor(metrics, place);
            }
            if !selection.is_empty() {
                self.active_selection = Some(ActiveSelection { selection, start_x: place.x });
            }
            self.draw_selection.begin();
        }
    }

    /// Reacts to one event of the walk.
    pub fn step(&mut self, metrics: &Metrics, selections: &Vec<Selection>, event: Event)
        requires
            metrics.wf(),
            event.wf(),
            old(self)@.wf(selections@),
        ensures
            final(self)@ == old(self)@.spec_step(*metrics, selections@, event),
            final(self)@.wf(selections@),
    {
        match event {
            Event::Boundary { cursor, place } => {
                self.handle_event(metrics, selections, cursor, place);
            },
            Event::RowBreak { place, next_x } => {
                self.draw_selection(metrics, place);
                if let Some(active) = self.active_selection {
                    self.active_selection = Some(
                        ActiveSelection { selection: active.selection, start_x: next_x },
                    );
                }
            },
            Event::LineEnd { place } => {
                self.draw_selection(metrics, place);
            },
        }
    }

    /// Ends the walk: a selection that is still open has its shape ended.
    pub fn finish(&mut self)
        ensures
            final(self)@ == old(self)@.spec_finish(),
    {
        if self.active_selection.is_some() {
            self.draw_selection.end(&mut self.rects);
        }
    }

    /// Draws the selections and carets for `events`, the events of the lines from
    /// `line_start` on.
    pub fn draw_selection_layer(
        metrics: &Metrics,
        selections: &Vec<Selection>,
        line_start: usize,
        events: &Vec<Event>,
    ) -> (layer: DrawSelectionLayer)
        requires
            metrics.wf(),
            forall|k: int| 0 <= k < events@.len() ==> (#[trigger] events@[k]).wf(),
        ensures
            layer@ == spec_selection_layer(*metrics, selections@, line_start as int, events@),
    {
        let mut layer = DrawSelectionLayer::new(selections, line_start);
        let ghost initial = layer@;
        let mut i: usize = 0;
        while i < events.len()
            invariant
                metrics.wf(),
                i <= events@.len(),
                forall|k: int| 0 <= k < events@.len() ==> (#[trigger] events@[k]).wf(),
                layer@.wf(selections@),
                initial.spec_run(*metrics, selections@, events@, 0, events@.len() as int)
                    == layer@.spec_run(
                    *metrics,
                    selections@,
                    events@,
                    i as int,
                    events@.len() as int,
                ),
            decreases events@.len() - i,
        {
            layer.step(metrics, selections, events[i]);
            i = i + 1;
        }
        layer.finish();
        layer
    }
}

/// The selections are in document order and do not overlap: each ends before or where
/// the next one starts.
pub open spec fn spec_sorted(selections: Seq<Selection>) -> bool {
    forall|a: int, b: int|
        0 <= a < b < selections.len() ==> (#[trigger] selections[a]).spec_end().spec_le(
            (#[trigger] selections[b]).spec_start(),
        )
}

/// The place of an event.
pub open spec fn spec_event_place(event: Event) -> Place {
    match event {
        Event::Boundary { place, .. } => place,
        Event::RowBreak { place, .. } => place,
        Event::LineEnd { place } => place,
    }
}

/// The rectangle of a selection in one row: from the normalized x `start_x` to `place`.
pub open spec fn spec_row_rect(metrics: Metrics, start_x: int, place: Place) -> Rect {
    metrics.spec_device_rect(start_x, place.top as int, place.x as int, place.bottom as int)
}

/// The rectangles of a selection that is open from `start_x` on before the event `from` and
/// ends at the event `to`: one up to each row break and line end on the way, each beginning
/// where the row before it said, and one up to the event `to`.
pub open spec fn spec_row_rects(
    metrics: Metrics,
    start_x: int,
    events: Seq<Event>,
    from: int,
    to: int,
) -> Seq<Rect>
    decreases to - from,
{
    if 0 <= from < to < events.len() {
        match events[from] {
            Event::Boundary { .. } => spec_row_rects(metrics, start_x, events, from + 1, to),
            Event::RowBreak { place, next_x } => seq![spec_row_rect(metrics, start_x, place)]
                + spec_row_rects(metrics, next_x as int, events, from + 1, to),
            Event::LineEnd { place } => seq![spec_row_rect(metrics, start_x, place)]
                + spec_row_rects(metrics, 0, events, from + 1, to),
        }
    } else {
        seq![spec_row_rect(metrics, start_x, spec_event_place(events[to]))]
    }
}

/// Number of row breaks and line ends among the events `[from, to)`.
pub open spec fn spec_break_count(events: Seq<Event>, from: int, to: int) -> nat
    decreases to - from,
{
    if 0 <= from < to <= events.len() {
        (if events[from].spec_is_break() {
            1nat
        } else {
            0nat
        }) + spec_break_count(events, from + 1, to)
    } else {
        0
    }
}

/// A selection that is open before the event `from` and ends at the boundary `to`, with only
/// earlier boundaries in between, has drawn, once `to` is passed, one rectangle for each row
/// it was open in, and nothing else.
proof fn lemma_open_selection_rows(
    metrics: Metrics,
    selections: Seq<Selection>,
    events: Seq<Event>,
    s: LayerState,
    from: int,
    to: int,
)
    requires
        spec_sorted(selections),
        0 <= from <= to < events.len(),
        s.active is Some,
        1 <= s.next <= selections.len(),
        selections[s.next - 1] == s.active->0.selection,
        events[to] matches Event::Boundary { cursor, .. } && cursor
            == s.active->0.selection.spec_end(),
        forall|k: int|
            from <= k < to ==> ((#[trigger] events[k]) matches Event::Boundary { cursor, .. }
                ==> cursor.spec_lt(s.active->0.selection.spec_end())),
    ensures
        s.spec_run(metrics, selections, events, from, to + 1).rects == s.rects + spec_draw_all(
            s.memory,
            spec_row_rects(metrics, s.active->0.start_x as int, events, from, to),
            0,
        ),
        s.spec_run(metrics, selections, events, from, to + 1).memory
            == DrawSelection::spec_idle(),
        spec_row_rects(metrics, s.active->0.start_x as int, events, from, to).len()
            == spec_break_count(events, from, to) + 1,
    decreases to - from,
{
    let active = s.active->0;
    let selection = active.selection;
    let rows = spec_row_rects(metrics, active.start_x as int, events, from, to);
    let after = s.spec_step(metrics, selections, events[from]);
    if s.next < selections.len() {
        assert(selections[s.next - 1].spec_end().spec_le(selections[s.next].spec_start()));
    }
    if from == to {
        let place = spec_event_place(events[to]);
        let rect = spec_row_rect(metrics, active.start_x as int, place);
        assert(rows =~= seq![rect]);
        let drawn = s.memory.spec_after_draw(rect);
        assert(spec_draw_all(drawn, rows, 1) == drawn.spec_flush(None));
        assert(spec_draw_all(s.memory, rows, 0) == s.memory.spec_flush(Some(rect))
            + drawn.spec_flush(None));
        assert(after.spec_run(metrics, selections, events, to + 1, to + 1) == after);
        assert(after.rects =~= s.rects + spec_draw_all(s.memory, rows, 0));
    } else {
        match events[from] {
            Event::Boundary { cursor, place } => {
                assert(cursor.spec_lt(selection.spec_end()));
                assert(after == s);
                lemma_open_selection_rows(metrics, selections, events, s, from + 1, to);
            },
            Event::RowBreak { place, next_x } => {
                let rest = spec_row_rects(metrics, next_x as int, events, from + 1, to);
                lemma_open_selection_rows(metrics, selections, events, after, from + 1, to);
                lemma_draw_all_skip(after.memory, rows, 1);
                assert(rows.skip(1) =~= rest);
                assert(s.spec_run(metrics, selections, events, from, to + 1).rects =~= s.rects
                    + spec_draw_all(s.memory, rows, 0));
            },
            Event::LineEnd { place } => {
                let rest = spec_row_rects(metrics, 0, events, from + 1, to);
                lemma_open_selection_rows(metrics, selections, events, after, from + 1, to);
                lemma_draw_all_skip(after.memory, rows, 1);
                assert(rows.skip(1) =~= rest);
                assert(s.spec_run(metrics, selections, events, from, to + 1).rects =~= s.rects
                    + spec_draw_all(s.memory, rows, 0));
            },
        }
    }
}

/// A non-empty selection that starts at the boundary `start` and ends at the boundary `end`,
/// with only boundaries strictly inside it in between, is drawn as exactly one shape: one
/// rectangle for each row it crosses, joined with its neighbours. The first rectangle begins
/// at the x of `start`, the last one ends at the x of `end`. A selection within one row is
/// therefore one rectangle, from the x of its start to the x of its end.
pub proof fn lemma_selection_rectangles(
    metrics: Metrics,
    selections: Seq<Selection>,
    events: Seq<Event>,
    s: LayerState,
    start: int,
    end: int,
)
    requires
        spec_sorted(selections),
        s.wf(selections),
        s.active is None,
        s.next < selections.len(),
        !selections[s.next].spec_is_empty(),
        0 <= start < end < events.len(),
        events[start] matches Event::Boundary { cursor, .. } && cursor
            == selections[s.next].spec_start(),
        events[end] matches Event::Boundary { cursor, .. } && cursor
            == selections[s.next].spec_end(),
        forall|k: int|
            start < k < end ==> ((#[trigger] events[k]) matches Event::Boundary { cursor, .. }
                ==> cursor.spec_lt(selections[s.next].spec_end())),
    ensures
        s.spec_run(metrics, selections, events, start, end + 1).rects == s.rects + spec_shape(
            spec_row_rects(
                metrics,
                spec_event_place(events[start]).x as int,
                events,
                start + 1,
                end,
            ),
        ),
        spec_row_rects(
            metrics,
            spec_event_place(events[start]).x as int,
            events,
            start + 1,
            end,
        ).len() == spec_break_count(events, start + 1, end) + 1,
        spec_break_count(events, start + 1, end) == 0 ==> spec_row_rects(
            metrics,
            spec_event_place(events[start]).x as int,
            events,
            start + 1,
            end,
        ) == seq![
            spec_row_rect(
                metrics,
                spec_event_place(events[start]).x as int,
                spec_event_place(events[end]),
            ),
        ],
{
    let selection = selections[s.next];
    let place = spec_event_place(events[start]);
    let opened = s.spec_step(metrics, selections, events[start]);
    crate::text::lemma_selection_ordered(selection);
    assert(opened.active == Some(ActiveSelection { selection, start_x: place.x }));
    assert(opened.rects == s.rects);
    assert(opened.memory == DrawSelection::spec_idle());
    lemma_open_selection_rows(metrics, selections, events, opened, start + 1, end);
    let rows = spec_row_rects(metrics, place.x as int, events, start + 1, end);
    lemma_draw_all_is_shape(rows);
    if spec_break_count(events, start + 1, end) == 0 {
        lemma_no_break_one_row(metrics, place.x as int, events, start + 1, end);
    }
}

/// Without a row break or line end on the way there is one rectangle, from `start_x` to the
/// event `to`.
proof fn lemma_no_break_one_row(
    metrics: Metrics,
    start_x: int,
    events: Seq<Event>,
    from: int,
    to: int,
)
    requires
        0 <= from <= to < events.len(),
        spec_break_count(events, from, to) == 0,
    ensures
        spec_row_rects(metrics, start_x, events, from, to) == seq![
            spec_row_rect(metrics, start_x, spec_event_place(events[to])),
        ],
    decreases to - from,
{
    if from < to {
        lemma_no_break_one_row(metrics, start_x, events, from + 1, to);
    }
}

/// In a walk whose boundaries come in order, as those of the visible lines do, a non-empty
/// selection that starts at the boundary `start` and ends at the boundary `end` is drawn as
/// exactly one shape: one rectangle for each row it crosses. A selection within one row
/// is one rectangle, from the x of its start to the x of its end.
pub proof fn lemma_selection_rectangles_in_walk(
    metrics: Metrics,
    selections: Seq<Selection>,
    events: Seq<Event>,
    s: LayerState,
    start: int,
    end: int,
)
    requires
        spec_sorted(selections),
        spec_boundaries_increase(events),
        s.wf(selections),
        s.active is None,
        s.next < selections.len(),
        !selections[s.next].spec_is_empty(),
        0 <= start < end < events.len(),
        events[start] matches Event::Boundary { cursor, .. } && cursor
            == selections[s.next].spec_start(),
        events[end] matches Event::Boundary { cursor, .. } && cursor
            == selections[s.next].spec_end(),
    ensures
        s.spec_run(metrics, selections, events, start, end + 1).rects == s.rects + spec_shape(
            spec_row_rects(
                metrics,
                spec_event_place(events[start]).x as int,
                events,
                start + 1,
                end,
            ),
        ),
        spec_row_rects(
            metrics,
            spec_event_place(events[start]).x as int,
            events,
            start + 1,
            end,
        ).len() == spec_break_count(events, start + 1, end) + 1,
        spec_break_count(events, start + 1, end) == 0 ==> spec_row_rects(
            metrics,
            spec_event_place(events[start]).x as int,
            events,
            start + 1,
            end,
        ) == seq![
            spec_row_rect(
                metrics,
                spec_event_place(events[start]).x as int,
                spec_event_place(events[end]),
            ),
        ],
{
    assert forall|k: int| start < k < end implies ((
    #[trigger] events[k]) matches Event::Boundary { cursor, .. } ==> cursor.spec_lt(
        selections[s.next].spec_end(),
    )) by {
        let last = events[end];
        assert(last is Boundary);
    }
    lemma_selection_rectangles(metrics, selections, events, s, start, end);
}

} // verus!
