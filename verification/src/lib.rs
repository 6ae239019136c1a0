//! Viewport rendering and hit testing for a code editing widget, and the
//! platform context that widgets talk to.
//!
//! Given a laid-out document (lines, their wrapped elements, tokens and
//! selections) the library computes, as plain values, what has to be drawn:
//! gutter numbers, coloured glyph runs, indent guides, joined selection
//! rectangles and carets. It also maps a pointer coordinate back to a
//! document position, and decides what an input event does to the editing
//! session. All geometry is integer fixed point, so every result is exact.
//!
//! The modules, leaves first:
//!
//! - `geometry`, `text`, `token`: units, positions and selections, graphemes,
//!   and the partition of text by tokens.
//! - `line`, `walk`, `layout`: one laid-out line, the walk over its cells, and
//!   the vertical flow of the document.
//! - `gutter`, `text_layer`, `indent`: three of the four drawing passes.
//! - `events`, `join`, `selection`: the fourth, the selection renderer.
//! - `pick`: hit testing.
//! - `editor`, `input`: the widget's geometry and its reaction to input.
//! - `platform`, `media`: the platform context and its MIDI signals.
//!
//! Everything is verified with Verus except one message that is put together
//! by the formatting of the standard library.

pub mod geometry;
pub mod text;
pub mod token;
pub mod line;
pub mod walk;
pub mod layout;
pub mod pick;
pub mod join;
pub mod events;
pub mod selection;
pub mod text_layer;
pub mod gutter;
pub mod indent;
pub mod editor;
pub mod platform;
pub mod input;
pub mod media;
