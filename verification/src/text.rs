//! Document positions, selections, and the splitting of UTF-8 text into
//! grapheme clusters with their display widths.

use vstd::prelude::*;

verus! {

/// A location between two bytes of a line, or at its start or end.
#[derive(Clone, Copy, Debug, PartialEq, Eq, Structural)]
pub struct Position {
    pub line_index: usize,
    pub byte_index: usize,
}

/// Which of the two visual places of one byte offset is meant.
///
/// A walk along a line reports every offset between two graphemes twice: first with `Before`,
/// at the right edge of the grapheme just passed, then with `After`, at the left edge of the
/// grapheme that follows. The two places differ when a wrap or an inlay lies between them.
/// The start of a line is a `Before` boundary, its end an `After` boundary.
#[derive(Clone, Copy, Debug, PartialEq, Eq, Structural)]
pub enum Affinity {
    Before,
    After,
}

/// One end of a selection: a position and the side it binds to.
#[derive(Clone, Copy, Debug, PartialEq, Eq, Structural)]
pub struct Cursor {
    pub position: Position,
    pub affinity: Affinity,
}

/// A selection reaches from its anchor to its cursor; the cursor is the end that moves.
#[derive(Clone, Copy, Debug, PartialEq, Eq, Structural)]
pub struct Selection {
    pub anchor: Cursor,
    pub cursor: Cursor,
}

impl Affinity {
    /// `Before` comes first.
    pub open spec fn spec_rank(self) -> int {
        match self {
            Affinity::Before => 0,
            Affinity::After => 1,
        }
    }
}

impl Position {
    /// Document order: by line, then by byte.
    pub open spec fn spec_lt(self, other: Position) -> bool {
        self.line_index < other.line_index || (self.line_index == other.line_index
            && self.byte_index < other.byte_index)
    }

    /// Document order: by line, then by byte.
    pub fn lt(&self, other: &Position) -> (r: bool)
        ensures
            r == self.spec_lt(*other),
    {
        self.line_index < other.line_index || (self.line_index == other.line_index
            && self.byte_index < other.byte_index)
    }
}

impl Cursor {
    /// Walk order: by position, and at one position `Before` first.
    pub open spec fn spec_lt(self, other: Cursor) -> bool {
        self.position.spec_lt(other.position) || (self.position == other.position
            && self.affinity.spec_rank() < other.affinity.spec_rank())
    }

    pub open spec fn spec_le(self, other: Cursor) -> bool {
        self == other || self.spec_lt(other)
    }

    /// Walk order: by position, and at one position `Before` first.
    pub fn lt(&self, other: &Cursor) -> (r: bool)
        ensures
            r == self.spec_lt(*other),
    {
        self.position.lt(&other.position) || (self.position == other.position && self.affinity
            == Affinity::Before && other.affinity == Affinity::After)
    }

    /// Whether this cursor sits at `position` on the side `affinity`.
    pub fn is_at(&self, position: Position, affinity: Affinity) -> (r: bool)
        ensures
            r == (self.position == position && self.affinity == affinity),
    {
        self.position == position && self.affinity == affinity
    }
}

impl Selection {
    /// The earlier of anchor and cursor.
    pub open spec fn spec_start(self) -> Cursor {
        if self.cursor.spec_lt(self.anchor) {
            self.cursor
        } else {
            self.anchor
        }
    }

    /// The later of anchor and cursor.
    pub open spec fn spec_end(self) -> Cursor {
        if self.cursor.spec_lt(self.anchor) {
            self.anchor
        } else {
            self.cursor
        }
    }

    pub open spec fn spec_is_empty(self) -> bool {
        self.anchor == self.cursor
    }

    /// A selection is empty when anchor and cursor coincide: a bare caret.
    pub fn is_empty(&self) -> (r: bool)
        ensures
            r == self.spec_is_empty(),
    {
        self.anchor == self.cursor
    }

    /// The earlier end, with its affinity.
    pub fn start_cursor(&self) -> (c: Cursor)
        ensures
            c == self.spec_start(),
    {
        if self.cursor.lt(&self.anchor) {
            self.cursor
        } else {
            self.anchor
        }
    }

    /// The later end, with its affinity.
    pub fn end_cursor(&self) -> (c: Cursor)
        ensures
            c == self.spec_end(),
    {
        if self.cursor.lt(&self.anchor) {
            self.anchor
        } else {
            self.cursor
        }
    }

    /// Position of the earlier end.
    pub fn start(&self) -> (p: Position)
        ensures
            p == self.spec_start().position,
    {
        self.start_cursor().position
    }

    /// Affinity of the earlier end.
    pub fn start_affinity(&self) -> (a: Affinity)
        ensures
            a == self.spec_start().affinity,
    {
        self.start_cursor().affinity
    }

    /// Position of the later end.
    pub fn end(&self) -> (p: Position)
        ensures
            p == self.spec_end().position,
    {
        self.end_cursor().position
    }

    /// Affinity of the later end.
    pub fn end_affinity(&self) -> (a: Affinity)
        ensures
            a == self.spec_end().affinity,
    {
        self.end_cursor().affinity
    }
}

/// The start of a selection never lies after its end, and the two coincide exactly for an
/// empty selection.
pub proof fn lemma_selection_ordered(s: Selection)
    ensures
        s.spec_start().spec_le(s.spec_end()),
        s.spec_is_empty() <==> s.spec_start() == s.spec_end(),
{
}

/// A byte of the form `10xxxxxx`, which continues a UTF-8 sequence.
pub open spec fn spec_is_continuation(b: u8) -> bool {
    0x80 <= b < 0xC0
}

/// Number of continuation bytes of `text` in a row from offset `i` on.
pub open spec fn spec_continuation_run(text: Seq<u8>, i: int) -> nat
    decreases text.len() - i,
{
    if 0 <= i < text.len() && spec_is_continuation(text[i]) {
        1 + spec_continuation_run(text, i + 1)
    } else {
        0
    }
}

/// Byte length of the grapheme that starts at offset `start`: the byte there and every
/// continuation byte that follows it directly. Defined for any bytes, well-formed or not.
pub open spec fn spec_grapheme_len(text: Seq<u8>, start: int) -> int {
    1 + (spec_continuation_run(text, start + 1) as int)
}

/// The code point that a grapheme of `len` bytes at `start` encodes, where the bytes have the
/// shape of a UTF-8 sequence of two to four bytes; otherwise the value of the leading byte.
pub open spec fn spec_code_point(text: Seq<u8>, start: int, len: int) -> int {
    let b0 = text[start] as int;
    if len == 2 && 0xC0 <= b0 < 0xE0 {
        (b0 - 0xC0) * 0x40 + (text[start + 1] - 0x80)
    } else if len == 3 && 0xE0 <= b0 < 0xF0 {
        (b0 - 0xE0) * 0x1000 + (text[start + 1] - 0x80) * 0x40 + (text[start + 2] - 0x80)
    } else if len == 4 && 0xF0 <= b0 < 0xF8 {
        (b0 - 0xF0) * 0x4_0000 + (text[start + 1] - 0x80) * 0x1000 + (text[start + 2] - 0x80)
            * 0x40 + (text[start + 3] - 0x80)
    } else {
        b0
    }
}

/// Code points drawn two columns wide: the East Asian wide and fullwidth blocks and the
/// common emoji blocks.
pub open spec fn spec_is_wide(cp: int) -> bool {
    ||| 0x1100 <= cp <= 0x115F
    ||| (0x2E80 <= cp <= 0xA4CF && cp != 0x303F)
    ||| 0xAC00 <= cp <= 0xD7A3
    ||| 0xF900 <= cp <= 0xFAFF
    ||| 0xFE30 <= cp <= 0xFE6F
    ||| 0xFF00 <= cp <= 0xFF60
    ||| 0xFFE0 <= cp <= 0xFFE6
    ||| 0x1F300 <= cp <= 0x1F64F
    ||| 0x1F900 <= cp <= 0x1F9FF
    ||| 0x20000 <= cp <= 0x3FFFD
}

/// Display width, in columns, of the grapheme of `len` bytes at `start`.
pub open spec fn spec_grapheme_width(text: Seq<u8>, start: int, len: int) -> nat {
    if spec_is_wide(spec_code_point(text, start, len)) {
        2
    } else {
        1
    }
}

/// Display width of `text` from offset `pos` on: the widths of its graphemes added up.
pub open spec fn spec_column_count(text: Seq<u8>, pos: int) -> nat
    decreases text.len() - pos,
{
    if 0 <= pos < text.len() {
        let len = spec_grapheme_len(text, pos);
        proof {
            lemma_grapheme_len_bound(text, pos);
        }
        spec_grapheme_width(text, pos, len) + spec_column_count(text, pos + len)
    } else {
        0
    }
}

/// A run of continuation bytes ends inside the text.
proof fn lemma_continuation_run_bound(text: Seq<u8>, i: int)
    requires
        0 <= i <= text.len(),
    ensures
        i + spec_continuation_run(text, i) <= text.len(),
    decreases text.len() - i,
{
    if i < text.len() && spec_is_continuation(text[i]) {
        lemma_continuation_run_bound(text, i + 1);
    }
}

/// A grapheme has at least one byte and ends inside the text.
pub proof fn lemma_grapheme_len_bound(text: Seq<u8>, start: int)
    requires
        0 <= start < text.len(),
    ensures
        1 <= spec_grapheme_len(text, start),
        start + spec_grapheme_len(text, start) <= text.len(),
{
    lemma_continuation_run_bound(text, start + 1);
}

/// A text is at most two columns wide per byte.
pub(crate) proof fn lemma_column_count_bound(text: Seq<u8>, pos: int)
    requires
        0 <= pos <= text.len(),
    ensures
        spec_column_count(text, pos) <= 2 * (text.len() - pos),
    decreases text.len() - pos,
{
    if pos < text.len() {
        lemma_grapheme_len_bound(text, pos);
        lemma_column_count_bound(text, pos + spec_grapheme_len(text, pos));
    }
}

/// Whether `b` continues a UTF-8 sequence.
pub fn is_continuation(b: u8) -> (r: bool)
    ensures
        r == spec_is_continuation(b),
{
    0x80 <= b && b < 0xC0
}

/// Byte length of the grapheme that starts at offset `start`.
pub fn grapheme_len(text: &[u8], start: usize) -> (len: usize)
    requires
        start < text@.len(),
    ensures
        len == spec_grapheme_len(text@, start as int),
        1 <= len,
        start + len <= text@.len(),
{
    let n = text.len();
    let mut end: usize = start + 1;
    proof {
        lemma_grapheme_len_bound(text@, start as int);
    }
    while end < n && is_continuation(text[end])
        invariant
            n == text@.len(),
            start < end <= text@.len(),
            end + spec_continuation_run(text@, end as int) == start + spec_grapheme_len(
                text@,
                start as int,
            ),
        decreases text@.len() - end,
    {
        end = end + 1;
    }
    end - start
}

/// Whether the code point `cp` is drawn two columns wide.
pub fn is_wide(cp: u32) -> (r: bool)
    ensures
        r == spec_is_wide(cp as int),
{
    (0x1100 <= cp && cp <= 0x115F) || (0x2E80 <= cp && cp <= 0xA4CF && cp != 0x303F) || (0xAC00
        <= cp && cp <= 0xD7A3) || (0xF900 <= cp && cp <= 0xFAFF) || (0xFE30 <= cp && cp <= 0xFE6F)
        || (0xFF00 <= cp && cp <= 0xFF60) || (0xFFE0 <= cp && cp <= 0xFFE6) || (0x1F300 <= cp
        && cp <= 0x1F64F) || (0x1F900 <= cp && cp <= 0x1F9FF) || (0x20000 <= cp && cp <= 0x3FFFD)
}

/// The code point of the grapheme of `len` bytes at `start`.
pub fn code_point(text: &[u8], start: usize, len: usize) -> (cp: u32)
    requires
        start < text@.len(),
        len == spec_grapheme_len(text@, start as int),
    ensures
        cp == spec_code_point(text@, start as int, len as int),
{
    proof {
        lemma_grapheme_len_bound(text@, start as int);
        lemma_grapheme_tail_is_continuation(text@, start as int, len as int);
    }
    let b0: u32 = text[start] as u32;
    if len == 2 && 0xC0 <= b0 && b0 < 0xE0 {
        let b1: u32 = text[start + 1] as u32;
        assert(spec_is_continuation(text@[start + 1]));
        (b0 - 0xC0) * 0x40 + (b1 - 0x80)
    } else if len == 3 && 0xE0 <= b0 && b0 < 0xF0 {
        let b1: u32 = text[start + 1] as u32;
        let b2: u32 = text[start + 2] as u32;
        assert(spec_is_continuation(text@[start + 1]));
        assert(spec_is_continuation(text@[start + 2]));
        (b0 - 0xE0) * 0x1000 + (b1 - 0x80) * 0x40 + (b2 - 0x80)
    } else if len == 4 && 0xF0 <= b0 && b0 < 0xF8 {
        let b1: u32 = text[start + 1] as u32;
        let b2: u32 = text[start + 2] as u32;
        let b3: u32 = text[start + 3] as u32;
        assert(spec_is_continuation(text@[start + 1]));
        assert(spec_is_continuation(text@[start + 2]));
        assert(spec_is_continuation(text@[start + 3]));
        (b0 - 0xF0) * 0x4_0000 + (b1 - 0x80) * 0x1000 + (b2 - 0x80) * 0x40 + (b3 - 0x80)
    } else {
        b0
    }
}

/// Every byte of a grapheme after its first is a continuation byte.
proof fn lemma_grapheme_tail_is_continuation(text: Seq<u8>, start: int, len: int)
    requires
        0 <= start < text.len(),
        len == spec_grapheme_len(text, start),
    ensures
        forall|k: int| start < k < start + len ==> spec_is_continuation(#[trigger] text[k]),
{
    assert forall|k: int| start < k < start + len implies spec_is_continuation(
        #[trigger] text[k],
    ) by {
        lemma_run_is_continuation(text, start + 1, k);
    }
}

/// Every byte inside a run of continuation bytes is one.
proof fn lemma_run_is_continuation(text: Seq<u8>, i: int, k: int)
    requires
        0 <= i <= k < i + spec_continuation_run(text, i),
    ensures
        k < text.len(),
        spec_is_continuation(text[k]),
    decreases k - i,
{
    if i < k {
        lemma_run_is_continuation(text, i + 1, k);
    }
}

/// Display width, in columns, of the grapheme of `len` bytes at `start`.
pub fn grapheme_width(text: &[u8], start: usize, len: usize) -> (w: usize)
    requires
        start < text@.len(),
        len == spec_grapheme_len(text@, start as int),
    ensures
        w == spec_grapheme_width(text@, start as int, len as int),
        1 <= w <= 2,
{
    if is_wide(code_point(text, start, len)) {
        2
    } else {
        1
    }
}

/// Display width of `text`: the widths of its graphemes added up.
pub fn column_count(text: &[u8]) -> (n: usize)
    requires
        2 * text@.len() <= usize::MAX,
    ensures
        n == spec_column_count(text@, 0),
{
    let mut pos: usize = 0;
    let mut n: usize = 0;
    proof {
        lemma_column_count_bound(text@, 0);
    }
    while pos < text.len()
        invariant
            pos <= text@.len(),
            n + spec_column_count(text@, pos as int) == spec_column_count(text@, 0),
            spec_column_count(text@, 0) <= 2 * text@.len() <= usize::MAX,
        decreases text@.len() - pos,
    {
        let len = grapheme_len(text, pos);
        let w = grapheme_width(text, pos, len);
        n = n + w;
        pos = pos + len;
    }
    n
}

} // verus!
