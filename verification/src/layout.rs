//! The vertical flow of a document: lines, the inlay blocks between them, and
//! the search for the lines that a vertical range touches.

use crate::geometry::MAX_DOCUMENT_HEIGHT;
use crate::line::Line;
use vstd::prelude::*;

verus! {

/// A block laid out between lines that is no line of the document.
pub enum BlockInlay {
    /// A synthetic line, such as the summary of a collapsed fold. It holds no position that
    /// can be selected.
    Line(Line),
    /// An embedded widget of the given height, in normalized units.
    Widget { height: u64 },
}

/// A line of the document together with the inlay blocks laid out directly above it.
pub struct LineEntry {
    /// Normalized y of the top of the first of these blocks.
    pub y: u64,
    /// The inlay blocks above the line, top to bottom.
    pub inlays: Vec<BlockInlay>,
    pub line: Line,
}

/// The laid-out document.
pub struct Layout {
    pub entries: Vec<LineEntry>,
}

/// One vertical slot of the visible flow.
pub enum BlockElement<'a> {
    Line { is_inlay: bool, line: &'a Line },
    Widget { height: u64 },
}

impl BlockInlay {
    pub open spec fn wf(&self) -> bool {
        match self {
            BlockInlay::Line(line) => line.wf(),
            BlockInlay::Widget { height } => *height <= MAX_DOCUMENT_HEIGHT,
        }
    }

    /// Height of the block, in normalized units.
    pub open spec fn spec_height(&self) -> nat {
        match self {
            BlockInlay::Line(line) => line.spec_height(),
            BlockInlay::Widget { height } => *height as nat,
        }
    }
}

impl<'a> BlockElement<'a> {
    pub open spec fn wf(&self) -> bool {
        match self {
            BlockElement::Line { line, .. } => line.wf(),
            BlockElement::Widget { height } => *height <= MAX_DOCUMENT_HEIGHT,
        }
    }

    /// Height of the block, in normalized units.
    pub open spec fn spec_height(&self) -> nat {
        match self {
            BlockElement::Line { line, .. } => line.spec_height(),
            BlockElement::Widget { height } => *height as nat,
        }
    }

    /// Height of the block, in normalized units.
    pub fn height(&self) -> (h: u64)
        requires
            self.wf(),
        ensures
            h == self.spec_height(),
            h <= MAX_DOCUMENT_HEIGHT,
    {
        match self {
            BlockElement::Line { line, .. } => line.height(),
            BlockElement::Widget { height } => *height,
        }
    }
}

/// Height of the inlay blocks from index `from` on.
pub open spec fn spec_inlays_height(inlays: Seq<BlockInlay>, from: int) -> nat
    decreases inlays.len() - from,
{
    if 0 <= from < inlays.len() {
        inlays[from].spec_height() + spec_inlays_height(inlays, from + 1)
    } else {
        0
    }
}

/// Height of the blocks from index `from` on.
pub open spec fn spec_blocks_height<'a>(blocks: Seq<BlockElement<'a>>, from: int) -> nat
    decreases blocks.len() - from,
{
    if 0 <= from < blocks.len() {
        blocks[from].spec_height() + spec_blocks_height(blocks, from + 1)
    } else {
        0
    }
}

/// The block that stands for `inlay` in the flow.
pub open spec fn spec_inlay_block<'a>(inlay: &'a BlockInlay) -> BlockElement<'a> {
    match inlay {
        BlockInlay::Line(line) => BlockElement::Line { is_inlay: true, line },
        BlockInlay::Widget { height } => BlockElement::Widget { height: *height },
    }
}

/// The blocks of the inlays from index `from` on.
pub open spec fn spec_inlay_blocks<'a>(inlays: Seq<BlockInlay>, from: int) -> Seq<BlockElement<'a>>
    decreases inlays.len() - from,
{
    if 0 <= from < inlays.len() {
        seq![spec_inlay_block(&inlays[from])] + spec_inlay_blocks(inlays, from + 1)
    } else {
        Seq::empty()
    }
}

impl LineEntry {
    /// The blocks of the entry, top to bottom: its inlays, then its line.
    pub open spec fn spec_blocks<'a>(&'a self) -> Seq<BlockElement<'a>> {
        spec_inlay_blocks(self.inlays@, 0) + seq![
            BlockElement::Line { is_inlay: false, line: &self.line },
        ]
    }

    /// Height of the entry's blocks together.
    pub open spec fn spec_height(&self) -> nat {
        spec_inlays_height(self.inlays@, 0) + self.line.spec_height()
    }

    /// Normalized y just below the entry's line.
    pub open spec fn spec_end(&self) -> nat {
        self.y as nat + self.spec_height()
    }

    pub open spec fn wf(&self) -> bool {
        &&& self.line.wf()
        &&& forall|j: int| 0 <= j < self.inlays@.len() ==> (#[trigger] self.inlays@[j]).wf()
        &&& self.spec_end() <= MAX_DOCUMENT_HEIGHT
    }
}

/// The blocks of the entries `[start, end)`, top to bottom.
pub open spec fn spec_entry_blocks<'a>(entries: Seq<LineEntry>, start: int, end: int) -> Seq<
    BlockElement<'a>,
>
    decreases end - start,
{
    if 0 <= start < end <= entries.len() {
        entries[start].spec_blocks() + spec_entry_blocks(entries, start + 1, end)
    } else {
        Seq::empty()
    }
}

impl Layout {
    /// Every entry is well formed and the entries lie back to back: each begins where the one
    /// before it ends.
    pub open spec fn wf(&self) -> bool {
        &&& forall|k: int| 0 <= k < self.entries@.len() ==> (#[trigger] self.entries@[k]).wf()
        &&& forall|k: int|
            0 <= k < self.entries@.len() - 1 ==> (#[trigger] self.entries@[k + 1]).y
                == self.entries@[k].spec_end()
    }

    pub open spec fn spec_line_count(&self) -> nat {
        self.entries@.len()
    }

    /// The blocks of the lines `[start, end)` with their inlays, top to bottom.
    pub open spec fn spec_block_elements<'a>(&'a self, start: int, end: int) -> Seq<BlockElement<'a>> {
        spec_entry_blocks(self.entries@, start, end)
    }

    /// Index of the first line whose blocks end strictly below `y`, or of the last line if
    /// none does; 0 for a document without lines.
    pub open spec fn spec_first_line_ending_after(&self, y: int) -> int {
        spec_first_ending_after(self.entries@, y, 0)
    }

    /// Index of the first line whose blocks start strictly below `y`, or the number of lines
    /// if none does.
    pub open spec fn spec_first_line_starting_after(&self, y: int) -> int {
        spec_first_starting_after(self.entries@, y, 0)
    }

    /// Number of lines.
    pub fn line_count(&self) -> (n: usize)
        ensures
            n == self.spec_line_count(),
    {
        self.entries.len()
    }

    /// The line at `index`.
    pub fn line(&self, index: usize) -> (line: &Line)
        requires
            index < self.spec_line_count(),
        ensures
            *line == self.entries@[index as int].line,
    {
        &self.entries[index].line
    }

    /// Normalized y of the top of the blocks of the line at `index`.
    pub fn line_y(&self, index: usize) -> (y: u64)
        requires
            index < self.spec_line_count(),
        ensures
            y == self.entries@[index as int].y,
    {
        self.entries[index].y
    }
}

/// Index of the first entry at or after `from` that ends strictly below `y`, or of the last
/// entry if none does.
pub open spec fn spec_first_ending_after(entries: Seq<LineEntry>, y: int, from: int) -> int
    decreases entries.len() - from,
{
    if 0 <= from < entries.len() - 1 && entries[from].spec_end() <= y {
        spec_first_ending_after(entries, y, from + 1)
    } else {
        from
    }
}

/// Index of the first entry at or after `from` that starts strictly below `y`, or the number
/// of entries if none does.
pub open spec fn spec_first_starting_after(entries: Seq<LineEntry>, y: int, from: int) -> int
    decreases entries.len() - from,
{
    if 0 <= from < entries.len() && entries[from].y <= y {
        spec_first_starting_after(entries, y, from + 1)
    } else {
        from
    }
}

/// In a well-formed layout the entries are sorted: a later entry neither starts nor ends
/// above an earlier one, and starts no higher than an earlier one ends.
pub proof fn lemma_flow_sorted(layout: &Layout, i: int, j: int)
    requires
        layout.wf(),
        0 <= i <= j < layout.entries@.len(),
    ensures
        layout.entries@[i].y <= layout.entries@[j].y,
        layout.entries@[i].spec_end() <= layout.entries@[j].spec_end(),
        i < j ==> layout.entries@[i].spec_end() <= layout.entries@[j].y,
    decreases j - i,
{
    if i < j {
        lemma_flow_sorted(layout, i, j - 1);
        assert(layout.entries@[(j - 1) + 1].y == layout.entries@[j - 1].spec_end());
    }
}

/// `r` is the first entry at or after `from` that ends strictly below `y` (or the last entry)
/// as soon as every entry from `from` up to `r` ends at or above `y` and `r` itself does not,
/// or is the last.
pub proof fn lemma_first_ending_after(entries: Seq<LineEntry>, y: int, from: int, r: int)
    requires
        0 <= from <= r,
        r < entries.len() || (entries.len() == 0 && r == 0),
        forall|k: int| from <= k < r ==> (#[trigger] entries[k]).spec_end() <= y,
        r >= entries.len() - 1 || entries[r].spec_end() > y,
    ensures
        spec_first_ending_after(entries, y, from) == r,
    decreases r - from,
{
    if from < r {
        assert(entries[from].spec_end() <= y);
        lemma_first_ending_after(entries, y, from + 1, r);
    }
}

/// `r` is the first entry at or after `from` that starts strictly below `y` (or the number of
/// entries) as soon as every entry from `from` up to `r` starts at or above `y` and `r`
/// itself does not, or is the number of entries.
pub proof fn lemma_first_starting_after(entries: Seq<LineEntry>, y: int, from: int, r: int)
    requires
        0 <= from <= r <= entries.len(),
        forall|k: int| from <= k < r ==> (#[trigger] entries[k]).y <= y,
        r == entries.len() || entries[r].y > y,
    ensures
        spec_first_starting_after(entries, y, from) == r,
    decreases r - from,
{
    if from < r {
        assert(entries[from].y <= y);
        lemma_first_starting_after(entries, y, from + 1, r);
    }
}

/// The blocks of a range of entries are as high as the entries of the range together, which
/// in a well-formed layout is the distance from the top of the first to the end of the last.
pub(crate) proof fn lemma_blocks_height(layout: &Layout, start: int, end: int)
    requires
        layout.wf(),
        0 <= start < end <= layout.entries@.len(),
    ensures
        layout.entries@[start].y + spec_blocks_height(
            spec_entry_blocks(layout.entries@, start, end),
            0,
        ) == layout.entries@[end - 1].spec_end(),
    decreases end - start,
{
    let entries = layout.entries@;
    let head = entries[start].spec_blocks();
    let tail = spec_entry_blocks(entries, start + 1, end);
    lemma_entry_blocks_height(entries[start]);
    lemma_blocks_height_concat(head, tail, 0);
    if start + 1 < end {
        lemma_blocks_height(layout, start + 1, end);
        assert(entries[start + 1].y == entries[start].spec_end());
    } else {
        assert(tail =~= Seq::empty());
    }
}

/// The blocks of an entry are as high as its inlays and its line together.
proof fn lemma_entry_blocks_height(entry: LineEntry)
    ensures
        spec_blocks_height(entry.spec_blocks(), 0) == entry.spec_height(),
{
    let inlay_blocks = spec_inlay_blocks(entry.inlays@, 0);
    let last = seq![BlockElement::Line { is_inlay: false, line: &entry.line }];
    lemma_blocks_height_concat(inlay_blocks, last, 0);
    lemma_inlay_blocks_height(entry.inlays@, 0);
    assert(spec_blocks_height(last, 1) == 0);
    assert(spec_blocks_height(last, 0) == entry.line.spec_height());
}

/// Inlays and the blocks that stand for them are equally high.
proof fn lemma_inlay_blocks_height(inlays: Seq<BlockInlay>, from: int)
    requires
        0 <= from <= inlays.len(),
    ensures
        spec_blocks_height(spec_inlay_blocks(inlays, from), 0) == spec_inlays_height(inlays, from),
        spec_inlay_blocks(inlays, from).len() == inlays.len() - from,
    decreases inlays.len() - from,
{
    if from < inlays.len() {
        lemma_inlay_blocks_height(inlays, from + 1);
        lemma_blocks_height_concat(
            seq![spec_inlay_block(&inlays[from])],
            spec_inlay_blocks(inlays, from + 1),
            0,
        );
        let one = seq![spec_inlay_block(&inlays[from])];
        assert(spec_blocks_height(one, 1) == 0);
        assert(spec_blocks_height(one, 0) == inlays[from].spec_height());
    } else {
        assert(spec_inlay_blocks(inlays, from) =~= Seq::empty());
    }
}

/// The height of two block sequences joined is the sum of their heights.
proof fn lemma_blocks_height_concat<'a>(
    a: Seq<BlockElement<'a>>,
    b: Seq<BlockElement<'a>>,
    from: int,
)
    requires
        0 <= from <= a.len(),
    ensures
        spec_blocks_height(a + b, from) == spec_blocks_height(a, from) + spec_blocks_height(b, 0),
    decreases a.len() - from,
{
    if from < a.len() {
        lemma_blocks_height_concat(a, b, from + 1);
        assert((a + b)[from] == a[from]);
    } else {
        lemma_blocks_height_shift(a, b, 0);
    }
}

/// Joining a sequence in front shifts the indices of the blocks behind it.
proof fn lemma_blocks_height_shift<'a>(
    a: Seq<BlockElement<'a>>,
    b: Seq<BlockElement<'a>>,
    k: int,
)
    requires
        0 <= k <= b.len(),
    ensures
        spec_blocks_height(a + b, a.len() + k) == spec_blocks_height(b, k),
    decreases b.len() - k,
{
    if k < b.len() {
        lemma_blocks_height_shift(a, b, k + 1);
        assert((a + b)[a.len() + k] == b[k]);
    }
}

impl BlockInlay {
    /// Whether the block is well formed.
    pub fn is_valid(&self) -> (ok: bool)
        ensures
            ok == self.wf(),
    {
        match self {
            BlockInlay::Line(line) => line.is_valid(),
            BlockInlay::Widget { height } => *height <= MAX_DOCUMENT_HEIGHT,
        }
    }

    /// Height of the block, in normalized units.
    pub fn height(&self) -> (h: u64)
        requires
            self.wf(),
        ensures
            h == self.spec_height(),
            h <= MAX_DOCUMENT_HEIGHT,
    {
        match self {
            BlockInlay::Line(line) => line.height(),
            BlockInlay::Widget { height } => *height,
        }
    }

    /// The block that stands for this inlay in the flow.
    pub fn as_block(&self) -> (block: BlockElement<'_>)
        ensures
            block == spec_inlay_block(self),
    {
        match self {
            BlockInlay::Line(line) => BlockElement::Line { is_inlay: true, line },
            BlockInlay::Widget { height } => BlockElement::Widget { height: *height },
        }
    }
}

impl LineEntry {
    /// The normalized y just below the entry's line, if the entry is well formed.
    pub fn checked_end(&self) -> (end: Option<u64>)
        ensures
            end is Some <==> self.wf(),
            end is Some ==> end->0 == self.spec_end(),
    {
        if !self.line.is_valid() || self.y > MAX_DOCUMENT_HEIGHT {
            return None;
        }
        let mut end: u64 = self.y + self.line.height();
        if end > MAX_DOCUMENT_HEIGHT {
            return None;
        }
        let mut j: usize = 0;
        while j < self.inlays.len()
            invariant
                j <= self.inlays@.len(),
                self.line.wf(),
                end <= MAX_DOCUMENT_HEIGHT,
                end + spec_inlays_height(self.inlays@, j as int) == self.spec_end(),
                forall|k: int| 0 <= k < j ==> (#[trigger] self.inlays@[k]).wf(),
            decreases self.inlays@.len() - j,
        {
            if !self.inlays[j].is_valid() {
                return None;
            }
            let h = self.inlays[j].height();
            if h > MAX_DOCUMENT_HEIGHT - end {
                return None;
            }
            end = end + h;
            j = j + 1;
        }
        Some(end)
    }

    /// The normalized y just below the entry's line.
    pub fn end(&self) -> (end: u64)
        requires
            self.wf(),
        ensures
            end == self.spec_end(),
            end <= MAX_DOCUMENT_HEIGHT,
    {
        match self.checked_end() {
            Some(end) => end,
            None => 0,
        }
    }
}

impl Layout {
    /// Whether the layout is well formed.
    pub fn is_valid(&self) -> (ok: bool)
        ensures
            ok == self.wf(),
    {
        let n = self.entries.len();
        let mut k: usize = 0;
        while k < n
            invariant
                n == self.entries@.len(),
                k <= n,
                forall|i: int| 0 <= i < k ==> (#[trigger] self.entries@[i]).wf(),
                forall|i: int|
                    0 <= i < k && i < n - 1 ==> (#[trigger] self.entries@[i + 1]).y
                        == self.entries@[i].spec_end(),
            decreases n - k,
        {
            match self.entries[k].checked_end() {
                None => {
                    return false;
                },
                Some(end) => {
                    if k + 1 < n && self.entries[k + 1].y != end {
                        assert(self.entries@[k as int + 1].y != self.entries@[k as int].spec_end());
                        return false;
                    }
                },
            }
            k = k + 1;
        }
        true
    }

    /// Height of the whole document, in normalized units.
    pub fn height(&self) -> (h: u64)
        requires
            self.wf(),
        ensures
            h == (if self.entries@.len() == 0 {
                0
            } else {
                self.entries@[self.entries@.len() - 1].spec_end()
            }),
            h <= MAX_DOCUMENT_HEIGHT,
    {
        let n = self.entries.len();
        if n == 0 {
            0
        } else {
            self.entries[n - 1].end()
        }
    }

    /// Index of the first line whose blocks end strictly below `y`, or of the last line if
    /// none does; 0 for a document without lines.
    pub fn find_first_line_ending_after_y(&self, y: i64) -> (index: usize)
        requires
            self.wf(),
        ensures
            index == self.spec_first_line_ending_after(y as int),
            index < self.entries@.len() || (index == 0 && self.entries@.len() == 0),
    {
        let n = self.entries.len();
        if n == 0 {
            proof {
                lemma_first_ending_after(self.entries@, y as int, 0, 0);
            }
            return 0;
        }
        let mut lo: usize = 0;
        let mut hi: usize = n - 1;
        while lo < hi
            invariant
                self.wf(),
                n == self.entries@.len(),
                lo <= hi < n,
                forall|k: int| 0 <= k < lo ==> (#[trigger] self.entries@[k]).spec_end() <= y,
                hi == n - 1 || self.entries@[hi as int].spec_end() > y,
            decreases hi - lo,
        {
            let mid = lo + (hi - lo) / 2;
            assert(self.entries@[mid as int + 1].y == self.entries@[mid as int].spec_end());
            assert(self.entries@[mid as int + 1].wf());
            if (self.entries[mid + 1].y as i64) > y {
                hi = mid;
            } else {
                assert forall|k: int| 0 <= k < mid + 1 implies (
                #[trigger] self.entries@[k]).spec_end() <= y by {
                    lemma_flow_sorted(self, k, mid as int);
                }
                lo = mid + 1;
            }
        }
        proof {
            lemma_first_ending_after(self.entries@, y as int, 0, lo as int);
        }
        lo
    }

    /// Index of the first line whose blocks start strictly below `y`, or the number of lines
    /// if none does.
    pub fn find_first_line_starting_after_y(&self, y: i64) -> (index: usize)
        requires
            self.wf(),
        ensures
            index == self.spec_first_line_starting_after(y as int),
            index <= self.entries@.len(),
    {
        let n = self.entries.len();
        let mut lo: usize = 0;
        let mut hi: usize = n;
        while lo < hi
            invariant
                self.wf(),
                n == self.entries@.len(),
                lo <= hi <= n,
                forall|k: int| 0 <= k < lo ==> (#[trigger] self.entries@[k]).y <= y,
                hi == n || self.entries@[hi as int].y > y,
            decreases hi - lo,
        {
            let mid = lo + (hi - lo) / 2;
            assert(self.entries@[mid as int].wf());
            if (self.entries[mid].y as i64) > y {
                hi = mid;
            } else {
                assert forall|k: int| 0 <= k < mid + 1 implies (#[trigger] self.entries@[k]).y
                    <= y by {
                    lemma_flow_sorted(self, k, mid as int);
                }
                lo = mid + 1;
            }
        }
        proof {
            lemma_first_starting_after(self.entries@, y as int, 0, lo as int);
        }
        lo
    }

    /// The blocks of the lines `[start, end)` with their inlays, top to bottom. The range is
    /// cut off at the last line; an empty range gives no blocks.
    pub fn block_elements(&self, start: usize, end: usize) -> (blocks: Vec<BlockElement<'_>>)
        ensures
            blocks@ == self.spec_block_elements(
                start as int,
                if end <= self.entries@.len() {
                    end as int
                } else {
                    self.entries@.len() as int
                },
            ),
    {
        let n = self.entries.len();
        let end = if end <= n {
            end
        } else {
            n
        };
        let mut blocks: Vec<BlockElement<'_>> = Vec::new();
        let mut k: usize = start;
        let ghost all = self.spec_block_elements(start as int, end as int);
        while k < end
            invariant
                end <= n == self.entries@.len(),
                start <= k,
                all == blocks@ + spec_entry_blocks(self.entries@, k as int, end as int),
            decreases end - k,
        {
            let entry = &self.entries[k];
            let ghost before = blocks@;
            let mut j: usize = 0;
            while j < entry.inlays.len()
                invariant
                    j <= entry.inlays@.len(),
                    before + spec_inlay_blocks(entry.inlays@, 0) == blocks@ + spec_inlay_blocks(
                        entry.inlays@,
                        j as int,
                    ),
                decreases entry.inlays@.len() - j,
            {
                blocks.push(entry.inlays[j].as_block());
                j = j + 1;
                assert(before + spec_inlay_blocks(entry.inlays@, 0) =~= blocks@
                    + spec_inlay_blocks(entry.inlays@, j as int));
            }
            blocks.push(BlockElement::Line { is_inlay: false, line: &entry.line });
            k = k + 1;
            assert(all =~= blocks@ + spec_entry_blocks(self.entries@, k as int, end as int));
        }
        assert(all =~= blocks@);
        blocks
    }
}

/// Number of lines of the document among the blocks from index `b` on.
pub open spec fn spec_line_blocks<'a>(blocks: Seq<BlockElement<'a>>, b: int) -> nat
    decreases blocks.len() - b,
{
    if 0 <= b < blocks.len() {
        (if blocks[b] matches BlockElement::Line { is_inlay: false, .. } {
            1nat
        } else {
            0nat
        }) + spec_line_blocks(blocks, b + 1)
    } else {
        0
    }
}

/// The number of lines among two block sequences joined is the sum of their numbers.
proof fn lemma_line_blocks_concat<'a>(
    a: Seq<BlockElement<'a>>,
    b: Seq<BlockElement<'a>>,
    from: int,
)
    requires
        0 <= from <= a.len(),
    ensures
        spec_line_blocks(a + b, from) == spec_line_blocks(a, from) + spec_line_blocks(b, 0),
    decreases a.len() - from,
{
    if from < a.len() {
        lemma_line_blocks_concat(a, b, from + 1);
        assert((a + b)[from] == a[from]);
    } else {
        lemma_line_blocks_shift(a, b, 0);
    }
}

/// Joining a sequence in front shifts the indices of the blocks behind it.
proof fn lemma_line_blocks_shift<'a>(
    a: Seq<BlockElement<'a>>,
    b: Seq<BlockElement<'a>>,
    k: int,
)
    requires
        0 <= k <= b.len(),
    ensures
        spec_line_blocks(a + b, a.len() + k) == spec_line_blocks(b, k),
    decreases b.len() - k,
{
    if k < b.len() {
        lemma_line_blocks_shift(a, b, k + 1);
        assert((a + b)[a.len() + k] == b[k]);
    }
}

/// Inlay blocks hold no line of the document.
proof fn lemma_inlay_blocks_hold_no_line(inlays: Seq<BlockInlay>, from: int)
    requires
        0 <= from <= inlays.len(),
    ensures
        spec_line_blocks(spec_inlay_blocks(inlays, from), 0) == 0,
    decreases inlays.len() - from,
{
    if from < inlays.len() {
        lemma_inlay_blocks_hold_no_line(inlays, from + 1);
        let one = seq![spec_inlay_block(&inlays[from])];
        lemma_line_blocks_concat(one, spec_inlay_blocks(inlays, from + 1), 0);
        assert(spec_line_blocks(one, 1) == 0);
    }
}

/// The blocks of a range of entries hold one line of the document for each entry, and every
/// block of a well-formed layout is well formed.
pub(crate) proof fn lemma_entry_blocks(layout: &Layout, start: int, end: int)
    requires
        layout.wf(),
        0 <= start <= end <= layout.entries@.len(),
    ensures
        spec_line_blocks(spec_entry_blocks(layout.entries@, start, end), 0) == end - start,
        forall|b: int|
            0 <= b < spec_entry_blocks(layout.entries@, start, end).len() ==> (
            #[trigger] spec_entry_blocks(layout.entries@, start, end)[b]).wf(),
    decreases end - start,
{
    if start < end {
        let entry = layout.entries@[start];
        let inlay_blocks = spec_inlay_blocks(entry.inlays@, 0);
        let last = seq![BlockElement::Line { is_inlay: false, line: &entry.line }];
        let head = entry.spec_blocks();
        let tail = spec_entry_blocks(layout.entries@, start + 1, end);
        let all = spec_entry_blocks(layout.entries@, start, end);
        lemma_entry_blocks(layout, start + 1, end);
        lemma_line_blocks_concat(head, tail, 0);
        lemma_line_blocks_concat(inlay_blocks, last, 0);
        lemma_inlay_blocks_hold_no_line(entry.inlays@, 0);
        assert(spec_line_blocks(last, 1) == 0);
        assert(entry.wf());
        lemma_inlay_blocks_wf(entry.inlays@, 0);
        assert forall|b: int| 0 <= b < all.len() implies (#[trigger] all[b]).wf() by {
            if b < inlay_blocks.len() {
                assert(all[b] == inlay_blocks[b]);
            } else if b < head.len() {
                assert(all[b] == last[0]);
            } else {
                assert(all[b] == tail[b - head.len()]);
            }
        }
    }
}

/// The blocks of well-formed inlays are well formed.
proof fn lemma_inlay_blocks_wf(inlays: Seq<BlockInlay>, from: int)
    requires
        0 <= from <= inlays.len(),
        forall|j: int| 0 <= j < inlays.len() ==> (#[trigger] inlays[j]).wf(),
    ensures
        forall|b: int|
            0 <= b < spec_inlay_blocks(inlays, from).len() ==> (#[trigger] spec_inlay_blocks(
                inlays,
                from,
            )[b]).wf(),
    decreases inlays.len() - from,
{
    if from < inlays.len() {
        lemma_inlay_blocks_wf(inlays, from + 1);
        let all = spec_inlay_blocks(inlays, from);
        let rest = spec_inlay_blocks(inlays, from + 1);
        assert(inlays[from].wf());
        assert forall|b: int| 0 <= b < all.len() implies (#[trigger] all[b]).wf() by {
            if b > 0 {
                assert(all[b] == rest[b - 1]);
            }
        }
    }
}

/// Width of the widest line among the entries from index `from` on, in normalized units.
pub open spec fn spec_entries_width(entries: Seq<LineEntry>, from: int) -> int
    decreases entries.len() - from,
{
    if 0 <= from < entries.len() {
        let here = entries[from].line.spec_width();
        let rest = spec_entries_width(entries, from + 1);
        if here >= rest {
            here
        } else {
            rest
        }
    } else {
        0
    }
}

impl Layout {
    /// Width of the widest line of the document, in normalized units.
    pub fn width(&self) -> (w: u64)
        requires
            self.wf(),
        ensures
            w == spec_entries_width(self.entries@, 0),
            w <= MAX_DOCUMENT_HEIGHT,
    {
        let mut widest: u64 = 0;
        let mut i: usize = self.entries.len();
        while i > 0
            invariant
                self.wf(),
                i <= self.entries@.len(),
                widest == spec_entries_width(self.entries@, i as int),
                widest <= MAX_DOCUMENT_HEIGHT,
            decreases i,
        {
            i = i - 1;
            assert(self.entries@[i as int].wf());
            let here = self.entries[i].line.width();
            if here >= widest {
                widest = here;
            }
        }
        widest
    }
}

} // verus!
