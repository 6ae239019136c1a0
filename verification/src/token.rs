//! Token classifications, the colour table, and the partition of a text run
//! by a token stream.

use vstd::prelude::*;

verus! {

/// What a token is, as far as colouring is concerned.
#[derive(Clone, Copy, Debug, PartialEq, Eq, Structural)]
pub enum TokenKind {
    Unknown,
    BranchKeyword,
    Comment,
    Constant,
    Identifier,
    LoopKeyword,
    Number,
    OtherKeyword,
    Punctuator,
    String,
    Typename,
    Whitespace,
}

/// A token covers `len` bytes of its line, directly after the token before it.
#[derive(Clone, Copy, Debug, PartialEq, Eq, Structural)]
pub struct Token {
    pub len: usize,
    pub kind: TokenKind,
}

/// One colour per token kind, each as `0xRRGGBBAA`.
#[derive(Clone, Copy, Debug, PartialEq, Eq, Structural)]
pub struct TokenColors {
    pub unknown: u32,
    pub branch_keyword: u32,
    pub comment: u32,
    pub constant: u32,
    pub identifier: u32,
    pub loop_keyword: u32,
    pub number: u32,
    pub other_keyword: u32,
    pub punctuator: u32,
    pub string: u32,
    pub typename: u32,
    pub whitespace: u32,
}

impl TokenColors {
    /// The colour of `kind`.
    pub open spec fn spec_color(self, kind: TokenKind) -> u32 {
        match kind {
            TokenKind::Unknown => self.unknown,
            TokenKind::BranchKeyword => self.branch_keyword,
            TokenKind::Comment => self.comment,
            TokenKind::Constant => self.constant,
            TokenKind::Identifier => self.identifier,
            TokenKind::LoopKeyword => self.loop_keyword,
            TokenKind::Number => self.number,
            TokenKind::OtherKeyword => self.other_keyword,
            TokenKind::Punctuator => self.punctuator,
            TokenKind::String => self.string,
            TokenKind::Typename => self.typename,
            TokenKind::Whitespace => self.whitespace,
        }
    }

    /// The colour of `kind`.
    pub fn color(&self, kind: TokenKind) -> (c: u32)
        ensures
            c == self.spec_color(kind),
    {
        match kind {
            TokenKind::Unknown => self.unknown,
            TokenKind::BranchKeyword => self.branch_keyword,
            TokenKind::Comment => self.comment,
            TokenKind::Constant => self.constant,
            TokenKind::Identifier => self.identifier,
            TokenKind::LoopKeyword => self.loop_keyword,
            TokenKind::Number => self.number,
            TokenKind::OtherKeyword => self.other_keyword,
            TokenKind::Punctuator => self.punctuator,
            TokenKind::String => self.string,
            TokenKind::Typename => self.typename,
            TokenKind::Whitespace => self.whitespace,
        }
    }

    /// The dark theme.
    pub open spec fn spec_dark() -> TokenColors {
        TokenColors {
            unknown: 0x808080FF,
            branch_keyword: 0xC485BEFF,
            comment: 0x638D54FF,
            constant: 0xCC917BFF,
            identifier: 0xD4D4D4FF,
            loop_keyword: 0xFF8C00FF,
            number: 0xB6CEAAFF,
            other_keyword: 0x5B9BD3FF,
            punctuator: 0xD4D4D4FF,
            string: 0xCC917BFF,
            typename: 0x56C9B1FF,
            whitespace: 0x6E6E6EFF,
        }
    }
}

impl Default for TokenColors {
    /// The dark theme.
    fn default() -> (colors: TokenColors)
        ensures
            colors == TokenColors::spec_dark(),
    {
        TokenColors {
            unknown: 0x808080FF,
            branch_keyword: 0xC485BEFF,
            comment: 0x638D54FF,
            constant: 0xCC917BFF,
            identifier: 0xD4D4D4FF,
            loop_keyword: 0xFF8C00FF,
            number: 0xB6CEAAFF,
            other_keyword: 0x5B9BD3FF,
            punctuator: 0xD4D4D4FF,
            string: 0xCC917BFF,
            typename: 0x56C9B1FF,
            whitespace: 0x6E6E6EFF,
        }
    }
}

/// Where a walk stands in a token stream: at token `index`, with `remaining` of its bytes not
/// yet consumed. Past the last token `remaining` means nothing.
#[derive(Clone, Copy, Debug, PartialEq, Eq, Structural)]
pub struct TokenCursor {
    pub index: usize,
    pub remaining: usize,
}

/// A token cursor over unbounded integers.
pub struct TokenCursorView {
    pub index: int,
    pub remaining: int,
}

impl View for TokenCursor {
    type V = TokenCursorView;

    open spec fn view(&self) -> TokenCursorView {
        TokenCursorView { index: self.index as int, remaining: self.remaining as int }
    }
}

/// A piece of a text run that lies within one token: `len` bytes from offset `start` of the
/// run, all of kind `kind`.
#[derive(Clone, Copy, Debug, PartialEq, Eq, Structural)]
pub struct SubRun {
    pub start: usize,
    pub len: usize,
    pub kind: TokenKind,
}

/// The sub-run of `len` bytes at `start`.
pub open spec fn spec_sub_run(start: int, len: int, kind: TokenKind) -> SubRun {
    SubRun { start: start as usize, len: len as usize, kind }
}

/// The cursor at the start of token `index`.
pub open spec fn spec_cursor_at(tokens: Seq<Token>, index: int) -> TokenCursorView {
    TokenCursorView {
        index,
        remaining: if 0 <= index < tokens.len() {
            tokens[index].len as int
        } else {
            0
        },
    }
}

/// The sub-runs into which the tokens from `cursor` on cut the bytes `[start, start + len)` of
/// a run. Each sub-run is non-empty and ends where its token ends or where the run ends.
/// Bytes that no token covers form one last sub-run of kind `Unknown`.
pub open spec fn spec_split(
    tokens: Seq<Token>,
    cursor: TokenCursorView,
    start: int,
    len: int,
) -> Seq<SubRun>
    decreases len, tokens.len() - cursor.index,
{
    if len <= 0 {
        Seq::empty()
    } else if cursor.index < 0 || cursor.index >= tokens.len() {
        seq![spec_sub_run(start, len, TokenKind::Unknown)]
    } else if len < cursor.remaining {
        seq![spec_sub_run(start, len, tokens[cursor.index].kind)]
    } else if cursor.remaining <= 0 {
        spec_split(tokens, spec_cursor_at(tokens, cursor.index + 1), start, len)
    } else {
        seq![spec_sub_run(start, cursor.remaining, tokens[cursor.index].kind)] + spec_split(
            tokens,
            spec_cursor_at(tokens, cursor.index + 1),
            start + cursor.remaining,
            len - cursor.remaining,
        )
    }
}

/// Where the token cursor stands after the tokens from `cursor` on have been laid over `len`
/// bytes of text.
pub open spec fn spec_advance(tokens: Seq<Token>, cursor: TokenCursorView, len: int) -> TokenCursorView
    decreases len, tokens.len() - cursor.index,
{
    if len <= 0 || cursor.index < 0 || cursor.index >= tokens.len() {
        cursor
    } else if len < cursor.remaining {
        TokenCursorView { index: cursor.index, remaining: cursor.remaining - len }
    } else if cursor.remaining <= 0 {
        spec_advance(tokens, spec_cursor_at(tokens, cursor.index + 1), len)
    } else {
        spec_advance(tokens, spec_cursor_at(tokens, cursor.index + 1), len - cursor.remaining)
    }
}

/// Sum of the lengths of `runs`.
pub open spec fn spec_total_len(runs: Seq<SubRun>) -> int
    decreases runs.len(),
{
    if runs.len() == 0 {
        0
    } else {
        runs[0].len + spec_total_len(runs.drop_first())
    }
}

/// The bytes of `text` that `runs` select, joined in order.
pub open spec fn spec_concat(text: Seq<u8>, runs: Seq<SubRun>) -> Seq<u8>
    decreases runs.len(),
{
    if runs.len() == 0 {
        Seq::empty()
    } else {
        text.subrange(runs[0].start as int, runs[0].start + runs[0].len) + spec_concat(
            text,
            runs.drop_first(),
        )
    }
}

/// A cursor is in step with its stream when it has not run past the end and does not claim
/// more bytes than its token has.
pub open spec fn spec_cursor_wf(tokens: Seq<Token>, cursor: TokenCursorView) -> bool {
    0 <= cursor.index <= tokens.len() && (cursor.index < tokens.len() ==> 0 <= cursor.remaining
        <= tokens[cursor.index].len)
}

/// The partition consumes the run completely and in order: the lengths of the sub-runs add
/// up to `len`, and their bytes joined in order are the bytes of the run. This holds for
/// every token stream, also one that is too short or too long for the text.
pub proof fn lemma_split_covers(
    text: Seq<u8>,
    tokens: Seq<Token>,
    cursor: TokenCursorView,
    start: int,
    len: int,
)
    requires
        0 <= start,
        0 <= len,
        start + len <= text.len(),
        text.len() <= usize::MAX,
    ensures
        spec_total_len(spec_split(tokens, cursor, start, len)) == len,
        spec_concat(text, spec_split(tokens, cursor, start, len)) == text.subrange(
            start,
            start + len,
        ),
    decreases len, tokens.len() - cursor.index,
{
    let runs = spec_split(tokens, cursor, start, len);
    if len <= 0 {
        assert(text.subrange(start, start + len) =~= Seq::<u8>::empty());
    } else if cursor.index < 0 || cursor.index >= tokens.len() || len < cursor.remaining {
        assert(runs.drop_first() =~= Seq::<SubRun>::empty());
        assert(spec_total_len(runs.drop_first()) == 0);
        assert(spec_concat(text, runs.drop_first()) =~= Seq::<u8>::empty());
        assert(spec_concat(text, runs) =~= text.subrange(start, start + len));
        assert(runs[0].start == start && runs[0].len == len);
    } else if cursor.remaining <= 0 {
        lemma_split_covers(text, tokens, spec_cursor_at(tokens, cursor.index + 1), start, len);
    } else {
        let next = spec_cursor_at(tokens, cursor.index + 1);
        let rest = spec_split(tokens, next, start + cursor.remaining, len - cursor.remaining);
        lemma_split_covers(text, tokens, next, start + cursor.remaining, len - cursor.remaining);
        assert(runs.drop_first() =~= rest);
        assert(runs[0].start == start && runs[0].len == cursor.remaining);
        assert(text.subrange(start, start + cursor.remaining) + text.subrange(
            start + cursor.remaining,
            start + len,
        ) =~= text.subrange(start, start + len));
    }
}

/// The cursor at the start of token `index`.
pub fn cursor_at(tokens: &Vec<Token>, index: usize) -> (cursor: TokenCursor)
    ensures
        cursor@ == spec_cursor_at(tokens@, index as int),
{
    TokenCursor {
        index,
        remaining: if index < tokens.len() {
            tokens[index].len
        } else {
            0
        },
    }
}

/// Cuts the bytes `[start, start + len)` of a text run by the tokens from `cursor` on, appends
/// the sub-runs to `runs` and moves `cursor` past the bytes consumed.
pub fn split_run(
    tokens: &Vec<Token>,
    cursor: &mut TokenCursor,
    start: usize,
    len: usize,
    runs: &mut Vec<SubRun>,
)
    requires
        start + len <= usize::MAX,
        spec_cursor_wf(tokens@, old(cursor)@),
    ensures
        final(runs)@ == old(runs)@ + spec_split(tokens@, old(cursor)@, start as int, len as int),
        final(cursor)@ == spec_advance(tokens@, old(cursor)@, len as int),
        spec_cursor_wf(tokens@, final(cursor)@),
{
    let mut pos: usize = start;
    let mut left: usize = len;
    let ghost all = spec_split(tokens@, cursor@, start as int, len as int);
    while left > 0
        invariant
            pos + left == start + len,
            start + len <= usize::MAX,
            spec_cursor_wf(tokens@, cursor@),
            old(runs)@ + all == runs@ + spec_split(tokens@, cursor@, pos as int, left as int),
            spec_advance(tokens@, old(cursor)@, len as int) == spec_advance(
                tokens@,
                cursor@,
                left as int,
            ),
        decreases left, tokens@.len() - cursor.index,
    {
        if cursor.index >= tokens.len() {
            runs.push(SubRun { start: pos, len: left, kind: TokenKind::Unknown });
            pos = pos + left;
            left = 0;
        } else if left < cursor.remaining {
            runs.push(SubRun { start: pos, len: left, kind: tokens[cursor.index].kind });
            cursor.remaining = cursor.remaining - left;
            pos = pos + left;
            left = 0;
        } else if cursor.remaining == 0 {
            *cursor = cursor_at(tokens, cursor.index + 1);
        } else {
            let taken = cursor.remaining;
            runs.push(SubRun { start: pos, len: taken, kind: tokens[cursor.index].kind });
            *cursor = cursor_at(tokens, cursor.index + 1);
            pos = pos + taken;
            left = left - taken;
        }
        assert(old(runs)@ + all =~= runs@ + spec_split(tokens@, cursor@, pos as int, left as int));
    }
    assert(runs@ + spec_split(tokens@, cursor@, pos as int, 0) =~= runs@);
}

/// `runs` tile the bytes `[lo, hi)`: every run is non-empty and lies within the range, the
/// first starts at `lo`, each next one starts where the one before it ends, and the last
/// ends at `hi`.
pub open spec fn spec_tiles(runs: Seq<SubRun>, lo: int, hi: int) -> bool {
    &&& runs.len() == 0 ==> lo == hi
    &&& runs.len() > 0 ==> runs[0].start == lo && runs[runs.len() - 1].start + runs[runs.len()
        - 1].len == hi
    &&& forall|r: int|
        0 <= r < runs.len() ==> (#[trigger] runs[r]).len > 0 && lo <= runs[r].start
            && runs[r].start + runs[r].len <= hi
    &&& forall|r: int|
        0 <= r < runs.len() - 1 ==> (#[trigger] runs[r + 1]).start == runs[r].start
            + runs[r].len
}

/// The sub-runs of a partition tile the bytes that were cut: no byte is skipped and none
/// is covered twice.
pub proof fn lemma_split_tiles(tokens: Seq<Token>, cursor: TokenCursorView, start: int, len: int)
    requires
        0 <= start,
        0 <= len,
        start + len <= usize::MAX,
    ensures
        spec_tiles(spec_split(tokens, cursor, start, len), start, start + len),
    decreases len, tokens.len() - cursor.index,
{
    let runs = spec_split(tokens, cursor, start, len);
    if len <= 0 {
    } else if cursor.index < 0 || cursor.index >= tokens.len() || len < cursor.remaining {
    } else if cursor.remaining <= 0 {
        lemma_split_tiles(tokens, spec_cursor_at(tokens, cursor.index + 1), start, len);
    } else {
        let next = spec_cursor_at(tokens, cursor.index + 1);
        let rest = spec_split(tokens, next, start + cursor.remaining, len - cursor.remaining);
        lemma_split_tiles(tokens, next, start + cursor.remaining, len - cursor.remaining);
        assert forall|r: int| 0 <= r < runs.len() implies (#[trigger] runs[r]).len > 0 && start
            <= runs[r].start && runs[r].start + runs[r].len <= start + len by {
            if r > 0 {
                assert(runs[r] == rest[r - 1]);
            }
        }
        assert forall|r: int| 0 <= r < runs.len() - 1 implies (#[trigger] runs[r + 1]).start
            == runs[r].start + runs[r].len by {
            assert(runs[r + 1] == rest[r]);
            if r > 0 {
                assert(runs[r] == rest[r - 1]);
                assert(rest[(r - 1) + 1].start == rest[r - 1].start + rest[r - 1].len);
            }
        }
        if rest.len() > 0 {
            assert(runs[runs.len() - 1] == rest[rest.len() - 1]);
        }
    }
}

} // verus!
