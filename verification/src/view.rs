//! UI-agnostic block layout: a block's text decomposed into the visual
//! rows every client draws, and the char-index ↔ (line, col) mapping the
//! cursor uses.
//!
//! Each row tells the renderer its indent, what kind of row it is (bullet
//! line, continuation, code-fence marker or fence body), and where the
//! cursor sits on it. Painting belongs to the UI; the rules for what opens
//! a fence and where the cursor lands live here, so every client agrees.

use vstd::prelude::*;
use vstd::string::StrSliceExecFns;

use crate::text::{
    chars_of, find_char_exec, lemma_find_char_facts, lines, lines_exec, slice_range,
    split_char, starts_with_lit, trim_start, trim_start_chars,
};

verus! {

/// One visual row produced from a block's text.
#[derive(Debug, Clone, PartialEq, Eq)]
pub struct BlockRow<'a> {
    /// Nesting level of the parent block.
    pub indent: u32,
    /// What this row represents.
    pub kind: BlockRowKind,
    /// The source text of this row.
    pub text: &'a str,
    /// If the cursor sits on this row, the char index inside `text`.
    pub cursor_col: Option<usize>,
}

/// Classification of a row within a block.
#[derive(Debug, Clone, Copy, PartialEq, Eq, Structural)]
pub enum BlockRowKind {
    /// First line of a block — the line that carries the bullet.
    Bullet,
    /// A continuation line under the bullet.
    Continuation,
    /// The line that opens or closes a fenced code block.
    CodeFenceMarker,
    /// A line inside an open fence, kept literally.
    CodeFenceBody,
}

pub struct BlockRowV {
    pub indent: u32,
    pub kind: BlockRowKind,
    pub text: Seq<char>,
    pub cursor_col: Option<usize>,
}

impl<'a> View for BlockRow<'a> {
    type V = BlockRowV;

    open spec fn view(&self) -> BlockRowV {
        BlockRowV {
            indent: self.indent,
            kind: self.kind,
            text: self.text@,
            cursor_col: self.cursor_col,
        }
    }
}

// ── line and column ──────────────────────────────────────────────────

/// `(line, col)` of char index `k` in `s`: lines are `\n`-separated and
/// the column counts chars since the last `\n`.
pub open spec fn line_col(s: Seq<char>, k: int) -> (nat, nat)
    decreases k,
{
    if k <= 0 {
        (0, 0)
    } else {
        let (l, c) = line_col(s, k - 1);
        if s[k - 1] == '\n' {
            (l + 1, 0)
        } else {
            (l, c + 1)
        }
    }
}

pub open spec fn clamp(k: int, n: int) -> int {
    if k < n {
        k
    } else {
        n
    }
}

/// Where the cursor search for `(line, col)` stops at index `i`: on the
/// exact position, or on the `\n` that ends the target line.
pub open spec fn stops_at(s: Seq<char>, line: int, col: int, i: int) -> bool {
    ||| line_col(s, i) == (line as nat, col as nat)
    ||| (s[i] == '\n' && line_col(s, i).0 == line)
}

/// The first index from `i` on where the search stops, or the length.
pub open spec fn seek(s: Seq<char>, line: int, col: int, i: int) -> int
    decreases s.len() - i,
{
    if i >= s.len() || i < 0 {
        s.len() as int
    } else if stops_at(s, line, col, i) {
        i
    } else {
        seek(s, line, col, i + 1)
    }
}

proof fn lemma_line_col_bound(s: Seq<char>, k: int)
    requires
        0 <= k,
    ensures
        line_col(s, k).0 <= k,
        line_col(s, k).1 <= k,
    decreases k,
{
    if k > 0 {
        lemma_line_col_bound(s, k - 1);
    }
}

/// Positions before `k` come strictly earlier in (line, col) order, and a
/// `\n` before `k` ends a line before `k`'s.
proof fn lemma_line_col_increasing(s: Seq<char>, i: int, k: int)
    requires
        0 <= i < k <= s.len(),
    ensures
        line_col(s, i).0 < line_col(s, k).0 || (line_col(s, i).0 == line_col(s, k).0
            && line_col(s, i).1 < line_col(s, k).1),
        s[i] == '\n' ==> line_col(s, i).0 < line_col(s, k).0,
    decreases k - i,
{
    if i + 1 < k {
        lemma_line_col_increasing(s, i + 1, k);
    }
}

proof fn lemma_seek_skips(s: Seq<char>, line: int, col: int, i: int, k: int)
    requires
        0 <= i <= k <= s.len(),
        forall|j: int| i <= j < k ==> !#[trigger] stops_at(s, line, col, j),
    ensures
        seek(s, line, col, i) == seek(s, line, col, k),
    decreases k - i,
{
    if i < k {
        assert(!stops_at(s, line, col, i));
        lemma_seek_skips(s, line, col, i + 1, k);
    }
}

/// Going from a char index to its `(line, col)` and back lands on the
/// same index, for every index up to the end of the text.
pub proof fn lemma_line_col_round_trip(s: Seq<char>, k: int)
    requires
        0 <= k <= s.len(),
    ensures
        seek(s, line_col(s, k).0 as int, line_col(s, k).1 as int, 0) == k,
{
    let (l, c) = line_col(s, k);
    assert forall|j: int| 0 <= j < k implies !#[trigger] stops_at(s, l as int, c as int, j) by {
        lemma_line_col_increasing(s, j, k);
    }
    lemma_seek_skips(s, l as int, c as int, 0, k);
}

/// Convert a char index into a `(line, col)` pair using `\n` as the line
/// separator. Indices count chars, not bytes; an index past the end gives
/// the position of the end.
pub fn char_to_line_col(s: &str, char_idx: usize) -> (r: (usize, usize))
    ensures
        (r.0 as nat, r.1 as nat) == line_col(s@, clamp(char_idx as int, s@.len() as int)),
{
    let cs = chars_of(s);
    let n = cs.len();
    let mut line: usize = 0;
    let mut col: usize = 0;
    let mut i: usize = 0;
    while i < n
        invariant
            n == cs@.len(),
            cs@ == s@,
            i <= n,
            i <= char_idx,
            (line as nat, col as nat) == line_col(s@, i as int),
        decreases n - i,
    {
        if i == char_idx {
            return (line, col);
        }
        proof {
            lemma_line_col_bound(s@, i as int);
        }
        if cs[i] == '\n' {
            line = line + 1;
            col = 0;
        } else {
            col = col + 1;
        }
        i = i + 1;
    }
    (line, col)
}

/// Inverse of [`char_to_line_col`]: the char index of `(line, col)`. A
/// column past the end of its line lands on that line's `\n` (or the end
/// of the text on the last line); a line past the last one lands on the
/// end of the text.
pub fn line_col_to_char(s: &str, target_line: usize, target_col: usize) -> (r: usize)
    ensures
        r as int == seek(s@, target_line as int, target_col as int, 0),
{
    let cs = chars_of(s);
    let n = cs.len();
    let mut line: usize = 0;
    let mut col: usize = 0;
    let mut i: usize = 0;
    while i < n
        invariant
            n == cs@.len(),
            cs@ == s@,
            i <= n,
            (line as nat, col as nat) == line_col(s@, i as int),
            seek(s@, target_line as int, target_col as int, 0) == seek(
                s@,
                target_line as int,
                target_col as int,
                i as int,
            ),
        decreases n - i,
    {
        proof {
            lemma_line_col_bound(s@, i as int);
        }
        if line == target_line && col == target_col {
            return i;
        }
        if cs[i] == '\n' {
            if line == target_line {
                return i;
            }
            line = line + 1;
            col = 0;
        } else {
            col = col + 1;
        }
        i = i + 1;
    }
    n
}

// ── headers ──────────────────────────────────────────────────────────

/// Number of `#` at the front of `s`.
pub open spec fn lead_hashes(s: Seq<char>) -> nat
    decreases s.len(),
{
    if s.len() > 0 && s[0] == '#' {
        1 + lead_hashes(s.drop_first())
    } else {
        0
    }
}

/// The ATX heading level of a block: its first line opens with 1 to 6
/// `#` followed by a space.
pub open spec fn header_level_spec(text: Seq<char>) -> Option<u8> {
    let ls = lines(text);
    if ls.len() == 0 {
        None
    } else {
        let first = ls[0];
        let h = lead_hashes(first);
        if 1 <= h <= 6 && h < first.len() && first[h as int] == ' ' {
            Some(h as u8)
        } else {
            None
        }
    }
}

proof fn lemma_lead_hashes(s: Seq<char>, k: int)
    requires
        0 <= k <= s.len(),
        forall|j: int| 0 <= j < k ==> #[trigger] s[j] == '#',
        k == s.len() || s[k] != '#',
    ensures
        lead_hashes(s) == k,
    decreases k,
{
    if k > 0 {
        lemma_lead_hashes(s.drop_first(), k - 1);
    }
}

/// Classify a block's first line as an ATX markdown header: the level
/// (`1..=6`) when the first line opens with that many `#` and a space.
/// Seven or more hashes, no space after them, or an empty text is no
/// header; continuation lines never make a block a header.
pub fn header_level(text: &str) -> (r: Option<u8>)
    ensures
        r == header_level_spec(text@),
{
    let cs = chars_of(text);
    let ls = lines_exec(cs.as_slice());
    if ls.len() == 0 {
        return None;
    }
    let first = &ls[0];
    let n = first.len();
    let mut h: usize = 0;
    while h < n && first[h] == '#'
        invariant
            h <= n,
            n == first@.len(),
            forall|j: int| 0 <= j < h ==> #[trigger] first@[j] == '#',
        decreases n - h,
    {
        h = h + 1;
    }
    proof {
        lemma_lead_hashes(first@, h as int);
    }
    if 1 <= h && h <= 6 && h < n && first[h] == ' ' {
        Some(h as u8)
    } else {
        None
    }
}

// ── rows ─────────────────────────────────────────────────────────────

/// A line that opens or closes a fence: ```` ``` ```` after leading
/// whitespace.
pub open spec fn is_fence_marker(line: Seq<char>) -> bool {
    "```"@.is_prefix_of(trim_start(line))
}

/// Whether a fence is open when line `i` starts: an odd number of markers
/// before it.
pub open spec fn fence_open(ls: Seq<Seq<char>>, i: int) -> bool
    decreases i,
{
    if i <= 0 {
        false
    } else {
        fence_open(ls, i - 1) != is_fence_marker(ls[i - 1])
    }
}

/// The kind of row `i`: the first row always carries the bullet.
pub open spec fn row_kind(ls: Seq<Seq<char>>, i: int) -> BlockRowKind {
    if i == 0 {
        BlockRowKind::Bullet
    } else if is_fence_marker(ls[i]) {
        BlockRowKind::CodeFenceMarker
    } else if fence_open(ls, i) {
        BlockRowKind::CodeFenceBody
    } else {
        BlockRowKind::Continuation
    }
}

/// The cursor column on row `i`, if the cursor sits on that row.
pub open spec fn cursor_on_row(text: Seq<char>, cursor: Option<usize>, i: int) -> Option<usize> {
    match cursor {
        None => None,
        Some(c) => {
            let (l, col) = line_col(text, clamp(c as int, text.len() as int));
            if l == i {
                Some(col as usize)
            } else {
                None
            }
        },
    }
}

/// The rows of a block: one per `\n`-separated line (an empty text still
/// has its one bullet row).
pub open spec fn rows_spec(text: Seq<char>, indent: u32, cursor: Option<usize>) -> Seq<BlockRowV> {
    let ls = split_char(text, '\n');
    Seq::new(
        ls.len(),
        |i: int|
            BlockRowV {
                indent,
                kind: row_kind(ls, i),
                text: ls[i],
                cursor_col: cursor_on_row(text, cursor, i),
            },
    )
}

/// Every block draws at least one row, and its first row carries the
/// bullet — an empty text included.
pub proof fn lemma_first_row_is_bullet(text: Seq<char>, indent: u32, cursor: Option<usize>)
    ensures
        rows_spec(text, indent, cursor).len() >= 1,
        rows_spec(text, indent, cursor)[0].kind == BlockRowKind::Bullet,
        rows_spec(text, indent, cursor)[0].indent == indent,
{
    assert(split_char(text, '\n').len() >= 1);
}

pub open spec fn rows_view<'a>(rows: Seq<BlockRow<'a>>) -> Seq<BlockRowV> {
    rows.map_values(|r: BlockRow<'a>| r@)
}

fn is_fence_marker_exec(line: &str) -> (r: bool)
    ensures
        r == is_fence_marker(line@),
{
    let cs = chars_of(line);
    let t = trim_start_chars(cs.as_slice());
    starts_with_lit(t.as_slice(), "```")
}

/// Decompose a block's `text` into visual rows. `cursor_char`, when
/// present, is a char index into `text` (`\n` counts as one char); the
/// row it falls on gets its column, every other row `None`.
pub fn block_to_rows<'a>(text: &'a str, indent: u32, cursor_char: Option<usize>) -> (r: Vec<
    BlockRow<'a>,
>)
    ensures
        rows_view(r@) == rows_spec(text@, indent, cursor_char),
{
    let ghost ls = split_char(text@, '\n');
    let cs = chars_of(text);
    let n = cs.len();
    let cursor_lc: Option<(usize, usize)> = match cursor_char {
        Some(c) => Some(char_to_line_col(text, c)),
        None => None,
    };
    let mut rows: Vec<BlockRow<'a>> = Vec::new();
    let mut in_fence = false;
    let mut start: usize = 0;
    let mut idx: usize = 0;
    let mut done = false;
    proof {
        assert(text@.skip(0) =~= text@);
        assert(ls.skip(0) =~= ls);
        if let Some(c) = cursor_char {
            lemma_line_col_bound(text@, clamp(c as int, text@.len() as int));
        }
    }
    while !done
        invariant
            n == cs@.len(),
            cs@ == text@,
            ls == split_char(text@, '\n'),
            start <= n,
            !done ==> idx <= start,
            cursor_char matches Some(c) ==> line_col(text@, clamp(c as int, text@.len() as int)).0
                <= n && line_col(text@, clamp(c as int, text@.len() as int)).1 <= n,
            !done ==> idx < ls.len(),
            done ==> idx == ls.len(),
            !done ==> ls.skip(idx as int) == split_char(text@.skip(start as int), '\n'),
            rows@.len() == idx,
            in_fence == fence_open(ls, idx as int),
            cursor_lc == match cursor_char {
                Some(c) => {
                    let lc = line_col(text@, clamp(c as int, text@.len() as int));
                    Some((lc.0 as usize, lc.1 as usize))
                },
                None => None::<(usize, usize)>,
            },
            forall|j: int|
                0 <= j < idx ==> (#[trigger] rows@[j])@ == rows_spec(text@, indent, cursor_char)[j],
        decreases n - start + (if done { 0int } else { 1int }),
    {
        let rest = slice_range(cs.as_slice(), start, n);
        proof {
            assert(rest@ =~= text@.skip(start as int));
            lemma_find_char_facts(rest@, '\n');
        }
        let end: usize = match find_char_exec(rest.as_slice(), '\n') {
            Some(k) => start + k,
            None => n,
        };
        let line = text.substring_char(start, end);
        proof {
            assert(line@ =~= rest@.take(end - start));
            assert(ls.skip(idx as int)[0] == ls[idx as int]);
            assert(ls[idx as int] == line@);
        }
        let is_marker = is_fence_marker_exec(line);
        let kind = if idx == 0 {
            BlockRowKind::Bullet
        } else if is_marker {
            BlockRowKind::CodeFenceMarker
        } else if in_fence {
            BlockRowKind::CodeFenceBody
        } else {
            BlockRowKind::Continuation
        };
        let cursor_col = match cursor_lc {
            Some((l, c)) => if l == idx {
                Some(c)
            } else {
                None
            },
            None => None,
        };
        let row = BlockRow { indent, kind, text: line, cursor_col };
        proof {
            let sp = rows_spec(text@, indent, cursor_char)[idx as int];
            assert(sp.text == row@.text);
            assert(sp.kind == row@.kind);
            assert(sp.cursor_col == row@.cursor_col);
        }
        rows.push(row);
        if is_marker {
            in_fence = !in_fence;
        }
        if end < n {
            proof {
                assert(text@.skip(start as int).skip(end - start + 1) =~= text@.skip(end + 1));
                assert(ls.skip(idx as int).drop_first() =~= ls.skip(idx + 1));
            }
            start = end + 1;
            idx = rows.len();
            proof {
                assert(split_char(text@.skip(start as int), '\n').len() > 0);
            }
        } else {
            proof {
                assert(ls.skip(idx as int).len() == 1);
            }
            idx = rows.len();
            done = true;
        }
    }
    proof {
        assert(rows_view(rows@) =~= rows_spec(text@, indent, cursor_char));
    }
    rows
}

// ── the parser-warning banner ────────────────────────────────────────

/// A parser warning is still worth surfacing unless its line, indent
/// trimmed, is drawn as a header anyway.
pub open spec fn actionable(raw: Seq<char>) -> bool {
    header_level_spec(trim_start(raw)) is None
}

pub open spec fn raws_view<'a>(v: Seq<&'a String>) -> Seq<Seq<char>> {
    v.map_values(|s: &'a String| s@)
}

/// The raw lines of the parser warnings still worth surfacing, in order.
pub fn actionable_warnings(raws: &Vec<String>) -> (r: Vec<&String>)
    ensures
        raws_view(r@) == raws@.map_values(|s: String| s@).filter(|s: Seq<char>| actionable(s)),
{
    let ghost rv = raws@.map_values(|s: String| s@);
    let n = raws.len();
    let mut out: Vec<&String> = Vec::new();
    let mut i: usize = 0;
    proof {
        reveal(Seq::filter);
        assert(rv.take(0) =~= Seq::<Seq<char>>::empty());
        assert(raws_view(out@) =~= Seq::<Seq<char>>::empty());
    }
    while i < n
        invariant
            n == raws@.len(),
            rv == raws@.map_values(|s: String| s@),
            i <= n,
            raws_view(out@) == rv.take(i as int).filter(|s: Seq<char>| actionable(s)),
        decreases n - i,
    {
        let cs = chars_of(raws[i].as_str());
        let t = trim_start_chars(cs.as_slice());
        let ts = crate::text::string_of(t.as_slice());
        let h = header_level(ts.as_str());
        proof {
            reveal(Seq::filter);
            assert(rv.take(i + 1).drop_last() =~= rv.take(i as int));
            assert(rv.take(i + 1).last() == raws@[i as int]@);
        }
        if h.is_none() {
            proof {
                assert(raws_view(out@.push(&raws[i as int])) =~= raws_view(out@).push(raws@[i as int]@));
            }
            out.push(&raws[i]);
        }
        i = i + 1;
    }
    proof {
        assert(rv.take(n as int) =~= rv);
    }
    out
}

/// Banner height in lines, border included: three when some warning is
/// worth surfacing, none on a clean page.
pub fn banner_height(raws: &Vec<String>) -> (r: u16)
    ensures
        r == if raws@.map_values(|s: String| s@).filter(|s: Seq<char>| actionable(s)).len() == 0 {
            0u16
        } else {
            3u16
        },
{
    let w = actionable_warnings(raws);
    if w.len() == 0 {
        0
    } else {
        3
    }
}

} // verus!
