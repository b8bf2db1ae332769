//! Data types of unified diffs, their views, and what applying a diff to a
//! text means.
use vstd::prelude::*;
use crate::text::{join, decimal, chars_of, string_of, decimal_chars, slice_chars, chars_eq};
use crate::diff_lines::{nl, lines_view, split_lines, join_lines};

verus! {

// ─────────────────────────── Data types ──────────────────────────────────────

/// A single line in a diff.
#[derive(Debug, Clone, PartialEq, Eq)]
pub enum DiffLine {
    /// Unchanged context line.
    Context(String),
    /// Line added in the new version.
    Added(String),
    /// Line removed from the old version.
    Removed(String),
}

/// The view of a diff line: its kind and its text.
pub enum LineView {
    Context(Seq<char>),
    Added(Seq<char>),
    Removed(Seq<char>),
}

impl View for DiffLine {
    type V = LineView;

    open spec fn view(&self) -> LineView {
        match self {
            DiffLine::Context(s) => LineView::Context(s@),
            DiffLine::Added(s) => LineView::Added(s@),
            DiffLine::Removed(s) => LineView::Removed(s@),
        }
    }
}

/// The text of a line view.
pub open spec fn line_text(l: LineView) -> Seq<char> {
    match l {
        LineView::Context(t) => t,
        LineView::Added(t) => t,
        LineView::Removed(t) => t,
    }
}

/// A single change hunk within a diff.
#[derive(Debug, Clone)]
pub struct DiffHunk {
    /// Line number in the original file where the hunk starts (1-based).
    pub old_start: usize,
    /// Number of lines from the original file in this hunk.
    pub old_count: usize,
    /// Line number in the new file where the hunk starts (1-based).
    pub new_start: usize,
    /// Number of lines in the new file in this hunk.
    pub new_count: usize,
    /// The diff lines (prefixed with ' ', '+', '-').
    pub lines: Vec<DiffLine>,
}

/// The view of a hunk.
pub struct HunkView {
    pub old_start: nat,
    pub old_count: nat,
    pub new_start: nat,
    pub new_count: nat,
    pub lines: Seq<LineView>,
}

/// The views of a sequence of diff lines.
pub open spec fn lines_of(v: Seq<DiffLine>) -> Seq<LineView> {
    v.map_values(|l: DiffLine| l@)
}

impl View for DiffHunk {
    type V = HunkView;

    open spec fn view(&self) -> HunkView {
        HunkView {
            old_start: self.old_start as nat,
            old_count: self.old_count as nat,
            new_start: self.new_start as nat,
            new_count: self.new_count as nat,
            lines: lines_of(self.lines@),
        }
    }
}

/// The views of a sequence of hunks.
pub open spec fn hunks_of(v: Seq<DiffHunk>) -> Seq<HunkView> {
    v.map_values(|h: DiffHunk| h@)
}

/// The type of file operation.
#[derive(Debug, Clone, PartialEq, Eq)]
pub enum DiffOperation {
    /// Modify an existing file.
    Modify,
    /// Create a new file.
    Create,
    /// Delete a file.
    Delete,
    /// Rename a file.
    Rename {
        /// Original path before rename.
        from: String,
    },
}

/// A diff for a single file.
#[derive(Debug, Clone)]
pub struct FileDiff {
    /// Path to the file being modified.
    pub path: String,
    /// The operation being performed.
    pub operation: DiffOperation,
    /// Individual change hunks.
    pub hunks: Vec<DiffHunk>,
    /// Lines added total.
    pub additions: usize,
    /// Lines removed total.
    pub deletions: usize,
}

/// Result of applying a diff.
#[derive(Debug, Clone)]
pub struct ApplyResult {
    /// Path of the file the diff was applied to.
    pub path: String,
    /// Whether the application succeeded.
    pub success: bool,
    /// The resulting file content on success.
    pub new_content: Option<String>,
    /// Error description on failure.
    pub error: Option<String>,
}

/// The number of added lines among `hl`.
pub open spec fn added_in(hl: Seq<LineView>) -> nat
    decreases hl.len(),
{
    if hl.len() == 0 {
        0
    } else {
        added_in(hl.drop_last()) + if hl.last() is Added {
            1nat
        } else {
            0nat
        }
    }
}

/// The number of removed lines among `hl`.
pub open spec fn removed_in(hl: Seq<LineView>) -> nat
    decreases hl.len(),
{
    if hl.len() == 0 {
        0
    } else {
        removed_in(hl.drop_last()) + if hl.last() is Removed {
            1nat
        } else {
            0nat
        }
    }
}

/// The number of added lines over all hunks.
pub open spec fn hunks_added(hs: Seq<HunkView>) -> nat
    decreases hs.len(),
{
    if hs.len() == 0 {
        0
    } else {
        hunks_added(hs.drop_last()) + added_in(hs.last().lines)
    }
}

/// The number of removed lines over all hunks.
pub open spec fn hunks_removed(hs: Seq<HunkView>) -> nat
    decreases hs.len(),
{
    if hs.len() == 0 {
        0
    } else {
        hunks_removed(hs.drop_last()) + removed_in(hs.last().lines)
    }
}

/// The number of lines over all hunks.
pub open spec fn hunks_len(hs: Seq<HunkView>) -> nat
    decreases hs.len(),
{
    if hs.len() == 0 {
        0
    } else {
        hunks_len(hs.drop_last()) + hs.last().lines.len()
    }
}

pub proof fn lemma_counts_le_len(hl: Seq<LineView>)
    ensures
        added_in(hl) + removed_in(hl) <= hl.len(),
    decreases hl.len(),
{
    if hl.len() > 0 {
        lemma_counts_le_len(hl.drop_last());
    }
}

// ─────────────────────────── Apply semantics ─────────────────────────────────

/// Where line checking fails: the first context or removed line (from index
/// `t` on, at file position `pos`) whose position is outside the file or
/// whose text differs, with whether it was a removed line.
pub open spec fn mismatch_from(lines: Seq<Seq<char>>, hl: Seq<LineView>, t: int, pos: int) -> Option<
    (int, bool),
>
    decreases hl.len() - t,
{
    if t < 0 || t >= hl.len() {
        None
    } else {
        match hl[t] {
            LineView::Added(_) => mismatch_from(lines, hl, t + 1, pos),
            LineView::Context(x) => if pos < 0 || pos >= lines.len() || lines[pos] != x {
                Some((pos, false))
            } else {
                mismatch_from(lines, hl, t + 1, pos + 1)
            },
            LineView::Removed(x) => if pos < 0 || pos >= lines.len() || lines[pos] != x {
                Some((pos, true))
            } else {
                mismatch_from(lines, hl, t + 1, pos + 1)
            },
        }
    }
}

/// The kind of the first context or removed line from index `t` on, if any
/// (`true` for removed).
pub open spec fn first_checked(hl: Seq<LineView>, t: int) -> Option<bool>
    decreases hl.len() - t,
{
    if t < 0 || t >= hl.len() {
        None
    } else {
        match hl[t] {
            LineView::Added(_) => first_checked(hl, t + 1),
            LineView::Context(_) => Some(false),
            LineView::Removed(_) => Some(true),
        }
    }
}

/// The lines a hunk puts in place: its context and added lines, in order.
pub open spec fn replacement(hl: Seq<LineView>) -> Seq<Seq<char>>
    decreases hl.len(),
{
    if hl.len() == 0 {
        Seq::empty()
    } else {
        let r = replacement(hl.drop_last());
        match hl.last() {
            LineView::Removed(_) => r,
            LineView::Context(x) => r.push(x),
            LineView::Added(x) => r.push(x),
        }
    }
}

/// What applying hunks to lines leads to.
pub enum HunksOutcome {
    /// Every hunk applied; the resulting lines.
    Done(Seq<Seq<char>>),
    /// A check failed at hunk `hunk`, file position `pos`; `removed` tells
    /// whether it was a removed line (else a context line).
    Mismatch { hunk: nat, pos: int, removed: bool },
    /// The computation would overflow or splice an impossible range.
    Aborts,
}

/// What applying one hunk leads to.
pub enum HunkStep {
    /// The hunk applied: the resulting lines and the new offset.
    Next(Seq<Seq<char>>, int),
    /// A check failed at file position `pos`; `removed` tells whether it was
    /// a removed line (else a context line).
    Mismatch { pos: int, removed: bool },
    /// The computation would overflow or splice an impossible range.
    Aborts,
}

/// Applying one hunk to `lines`, with the offset that earlier hunks
/// introduced. The hunk starts at `old_start - 1 + offset`; its context and
/// removed lines are checked there, then its `old_count` lines (as far as the
/// file goes) are replaced by its context and added lines, and the offset
/// grows by the number of new lines minus `old_count`.
pub open spec fn hunk_step(lines: Seq<Seq<char>>, h: HunkView, offset: int) -> HunkStep {
    let s = h.old_start - 1 + offset;
    if s < isize::MIN || s > isize::MAX {
        HunkStep::Aborts
    } else if s < 0 {
        match first_checked(h.lines, 0) {
            Some(rem) => HunkStep::Mismatch { pos: ((s as isize) as usize) as int, removed: rem },
            None => HunkStep::Aborts,
        }
    } else {
        match mismatch_from(lines, h.lines, 0, s) {
            Some((pos, rem)) => HunkStep::Mismatch { pos, removed: rem },
            None => {
                let end = if s + h.old_count < lines.len() {
                    s + h.old_count
                } else {
                    lines.len() as int
                };
                let r = replacement(h.lines);
                let noff = offset + r.len() - h.old_count;
                if s + h.old_count > usize::MAX || s > end || noff < isize::MIN || noff > isize::MAX {
                    HunkStep::Aborts
                } else {
                    HunkStep::Next(
                        lines.subrange(0, s) + r + lines.subrange(end, lines.len() as int),
                        noff,
                    )
                }
            },
        }
    }
}

/// Applying `hunks[k..]` in order to `lines` (see [`hunk_step`]).
pub open spec fn apply_from(lines: Seq<Seq<char>>, hunks: Seq<HunkView>, k: int, offset: int) -> HunksOutcome
    decreases hunks.len() - k,
{
    if k < 0 || k >= hunks.len() {
        HunksOutcome::Done(lines)
    } else {
        match hunk_step(lines, hunks[k], offset) {
            HunkStep::Next(l, o) => apply_from(l, hunks, k + 1, o),
            HunkStep::Mismatch { pos, removed } => HunksOutcome::Mismatch { hunk: k as nat, pos, removed },
            HunkStep::Aborts => HunksOutcome::Aborts,
        }
    }
}

/// The text made of lines: joined by newlines, with a final newline added
/// when the text is not empty and does not end with one.
pub open spec fn finish_text(lines: Seq<Seq<char>>) -> Seq<char> {
    let j = join(lines, nl());
    if j.len() > 0 && j.last() != '\n' {
        j.push('\n')
    } else {
        j
    }
}

/// The added lines of all hunks, each followed by a newline.
pub open spec fn created_text(hunks: Seq<HunkView>) -> Seq<char>
    decreases hunks.len(),
{
    if hunks.len() == 0 {
        Seq::empty()
    } else {
        created_text(hunks.drop_last()) + added_text(hunks.last().lines)
    }
}

/// The added lines of a hunk, each followed by a newline.
pub open spec fn added_text(hl: Seq<LineView>) -> Seq<char>
    decreases hl.len(),
{
    if hl.len() == 0 {
        Seq::empty()
    } else {
        added_text(hl.drop_last()) + match hl.last() {
            LineView::Added(x) => x + nl(),
            _ => Seq::empty(),
        }
    }
}

/// The message of a failed check.
pub open spec fn mismatch_message(hunk: nat, pos: int, removed: bool) -> Seq<char> {
    (if removed {
        "Remove mismatch at hunk "@
    } else {
        "Context mismatch at hunk "@
    }) + decimal(hunk) + ", line "@ + decimal(pos as nat)
}

/// What applying a diff to `content` gives: the new text, an error message,
/// or an aborting computation.
pub enum TextOutcome {
    Text(Seq<char>),
    Failed(Seq<char>),
    Aborts,
}

/// Applying a diff: a creation from empty content writes the added lines; a
/// deletion empties the file; otherwise the hunks are applied to the lines.
pub open spec fn apply_spec(content: Seq<char>, is_create: bool, is_delete: bool, hunks: Seq<HunkView>) -> TextOutcome {
    if is_create && content.len() == 0 {
        TextOutcome::Text(created_text(hunks))
    } else if is_delete {
        TextOutcome::Text(Seq::empty())
    } else {
        match apply_from(split_lines(content), hunks, 0, 0) {
            HunksOutcome::Done(l) => TextOutcome::Text(finish_text(l)),
            HunksOutcome::Mismatch { hunk, pos, removed } => TextOutcome::Failed(
                mismatch_message(hunk, pos, removed),
            ),
            HunksOutcome::Aborts => TextOutcome::Aborts,
        }
    }
}

/// The hunk numbers fit the signed offsets that application computes with.
pub open spec fn hunks_in_range(hunks: Seq<HunkView>) -> bool {
    forall|k: int|
        0 <= k < hunks.len() ==> (#[trigger] hunks[k]).old_start <= isize::MAX && hunks[k].old_count
            <= isize::MAX
}



// ─────────────────────────── Apply, executable ──────────────────────────────

/// A copy of the characters of a string.
pub fn string_chars(s: &String) -> (r: Vec<char>)
    ensures
        r@ == s@,
{
    chars_of(s.as_str())
}

/// The text of a diff line.
pub fn line_chars(l: &DiffLine) -> (r: Vec<char>)
    ensures
        r@ == line_text(l@),
{
    match l {
        DiffLine::Context(x) => string_chars(x),
        DiffLine::Added(x) => string_chars(x),
        DiffLine::Removed(x) => string_chars(x),
    }
}

proof fn lemma_replacement_step(hl: Seq<LineView>, t: int)
    requires
        0 <= t < hl.len(),
    ensures
        replacement(hl.take(t + 1)) == (match hl[t] {
            LineView::Removed(_) => replacement(hl.take(t)),
            LineView::Context(x) => replacement(hl.take(t)).push(x),
            LineView::Added(x) => replacement(hl.take(t)).push(x),
        }),
{
    assert(hl.take(t + 1).drop_last() =~= hl.take(t));
}

/// Appends `src[from..to]` to `dst`.
fn append_range(dst: &mut Vec<Vec<char>>, src: &Vec<Vec<char>>, from: usize, to: usize)
    requires
        from <= to <= src@.len(),
    ensures
        lines_view(final(dst)@) == lines_view(old(dst)@) + lines_view(src@).subrange(from as int, to as int),
{
    let mut i = from;
    let ghost base = lines_view(dst@);
    while i < to
        invariant
            from <= i <= to <= src@.len(),
            lines_view(dst@) == base + lines_view(src@).subrange(from as int, i as int),
        decreases to - i,
    {
        let row = slice_chars(&src[i], 0, src[i].len());
        assert(src@[i as int]@.subrange(0, src@[i as int]@.len() as int) =~= src@[i as int]@);
        assert(row@ == src@[i as int]@);
        let ghost before = dst@;
        dst.push(row);
        proof {
            let a = lines_view(dst@);
            let b = base + lines_view(src@).subrange(from as int, i + 1);
            let c = base + lines_view(src@).subrange(from as int, i as int);
            assert(lines_view(before) == c);
            assert(dst@.len() == before.len() + 1);
            assert(a.len() == dst@.len());
            assert(c.len() == before.len());
            assert(a.len() == b.len());
            assert forall|j: int| 0 <= j < a.len() implies a[j] == b[j] by {
                if j < a.len() - 1 {
                    assert(a[j] == dst@[j]@);
                    assert(dst@[j] == before[j]);
                    assert(lines_view(before)[j] == before[j]@);
                    assert(b[j] == c[j]);
                }
            }
            assert(a =~= b);
        }
        i = i + 1;
    }
}

/// Applies one hunk (see [`hunk_step`]): the new lines and offset, or the
/// position and kind of the first failed check.
fn apply_hunk(cur: &Vec<Vec<char>>, h: &DiffHunk, offset: isize) -> (r: Result<(Vec<Vec<char>>, isize), (usize, bool)>)
    requires
        h.old_start <= isize::MAX,
        h.old_count <= isize::MAX,
        h.lines@.len() <= isize::MAX,
        !(hunk_step(lines_view(cur@), h@, offset as int) is Aborts),
    ensures
        match hunk_step(lines_view(cur@), h@, offset as int) {
            HunkStep::Next(l, o) => r matches Ok((v, o2)) && lines_view(v@) == l && o2 as int == o,
            HunkStep::Mismatch { pos, removed } => r matches Err((p, rm)) && p as int == pos && rm == removed,
            HunkStep::Aborts => false,
        },
{
    let ghost hl = lines_of(h.lines@);
    let ghost l0 = lines_view(cur@);
    let s_wide: i128 = h.old_start as i128 - 1 + offset as i128;
    if s_wide < isize::MIN as i128 || s_wide > isize::MAX as i128 {
        return Err((0, false));
    }
    let s = s_wide as isize;
    if s < 0 {
        let mut t: usize = 0;
        while t < h.lines.len()
            invariant
                t <= h.lines@.len(),
                hl == lines_of(h.lines@),
                h@.lines == hl,
                l0 == lines_view(cur@),
                s < 0,
                s as int == h@.old_start - 1 + offset,
                first_checked(hl, 0) == first_checked(hl, t as int),
            decreases h.lines.len() - t,
        {
            match &h.lines[t] {
                DiffLine::Added(_) => {
                    t = t + 1;
                },
                DiffLine::Context(_) => {
                    assert(first_checked(hl, t as int) == Some(false));
                    return Err((s as usize, false));
                },
                DiffLine::Removed(_) => {
                    assert(first_checked(hl, t as int) == Some(true));
                    return Err((s as usize, true));
                },
            }
        }
        return Err((0, false));
    }
    let start = s as usize;
    let mut pos = start;
    let mut t: usize = 0;
    let mut repl: Vec<Vec<char>> = Vec::new();
    assert(hl.take(0) =~= Seq::<LineView>::empty());
    while t < h.lines.len()
        invariant
            t <= h.lines@.len() <= isize::MAX,
            hl == lines_of(h.lines@),
            l0 == lines_view(cur@),
            h@.lines == hl,
            start as int == s as int,
            s as int == h@.old_start - 1 + offset,
            0 <= s <= isize::MAX,
            pos >= start,
            mismatch_from(l0, hl, 0, start as int) == mismatch_from(l0, hl, t as int, pos as int),
            lines_view(repl@) == replacement(hl.take(t as int)),
            repl@.len() <= t,
        decreases h.lines.len() - t,
    {
        proof {
            lemma_replacement_step(hl, t as int);
        }
        let text = line_chars(&h.lines[t]);
        match &h.lines[t] {
            DiffLine::Added(_) => {
                repl.push(text);
            },
            DiffLine::Context(_) => {
                if pos >= cur.len() || !chars_eq(&cur[pos], &text) {
                    assert(hl[t as int] == LineView::Context(text@));
                    assert(mismatch_from(l0, hl, t as int, pos as int) == Some((pos as int, false)));
                    return Err((pos, false));
                }
                pos = pos + 1;
                repl.push(text);
            },
            DiffLine::Removed(_) => {
                if pos >= cur.len() || !chars_eq(&cur[pos], &text) {
                    return Err((pos, true));
                }
                pos = pos + 1;
            },
        }
        t = t + 1;
        assert(lines_view(repl@) =~= replacement(hl.take(t as int)));
    }
    assert(hl.take(t as int) =~= hl);
    let old_count = h.old_count;
    let end_wide: u128 = start as u128 + old_count as u128;
    if end_wide > usize::MAX as u128 {
        return Err((0, false));
    }
    let end = if start + old_count < cur.len() { start + old_count } else { cur.len() };
    if start > end {
        return Err((0, false));
    }
    let new_len = repl.len();
    let delta: isize = new_len as isize - old_count as isize;
    let noff_wide: i128 = offset as i128 + delta as i128;
    if noff_wide < isize::MIN as i128 || noff_wide > isize::MAX as i128 {
        return Err((0, false));
    }
    let mut next: Vec<Vec<char>> = Vec::new();
    append_range(&mut next, &cur, 0, start);
    append_range(&mut next, &repl, 0, repl.len());
    append_range(&mut next, &cur, end, cur.len());
    proof {
        assert(lines_view(repl@).subrange(0, repl@.len() as int) =~= lines_view(repl@));
        assert(lines_view(next@) =~= l0.subrange(0, start as int) + replacement(hl) + l0.subrange(
            end as int,
            l0.len() as int,
        ));
    }
    Ok((next, noff_wide as isize))
}

/// Applies the hunks in order (see [`apply_from`]): the resulting lines, or
/// the hunk number, position and kind of the first failed check.
pub fn apply_hunks(lines: Vec<Vec<char>>, hunks: &Vec<DiffHunk>) -> (r: Result<Vec<Vec<char>>, (usize, usize, bool)>)
    requires
        hunks_in_range(hunks_of(hunks@)),
        forall|k: int| 0 <= k < hunks@.len() ==> (#[trigger] hunks@[k]).lines@.len() <= isize::MAX,
        !(apply_from(lines_view(lines@), hunks_of(hunks@), 0, 0) is Aborts),
    ensures
        match apply_from(lines_view(lines@), hunks_of(hunks@), 0, 0) {
            HunksOutcome::Done(l) => r matches Ok(v) && lines_view(v@) == l,
            HunksOutcome::Mismatch { hunk, pos, removed } => r matches Err((a, b, c)) && a as int == hunk && b as int == pos && c == removed,
            HunksOutcome::Aborts => false,
        },
{
    let ghost hv = hunks_of(hunks@);
    let ghost goal = apply_from(lines_view(lines@), hv, 0, 0);
    let mut cur = lines;
    let mut offset: isize = 0;
    let mut k: usize = 0;
    while k < hunks.len()
        invariant
            k <= hunks@.len(),
            hv == hunks_of(hunks@),
            hunks_in_range(hv),
            forall|q: int| 0 <= q < hunks@.len() ==> (#[trigger] hunks@[q]).lines@.len() <= isize::MAX,
            goal == apply_from(lines_view(cur@), hv, k as int, offset as int),
            goal == apply_from(lines_view(lines@), hunks_of(hunks@), 0, 0),
            !(goal is Aborts),
        decreases hunks.len() - k,
    {
        let h = &hunks[k];
        assert(hv[k as int] == h@);
        match apply_hunk(&cur, h, offset) {
            Ok((next, noff)) => {
                cur = next;
                offset = noff;
            },
            Err((pos, removed)) => {
                assert(goal == HunksOutcome::Mismatch { hunk: k as nat, pos: pos as int, removed });
                return Err((k, pos, removed));
            },
        }
        k = k + 1;
    }
    Ok(cur)
}

/// The final text of applied lines (see [`finish_text`]).
pub fn finish_lines(lines: &Vec<Vec<char>>) -> (r: Vec<char>)
    ensures
        r@ == finish_text(lines_view(lines@)),
{
    let mut j = join_lines(lines);
    if j.len() > 0 && j[j.len() - 1] != '\n' {
        j.push('\n');
    }
    j
}

/// The added lines of all hunks, each followed by a newline (see [`created_text`]).
pub fn created_chars(hunks: &Vec<DiffHunk>) -> (r: Vec<char>)
    ensures
        r@ == created_text(hunks_of(hunks@)),
{
    let mut out: Vec<char> = Vec::new();
    let mut k: usize = 0;
    while k < hunks.len()
        invariant
            k <= hunks@.len(),
            out@ == created_text(hunks_of(hunks@).take(k as int)),
        decreases hunks.len() - k,
    {
        let ghost prev = out@;
        let h = &hunks[k];
        let mut t: usize = 0;
        while t < h.lines.len()
            invariant
                t <= h.lines@.len(),
                out@ == prev + added_text(lines_of(h.lines@).take(t as int)),
            decreases h.lines.len() - t,
        {
            let ghost before = out@;
            match &h.lines[t] {
                DiffLine::Added(x) => {
                    let c = string_chars(x);
                    let mut i: usize = 0;
                    while i < c.len()
                        invariant
                            i <= c@.len(),
                            out@ == before + c@.take(i as int),
                        decreases c.len() - i,
                    {
                        out.push(c[i]);
                        i = i + 1;
                        assert(out@ =~= before + c@.take(i as int));
                    }
                    out.push('\n');
                    assert(c@.take(c@.len() as int) =~= c@);
                },
                _ => {},
            }
            proof {
                let hl = lines_of(h.lines@);
                assert(hl.take(t + 1).drop_last() =~= hl.take(t as int));
                assert(out@ =~= prev + added_text(hl.take(t + 1)));
            }
            t = t + 1;
        }
        proof {
            assert(lines_of(h.lines@).take(t as int) =~= lines_of(h.lines@));
            assert(hunks_of(hunks@).take(k + 1).drop_last() =~= hunks_of(hunks@).take(k as int));
        }
        k = k + 1;
    }
    assert(hunks_of(hunks@).take(k as int) =~= hunks_of(hunks@));
    out
}

/// The message of a failed check (see [`mismatch_message`]).
pub fn mismatch_message_exec(hunk: usize, pos: usize, removed: bool) -> (r: String)
    ensures
        r@ == mismatch_message(hunk as nat, pos as int, removed),
{
    let mut v = if removed {
        chars_of("Remove mismatch at hunk ")
    } else {
        chars_of("Context mismatch at hunk ")
    };
    let h = decimal_chars(hunk);
    let mid = chars_of(", line ");
    let p = decimal_chars(pos);
    let ghost a = v@;
    let mut all: Vec<char> = Vec::new();
    all.append(&mut v);
    let mut h2 = h;
    all.append(&mut h2);
    let mut m2 = mid;
    all.append(&mut m2);
    let mut p2 = p;
    all.append(&mut p2);
    string_of(&all)
}

proof fn lemma_hunks_len_prefix(hs: Seq<HunkView>, k: int, j: int)
    requires
        0 <= k <= j <= hs.len(),
    ensures
        hunks_len(hs.take(k)) <= hunks_len(hs.take(j)),
    decreases j - k,
{
    if k < j {
        lemma_hunks_len_prefix(hs, k, j - 1);
        assert(hs.take(j).drop_last() =~= hs.take(j - 1));
    }
}

/// The numbers of added and removed lines over all hunks.
pub fn count_changes(hunks: &Vec<DiffHunk>) -> (r: (usize, usize))
    requires
        hunks_len(hunks_of(hunks@)) <= usize::MAX,
    ensures
        r.0 == hunks_added(hunks_of(hunks@)),
        r.1 == hunks_removed(hunks_of(hunks@)),
{
    let ghost hv = hunks_of(hunks@);
    let mut added: usize = 0;
    let mut removed: usize = 0;
    let mut k: usize = 0;
    assert(hv.take(0) =~= Seq::<HunkView>::empty());
    while k < hunks.len()
        invariant
            k <= hunks@.len(),
            hv == hunks_of(hunks@),
            hunks_len(hv) <= usize::MAX,
            added == hunks_added(hv.take(k as int)),
            removed == hunks_removed(hv.take(k as int)),
            added + removed <= hunks_len(hv.take(k as int)),
        decreases hunks.len() - k,
    {
        let h = &hunks[k];
        let ghost hl = lines_of(h.lines@);
        let ghost a0 = added as int;
        let ghost r0 = removed as int;
        proof {
            lemma_hunks_len_prefix(hv, k + 1, hv.len() as int);
            assert(hv.take(k + 1).drop_last() =~= hv.take(k as int));
            assert(hv[k as int] == h@);
            assert(hunks_len(hv.take(k + 1)) == hunks_len(hv.take(k as int)) + hl.len());
            assert(hv.take(hv.len() as int) =~= hv);
        }
        let mut t: usize = 0;
        assert(hl.take(0) =~= Seq::<LineView>::empty());
        while t < h.lines.len()
            invariant
                t <= h.lines@.len(),
                hl == lines_of(h.lines@),
                added == a0 + added_in(hl.take(t as int)),
                removed == r0 + removed_in(hl.take(t as int)),
                a0 + r0 + hl.len() <= usize::MAX,
                added + removed <= a0 + r0 + t,
            decreases h.lines.len() - t,
        {
            assert(hl.take(t + 1).drop_last() =~= hl.take(t as int));
            match &h.lines[t] {
                DiffLine::Added(_) => {
                    added = added + 1;
                },
                DiffLine::Removed(_) => {
                    removed = removed + 1;
                },
                DiffLine::Context(_) => {},
            }
            t = t + 1;
        }
        proof {
            assert(hl.take(t as int) =~= hl);
            assert(hv.take(k + 1).last() == h@);
        }
        k = k + 1;
    }
    assert(hv.take(k as int) =~= hv);
    (added, removed)
}

} // verus!
