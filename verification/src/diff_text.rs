//! Unified diff text: rendering diffs, and estimating their size in tokens.
use vstd::prelude::*;
use vstd::utf8::encode_utf8;
use crate::text::{decimal, decimal_chars, string_of, push_chars, push_str};
use crate::diff_lines::nl;
use crate::diff_model::{DiffLine, DiffHunk, LineView, HunkView, DiffOperation, FileDiff, line_text, hunks_of, lines_of};
use crate::diff_engine::DiffEngine;

verus! {

/// The one-character prefix of a line in unified format.
pub open spec fn prefix_char(l: LineView) -> char {
    match l {
        LineView::Context(_) => ' ',
        LineView::Added(_) => '+',
        LineView::Removed(_) => '-',
    }
}

/// A diff line as unified text: its prefix, then its text.
pub open spec fn render_line(l: LineView) -> Seq<char> {
    seq![prefix_char(l)] + line_text(l)
}

/// Lines as unified text, each followed by a newline.
pub open spec fn render_lines(hl: Seq<LineView>) -> Seq<char>
    decreases hl.len(),
{
    if hl.len() == 0 {
        Seq::empty()
    } else {
        render_lines(hl.drop_last()) + render_line(hl.last()) + nl()
    }
}

/// The `@@ -old_start,old_count +new_start,new_count @@` header line.
pub open spec fn hunk_header(h: HunkView) -> Seq<char> {
    "@@ -"@ + decimal(h.old_start) + ","@ + decimal(h.old_count) + " +"@ + decimal(h.new_start) + ","@
        + decimal(h.new_count) + " @@"@ + nl()
}

/// Hunks as unified text: each header followed by its lines.
pub open spec fn render_hunks(hs: Seq<HunkView>) -> Seq<char>
    decreases hs.len(),
{
    if hs.len() == 0 {
        Seq::empty()
    } else {
        render_hunks(hs.drop_last()) + hunk_header(hs.last()) + render_lines(hs.last().lines)
    }
}

/// The path on the `---` line: the original path of a rename, else the path.
pub open spec fn source_path(d: FileDiff) -> Seq<char> {
    match d.operation {
        DiffOperation::Rename { from } => from@,
        _ => d.path@,
    }
}

/// A diff in unified format.
pub open spec fn unified(d: FileDiff) -> Seq<char> {
    "--- a/"@ + source_path(d) + nl() + "+++ b/"@ + d.path@ + nl() + render_hunks(hunks_of(d.hunks@))
}

/// The number of bytes of a line's UTF-8 text.
pub open spec fn line_bytes(l: LineView) -> nat {
    encode_utf8(line_text(l)).len()
}

/// The characters counted for a hunk's lines: each line's bytes plus its
/// prefix and newline.
pub open spec fn lines_weight(hl: Seq<LineView>) -> nat
    decreases hl.len(),
{
    if hl.len() == 0 {
        0
    } else {
        lines_weight(hl.drop_last()) + line_bytes(hl.last()) + 2
    }
}

/// The characters counted for hunks: 30 for each header, plus their lines.
pub open spec fn hunks_weight(hs: Seq<HunkView>) -> nat
    decreases hs.len(),
{
    if hs.len() == 0 {
        0
    } else {
        hunks_weight(hs.drop_last()) + 30 + lines_weight(hs.last().lines)
    }
}

/// The characters counted for a diff of the file at `path` with hunks `hs`:
/// twice the path's bytes and 20 for the two header lines, plus its hunks.
pub open spec fn weight_of(path: Seq<char>, hs: Seq<HunkView>) -> nat {
    encode_utf8(path).len() * 2 + 20 + hunks_weight(hs)
}

/// The characters counted for a diff (see [`weight_of`]).
pub open spec fn diff_weight(d: FileDiff) -> nat {
    weight_of(d.path@, hunks_of(d.hunks@))
}

/// The token estimate of a diff: its weight divided by four, rounded up.
pub open spec fn token_estimate(d: FileDiff) -> nat {
    (diff_weight(d) + 3) / 4
}

impl DiffLine {
    /// The line in unified format: ` `, `+` or `-`, then its text.
    pub fn to_string(&self) -> (r: String)
        ensures
            r@ == render_line(self@),
    {
        let mut v: Vec<char> = Vec::new();
        match self {
            DiffLine::Context(l) => {
                v.push(' ');
                push_str(&mut v, l.as_str());
            },
            DiffLine::Added(l) => {
                v.push('+');
                push_str(&mut v, l.as_str());
            },
            DiffLine::Removed(l) => {
                v.push('-');
                push_str(&mut v, l.as_str());
            },
        }
        proof {
            assert(v@ =~= render_line(self@));
        }
        string_of(&v)
    }
}

/// Appends the header line of a hunk.
fn push_header(out: &mut Vec<char>, h: &DiffHunk)
    ensures
        final(out)@ == old(out)@ + hunk_header(h@),
{
    let ghost base = out@;
    push_str(out, "@@ -");
    push_chars(out, &decimal_chars(h.old_start));
    push_str(out, ",");
    push_chars(out, &decimal_chars(h.old_count));
    push_str(out, " +");
    push_chars(out, &decimal_chars(h.new_start));
    push_str(out, ",");
    push_chars(out, &decimal_chars(h.new_count));
    push_str(out, " @@");
    out.push('\n');
    assert(out@ =~= base + hunk_header(h@));
}

/// Appends the lines of a hunk, each followed by a newline.
fn push_lines(out: &mut Vec<char>, lines: &Vec<DiffLine>)
    ensures
        final(out)@ == old(out)@ + render_lines(lines_of(lines@)),
{
    let ghost base = out@;
    let ghost hl = lines_of(lines@);
    let mut t: usize = 0;
    assert(hl.take(0) =~= Seq::<LineView>::empty());
    while t < lines.len()
        invariant
            t <= lines@.len(),
            hl == lines_of(lines@),
            out@ == base + render_lines(hl.take(t as int)),
        decreases lines.len() - t,
    {
        let l = lines[t].to_string();
        push_str(out, l.as_str());
        out.push('\n');
        proof {
            assert(hl.take(t + 1).drop_last() =~= hl.take(t as int));
            assert(hl[t as int] == lines@[t as int]@);
            assert(out@ =~= base + render_lines(hl.take(t + 1)));
        }
        t = t + 1;
    }
    assert(hl.take(t as int) =~= hl);
}

impl DiffEngine {
    /// Format a [`FileDiff`] as unified diff text (see [`unified`]).
    pub fn format_unified(&self, diff: &FileDiff) -> (r: String)
        ensures
            r@ == unified(*diff),
    {
        let mut out: Vec<char> = Vec::new();
        push_str(&mut out, "--- a/");
        match &diff.operation {
            DiffOperation::Rename { from } => push_str(&mut out, from.as_str()),
            _ => push_str(&mut out, diff.path.as_str()),
        }
        out.push('\n');
        push_str(&mut out, "+++ b/");
        push_str(&mut out, diff.path.as_str());
        out.push('\n');
        let ghost head = out@;
        let ghost hv = hunks_of(diff.hunks@);
        let mut k: usize = 0;
        assert(hv.take(0) =~= Seq::<HunkView>::empty());
        while k < diff.hunks.len()
            invariant
                k <= diff.hunks@.len(),
                hv == hunks_of(diff.hunks@),
                out@ == head + render_hunks(hv.take(k as int)),
            decreases diff.hunks.len() - k,
        {
            let h = &diff.hunks[k];
            push_header(&mut out, h);
            push_lines(&mut out, &h.lines);
            proof {
                assert(hv.take(k + 1).drop_last() =~= hv.take(k as int));
                assert(hv[k as int] == h@);
                assert(out@ =~= head + render_hunks(hv.take(k + 1)));
            }
            k = k + 1;
        }
        assert(hv.take(k as int) =~= hv);
        assert(out@ =~= unified(*diff));
        string_of(&out)
    }
}

proof fn lemma_lines_weight_prefix(hl: Seq<LineView>, k: int, j: int)
    requires
        0 <= k <= j <= hl.len(),
    ensures
        lines_weight(hl.take(k)) <= lines_weight(hl.take(j)),
    decreases j - k,
{
    if k < j {
        lemma_lines_weight_prefix(hl, k, j - 1);
        assert(hl.take(j).drop_last() =~= hl.take(j - 1));
    }
}

proof fn lemma_hunks_weight_prefix(hs: Seq<HunkView>, k: int, j: int)
    requires
        0 <= k <= j <= hs.len(),
    ensures
        hunks_weight(hs.take(k)) <= hunks_weight(hs.take(j)),
    decreases j - k,
{
    if k < j {
        lemma_hunks_weight_prefix(hs, k, j - 1);
        assert(hs.take(j).drop_last() =~= hs.take(j - 1));
    }
}

impl DiffEngine {
    /// Estimate the token count of a diff (see [`token_estimate`]): about
    /// one token per four bytes of its unified text.
    pub fn estimate_tokens(&self, diff: &FileDiff) -> (r: usize)
        requires
            diff_weight(*diff) + 3 <= usize::MAX,
        ensures
            r == token_estimate(*diff),
    {
        let ghost hv = hunks_of(diff.hunks@);
        let ghost total = diff_weight(*diff);
        let path_len = diff.path.as_str().len();
        let mut chars: usize = path_len * 2 + 20;
        let ghost head = chars as nat;
        let mut k: usize = 0;
        assert(hv.take(0) =~= Seq::<HunkView>::empty());
        while k < diff.hunks.len()
            invariant
                k <= diff.hunks@.len(),
                hv == hunks_of(diff.hunks@),
                total == head + hunks_weight(hv),
                total + 3 <= usize::MAX,
                chars == head + hunks_weight(hv.take(k as int)),
            decreases diff.hunks.len() - k,
        {
            let h = &diff.hunks[k];
            let ghost hl = lines_of(h.lines@);
            proof {
                lemma_hunks_weight_prefix(hv, k + 1, hv.len() as int);
                assert(hv.take(k + 1).drop_last() =~= hv.take(k as int));
                assert(hv[k as int] == h@);
                assert(hv.take(hv.len() as int) =~= hv);
            }
            let ghost before = chars as nat;
            chars = chars + 30;
            let mut t: usize = 0;
            assert(hl.take(0) =~= Seq::<LineView>::empty());
            while t < h.lines.len()
                invariant
                    t <= h.lines@.len(),
                    hl == lines_of(h.lines@),
                    before + 30 + lines_weight(hl) <= usize::MAX,
                    chars == before + 30 + lines_weight(hl.take(t as int)),
                decreases h.lines.len() - t,
            {
                proof {
                    lemma_lines_weight_prefix(hl, t + 1, hl.len() as int);
                    assert(hl.take(t + 1).drop_last() =~= hl.take(t as int));
                    assert(hl.take(hl.len() as int) =~= hl);
                    assert(hl[t as int] == h.lines@[t as int]@);
                }
                let n = match &h.lines[t] {
                    DiffLine::Context(l) => l.as_str().len(),
                    DiffLine::Added(l) => l.as_str().len(),
                    DiffLine::Removed(l) => l.as_str().len(),
                };
                chars = chars + n + 2;
                t = t + 1;
            }
            assert(hl.take(t as int) =~= hl);
            k = k + 1;
        }
        assert(hv.take(k as int) =~= hv);
        (chars + 3) / 4
    }
}

} // verus!
