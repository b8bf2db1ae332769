//! Reading unified diff text back into a [`FileDiff`].
use vstd::prelude::*;
use crate::text::{
    is_prefix, occurs_at, first_occurrence, decimal, decimal_chars, chars_of, string_of, push_chars, push_str,
    starts_with_str, eq_str, find_from, slice_chars, is_space, is_whitespace, IntParse,
    int_parse, parse_int, int_error_message, int_error_text,
};
use crate::diff_lines::{str_lines, lines_view, str_lines_exec};
use crate::diff_model::{
    DiffLine, DiffHunk, LineView, HunkView, DiffOperation, FileDiff, hunks_of, lines_of, hunks_added,
    hunks_removed, added_in, removed_in,
};
use crate::diff_engine::DiffEngine;

verus! {

/// The name the debug format gives a string: quoted, with escapes.
pub uninterp spec fn debug_quoted(s: Seq<char>) -> Seq<char>;

/// The string in debug format (`{:?}`): quoted, with escapes.
#[verifier::external_body]
pub(crate) fn debug_text(s: &[char]) -> (r: Vec<char>)
    ensures
        r@ == debug_quoted(s@),
{
    let t: String = s.iter().collect();
    format!("{t:?}").chars().collect()
}

/// The words of `s`: its maximal runs of characters that are not whitespace
/// (`str::split_whitespace`).
pub open spec fn words(s: Seq<char>) -> Seq<Seq<char>>
    decreases s.len(),
{
    if s.len() == 0 {
        Seq::empty()
    } else {
        let w = words(s.drop_last());
        let c = s.last();
        if is_space(c) {
            w
        } else if s.len() == 1 || is_space(s[s.len() - 2]) {
            w.push(seq![c])
        } else {
            w.update(w.len() - 1, w.last().push(c))
        }
    }
}

/// A range `start,count`, or `start` alone with a count of one; `ctx` is
/// the header line quoted in errors.
pub open spec fn range_parse(s: Seq<char>, ctx: Seq<char>) -> Result<(usize, usize), Seq<char>> {
    match first_occurrence(s, seq![','], 0) {
        Some(p) => match int_parse(s.take(p)) {
            IntParse::Value(a) => match int_parse(s.skip(p + 1)) {
                IntParse::Value(b) => Ok((a, b)),
                e => Err("Bad count in "@ + ctx + ": "@ + int_error_message(e)),
            },
            e => Err("Bad start in "@ + ctx + ": "@ + int_error_message(e)),
        },
        None => match int_parse(s) {
            IntParse::Value(a) => Ok((a, 1)),
            e => Err("Bad range in "@ + ctx + ": "@ + int_error_message(e)),
        },
    }
}

/// The four numbers of a `@@ -a,b +c,d @@` header line.
#[verifier::opaque]
pub open spec fn header_parse(line: Seq<char>) -> Result<(usize, usize, usize, usize), Seq<char>> {
    let invalid = "Invalid hunk header: "@ + line;
    if !is_prefix("@@ "@, line) {
        Err(invalid)
    } else {
        match first_occurrence(line.skip(3), " @@"@, 0) {
            None => Err(invalid),
            Some(p) => {
                let parts = words(line.skip(3).take(p));
                if parts.len() != 2 {
                    Err(
                        "Expected 2 parts in hunk header, got "@ + decimal(parts.len()) + ": "@
                            + line,
                    )
                } else if !is_prefix(seq!['-'], parts[0]) {
                    Err("Missing '-' in old range: "@ + line)
                } else if !is_prefix(seq!['+'], parts[1]) {
                    Err("Missing '+' in new range: "@ + line)
                } else {
                    match range_parse(parts[0].drop_first(), line) {
                        Err(m) => Err(m),
                        Ok((a, b)) => match range_parse(parts[1].drop_first(), line) {
                            Err(m) => Err(m),
                            Ok((c, d)) => Ok((a, b, c, d)),
                        },
                    }
                }
            },
        }
    }
}

/// The diff line a text line stands for, if its prefix is known: ` `, `+`,
/// `-`, or an empty line for an empty context line.
pub open spec fn line_item(dl: Seq<char>) -> Option<LineView> {
    if dl.len() == 0 {
        Some(LineView::Context(Seq::empty()))
    } else if dl[0] == ' ' {
        Some(LineView::Context(dl.drop_first()))
    } else if dl[0] == '+' {
        Some(LineView::Added(dl.drop_first()))
    } else if dl[0] == '-' {
        Some(LineView::Removed(dl.drop_first()))
    } else {
        None
    }
}

/// A hunk whose header has been read and whose lines are being read.
pub type OpenHunk = ((usize, usize, usize, usize), Seq<LineView>);

/// The hunks read so far, with the open one closed.
pub open spec fn close_hunk(acc: Seq<HunkView>, cur: Option<OpenHunk>) -> Seq<HunkView> {
    match cur {
        None => acc,
        Some((h, ls)) => acc.push(
            HunkView { old_start: h.0 as nat, old_count: h.1 as nat, new_start: h.2 as nat, new_count: h.3 as nat, lines: ls },
        ),
    }
}

/// Reading the hunks from line `i` on: a line starting with `@@ ` opens a
/// new hunk; before the first hunk other lines are skipped; inside a hunk
/// each line must be a diff line.
#[verifier::opaque]
pub open spec fn scan_hunks(tl: Seq<Seq<char>>, i: int, cur: Option<OpenHunk>, acc: Seq<HunkView>) -> Result<
    Seq<HunkView>,
    Seq<char>,
>
    decreases tl.len() - i,
{
    if i < 0 || i >= tl.len() {
        Ok(close_hunk(acc, cur))
    } else if is_prefix("@@ "@, tl[i]) {
        match header_parse(tl[i]) {
            Err(m) => Err(m),
            Ok(h) => scan_hunks(tl, i + 1, Some((h, Seq::empty())), close_hunk(acc, cur)),
        }
    } else {
        match cur {
            None => scan_hunks(tl, i + 1, None, acc),
            Some((h, ls)) => match line_item(tl[i]) {
                None => Err(
                    "Unexpected line prefix at line "@ + decimal(i as nat) + ": "@ + debug_quoted(tl[i]),
                ),
                Some(x) => scan_hunks(tl, i + 1, Some((h, ls.push(x))), acc),
            },
        }
    }
}

/// The kind of a parsed diff, with the original path of a rename.
pub enum OperationView {
    Modify,
    Create,
    Delete,
    Rename(Seq<char>),
}

/// The view of a [`DiffOperation`].
pub open spec fn op_view(op: DiffOperation) -> OperationView {
    match op {
        DiffOperation::Modify => OperationView::Modify,
        DiffOperation::Create => OperationView::Create,
        DiffOperation::Delete => OperationView::Delete,
        DiffOperation::Rename { from } => OperationView::Rename(from@),
    }
}

/// What a parsed diff holds.
pub struct ParsedView {
    pub path: Seq<char>,
    pub operation: OperationView,
    pub hunks: Seq<HunkView>,
}

/// The path on a `--- ` or `+++ ` line: after `--- a/` (or `+++ b/`) when
/// present, else after the four-character marker.
pub open spec fn header_path(line: Seq<char>, long: Seq<char>) -> Seq<char> {
    if is_prefix(long, line) {
        line.skip(6)
    } else {
        line.skip(4)
    }
}

/// The operation that the two header paths stand for: a created file
/// comes from `/dev/null`, a deleted one goes to it, a rename has two
/// different paths, and otherwise the file is modified.
pub open spec fn op_from_paths(a: Seq<char>, b: Seq<char>) -> OperationView {
    if a == "/dev/null"@ {
        OperationView::Create
    } else if b == "/dev/null"@ {
        OperationView::Delete
    } else if a != b {
        OperationView::Rename(a)
    } else {
        OperationView::Modify
    }
}

/// Reading unified diff text: the `---` and `+++` lines, then the hunks.
pub open spec fn parse_spec(text: Seq<char>) -> Result<ParsedView, Seq<char>> {
    let tl = str_lines(text);
    if tl.len() < 2 {
        Err("Diff text too short: expected at least --- and +++ lines"@)
    } else if !is_prefix("--- "@, tl[0]) {
        Err("Expected '--- ' prefix, got: "@ + tl[0])
    } else if !is_prefix("+++ "@, tl[1]) {
        Err("Expected '+++ ' prefix, got: "@ + tl[1])
    } else {
        let a = header_path(tl[0], "--- a/"@);
        let b = header_path(tl[1], "+++ b/"@);
        match scan_hunks(tl, 2, None, Seq::empty()) {
            Err(m) => Err(m),
            Ok(hs) => Ok(ParsedView { path: b, operation: op_from_paths(a, b), hunks: hs }),
        }
    }
}

/// The words of `s` (see [`words`]).
pub(crate) fn words_exec(s: &[char]) -> (r: Vec<Vec<char>>)
    ensures
        lines_view(r@) == words(s@),
{
    let mut out: Vec<Vec<char>> = Vec::new();
    let mut i: usize = 0;
    assert(s@.take(0) =~= Seq::<char>::empty());
    while i < s.len()
        invariant
            i <= s@.len(),
            lines_view(out@) == words(s@.take(i as int)),
            i > 0 && !is_space(s@[i - 1]) ==> out@.len() > 0,
        decreases s.len() - i,
    {
        let c = s[i];
        let ghost t = s@.take(i + 1);
        proof {
            assert(t.drop_last() =~= s@.take(i as int));
            assert(t.last() == c);
            if i > 0 {
                assert(t[t.len() - 2] == s@[i - 1]);
            }
        }
        if is_whitespace(c) {
        } else if i == 0 || is_whitespace(s[i - 1]) {
            let mut w: Vec<char> = Vec::new();
            w.push(c);
            out.push(w);
            proof {
                assert(lines_view(out@) =~= words(s@.take(i as int)).push(seq![c]));
            }
        } else {
            let ghost before = out@;
            let mut w = out.pop().unwrap();
            w.push(c);
            out.push(w);
            proof {
                let wv = words(s@.take(i as int));
                assert(lines_view(out@) =~= wv.update(wv.len() - 1, wv.last().push(c)));
            }
        }
        i = i + 1;
    }
    assert(s@.take(i as int) =~= s@);
    out
}

/// Appends `a`, then `b`, then `c`, then `d` into a new vector.
fn concat4(a: &[char], b: &[char], c: &[char], d: &[char]) -> (r: Vec<char>)
    ensures
        r@ == a@ + b@ + c@ + d@,
{
    let mut v: Vec<char> = Vec::new();
    push_chars(&mut v, a);
    push_chars(&mut v, b);
    push_chars(&mut v, c);
    push_chars(&mut v, d);
    assert(v@ =~= a@ + b@ + c@ + d@);
    v
}

/// A range `start,count` or `start` (see [`range_parse`]).
fn range_exec(s: &[char], ctx: &[char]) -> (r: Result<(usize, usize), Vec<char>>)
    ensures
        match range_parse(s@, ctx@) {
            Ok(v) => r matches Ok(x) && x == v,
            Err(m) => r matches Err(e) && e@ == m,
        },
{
    let comma = vec![','];
    assert(comma@ =~= seq![',']);
    let sep = chars_of(": ");
    match find_from(s, &comma, 0) {
        Some(p) => {
            assert(occurs_at(s@, comma@, p as int));
            assert(comma@.len() == 1);
            let n = s.len();
            assert(p + 1 <= n);
            let a = slice_chars(s, 0, p);
            let b = slice_chars(s, p + 1, n);
            assert(a@ =~= s@.take(p as int));
            assert(b@ =~= s@.skip(p + 1));
            match parse_int(&a) {
                IntParse::Value(x) => match parse_int(&b) {
                    IntParse::Value(y) => Ok((x, y)),
                    e => Err(concat4(&chars_of("Bad count in "), ctx, &sep, &int_error_text(&e))),
                },
                e => Err(concat4(&chars_of("Bad start in "), ctx, &sep, &int_error_text(&e))),
            }
        },
        None => match parse_int(s) {
            IntParse::Value(x) => Ok((x, 1)),
            e => Err(concat4(&chars_of("Bad range in "), ctx, &sep, &int_error_text(&e))),
        },
    }
}

/// The four numbers of a hunk header (see [`header_parse`]).
fn header_exec(line: &[char]) -> (r: Result<(usize, usize, usize, usize), Vec<char>>)
    ensures
        match header_parse(line@) {
            Ok(v) => r matches Ok(x) && x == v,
            Err(m) => r matches Err(e) && e@ == m,
        },
{
    reveal(header_parse);
    let mut invalid = chars_of("Invalid hunk header: ");
    push_chars(&mut invalid, line);
    if !starts_with_str(line, "@@ ") {
        return Err(invalid);
    }
    proof {
        reveal_strlit("@@ ");
    }
    let rest = slice_chars(line, 3, line.len());
    assert(rest@ =~= line@.skip(3));
    let close = chars_of(" @@");
    let p = match find_from(&rest, &close, 0) {
        Some(p) => p,
        None => {
            return Err(invalid);
        },
    };
    let inner = slice_chars(&rest, 0, p);
    assert(inner@ =~= line@.skip(3).take(p as int));
    let parts = words_exec(&inner);
    if parts.len() != 2 {
        let mut m = chars_of("Expected 2 parts in hunk header, got ");
        push_chars(&mut m, &decimal_chars(parts.len()));
        push_str(&mut m, ": ");
        push_chars(&mut m, line);
        return Err(m);
    }
    assert(parts@[0]@ == lines_view(parts@)[0]);
    assert(parts@[1]@ == lines_view(parts@)[1]);
    let minus = vec!['-'];
    let plus = vec!['+'];
    assert(minus@ =~= seq!['-']);
    assert(plus@ =~= seq!['+']);
    if !crate::text::starts_with(&parts[0], &minus) {
        let mut m = chars_of("Missing '-' in old range: ");
        push_chars(&mut m, line);
        return Err(m);
    }
    if !crate::text::starts_with(&parts[1], &plus) {
        let mut m = chars_of("Missing '+' in new range: ");
        push_chars(&mut m, line);
        return Err(m);
    }
    let old_part = slice_chars(&parts[0], 1, parts[0].len());
    let new_part = slice_chars(&parts[1], 1, parts[1].len());
    assert(old_part@ =~= parts@[0]@.drop_first());
    assert(new_part@ =~= parts@[1]@.drop_first());
    let (a, b) = match range_exec(&old_part, line) {
        Ok(v) => v,
        Err(m) => {
            return Err(m);
        },
    };
    let (c, d) = match range_exec(&new_part, line) {
        Ok(v) => v,
        Err(m) => {
            return Err(m);
        },
    };
    Ok((a, b, c, d))
}

/// The view of the hunk being read, if any.
pub open spec fn open_view(cur: Option<((usize, usize, usize, usize), Vec<DiffLine>)>) -> Option<OpenHunk> {
    match cur {
        None => None,
        Some((h, ls)) => Some((h, lines_of(ls@))),
    }
}

/// The hunk being read, closed: pushed onto `hunks`.
fn close_open(hunks: &mut Vec<DiffHunk>, cur: Option<((usize, usize, usize, usize), Vec<DiffLine>)>)
    ensures
        hunks_of(final(hunks)@) == close_hunk(hunks_of(old(hunks)@), open_view(cur)),
{
    match cur {
        Some((h, ls)) => {
            let ghost before = hunks@;
            hunks.push(DiffHunk { old_start: h.0, old_count: h.1, new_start: h.2, new_count: h.3, lines: ls });
            assert(hunks_of(hunks@) =~= close_hunk(hunks_of(before), open_view(cur)));
        },
        None => {},
    }
}

/// The message for a line with an unknown prefix.
fn unexpected_line(i: usize, dl: &[char]) -> (r: Vec<char>)
    ensures
        r@ == "Unexpected line prefix at line "@ + decimal(i as nat) + ": "@ + debug_quoted(dl@),
{
    concat4(&chars_of("Unexpected line prefix at line "), &decimal_chars(i), &chars_of(": "), &debug_text(dl))
}

/// `s` with `prefix` in front.
fn prefixed(prefix: &str, s: &[char]) -> (r: String)
    ensures
        r@ == prefix@ + s@,
{
    let mut v = chars_of(prefix);
    push_chars(&mut v, s);
    string_of(&v)
}

/// The path after the first `skip` characters of a header line.
fn path_after(line: &[char], skip: usize) -> (r: Vec<char>)
    requires
        skip <= line@.len(),
    ensures
        r@ == line@.skip(skip as int),
{
    let r = slice_chars(line, skip, line.len());
    assert(r@ =~= line@.skip(skip as int));
    r
}

/// The counters hold the added and removed lines of the closed hunks and of
/// the open one.
pub open spec fn counted(hv: Seq<HunkView>, cur: Option<OpenHunk>, a: nat, d: nat) -> bool {
    &&& a == hunks_added(hv) + match cur {
        Some((h, ls)) => added_in(ls),
        None => 0,
    }
    &&& d == hunks_removed(hv) + match cur {
        Some((h, ls)) => removed_in(ls),
        None => 0,
    }
}

/// One step of [`scan_hunks`] on line `i`.
fn scan_line(
    tl: &Vec<Vec<char>>,
    i: usize,
    hunks: &mut Vec<DiffHunk>,
    cur: &mut Option<((usize, usize, usize, usize), Vec<DiffLine>)>,
    additions: &mut usize,
    deletions: &mut usize,
) -> (r: Result<(), Vec<char>>)
    requires
        2 <= i < tl@.len(),
        *old(additions) + *old(deletions) <= i,
        counted(hunks_of(old(hunks)@), open_view(*old(cur)), *old(additions) as nat, *old(deletions) as nat),
    ensures
        match r {
            Ok(_) => scan_hunks(lines_view(tl@), i as int, open_view(*old(cur)), hunks_of(old(hunks)@))
                == scan_hunks(lines_view(tl@), i + 1, open_view(*final(cur)), hunks_of(final(hunks)@))
                && *final(additions) + *final(deletions) <= i + 1 && counted(
                hunks_of(final(hunks)@),
                open_view(*final(cur)),
                *final(additions) as nat,
                *final(deletions) as nat,
            ),
            Err(m) => scan_hunks(lines_view(tl@), i as int, open_view(*old(cur)), hunks_of(old(hunks)@))
                == Err::<Seq<HunkView>, Seq<char>>(m@),
        },
{
    reveal(scan_hunks);
    let n = tl.len();
    assert(i < n);
    let ghost tv = lines_view(tl@);
    assert(tl@[i as int]@ == tv[i as int]);
    if starts_with_str(&tl[i], "@@ ") {
        match header_exec(&tl[i]) {
            Err(m) => {
                return Err(m);
            },
            Ok(h) => {
                let mut prev: Option<((usize, usize, usize, usize), Vec<DiffLine>)> = Some((h, Vec::new()));
                std::mem::swap(cur, &mut prev);
                proof {
                    let hv = hunks_of(hunks@);
                    match open_view(prev) {
                        Some((hh, ls)) => {
                            assert(close_hunk(hv, open_view(prev)).drop_last() =~= hv);
                        },
                        None => {},
                    }
                    assert(lines_of(Seq::<DiffLine>::empty()) =~= Seq::<LineView>::empty());
                }
                close_open(hunks, prev);
                return Ok(());
            },
        }
    }
    let mut taken: Option<((usize, usize, usize, usize), Vec<DiffLine>)> = None;
    std::mem::swap(cur, &mut taken);
    match taken {
        None => Ok(()),
        Some((h, mut ls)) => {
            let dl = &tl[i];
            let ghost before = ls@;
            if dl.len() == 0 {
                ls.push(DiffLine::Context(String::new()));
            } else if dl[0] == ' ' {
                ls.push(DiffLine::Context(string_of(&path_after(dl, 1))));
            } else if dl[0] == '+' {
                ls.push(DiffLine::Added(string_of(&path_after(dl, 1))));
                *additions = *additions + 1;
            } else if dl[0] == '-' {
                ls.push(DiffLine::Removed(string_of(&path_after(dl, 1))));
                *deletions = *deletions + 1;
            } else {
                return Err(unexpected_line(i, dl));
            }
            proof {
                assert(lines_of(ls@).drop_last() =~= lines_of(before));
                assert(dl@.skip(1) =~= dl@.drop_first());
                assert(Some(lines_of(ls@).last()) == line_item(tv[i as int]));
                assert(lines_of(ls@) =~= lines_of(before).push(lines_of(ls@).last()));
            }
            *cur = Some((h, ls));
            Ok(())
        },
    }
}

impl DiffEngine {
    /// Parse unified diff text back into a [`FileDiff`] (see
    /// [`parse_spec`]); the added and removed lines are counted.
    pub fn parse_unified(&self, text: &str) -> (r: Result<FileDiff, String>)
        ensures
            match parse_spec(text@) {
                Ok(p) => r matches Ok(d) && d.path@ == p.path && op_view(d.operation) == p.operation
                    && hunks_of(d.hunks@) == p.hunks && d.additions == hunks_added(p.hunks)
                    && d.deletions == hunks_removed(p.hunks),
                Err(m) => r matches Err(e) && e@ == m,
            },
    {
        let tc = chars_of(text);
        let tl = crate::diff_lines::str_lines_exec(&tc);
        let ghost tv = lines_view(tl@);
        if tl.len() < 2 {
            return Err(string_of(&chars_of("Diff text too short: expected at least --- and +++ lines")));
        }
        assert(tl@[0]@ == tv[0] && tl@[1]@ == tv[1]);
        if !starts_with_str(&tl[0], "--- ") {
            return Err(prefixed("Expected '--- ' prefix, got: ", &tl[0]));
        }
        if !starts_with_str(&tl[1], "+++ ") {
            return Err(prefixed("Expected '+++ ' prefix, got: ", &tl[1]));
        }
        proof {
            reveal_strlit("--- ");
            reveal_strlit("+++ ");
            reveal_strlit("--- a/");
            reveal_strlit("+++ b/");
        }
        let a = if starts_with_str(&tl[0], "--- a/") { path_after(&tl[0], 6) } else { path_after(&tl[0], 4) };
        let b = if starts_with_str(&tl[1], "+++ b/") { path_after(&tl[1], 6) } else { path_after(&tl[1], 4) };
        let operation = if eq_str(&a, "/dev/null") {
            DiffOperation::Create
        } else if eq_str(&b, "/dev/null") {
            DiffOperation::Delete
        } else if !crate::text::chars_eq(&a, &b) {
            DiffOperation::Rename { from: string_of(&a) }
        } else {
            DiffOperation::Modify
        };
        let mut hunks: Vec<DiffHunk> = Vec::new();
        let mut cur: Option<((usize, usize, usize, usize), Vec<DiffLine>)> = None;
        let mut additions: usize = 0;
        let mut deletions: usize = 0;
        let mut i: usize = 2;
        let ghost goal = scan_hunks(tv, 2, None, Seq::empty());
        assert(parse_spec(text@) == match goal {
            Err(m) => Err(m),
            Ok(hs) => Ok(ParsedView { path: b@, operation: op_view(operation), hunks: hs }),
        });
        assert(hunks_of(hunks@) =~= Seq::<HunkView>::empty());
        while i < tl.len()
            invariant
                2 <= i <= tl@.len(),
                tv == lines_view(tl@),
                goal == scan_hunks(tv, i as int, open_view(cur), hunks_of(hunks@)),
                parse_spec(text@) == match goal {
                    Err(m) => Err(m),
                    Ok(hs) => Ok(ParsedView { path: b@, operation: op_view(operation), hunks: hs }),
                },
                counted(hunks_of(hunks@), open_view(cur), additions as nat, deletions as nat),
                additions + deletions <= i,
            decreases tl.len() - i,
        {
            match scan_line(&tl, i, &mut hunks, &mut cur, &mut additions, &mut deletions) {
                Ok(_) => {},
                Err(m) => {
                    return Err(string_of(&m));
                },
            }
            i = i + 1;
        }
        let ghost hv = hunks_of(hunks@);
        let ghost cv = open_view(cur);
        close_open(&mut hunks, cur);
        proof {
            reveal(scan_hunks);
            match cv {
                Some((hh, ls)) => {
                    assert(close_hunk(hv, cv).drop_last() =~= hv);
                },
                None => {},
            }
        }
        Ok(FileDiff { path: string_of(&b), operation, hunks, additions, deletions })
    }
}

// ---------------------------------------------------------------------------
// When reading fails
// ---------------------------------------------------------------------------

/// A line that starts a hunk but is not a valid hunk header.
pub open spec fn bad_header(l: Seq<char>) -> bool {
    is_prefix("@@ "@, l) && header_parse(l) is Err
}

/// A line that starts no hunk and is no diff line.
pub open spec fn bad_line(l: Seq<char>) -> bool {
    !is_prefix("@@ "@, l) && line_item(l) is None
}

/// A hunk is open at line `k` when scanning from line `i`: one was open
/// before, or a hunk header stands between `i` and `k`.
pub open spec fn hunk_open_at(tl: Seq<Seq<char>>, i: int, k: int, open_before: bool) -> bool {
    open_before || exists|j: int| i <= j < k && #[trigger] is_prefix("@@ "@, tl[j])
}

/// Some line from `i` on makes reading fail: a bad hunk header, or a line
/// that is no diff line inside a hunk.
pub open spec fn fails_from(tl: Seq<Seq<char>>, i: int, open_before: bool) -> bool {
    exists|k: int|
        i <= k < tl.len() && (bad_header(#[trigger] tl[k]) || (bad_line(tl[k]) && hunk_open_at(tl, i, k, open_before)))
}

/// Reading the hunks from line `i` fails exactly when some line from there
/// on is a bad hunk header, or a line that is no diff line while a hunk is
/// open.
#[verifier::spinoff_prover]
#[verifier::rlimit(40)]
pub proof fn lemma_scan_fails(tl: Seq<Seq<char>>, i: int, cur: Option<OpenHunk>, acc: Seq<HunkView>)
    requires
        0 <= i <= tl.len(),
    ensures
        (scan_hunks(tl, i, cur, acc) is Err) == fails_from(tl, i, cur is Some),
    decreases tl.len() - i,
{
    reveal(scan_hunks);
    if i < tl.len() {
        let l = tl[i];
        if is_prefix("@@ "@, l) {
            match header_parse(l) {
                Err(_) => {
                    assert(bad_header(tl[i]));
                },
                Ok(h) => {
                    lemma_scan_fails(tl, i + 1, Some((h, Seq::empty())), close_hunk(acc, cur));
                    if fails_from(tl, i + 1, true) {
                        let k = choose|k: int| i + 1 <= k < tl.len() && (bad_header(#[trigger] tl[k]) || (bad_line(tl[k]) && hunk_open_at(tl, i + 1, k, true)));
                        if bad_line(tl[k]) {
                            assert(is_prefix("@@ "@, tl[i]));
                            assert(hunk_open_at(tl, i, k, cur is Some));
                        }
                    }
                    if fails_from(tl, i, cur is Some) {
                        let k = choose|k: int| i <= k < tl.len() && (bad_header(#[trigger] tl[k]) || (bad_line(tl[k]) && hunk_open_at(tl, i, k, cur is Some)));
                        assert(k != i);
                        assert(hunk_open_at(tl, i + 1, k, true));
                    }
                },
            }
        } else {
            match cur {
                None => {
                    lemma_scan_fails(tl, i + 1, None, acc);
                    if fails_from(tl, i + 1, false) {
                        let k = choose|k: int| i + 1 <= k < tl.len() && (bad_header(#[trigger] tl[k]) || (bad_line(tl[k]) && hunk_open_at(tl, i + 1, k, false)));
                        if bad_line(tl[k]) {
                            let j = choose|j: int| i + 1 <= j < k && #[trigger] is_prefix("@@ "@, tl[j]);
                            assert(hunk_open_at(tl, i, k, false));
                        }
                    }
                    if fails_from(tl, i, false) {
                        let k = choose|k: int| i <= k < tl.len() && (bad_header(#[trigger] tl[k]) || (bad_line(tl[k]) && hunk_open_at(tl, i, k, false)));
                        if k == i {
                            assert(!bad_header(tl[i]));
                            let j = choose|j: int| i <= j < k && #[trigger] is_prefix("@@ "@, tl[j]);
                        }
                        if bad_line(tl[k]) {
                            let j = choose|j: int| i <= j < k && #[trigger] is_prefix("@@ "@, tl[j]);
                            assert(j != i);
                            assert(hunk_open_at(tl, i + 1, k, false));
                        }
                    }
                },
                Some((h, ls)) => match line_item(l) {
                    None => {
                        assert(bad_line(tl[i]));
                        assert(hunk_open_at(tl, i, i, true));
                    },
                    Some(x) => {
                        lemma_scan_fails(tl, i + 1, Some((h, ls.push(x))), acc);
                        if fails_from(tl, i + 1, true) {
                            let k = choose|k: int| i + 1 <= k < tl.len() && (bad_header(#[trigger] tl[k]) || (bad_line(tl[k]) && hunk_open_at(tl, i + 1, k, true)));
                            assert(hunk_open_at(tl, i, k, true));
                        }
                        if fails_from(tl, i, true) {
                            let k = choose|k: int| i <= k < tl.len() && (bad_header(#[trigger] tl[k]) || (bad_line(tl[k]) && hunk_open_at(tl, i, k, true)));
                            assert(k != i);
                            assert(hunk_open_at(tl, i + 1, k, true));
                        }
                    },
                },
            }
        }
    }
}

/// Reading unified diff text fails exactly when it has fewer than two
/// lines, its first line does not start with `--- `, its second does not
/// start with `+++ `, or from the third line on some line is a bad hunk
/// header or a line that is no diff line after the first hunk header.
pub proof fn law_parse_fails(text: Seq<char>)
    ensures
        (parse_spec(text) is Err) == ({
            let tl = str_lines(text);
            tl.len() < 2 || !is_prefix("--- "@, tl[0]) || !is_prefix("+++ "@, tl[1]) || fails_from(tl, 2, false)
        }),
{
    let tl = str_lines(text);
    if tl.len() >= 2 && is_prefix("--- "@, tl[0]) && is_prefix("+++ "@, tl[1]) {
        lemma_scan_fails(tl, 2, None, Seq::empty());
    }
}

} // verus!
