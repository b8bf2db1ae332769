//! Checking, before applying it, that a diff fits a text.
use vstd::prelude::*;
use crate::text::{decimal, decimal_chars, chars_of, string_of, push_chars, push_str, chars_eq};
use crate::diff_lines::{split_lines, lines_view, split_lines_exec};
use crate::diff_model::{
    DiffLine, DiffHunk, LineView, HunkView, FileDiff, hunks_of, lines_of,
};
use crate::diff_parse::{debug_quoted, debug_text};
use crate::diff_engine::{DiffEngine, generated};
use crate::diff_script::{EditOp, opos, op_old, script_ok, diff_script, lemma_pos_mono, lemma_script_bounds, lemma_script_ends};
use crate::diff_hunks::{maximal_runs, range_hunk, op_line};

verus! {

/// Severity level for a validation issue.
#[derive(Debug, Clone, PartialEq, Eq, Structural)]
pub enum IssueSeverity {
    /// Non-blocking; diff can still be applied.
    Warning,
    /// Blocking; diff cannot be applied cleanly.
    Error,
}

/// A single issue found during diff validation.
#[derive(Debug, Clone)]
pub struct ValidationIssue {
    /// Index of the hunk that triggered this issue.
    pub hunk_index: usize,
    /// Human-readable description of the issue.
    pub message: String,
    /// Severity of the issue.
    pub severity: IssueSeverity,
}

/// Validation result for a diff.
#[derive(Debug, Clone)]
pub struct ValidationResult {
    /// Whether the diff is valid and can be applied cleanly.
    pub valid: bool,
    /// Individual issues found during validation.
    pub issues: Vec<ValidationIssue>,
}

/// The line at `pos` as the messages show it: the line, or `<EOF>` past
/// the end.
pub open spec fn actual_line(lines: Seq<Seq<char>>, pos: int) -> Seq<char> {
    if 0 <= pos < lines.len() {
        lines[pos]
    } else {
        "<EOF>"@
    }
}

/// The message for a line that does not match: what was expected and what
/// the text holds, both in debug format.
pub open spec fn mismatch_note(kind: Seq<char>, pos: int, expected: Seq<char>, lines: Seq<Seq<char>>) -> Seq<char> {
    kind + " mismatch at line "@ + decimal(pos as nat) + ": expected "@ + debug_quoted(expected) + ", got "@
        + debug_quoted(actual_line(lines, pos))
}

/// The issues of hunk `k`'s lines from index `t` on, checked from file
/// position `pos`: each context or removed line that is past the end or
/// differs gives one issue; every such line moves the position on.
pub open spec fn check_lines(lines: Seq<Seq<char>>, hl: Seq<LineView>, t: int, pos: int, k: nat) -> Seq<
    (nat, Seq<char>),
>
    decreases hl.len() - t,
{
    if t < 0 || t >= hl.len() {
        Seq::empty()
    } else {
        match hl[t] {
            LineView::Added(_) => check_lines(lines, hl, t + 1, pos, k),
            LineView::Context(x) => (if 0 <= pos < lines.len() && lines[pos] == x {
                Seq::empty()
            } else {
                seq![(k, mismatch_note("Context"@, pos, x, lines))]
            }) + check_lines(lines, hl, t + 1, pos + 1, k),
            LineView::Removed(x) => (if 0 <= pos < lines.len() && lines[pos] == x {
                Seq::empty()
            } else {
                seq![(k, mismatch_note("Remove"@, pos, x, lines))]
            }) + check_lines(lines, hl, t + 1, pos + 1, k),
        }
    }
}

/// The issues of hunks `k..`. Each hunk is checked where its `old_start`
/// places it in the text, which no earlier hunk has changed yet: a hunk
/// starting at line 0 or whose range passes the end of the file gives one
/// issue, otherwise each of its context and removed lines is checked.
pub open spec fn validate_from(lines: Seq<Seq<char>>, hs: Seq<HunkView>, k: int) -> Seq<(nat, Seq<char>)>
    decreases hs.len() - k,
{
    if k < 0 || k >= hs.len() {
        Seq::empty()
    } else {
        let h = hs[k];
        let start = h.old_start - 1;
        if start < 0 {
            seq![
                (
                    k as nat,
                    "Hunk old_start "@ + decimal(h.old_start) + " with offset 0 yields negative position"@,
                ),
            ] + validate_from(lines, hs, k + 1)
        } else if start + h.old_count > lines.len() {
            seq![
                (
                    k as nat,
                    "Hunk extends beyond file end (start="@ + decimal(start as nat) + ", old_count="@
                        + decimal(h.old_count) + ", file_lines="@ + decimal(lines.len()) + ")"@,
                ),
            ] + validate_from(lines, hs, k + 1)
        } else {
            check_lines(lines, h.lines, 0, start, k as nat) + validate_from(lines, hs, k + 1)
        }
    }
}

/// The numbers of each hunk fit in `usize` when added to the hunk's length.
pub open spec fn validate_in_range(hs: Seq<HunkView>) -> bool {
    forall|k: int|
        0 <= k < hs.len() ==> (#[trigger] hs[k]).old_start + hs[k].old_count + hs[k].lines.len() <= usize::MAX
}

/// The views of validation issues: hunk index and message, all errors.
pub open spec fn issues_view(v: Seq<ValidationIssue>) -> Seq<(nat, Seq<char>)> {
    v.map_values(|i: ValidationIssue| (i.hunk_index as nat, i.message@))
}

/// The message for a line that does not match (see [`mismatch_note`]).
fn mismatch_text(kind: &str, pos: usize, expected: &[char], lines: &Vec<Vec<char>>) -> (r: String)
    ensures
        r@ == mismatch_note(kind@, pos as int, expected@, lines_view(lines@)),
{
    let mut v = chars_of(kind);
    push_str(&mut v, " mismatch at line ");
    push_chars(&mut v, &decimal_chars(pos));
    push_str(&mut v, ": expected ");
    push_chars(&mut v, &debug_text(expected));
    push_str(&mut v, ", got ");
    if pos < lines.len() {
        assert(lines@[pos as int]@ == lines_view(lines@)[pos as int]);
        push_chars(&mut v, &debug_text(&lines[pos]));
    } else {
        push_chars(&mut v, &debug_text(&chars_of("<EOF>")));
    }
    assert(v@ =~= mismatch_note(kind@, pos as int, expected@, lines_view(lines@)));
    string_of(&v)
}

/// Checks the lines of hunk `k` from file position `start`, adding one
/// issue per mismatch (see [`check_lines`]).
fn check_hunk(lines: &Vec<Vec<char>>, h: &DiffHunk, start: usize, k: usize, issues: &mut Vec<ValidationIssue>)
    requires
        start + h.lines@.len() <= usize::MAX,
        forall|i: int| 0 <= i < old(issues)@.len() ==> (#[trigger] old(issues)@[i]).severity == IssueSeverity::Error,
    ensures
        issues_view(final(issues)@) == issues_view(old(issues)@) + check_lines(lines_view(lines@), lines_of(h.lines@), 0, start as int, k as nat),
        forall|i: int| 0 <= i < final(issues)@.len() ==> (#[trigger] final(issues)@[i]).severity == IssueSeverity::Error,
{
    let ghost lv = lines_view(lines@);
    let ghost hl = lines_of(h.lines@);
    let ghost base = issues_view(issues@);
    let mut pos = start;
    let mut t: usize = 0;
    while t < h.lines.len()
        invariant
            t <= h.lines@.len(),
            start + h.lines@.len() <= usize::MAX,
            pos <= start + t,
            lv == lines_view(lines@),
            hl == lines_of(h.lines@),
            issues_view(issues@) + check_lines(lv, hl, t as int, pos as int, k as nat) == base + check_lines(
                lv,
                hl,
                0,
                start as int,
                k as nat,
            ),
            forall|i: int| 0 <= i < issues@.len() ==> (#[trigger] issues@[i]).severity == IssueSeverity::Error,
        decreases h.lines.len() - t,
    {
        let ghost before = issues@;
        proof {
            assert(hl[t as int] == h.lines@[t as int]@);
        }
        match &h.lines[t] {
            DiffLine::Added(_) => {},
            DiffLine::Context(x) => {
                let xc = chars_of(x.as_str());
                if !(pos < lines.len() && chars_eq(&lines[pos], &xc)) {
                    let m = mismatch_text("Context", pos, &xc, lines);
                    issues.push(ValidationIssue { hunk_index: k, message: m, severity: IssueSeverity::Error });
                }
                proof {
                    if pos < lines.len() {
                        assert(lines@[pos as int]@ == lv[pos as int]);
                    }
                    assert(issues_view(issues@) + check_lines(lv, hl, t + 1, pos + 1, k as nat) =~= issues_view(before) + check_lines(lv, hl, t as int, pos as int, k as nat));
                }
                pos = pos + 1;
            },
            DiffLine::Removed(x) => {
                let xc = chars_of(x.as_str());
                if !(pos < lines.len() && chars_eq(&lines[pos], &xc)) {
                    let m = mismatch_text("Remove", pos, &xc, lines);
                    issues.push(ValidationIssue { hunk_index: k, message: m, severity: IssueSeverity::Error });
                }
                proof {
                    if pos < lines.len() {
                        assert(lines@[pos as int]@ == lv[pos as int]);
                    }
                    assert(issues_view(issues@) + check_lines(lv, hl, t + 1, pos + 1, k as nat) =~= issues_view(before) + check_lines(lv, hl, t as int, pos as int, k as nat));
                }
                pos = pos + 1;
            },
        }
        t = t + 1;
    }
    assert(issues_view(issues@) =~= base + check_lines(lv, hl, 0, start as int, k as nat));
}

impl DiffEngine {
    /// Validate that a diff can be applied cleanly to `content` (see
    /// [`validate_from`]): every issue is an error, and the diff is valid
    /// exactly when there is none.
    pub fn validate_diff(&self, content: &str, diff: &FileDiff) -> (r: ValidationResult)
        requires
            validate_in_range(hunks_of(diff.hunks@)),
        ensures
            issues_view(r.issues@) == validate_from(split_lines(content@), hunks_of(diff.hunks@), 0),
            forall|i: int| 0 <= i < r.issues@.len() ==> (#[trigger] r.issues@[i]).severity == IssueSeverity::Error,
            r.valid == (r.issues@.len() == 0),
    {
        let cc = chars_of(content);
        let lines = split_lines_exec(&cc);
        let ghost lv = lines_view(lines@);
        let ghost hv = hunks_of(diff.hunks@);
        let ghost goal = validate_from(lv, hv, 0);
        let mut issues: Vec<ValidationIssue> = Vec::new();
        let mut k: usize = 0;
        while k < diff.hunks.len()
            invariant
                k <= diff.hunks@.len(),
                lv == lines_view(lines@),
                hv == hunks_of(diff.hunks@),
                validate_in_range(hv),
                issues_view(issues@) + validate_from(lv, hv, k as int) == goal,
                forall|i: int| 0 <= i < issues@.len() ==> (#[trigger] issues@[i]).severity == IssueSeverity::Error,
            decreases diff.hunks.len() - k,
        {
            let h = &diff.hunks[k];
            let ghost before = issues@;
            proof {
                assert(hv[k as int] == h@);
                assert(h.old_start + h.old_count + h.lines@.len() <= usize::MAX);
            }
            if h.old_start == 0 {
                let mut m = chars_of("Hunk old_start ");
                push_chars(&mut m, &decimal_chars(h.old_start));
                push_str(&mut m, " with offset 0 yields negative position");
                issues.push(ValidationIssue { hunk_index: k, message: string_of(&m), severity: IssueSeverity::Error });
                proof {
                    assert(issues_view(issues@) + validate_from(lv, hv, k + 1) =~= issues_view(before)
                        + validate_from(lv, hv, k as int));
                }
            } else {
                let start = h.old_start - 1;
                if start + h.old_count > lines.len() {
                    let mut m = chars_of("Hunk extends beyond file end (start=");
                    push_chars(&mut m, &decimal_chars(start));
                    push_str(&mut m, ", old_count=");
                    push_chars(&mut m, &decimal_chars(h.old_count));
                    push_str(&mut m, ", file_lines=");
                    push_chars(&mut m, &decimal_chars(lines.len()));
                    push_str(&mut m, ")");
                    issues.push(ValidationIssue { hunk_index: k, message: string_of(&m), severity: IssueSeverity::Error });
                    proof {
                        assert(issues_view(issues@) + validate_from(lv, hv, k + 1) =~= issues_view(before)
                            + validate_from(lv, hv, k as int));
                    }
                } else {
                    check_hunk(&lines, h, start, k, &mut issues);
                    proof {
                        assert(issues_view(issues@) + validate_from(lv, hv, k + 1) =~= issues_view(before)
                            + validate_from(lv, hv, k as int));
                    }
                }
            }
            k = k + 1;
        }
        assert(issues_view(issues@) =~= goal);
        let valid = issues.len() == 0;
        ValidationResult { valid, issues }
    }
}

/// The lines of the hunk of operations `a..b`, checked against the
/// unchanged text from where its operation `t` stands, match.
#[verifier::spinoff_prover]
#[verifier::rlimit(40)]
proof fn lemma_range_checks(ops: Seq<EditOp>, o: Seq<Seq<char>>, w: Seq<Seq<char>>, a: int, b: int, t: int, k: nat)
    requires
        script_ok(ops, o, w),
        0 <= a < b <= ops.len(),
        0 <= t <= b - a,
    ensures
        check_lines(o, range_hunk(ops, o, w, a, b).lines, t, opos(ops, a + t) as int, k) == Seq::<(nat, Seq<char>)>::empty(),
    decreases b - a - t,
{
    let hl = range_hunk(ops, o, w, a, b).lines;
    if t < b - a {
        lemma_range_checks(ops, o, w, a, b, t + 1, k);
        lemma_script_bounds(ops, o, w, a + t);
        assert(hl[t] == op_line(ops, o, w, a + t));
        assert(opos(ops, a + t + 1) == opos(ops, a + t) + op_old(ops[a + t]));
        if ops[a + t] != EditOp::Insert {
            assert(Seq::<(nat, Seq<char>)>::empty() + Seq::<(nat, Seq<char>)>::empty() =~= Seq::<(nat, Seq<char>)>::empty());
        }
    }
}

/// Validating the hunks of a script against the text it starts from finds
/// nothing, from hunk `k` on.
proof fn lemma_runs_validate(ops: Seq<EditOp>, o: Seq<Seq<char>>, w: Seq<Seq<char>>, ctx: nat, rs: Seq<(int, int)>, hs: Seq<HunkView>, k: int)
    requires
        script_ok(ops, o, w),
        maximal_runs(ops, ctx, rs),
        hs.len() == rs.len(),
        forall|q: int| 0 <= q < rs.len() ==> #[trigger] hs[q] == range_hunk(ops, o, w, rs[q].0, rs[q].1),
        0 <= k <= hs.len(),
    ensures
        validate_from(o, hs, k) == Seq::<(nat, Seq<char>)>::empty(),
    decreases hs.len() - k,
{
    if k < hs.len() {
        lemma_runs_validate(ops, o, w, ctx, rs, hs, k + 1);
        let a = rs[k].0;
        let b = rs[k].1;
        assert(hs[k] == range_hunk(ops, o, w, a, b));
        lemma_pos_mono(ops, a, b);
        lemma_pos_mono(ops, b, ops.len() as int);
        lemma_script_ends(ops, o, w);
        lemma_range_checks(ops, o, w, a, b, 0, k as nat);
        assert(Seq::<(nat, Seq<char>)>::empty() + Seq::<(nat, Seq<char>)>::empty() =~= Seq::<(nat, Seq<char>)>::empty());
    }
}

/// A diff generated from a text validates against that text: validation
/// finds no issue, so [`DiffEngine::validate_diff`] calls it valid.
pub proof fn law_generated_diff_validates(d: FileDiff, path: Seq<char>, old: Seq<char>, new: Seq<char>, ctx: nat)
    requires
        generated(d, path, old, new, ctx),
    ensures
        validate_from(split_lines(old), hunks_of(d.hunks@), 0) == Seq::<(nat, Seq<char>)>::empty(),
{
    let o = split_lines(old);
    let w = split_lines(new);
    let ops = diff_script(o, w);
    let hs = hunks_of(d.hunks@);
    let rs = choose|rs: Seq<(int, int)>|
        maximal_runs(ops, ctx, rs) && hs.len() == rs.len() && forall|q: int|
            0 <= q < rs.len() ==> #[trigger] hs[q] == range_hunk(ops, o, w, rs[q].0, rs[q].1);
    lemma_runs_validate(ops, o, w, ctx, rs, hs, 0);
}

} // verus!
