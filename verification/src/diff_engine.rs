//! The diff engine: generating and applying unified diffs.
//!
//! A diff is computed from an LCS edit script between the lines of two
//! texts; the script is grouped into hunks with a configurable number of
//! context lines, and applying the hunks to the old text gives back the new
//! one.
use vstd::prelude::*;
use crate::text::{chars_of, string_of};
use crate::diff_lines::{split_lines, split_lines_exec, lines_view};
use crate::diff_script::{compute_edit_ops, diff_script, script_ok, lemma_script_len};
use crate::diff_model::{DiffOperation, FileDiff, ApplyResult, hunks_of, hunks_added, hunks_removed, apply_spec, TextOutcome, hunks_in_range, apply_hunks, finish_lines, created_chars, mismatch_message_exec, count_changes};
use crate::diff_hunks::{diff_hunks, hunks_for, ops_to_hunks, lemma_hunks_for_unique, lemma_hunks_for_len};
use crate::diff_script::lcs_len;
use crate::diff_minimal::{law_diff_script_minimal, lemma_hunks_count_changes, law_no_hunks_iff_same_lines, law_zero_context_has_no_context_lines, law_hunk_shape, old_side, new_side, shows_change};

verus! {

/// Configuration for the diff engine.
#[derive(Debug, Clone)]
pub struct DiffConfig {
    /// Number of context lines around each hunk (default: 3).
    pub context_lines: usize,
    /// Whether to minimize diffs by merging adjacent hunks.
    pub minimize: bool,
}

impl Default for DiffConfig {
    fn default() -> (r: Self)
        ensures
            r.context_lines == 3,
            r.minimize,
    {
        DiffConfig { context_lines: 3, minimize: true }
    }
}

/// The diff engine for generating and applying code changes.
pub struct DiffEngine {
    config: DiffConfig,
}

/// The kind of file operation a diff between `old` and `new` describes:
/// creation from empty text, deletion down to empty text, else a change.
pub open spec fn operation_for(old: Seq<char>, new: Seq<char>) -> DiffOperation {
    if old.len() == 0 && new.len() > 0 {
        DiffOperation::Create
    } else if old.len() > 0 && new.len() == 0 {
        DiffOperation::Delete
    } else {
        DiffOperation::Modify
    }
}

/// The line counts of two texts fit the diff computation's integers.
pub open spec fn diff_fits(old: Seq<char>, new: Seq<char>) -> bool {
    &&& split_lines(old).len() < u32::MAX
    &&& split_lines(new).len() < u32::MAX
    &&& split_lines(old).len() + split_lines(new).len() < usize::MAX
}

/// The hunks of the diff from `old` to `new` with `ctx` lines of context.
pub open spec fn text_hunks(old: Seq<char>, new: Seq<char>, ctx: nat) -> Seq<crate::diff_model::HunkView> {
    diff_hunks(split_lines(old), split_lines(new), ctx)
}

/// What [`DiffEngine::generate_diff`] returns, as a property of its result.
pub open spec fn generated(d: FileDiff, path: Seq<char>, old: Seq<char>, new: Seq<char>, ctx: nat) -> bool {
    &&& d.path@ == path
    &&& d.operation == operation_for(old, new)
    &&& hunks_of(d.hunks@) == text_hunks(old, new, ctx)
    &&& script_ok(diff_script(split_lines(old), split_lines(new)), split_lines(old), split_lines(new))
    &&& hunks_for(
        diff_script(split_lines(old), split_lines(new)),
        split_lines(old),
        split_lines(new),
        ctx,
        hunks_of(d.hunks@),
    )
    &&& d.additions == hunks_added(hunks_of(d.hunks@))
    &&& d.deletions == hunks_removed(hunks_of(d.hunks@))
}

/// A minimal diff: it removes the old lines and adds the new lines that
/// lie outside a longest common subsequence of the two texts' lines.
pub open spec fn minimal_counts(d: FileDiff, old: Seq<char>, new: Seq<char>) -> bool {
    let o = split_lines(old);
    let n = split_lines(new);
    &&& d.deletions == o.len() - lcs_len(o, n, o.len(), n.len())
    &&& d.additions == n.len() - lcs_len(o, n, o.len(), n.len())
}

/// What [`DiffEngine::apply_diff`] returns for the outcome `o` of
/// [`apply_spec`].
pub open spec fn applied(r: ApplyResult, path: Seq<char>, o: TextOutcome) -> bool {
    &&& r.path@ == path
    &&& match o {
        TextOutcome::Text(t) => r.success && r.error is None && r.new_content is Some
            && r.new_content->0@ == t,
        TextOutcome::Failed(m) => !r.success && r.new_content is None && r.error is Some
            && r.error->0@ == m,
        TextOutcome::Aborts => false,
    }
}

/// The hunks of a diff can be applied without arithmetic overflow.
pub open spec fn diff_in_range(diff: FileDiff) -> bool {
    &&& hunks_in_range(hunks_of(diff.hunks@))
    &&& forall|k: int|
        0 <= k < diff.hunks@.len() ==> (#[trigger] diff.hunks@[k]).lines@.len() <= isize::MAX
}

/// Applying `diff` to `content` (see [`apply_spec`]).
pub open spec fn apply_outcome(content: Seq<char>, diff: FileDiff) -> TextOutcome {
    apply_spec(
        content,
        diff.operation is Create,
        diff.operation is Delete,
        hunks_of(diff.hunks@),
    )
}

impl DiffEngine {
    /// The number of context lines around each change.
    pub closed spec fn context(&self) -> nat {
        self.config.context_lines as nat
    }

    /// Whether the engine was configured to minimize diffs.
    pub closed spec fn minimizes(&self) -> bool {
        self.config.minimize
    }

    /// Create a new `DiffEngine` with default configuration.
    pub fn new() -> (e: Self)
        ensures
            e.context() == 3,
            e.minimizes(),
    {
        DiffEngine { config: DiffConfig::default() }
    }

    /// Create a new `DiffEngine` with the given configuration.
    pub fn with_config(config: DiffConfig) -> (e: Self)
        ensures
            e.context() == config.context_lines,
            e.minimizes() == config.minimize,
    {
        DiffEngine { config }
    }

    /// Generate a unified diff between `old` and `new` content for a file at
    /// `path`: the hunks of the LCS edit script between their lines, with
    /// the configured number of context lines.
    pub fn generate_diff(&self, path: &str, old: &str, new: &str) -> (d: FileDiff)
        requires
            diff_fits(old@, new@),
        ensures
            generated(d, path@, old@, new@, self.context()),
            minimal_counts(d, old@, new@),
    {
        let oc = chars_of(old);
        let nc = chars_of(new);
        let ol = split_lines_exec(&oc);
        let nl = split_lines_exec(&nc);
        let ops = compute_edit_ops(&ol, &nl);
        proof {
            lemma_script_len(ops@, lines_view(ol@), lines_view(nl@));
        }
        let hunks = ops_to_hunks(&ol, &nl, &ops, self.config.context_lines);
        proof {
            lemma_hunks_for_unique(lines_view(ol@), lines_view(nl@), self.context(), hunks_of(hunks@));
            lemma_hunks_for_len(ops@, lines_view(ol@), lines_view(nl@), self.context(), hunks_of(hunks@));
            lemma_hunks_count_changes(ops@, lines_view(ol@), lines_view(nl@), self.context(), hunks_of(hunks@));
            law_diff_script_minimal(lines_view(ol@), lines_view(nl@), ops@);
        }
        let (additions, deletions) = count_changes(&hunks);
        let operation = if old.is_empty() && !new.is_empty() {
            DiffOperation::Create
        } else if !old.is_empty() && new.is_empty() {
            DiffOperation::Delete
        } else {
            DiffOperation::Modify
        };
        let pc = chars_of(path);
        FileDiff { path: string_of(&pc), operation, hunks, additions, deletions }
    }

    /// Generate the smallest possible diff between `old` and `new`: zero
    /// context lines.
    pub fn minimize_diff(&self, path: &str, old: &str, new: &str) -> (d: FileDiff)
        requires
            diff_fits(old@, new@),
        ensures
            generated(d, path@, old@, new@, 0),
            minimal_counts(d, old@, new@),
    {
        let minimal = Self::with_config(DiffConfig { context_lines: 0, minimize: true });
        minimal.generate_diff(path, old, new)
    }

    /// Apply a [`FileDiff`] to file `content` (see [`apply_spec`]): a
    /// creation from empty content writes the added lines, a deletion
    /// empties the file, and otherwise each hunk is checked and applied in
    /// order, earlier hunks shifting the later ones.
    pub fn apply_diff(&self, content: &str, diff: &FileDiff) -> (r: ApplyResult)
        requires
            diff_in_range(*diff),
            !(apply_outcome(content@, *diff) is Aborts),
        ensures
            applied(r, diff.path@, apply_outcome(content@, *diff)),
    {
        if matches!(diff.operation, DiffOperation::Create) && content.is_empty() {
            let c = created_chars(&diff.hunks);
            return ApplyResult {
                path: diff.path.clone(),
                success: true,
                new_content: Some(string_of(&c)),
                error: None,
            };
        }
        if matches!(diff.operation, DiffOperation::Delete) {
            return ApplyResult {
                path: diff.path.clone(),
                success: true,
                new_content: Some(String::new()),
                error: None,
            };
        }
        let cc = chars_of(content);
        let lines = split_lines_exec(&cc);
        match apply_hunks(lines, &diff.hunks) {
            Ok(done) => {
                let t = finish_lines(&done);
                ApplyResult {
                    path: diff.path.clone(),
                    success: true,
                    new_content: Some(string_of(&t)),
                    error: None,
                }
            },
            Err((hunk, pos, removed)) => ApplyResult {
                path: diff.path.clone(),
                success: false,
                new_content: None,
                error: Some(mismatch_message_exec(hunk, pos, removed)),
            },
        }
    }
}

impl Default for DiffEngine {
    fn default() -> (e: Self)
        ensures
            e.context() == 3,
            e.minimizes(),
    {
        Self::new()
    }
}

/// A generated diff has no hunks exactly when the two texts have the same
/// lines.
pub proof fn law_generated_empty_iff_same(d: FileDiff, path: Seq<char>, old: Seq<char>, new: Seq<char>, ctx: nat)
    requires
        generated(d, path, old, new, ctx),
    ensures
        (d.hunks@.len() == 0) == (split_lines(old) == split_lines(new)),
{
    law_no_hunks_iff_same_lines(split_lines(old), split_lines(new), ctx, hunks_of(d.hunks@));
}

/// A diff generated with no context lines (as [`DiffEngine::minimize_diff`]
/// makes them) holds no context line.
pub proof fn law_minimized_has_no_context(d: FileDiff, path: Seq<char>, old: Seq<char>, new: Seq<char>)
    requires
        generated(d, path, old, new, 0),
    ensures
        forall|q: int, t: int|
            0 <= q < d.hunks@.len() && 0 <= t < d.hunks@[q].lines@.len() ==> !(#[trigger] d.hunks@[q].lines@[t]@ is Context),
{
    let hs = hunks_of(d.hunks@);
    law_zero_context_has_no_context_lines(diff_script(split_lines(old), split_lines(new)), split_lines(old), split_lines(new), hs);
    assert forall|q: int, t: int|
        0 <= q < d.hunks@.len() && 0 <= t < d.hunks@[q].lines@.len() implies !(#[trigger] d.hunks@[q].lines@[t]@ is Context) by {
        assert(hs[q] == d.hunks@[q]@);
        assert(hs[q].lines[t] == d.hunks@[q].lines@[t]@);
    }
}

/// Each hunk of a generated diff counts its own lines (old count: context
/// and removed lines; new count: context and added lines), shows at least
/// one change, and ends strictly before the next hunk starts.
pub proof fn law_generated_hunk_shape(d: FileDiff, path: Seq<char>, old: Seq<char>, new: Seq<char>, ctx: nat)
    requires
        generated(d, path, old, new, ctx),
    ensures
        forall|q: int| 0 <= q < hunks_of(d.hunks@).len() ==> (#[trigger] hunks_of(d.hunks@)[q]).old_count == old_side(
            hunks_of(d.hunks@)[q].lines,
        ) && hunks_of(d.hunks@)[q].new_count == new_side(hunks_of(d.hunks@)[q].lines) && shows_change(
            hunks_of(d.hunks@)[q].lines,
        ),
        forall|q: int| 0 <= q < hunks_of(d.hunks@).len() - 1 ==> (#[trigger] hunks_of(d.hunks@)[q]).old_start
            + hunks_of(d.hunks@)[q].old_count < hunks_of(d.hunks@)[q + 1].old_start,
{
    law_hunk_shape(diff_script(split_lines(old), split_lines(new)), split_lines(old), split_lines(new), ctx, hunks_of(d.hunks@));
}

} // verus!
