//! Plans: diffs over several files, generated together and applied in
//! order, each file seeing the results of the diffs before it.
use vstd::prelude::*;
use crate::text::{chars_of, string_of};
use crate::diff_model::{FileDiff, ApplyResult, TextOutcome, hunks_added, hunks_removed};
use crate::diff_engine::{DiffEngine, generated, applied, apply_outcome, diff_in_range, diff_fits, text_hunks};
use crate::diff_text::weight_of;

verus! {

/// An ordered plan of diffs across multiple files.
#[derive(Debug, Clone)]
pub struct DiffPlan {
    /// Human-readable description of the overall change.
    pub description: String,
    /// Ordered list of file diffs (order matters for dependencies).
    pub diffs: Vec<FileDiff>,
    /// Total lines added across all files.
    pub total_additions: usize,
    /// Total lines removed across all files.
    pub total_deletions: usize,
    /// Estimated token count for this plan.
    pub estimated_tokens: usize,
}

/// The views of `(path, old, new)` triples.
pub open spec fn change_views(changes: Seq<(&str, &str, &str)>) -> Seq<(Seq<char>, Seq<char>, Seq<char>)> {
    changes.map_values(|c: (&str, &str, &str)| (c.0@, c.1@, c.2@))
}

/// Added lines over the diffs of all changes.
pub open spec fn plan_added(ch: Seq<(Seq<char>, Seq<char>, Seq<char>)>, ctx: nat) -> nat
    decreases ch.len(),
{
    if ch.len() == 0 {
        0
    } else {
        plan_added(ch.drop_last(), ctx) + hunks_added(text_hunks(ch.last().1, ch.last().2, ctx))
    }
}

/// Removed lines over the diffs of all changes.
pub open spec fn plan_removed(ch: Seq<(Seq<char>, Seq<char>, Seq<char>)>, ctx: nat) -> nat
    decreases ch.len(),
{
    if ch.len() == 0 {
        0
    } else {
        plan_removed(ch.drop_last(), ctx) + hunks_removed(text_hunks(ch.last().1, ch.last().2, ctx))
    }
}

/// The token estimate of the diff of one change.
pub open spec fn change_tokens(c: (Seq<char>, Seq<char>, Seq<char>), ctx: nat) -> nat {
    (weight_of(c.0, text_hunks(c.1, c.2, ctx)) + 3) / 4
}

/// Token estimates over the diffs of all changes.
pub open spec fn plan_tokens(ch: Seq<(Seq<char>, Seq<char>, Seq<char>)>, ctx: nat) -> nat
    decreases ch.len(),
{
    if ch.len() == 0 {
        0
    } else {
        plan_tokens(ch.drop_last(), ctx) + change_tokens(ch.last(), ctx)
    }
}

/// Every change can be diffed, and the plan's totals fit a `usize`.
pub open spec fn plan_fits(ch: Seq<(Seq<char>, Seq<char>, Seq<char>)>, ctx: nat) -> bool {
    &&& forall|i: int| 0 <= i < ch.len() ==> diff_fits(#[trigger] ch[i].1, ch[i].2)
    &&& forall|i: int|
        0 <= i < ch.len() ==> weight_of(#[trigger] ch[i].0, text_hunks(ch[i].1, ch[i].2, ctx)) + 3
            <= usize::MAX
    &&& plan_added(ch, ctx) <= usize::MAX
    &&& plan_removed(ch, ctx) <= usize::MAX
    &&& plan_tokens(ch, ctx) <= usize::MAX
}

/// The content of `path` in a list of `(path, content)` pairs where later
/// pairs win; `None` when the path is absent.
pub open spec fn file_in(files: Seq<(Seq<char>, Seq<char>)>, path: Seq<char>) -> Option<Seq<char>>
    decreases files.len(),
{
    if files.len() == 0 {
        None
    } else if files.last().0 == path {
        Some(files.last().1)
    } else {
        file_in(files.drop_last(), path)
    }
}

/// The content of `path`, or empty text when it is absent.
pub open spec fn content_of(files: Seq<(Seq<char>, Seq<char>)>, path: Seq<char>) -> Seq<char> {
    match file_in(files, path) {
        Some(c) => c,
        None => Seq::empty(),
    }
}

/// The files after applying `diffs[..k]` in order: each successful
/// application records the new content of its path.
pub open spec fn files_after(files: Seq<(Seq<char>, Seq<char>)>, diffs: Seq<FileDiff>, k: int) -> Seq<
    (Seq<char>, Seq<char>),
>
    decreases k,
{
    if k <= 0 {
        files
    } else {
        let before = files_after(files, diffs, k - 1);
        let d = diffs[k - 1];
        match apply_outcome(content_of(before, d.path@), d) {
            TextOutcome::Text(t) => before.push((d.path@, t)),
            _ => before,
        }
    }
}

/// The views of `(path, content)` pairs.
pub open spec fn content_views(contents: Seq<(&str, &str)>) -> Seq<(Seq<char>, Seq<char>)> {
    contents.map_values(|c: (&str, &str)| (c.0@, c.1@))
}

/// Every diff of the plan can be applied, in order, without overflow.
pub open spec fn plan_applies(files: Seq<(Seq<char>, Seq<char>)>, diffs: Seq<FileDiff>) -> bool {
    forall|k: int|
        0 <= k < diffs.len() ==> diff_in_range(#[trigger] diffs[k]) && !(apply_outcome(
            content_of(files_after(files, diffs, k), diffs[k].path@),
            diffs[k],
        ) is Aborts)
}

/// The `(path, content)` list as owned strings.
fn owned_files(contents: &[(&str, &str)]) -> (r: Vec<(String, String)>)
    ensures
        r@.map_values(|p: (String, String)| (p.0@, p.1@)) == content_views(contents@),
{
    let mut r: Vec<(String, String)> = Vec::new();
    let mut i: usize = 0;
    while i < contents.len()
        invariant
            i <= contents@.len(),
            r@.len() == i,
            r@.map_values(|p: (String, String)| (p.0@, p.1@)) == content_views(contents@).take(i as int),
        decreases contents.len() - i,
    {
        let p = contents[i].0;
        let c = contents[i].1;
        let pc = chars_of(p);
        let cc = chars_of(c);
        let ghost before = r@;
        r.push((string_of(&pc), string_of(&cc)));
        proof {
            assert(content_views(contents@)[i as int] == (p@, c@));
        }
        i = i + 1;
        assert(r@.map_values(|p: (String, String)| (p.0@, p.1@)) =~= content_views(contents@).take(i as int));
    }
    assert(content_views(contents@).take(i as int) =~= content_views(contents@));
    r
}

/// The index of the last pair for `path`, as [`file_in`] finds it.
fn find_file(files: &Vec<(String, String)>, path: &String) -> (r: Option<usize>)
    ensures
        match file_in(files@.map_values(|p: (String, String)| (p.0@, p.1@)), path@) {
            Some(c) => r matches Some(i) && i < files@.len() && files@[i as int].1@ == c,
            None => r is None,
        },
{
    let ghost fv = files@.map_values(|p: (String, String)| (p.0@, p.1@));
    let mut i: usize = files.len();
    assert(fv.take(i as int) =~= fv);
    while i > 0
        invariant
            i <= files@.len(),
            fv == files@.map_values(|p: (String, String)| (p.0@, p.1@)),
            file_in(fv, path@) == file_in(fv.take(i as int), path@),
        decreases i,
    {
        let ghost t = fv.take(i as int);
        assert(t.drop_last() =~= fv.take(i - 1));
        if files[i - 1].0 == *path {
            return Some(i - 1);
        }
        i = i - 1;
    }
    None
}

impl DiffEngine {
    /// Create a [`DiffPlan`] from `(path, old_content, new_content)` triples:
    /// one generated diff per triple, in order, with the totals of their
    /// added and removed lines and token estimates.
    pub fn create_plan(&self, description: &str, changes: &[(&str, &str, &str)]) -> (plan: DiffPlan)
        requires
            plan_fits(change_views(changes@), self.context()),
        ensures
            plan.description@ == description@,
            plan.diffs@.len() == changes@.len(),
            forall|i: int|
                0 <= i < changes@.len() ==> generated(
                    #[trigger] plan.diffs@[i],
                    changes@[i].0@,
                    changes@[i].1@,
                    changes@[i].2@,
                    self.context(),
                ),
            plan.total_additions == plan_added(change_views(changes@), self.context()),
            plan.total_deletions == plan_removed(change_views(changes@), self.context()),
            plan.estimated_tokens == plan_tokens(change_views(changes@), self.context()),
    {
        let ghost ch = change_views(changes@);
        let ghost ctx = self.context();
        let mut diffs: Vec<FileDiff> = Vec::new();
        let mut total_add: usize = 0;
        let mut total_del: usize = 0;
        let mut tokens: usize = 0;
        let mut i: usize = 0;
        while i < changes.len()
            invariant
                i <= changes@.len(),
                ch == change_views(changes@),
                ctx == self.context(),
                plan_fits(ch, ctx),
                diffs@.len() == i,
                forall|j: int|
                    0 <= j < i ==> generated(
                        #[trigger] diffs@[j],
                        changes@[j].0@,
                        changes@[j].1@,
                        changes@[j].2@,
                        ctx,
                    ),
                total_add == plan_added(ch.take(i as int), ctx),
                total_del == plan_removed(ch.take(i as int), ctx),
                tokens == plan_tokens(ch.take(i as int), ctx),
            decreases changes.len() - i,
        {
            let (path, old, new) = changes[i];
            proof {
                assert(ch[i as int] == (path@, old@, new@));
                lemma_plan_prefix(ch, ctx, i as int + 1, ch.len() as int);
                assert(ch.take(ch.len() as int) =~= ch);
                assert(ch.take(i + 1).drop_last() =~= ch.take(i as int));
            }
            let d = self.generate_diff(path, old, new);
            total_add = total_add + d.additions;
            total_del = total_del + d.deletions;
            tokens = tokens + self.estimate_tokens(&d);
            diffs.push(d);
            i = i + 1;
        }
        assert(ch.take(i as int) =~= ch);
        let dc = chars_of(description);
        DiffPlan {
            description: string_of(&dc),
            diffs,
            total_additions: total_add,
            total_deletions: total_del,
            estimated_tokens: tokens,
        }
    }

    /// Apply an entire [`DiffPlan`] to the files `contents` (pairs of path
    /// and content; a later pair for a path wins). Each diff applies to the
    /// current content of its path (empty when absent), and a successful
    /// application replaces that content for the diffs after it.
    pub fn apply_plan(&self, contents: &[(&str, &str)], plan: &DiffPlan) -> (results: Vec<ApplyResult>)
        requires
            plan_applies(content_views(contents@), plan.diffs@),
        ensures
            results@.len() == plan.diffs@.len(),
            forall|k: int|
                0 <= k < plan.diffs@.len() ==> applied(
                    #[trigger] results@[k],
                    plan.diffs@[k].path@,
                    apply_outcome(
                        content_of(files_after(content_views(contents@), plan.diffs@, k), plan.diffs@[k].path@),
                        plan.diffs@[k],
                    ),
                ),
    {
        let ghost f0 = content_views(contents@);
        let mut files = owned_files(contents);
        let mut results: Vec<ApplyResult> = Vec::new();
        let mut k: usize = 0;
        while k < plan.diffs.len()
            invariant
                k <= plan.diffs@.len(),
                f0 == content_views(contents@),
                plan_applies(f0, plan.diffs@),
                files@.map_values(|p: (String, String)| (p.0@, p.1@)) == files_after(f0, plan.diffs@, k as int),
                results@.len() == k,
                forall|j: int|
                    0 <= j < k ==> applied(
                        #[trigger] results@[j],
                        plan.diffs@[j].path@,
                        apply_outcome(
                            content_of(files_after(f0, plan.diffs@, j), plan.diffs@[j].path@),
                            plan.diffs@[j],
                        ),
                    ),
            decreases plan.diffs.len() - k,
        {
            let d = &plan.diffs[k];
            let ghost before = files_after(f0, plan.diffs@, k as int);
            proof {
                assert(""@ =~= Seq::<char>::empty()) by {
                    reveal_strlit("");
                }
            }
            let r = match find_file(&files, &d.path) {
                Some(i) => self.apply_diff(files[i].1.as_str(), d),
                None => self.apply_diff("", d),
            };
            if r.success {
                match &r.new_content {
                    Some(c) => {
                        let pc = chars_of(d.path.as_str());
                        let cc = chars_of(c.as_str());
                        files.push((string_of(&pc), string_of(&cc)));
                    },
                    None => {},
                }
            }
            proof {
                let fv = files@.map_values(|p: (String, String)| (p.0@, p.1@));
                assert(fv =~= files_after(f0, plan.diffs@, k + 1));
            }
            results.push(r);
            k = k + 1;
        }
        results
    }
}

proof fn lemma_plan_prefix(ch: Seq<(Seq<char>, Seq<char>, Seq<char>)>, ctx: nat, k: int, j: int)
    requires
        0 <= k <= j <= ch.len(),
    ensures
        plan_added(ch.take(k), ctx) <= plan_added(ch.take(j), ctx),
        plan_removed(ch.take(k), ctx) <= plan_removed(ch.take(j), ctx),
        plan_tokens(ch.take(k), ctx) <= plan_tokens(ch.take(j), ctx),
    decreases j - k,
{
    if k < j {
        lemma_plan_prefix(ch, ctx, k, j - 1);
        assert(ch.take(j).drop_last() =~= ch.take(j - 1));
    }
}

} // verus!
