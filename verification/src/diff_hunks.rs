//! Grouping an edit script into hunks: every operation within
//! `context_lines` of a change is shown, and the shown operations form
//! maximal runs, one hunk each.
use vstd::prelude::*;
use crate::diff_script::{EditOp, opos, npos, script_ok, diff_script, lemma_pos_mono, lemma_script_bounds};
use crate::diff_model::{DiffLine, DiffHunk, LineView, HunkView, hunks_of, hunks_len};
use crate::diff_lines::lines_view;
use crate::text::string_of;

verus! {

/// Operation `j` changes something (it is not [`EditOp::Equal`]).
pub open spec fn is_change(ops: Seq<EditOp>, j: int) -> bool {
    0 <= j < ops.len() && ops[j] != EditOp::Equal
}

/// Operation `i` is shown: some change lies at most `ctx` operations away.
pub open spec fn covered(ops: Seq<EditOp>, ctx: nat, i: int) -> bool {
    0 <= i < ops.len() && exists|j: int| #[trigger] is_change(ops, j) && j - ctx <= i <= j + ctx
}

/// A change at or before `k`, at most `ctx` operations back.
pub open spec fn near_before(ops: Seq<EditOp>, ctx: nat, k: int) -> bool {
    exists|j: int| #[trigger] is_change(ops, j) && j <= k && k - j <= ctx
}

/// A change at or after `k`, at most `ctx` operations ahead.
pub open spec fn near_after(ops: Seq<EditOp>, ctx: nat, k: int) -> bool {
    exists|j: int| #[trigger] is_change(ops, j) && k <= j && j - k <= ctx
}

/// The diff line that operation `k` shows.
pub open spec fn op_line(ops: Seq<EditOp>, old: Seq<Seq<char>>, new: Seq<Seq<char>>, k: int) -> LineView {
    match ops[k] {
        EditOp::Equal => LineView::Context(old[opos(ops, k) as int]),
        EditOp::Delete => LineView::Removed(old[opos(ops, k) as int]),
        EditOp::Insert => LineView::Added(new[npos(ops, k) as int]),
    }
}

/// The hunk that shows operations `a..b`.
pub open spec fn range_hunk(ops: Seq<EditOp>, old: Seq<Seq<char>>, new: Seq<Seq<char>>, a: int, b: int) -> HunkView {
    HunkView {
        old_start: opos(ops, a) + 1,
        old_count: (opos(ops, b) - opos(ops, a)) as nat,
        new_start: npos(ops, a) + 1,
        new_count: (npos(ops, b) - npos(ops, a)) as nat,
        lines: Seq::new((b - a) as nat, |t: int| op_line(ops, old, new, a + t)),
    }
}

/// `rs` lists, in order, the maximal runs of shown operations.
pub open spec fn maximal_runs(ops: Seq<EditOp>, ctx: nat, rs: Seq<(int, int)>) -> bool {
    &&& forall|q: int| 0 <= q < rs.len() ==> 0 <= (#[trigger] rs[q]).0 < rs[q].1 <= ops.len()
    &&& forall|q: int|
        0 <= q < rs.len() ==> !covered(ops, ctx, (#[trigger] rs[q]).0 - 1) && !covered(
            ops,
            ctx,
            rs[q].1,
        )
    &&& forall|q: int, i: int|
        0 <= q < rs.len() && (#[trigger] rs[q]).0 <= i < rs[q].1 ==> #[trigger] covered(ops, ctx, i)
    &&& forall|p: int, q: int| 0 <= p < q < rs.len() ==> (#[trigger] rs[p]).1 < (#[trigger] rs[q]).0
    &&& forall|i: int|
        #[trigger] covered(ops, ctx, i) ==> exists|q: int|
            0 <= q < rs.len() && (#[trigger] rs[q]).0 <= i < rs[q].1
}

/// `hs` are the hunks of `ops` with `ctx` lines of context: one per maximal
/// run of shown operations, in order.
pub open spec fn hunks_for(
    ops: Seq<EditOp>,
    old: Seq<Seq<char>>,
    new: Seq<Seq<char>>,
    ctx: nat,
    hs: Seq<HunkView>,
) -> bool {
    exists|rs: Seq<(int, int)>|
        maximal_runs(ops, ctx, rs) && hs.len() == rs.len() && forall|q: int|
            0 <= q < rs.len() ==> #[trigger] hs[q] == range_hunk(ops, old, new, rs[q].0, rs[q].1)
}

proof fn lemma_covered_split(ops: Seq<EditOp>, ctx: nat, i: int)
    ensures
        covered(ops, ctx, i) <==> (0 <= i < ops.len() && (near_before(ops, ctx, i) || near_after(
            ops,
            ctx,
            i,
        ))),
{
    if covered(ops, ctx, i) {
        let j = choose|j: int| #[trigger] is_change(ops, j) && j - ctx <= i <= j + ctx;
        if j <= i {
            assert(near_before(ops, ctx, i));
        } else {
            assert(near_after(ops, ctx, i));
        }
    }
    if 0 <= i < ops.len() && near_before(ops, ctx, i) {
        let j = choose|j: int| #[trigger] is_change(ops, j) && j <= i && i - j <= ctx;
        assert(is_change(ops, j) && j - ctx <= i <= j + ctx);
    }
    if 0 <= i < ops.len() && near_after(ops, ctx, i) {
        let j = choose|j: int| #[trigger] is_change(ops, j) && i <= j && j - i <= ctx;
        assert(is_change(ops, j) && j - ctx <= i <= j + ctx);
    }
}

/// For each operation whether a change lies at most `ctx` operations back.
fn near_before_flags(ops: &Vec<EditOp>, ctx: usize) -> (f: Vec<bool>)
    ensures
        f@.len() == ops@.len(),
        forall|k: int| 0 <= k < ops@.len() ==> f@[k] == near_before(ops@, ctx as nat, k),
{
    let mut f: Vec<bool> = Vec::new();
    let mut last: Option<usize> = None;
    let mut i: usize = 0;
    while i < ops.len()
        invariant
            i <= ops@.len(),
            f@.len() == i,
            forall|k: int| 0 <= k < i ==> f@[k] == near_before(ops@, ctx as nat, k),
            last matches Some(l) ==> l < i && is_change(ops@, l as int) && forall|j: int|
                l < j < i ==> !is_change(ops@, j),
            last is None ==> forall|j: int| 0 <= j < i ==> !is_change(ops@, j),
        decreases ops.len() - i,
    {
        if ops[i] != EditOp::Equal {
            last = Some(i);
        }
        let b = match last {
            Some(l) => i - l <= ctx,
            None => false,
        };
        proof {
            let k = i as int;
            match last {
                Some(l) => {
                    assert(is_change(ops@, l as int));
                    if !b {
                        assert forall|j: int| is_change(ops@, j) && j <= k implies k - j > ctx by {
                            assert(j <= l);
                        }
                    }
                },
                None => {
                },
            }
        }
        f.push(b);
        i = i + 1;
    }
    f
}

/// For each operation whether a change lies at most `ctx` operations ahead.
fn near_after_flags(ops: &Vec<EditOp>, ctx: usize) -> (f: Vec<bool>)
    ensures
        f@.len() == ops@.len(),
        forall|k: int| 0 <= k < ops@.len() ==> f@[k] == near_after(ops@, ctx as nat, k),
{
    let n = ops.len();
    let mut rev: Vec<bool> = Vec::new();
    let mut next: Option<usize> = None;
    let mut i: usize = n;
    while i > 0
        invariant
            i <= n == ops@.len(),
            rev@.len() == n - i,
            forall|t: int| 0 <= t < n - i ==> rev@[t] == near_after(ops@, ctx as nat, n - 1 - t),
            next matches Some(l) ==> i <= l < n && is_change(ops@, l as int) && forall|j: int|
                i <= j < l ==> !is_change(ops@, j),
            next is None ==> forall|j: int| i <= j < n ==> !is_change(ops@, j),
        decreases i,
    {
        i = i - 1;
        if ops[i] != EditOp::Equal {
            next = Some(i);
        }
        let b = match next {
            Some(l) => l - i <= ctx,
            None => false,
        };
        proof {
            let k = i as int;
            match next {
                Some(l) => {
                    assert(is_change(ops@, l as int));
                    if !b {
                        assert forall|j: int| is_change(ops@, j) && k <= j implies j - k > ctx by {
                            assert(j >= l);
                        }
                    }
                },
                None => {
                },
            }
        }
        rev.push(b);
    }
    let mut f: Vec<bool> = Vec::new();
    let mut k: usize = 0;
    while k < n
        invariant
            k <= n == ops@.len(),
            rev@.len() == n,
            forall|t: int| 0 <= t < n ==> rev@[t] == near_after(ops@, ctx as nat, n - 1 - t),
            f@.len() == k,
            forall|q: int| 0 <= q < k ==> f@[q] == near_after(ops@, ctx as nat, q),
        decreases n - k,
    {
        f.push(rev[n - 1 - k]);
        k = k + 1;
    }
    f
}

/// For each operation whether it is shown (see [`covered`]).
fn coverage(ops: &Vec<EditOp>, ctx: usize) -> (c: Vec<bool>)
    ensures
        c@.len() == ops@.len(),
        forall|k: int| 0 <= k < ops@.len() ==> c@[k] == covered(ops@, ctx as nat, k),
{
    let fb = near_before_flags(ops, ctx);
    let fa = near_after_flags(ops, ctx);
    let mut c: Vec<bool> = Vec::new();
    let mut k: usize = 0;
    while k < ops.len()
        invariant
            k <= ops@.len(),
            fb@.len() == ops@.len(),
            fa@.len() == ops@.len(),
            forall|q: int| 0 <= q < ops@.len() ==> fb@[q] == near_before(ops@, ctx as nat, q),
            forall|q: int| 0 <= q < ops@.len() ==> fa@[q] == near_after(ops@, ctx as nat, q),
            c@.len() == k,
            forall|q: int| 0 <= q < k ==> c@[q] == covered(ops@, ctx as nat, q),
        decreases ops.len() - k,
    {
        proof {
            lemma_covered_split(ops@, ctx as nat, k as int);
        }
        c.push(fb[k] || fa[k]);
        k = k + 1;
    }
    c
}

/// The hunks of an edit script with `ctx` operations of context around each
/// change (see [`hunks_for`]).
#[verifier::rlimit(60)]
pub fn ops_to_hunks(old: &Vec<Vec<char>>, new: &Vec<Vec<char>>, ops: &Vec<EditOp>, ctx: usize) -> (hs: Vec<DiffHunk>)
    requires
        script_ok(ops@, lines_view(old@), lines_view(new@)),
        ops@.len() < usize::MAX,
    ensures
        hunks_for(ops@, lines_view(old@), lines_view(new@), ctx as nat, hunks_of(hs@)),
{
    let cov = coverage(ops, ctx);
    let n = ops.len();
    let ghost o = lines_view(old@);
    let ghost nw = lines_view(new@);
    let ghost c = ctx as nat;
    let mut hs: Vec<DiffHunk> = Vec::new();
    let ghost mut rs: Seq<(int, int)> = Seq::empty();
    let mut i: usize = 0;
    let mut op_i: usize = 0;
    let mut np_i: usize = 0;
    while i < n
        invariant
            i <= n == ops@.len() < usize::MAX,
            o == lines_view(old@),
            nw == lines_view(new@),
            c == ctx as nat,
            script_ok(ops@, o, nw),
            op_i == opos(ops@, i as int),
            np_i == npos(ops@, i as int),
            cov@.len() == n,
            forall|k: int| 0 <= k < n ==> cov@[k] == covered(ops@, c, k),
            hs@.len() == rs.len(),
            forall|q: int| 0 <= q < rs.len() ==> (#[trigger] hs@[q])@ == range_hunk(ops@, o, nw, rs[q].0, rs[q].1),
            forall|q: int| 0 <= q < rs.len() ==> 0 <= (#[trigger] rs[q]).0 < rs[q].1 <= i,
            forall|q: int|
                0 <= q < rs.len() ==> !covered(ops@, c, (#[trigger] rs[q]).0 - 1) && !covered(ops@, c, rs[q].1),
            forall|q: int, k: int|
                0 <= q < rs.len() && (#[trigger] rs[q]).0 <= k < rs[q].1 ==> #[trigger] covered(ops@, c, k),
            forall|p: int, q: int| 0 <= p < q < rs.len() ==> (#[trigger] rs[p]).1 < (#[trigger] rs[q]).0,
            forall|k: int|
                0 <= k < i && #[trigger] covered(ops@, c, k) ==> exists|q: int|
                    0 <= q < rs.len() && (#[trigger] rs[q]).0 <= k < rs[q].1,
            i > 0 && covered(ops@, c, i - 1) ==> rs.len() > 0 && rs.last().1 == i,
        decreases n - i,
    {
        proof {
            lemma_pos_mono(ops@, 0, i as int);
        }
        if !cov[i] {
            match ops[i] {
                EditOp::Equal => {
                    op_i = op_i + 1;
                    np_i = np_i + 1;
                },
                EditOp::Delete => {
                    op_i = op_i + 1;
                },
                EditOp::Insert => {
                    np_i = np_i + 1;
                },
            }
            i = i + 1;
        } else {
            let a = i;
            proof {
                if a > 0 && covered(ops@, c, a - 1) {
                    assert(!covered(ops@, c, rs[rs.len() - 1].1));
                }
            }
            let old_start = op_i + 1;
            let new_start = np_i + 1;
            let mut lines: Vec<DiffLine> = Vec::new();
            while i < n && cov[i]
                invariant
                    a <= i <= n == ops@.len() < usize::MAX,
                    o == lines_view(old@),
                    nw == lines_view(new@),
                    script_ok(ops@, o, nw),
                    cov@.len() == n,
                    forall|k: int| 0 <= k < n ==> cov@[k] == covered(ops@, c, k),
                    op_i == opos(ops@, i as int),
                    np_i == npos(ops@, i as int),
                    lines@.len() == i - a,
                    forall|t: int| 0 <= t < i - a ==> (#[trigger] lines@[t])@ == op_line(ops@, o, nw, a + t),
                    forall|k: int| a <= k < i ==> covered(ops@, c, k),
                decreases n - i,
            {
                proof {
                    lemma_pos_mono(ops@, 0, i as int);
                    lemma_script_bounds(ops@, o, nw, i as int);
                }
                match ops[i] {
                    EditOp::Equal => {
                        lines.push(DiffLine::Context(string_of(&old[op_i])));
                        op_i = op_i + 1;
                        np_i = np_i + 1;
                    },
                    EditOp::Delete => {
                        lines.push(DiffLine::Removed(string_of(&old[op_i])));
                        op_i = op_i + 1;
                    },
                    EditOp::Insert => {
                        lines.push(DiffLine::Added(string_of(&new[np_i])));
                        np_i = np_i + 1;
                    },
                }
                i = i + 1;
            }
            proof {
                lemma_pos_mono(ops@, a as int, i as int);
            }
            let h = DiffHunk {
                old_start,
                old_count: op_i - (old_start - 1),
                new_start,
                new_count: np_i - (new_start - 1),
                lines,
            };
            proof {
                assert(h@.lines =~= range_hunk(ops@, o, nw, a as int, i as int).lines);
            }
            hs.push(h);
            proof {
                let old_rs = rs;
                rs = rs.push((a as int, i as int));
                assert forall|k: int| 0 <= k < i && #[trigger] covered(ops@, c, k) implies exists|q: int|
                    0 <= q < rs.len() && (#[trigger] rs[q]).0 <= k < rs[q].1 by {
                    if k >= a {
                        assert(rs[rs.len() - 1].0 <= k < rs[rs.len() - 1].1);
                    } else {
                        let q = choose|q: int| 0 <= q < old_rs.len() && (#[trigger] old_rs[q]).0 <= k < old_rs[q].1;
                        assert(rs[q] == old_rs[q]);
                    }
                }
                assert forall|q: int| 0 <= q < rs.len() implies (#[trigger] hs@[q])@ == range_hunk(ops@, o, nw, rs[q].0, rs[q].1) by {
                    if q < old_rs.len() {
                        assert(rs[q] == old_rs[q]);
                    }
                }
            }
        }
    }
    proof {
        assert forall|k: int| #[trigger] covered(ops@, c, k) implies exists|q: int|
            0 <= q < rs.len() && (#[trigger] rs[q]).0 <= k < rs[q].1 by {
        }
        assert(maximal_runs(ops@, c, rs));
        assert forall|q: int| 0 <= q < rs.len() implies #[trigger] hunks_of(hs@)[q] == range_hunk(ops@, o, nw, rs[q].0, rs[q].1) by {
            assert(hunks_of(hs@)[q] == hs@[q]@);
        }
    }
    hs
}

/// The hunks of the edit script between `old` and `new` with `ctx`
/// operations of context: the unique sequence that [`hunks_for`] describes.
pub open spec fn diff_hunks(old: Seq<Seq<char>>, new: Seq<Seq<char>>, ctx: nat) -> Seq<HunkView> {
    choose|hs: Seq<HunkView>| hunks_for(diff_script(old, new), old, new, ctx, hs)
}

/// A run of one list of maximal runs is a run of any other.
proof fn lemma_run_match(ops: Seq<EditOp>, ctx: nat, r1: Seq<(int, int)>, r2: Seq<(int, int)>, q: int)
    requires
        maximal_runs(ops, ctx, r1),
        maximal_runs(ops, ctx, r2),
        0 <= q < r1.len(),
    ensures
        exists|q2: int| 0 <= q2 < r2.len() && r2[q2] == r1[q],
{
    let a = r1[q].0;
    let b = r1[q].1;
    assert(covered(ops, ctx, a));
    let q2 = choose|q2: int| 0 <= q2 < r2.len() && (#[trigger] r2[q2]).0 <= a < r2[q2].1;
    let a2 = r2[q2].0;
    let b2 = r2[q2].1;
    if a2 < a {
        assert(covered(ops, ctx, a - 1));
    }
    if b < b2 {
        assert(covered(ops, ctx, b));
    }
    if b2 < b {
        assert(covered(ops, ctx, b2));
    }
    assert(r2[q2] == r1[q]);
}

/// Maximal runs agree up to index `q`.
proof fn lemma_runs_prefix(ops: Seq<EditOp>, ctx: nat, r1: Seq<(int, int)>, r2: Seq<(int, int)>, q: int)
    requires
        maximal_runs(ops, ctx, r1),
        maximal_runs(ops, ctx, r2),
        0 <= q <= r1.len(),
        q <= r2.len(),
    ensures
        forall|j: int| 0 <= j < q ==> r1[j] == r2[j],
    decreases q,
{
    if q > 0 {
        lemma_runs_prefix(ops, ctx, r1, r2, q - 1);
        let k = q - 1;
        lemma_run_match(ops, ctx, r1, r2, k);
        let k2 = choose|k2: int| 0 <= k2 < r2.len() && r2[k2] == r1[k];
        if k2 < k {
            assert(r1[k2] == r2[k2]);
            assert(r1[k2].0 < r1[k].0);
        }
        if k2 > k {
            lemma_run_match(ops, ctx, r2, r1, k);
            let p = choose|p: int| 0 <= p < r1.len() && r1[p] == r2[k];
            if p < k {
                assert(r1[p] == r2[p]);
                assert(r2[p].0 < r2[k].0);
            }
            if p > k {
                assert(r1[k].0 < r1[p].0);
                assert(r2[k].0 < r2[k2].0);
            }
            if p == k {
                assert(r2[k].0 < r2[k2].0);
            }
        }
    }
}

/// There is only one list of maximal runs.
pub proof fn lemma_runs_unique(ops: Seq<EditOp>, ctx: nat, r1: Seq<(int, int)>, r2: Seq<(int, int)>)
    requires
        maximal_runs(ops, ctx, r1),
        maximal_runs(ops, ctx, r2),
    ensures
        r1 == r2,
{
    if r1.len() < r2.len() {
        lemma_runs_prefix(ops, ctx, r1, r2, r1.len() as int);
        let k = r1.len() as int;
        lemma_run_match(ops, ctx, r2, r1, k);
        let p = choose|p: int| 0 <= p < r1.len() && r1[p] == r2[k];
        assert(r1[p] == r2[p]);
        assert(r2[p].0 < r2[k].0);
    } else if r2.len() < r1.len() {
        lemma_runs_prefix(ops, ctx, r1, r2, r2.len() as int);
        let k = r2.len() as int;
        lemma_run_match(ops, ctx, r1, r2, k);
        let p = choose|p: int| 0 <= p < r2.len() && r2[p] == r1[k];
        assert(r1[p] == r2[p]);
        assert(r1[p].0 < r1[k].0);
    } else {
        lemma_runs_prefix(ops, ctx, r1, r2, r1.len() as int);
    }
    assert(r1 =~= r2);
}

/// Hunks that [`hunks_for`] describes are [`diff_hunks`].
pub proof fn lemma_hunks_for_unique(old: Seq<Seq<char>>, new: Seq<Seq<char>>, ctx: nat, hs: Seq<HunkView>)
    requires
        hunks_for(diff_script(old, new), old, new, ctx, hs),
    ensures
        hs == diff_hunks(old, new, ctx),
{
    let ops = diff_script(old, new);
    let hd = diff_hunks(old, new, ctx);
    assert(hunks_for(ops, old, new, ctx, hd));
    let r1 = choose|rs: Seq<(int, int)>|
        maximal_runs(ops, ctx, rs) && hs.len() == rs.len() && forall|q: int|
            0 <= q < rs.len() ==> #[trigger] hs[q] == range_hunk(ops, old, new, rs[q].0, rs[q].1);
    let r2 = choose|rs: Seq<(int, int)>|
        maximal_runs(ops, ctx, rs) && hd.len() == rs.len() && forall|q: int|
            0 <= q < rs.len() ==> #[trigger] hd[q] == range_hunk(ops, old, new, rs[q].0, rs[q].1);
    lemma_runs_unique(ops, ctx, r1, r2);
    assert(hs =~= hd);
}

proof fn lemma_runs_total(ops: Seq<EditOp>, ctx: nat, rs: Seq<(int, int)>, k: int)
    requires
        maximal_runs(ops, ctx, rs),
        0 < k <= rs.len(),
    ensures
        hunk_span(rs.take(k)) <= rs[k - 1].1,
    decreases k,
{
    let t = rs.take(k);
    assert(t.drop_last() =~= rs.take(k - 1));
    assert(t.last() == rs[k - 1]);
    assert(0 <= rs[k - 1].0 < rs[k - 1].1);
    assert(hunk_span(t) == hunk_span(rs.take(k - 1)) + (rs[k - 1].1 - rs[k - 1].0));
    if k > 1 {
        lemma_runs_total(ops, ctx, rs, k - 1);
        assert(rs[k - 2].1 < rs[k - 1].0);
    }
}

/// The total length of a list of runs.
pub open spec fn hunk_span(rs: Seq<(int, int)>) -> int
    decreases rs.len(),
{
    if rs.len() == 0 {
        0
    } else {
        hunk_span(rs.drop_last()) + (rs.last().1 - rs.last().0)
    }
}

proof fn lemma_hunks_len_span(ops: Seq<EditOp>, old: Seq<Seq<char>>, new: Seq<Seq<char>>, rs: Seq<(int, int)>, hs: Seq<HunkView>)
    requires
        hs.len() == rs.len(),
        forall|q: int| 0 <= q < rs.len() ==> #[trigger] hs[q] == range_hunk(ops, old, new, rs[q].0, rs[q].1),
        forall|q: int| 0 <= q < rs.len() ==> 0 <= (#[trigger] rs[q]).0 < rs[q].1,
    ensures
        hunks_len(hs) == hunk_span(rs),
    decreases rs.len(),
{
    if rs.len() > 0 {
        let r2 = rs.drop_last();
        let h2 = hs.drop_last();
        assert forall|q: int| 0 <= q < r2.len() implies #[trigger] h2[q] == range_hunk(ops, old, new, r2[q].0, r2[q].1) by {
            assert(h2[q] == hs[q]);
            assert(r2[q] == rs[q]);
        }
        assert forall|q: int| 0 <= q < r2.len() implies 0 <= (#[trigger] r2[q]).0 < r2[q].1 by {
            assert(r2[q] == rs[q]);
        }
        lemma_hunks_len_span(ops, old, new, r2, h2);
        assert(hs[hs.len() - 1] == range_hunk(ops, old, new, rs[rs.len() - 1].0, rs[rs.len() - 1].1));
    }
}

/// The hunks hold no more lines than the script has operations.
pub proof fn lemma_hunks_for_len(ops: Seq<EditOp>, old: Seq<Seq<char>>, new: Seq<Seq<char>>, ctx: nat, hs: Seq<HunkView>)
    requires
        hunks_for(ops, old, new, ctx, hs),
    ensures
        hunks_len(hs) <= ops.len(),
{
    let rs = choose|rs: Seq<(int, int)>|
        maximal_runs(ops, ctx, rs) && hs.len() == rs.len() && forall|q: int|
            0 <= q < rs.len() ==> #[trigger] hs[q] == range_hunk(ops, old, new, rs[q].0, rs[q].1);
    lemma_hunks_len_span(ops, old, new, rs, hs);
    if rs.len() > 0 {
        lemma_runs_total(ops, ctx, rs, rs.len() as int);
        assert(rs.take(rs.len() as int) =~= rs);
    }
}

} // verus!
