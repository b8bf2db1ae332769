//! What applying a generated diff gives back.
use vstd::prelude::*;
use crate::text::join;
use crate::diff_lines::{split_lines, nl, lemma_join_split_lines};
use crate::diff_script::{EditOp, opos, npos, op_old, op_new, script_ok, lemma_pos_mono, lemma_script_bounds, lemma_script_equal, lemma_script_ends, lemma_script_len, lemma_pos_sum, diff_script};
use crate::diff_hunks::{covered, is_change, maximal_runs, hunks_for, range_hunk, op_line, lemma_runs_unique};
use crate::diff_model::{HunkView, LineView, FileDiff, TextOutcome, HunkStep, HunksOutcome, hunks_of, hunk_step, apply_from, mismatch_from, replacement, finish_text, created_text, added_text};
use crate::diff_engine::{generated, apply_outcome, diff_in_range};

verus! {

/// The operations `e..a` all keep their line.
pub open spec fn all_equal(ops: Seq<EditOp>, e: int, a: int) -> bool {
    forall|k: int| e <= k < a ==> #[trigger] ops[k] == EditOp::Equal
}

/// The text after applying the hunks whose operations end at `e`: the new
/// lines before `e`, then the old lines from `e` on.
pub open spec fn midway(ops: Seq<EditOp>, o: Seq<Seq<char>>, w: Seq<Seq<char>>, e: int) -> Seq<Seq<char>> {
    w.take(npos(ops, e) as int) + o.skip(opos(ops, e) as int)
}

proof fn lemma_equal_stretch(ops: Seq<EditOp>, o: Seq<Seq<char>>, w: Seq<Seq<char>>, e: int, a: int)
    requires
        script_ok(ops, o, w),
        0 <= e <= a <= ops.len(),
        all_equal(ops, e, a),
    ensures
        opos(ops, a) - opos(ops, e) == a - e,
        npos(ops, a) - npos(ops, e) == a - e,
        o.subrange(opos(ops, e) as int, opos(ops, a) as int) == w.subrange(
            npos(ops, e) as int,
            npos(ops, a) as int,
        ),
    decreases a - e,
{
    if a > e {
        lemma_equal_stretch(ops, o, w, e, a - 1);
        lemma_pos_mono(ops, e, a - 1);
        lemma_script_bounds(ops, o, w, a - 1);
        lemma_script_ends(ops, o, w);
        assert(ops[a - 1] == EditOp::Equal);
        lemma_script_equal(ops, o, w, a - 1);
        assert(o.subrange(opos(ops, e) as int, opos(ops, a) as int) =~= o.subrange(
            opos(ops, e) as int,
            opos(ops, a - 1) as int,
        ).push(o[opos(ops, a - 1) as int]));
        assert(w.subrange(npos(ops, e) as int, npos(ops, a) as int) =~= w.subrange(
            npos(ops, e) as int,
            npos(ops, a - 1) as int,
        ).push(w[npos(ops, a - 1) as int]));
    } else {
        lemma_pos_mono(ops, e, ops.len() as int);
        lemma_script_ends(ops, o, w);
        assert(o.subrange(opos(ops, e) as int, opos(ops, a) as int) =~= w.subrange(
            npos(ops, e) as int,
            npos(ops, a) as int,
        ));
    }
}

#[verifier::spinoff_prover]
#[verifier::rlimit(100)]
proof fn lemma_hunk_checks(ops: Seq<EditOp>, o: Seq<Seq<char>>, w: Seq<Seq<char>>, e: int, a: int, b: int, t: int)
    requires
        script_ok(ops, o, w),
        0 <= e <= a < b <= ops.len(),
        npos(ops, a) - npos(ops, e) == opos(ops, a) - opos(ops, e),
        0 <= t <= b - a,
    ensures
        mismatch_from(
            midway(ops, o, w, e),
            range_hunk(ops, o, w, a, b).lines,
            t,
            npos(ops, a) + opos(ops, a + t) - opos(ops, a),
        ) is None,
    decreases b - a - t,
{
    let hl = range_hunk(ops, o, w, a, b).lines;
    let cur = midway(ops, o, w, e);
    if t < b - a {
        lemma_hunk_checks(ops, o, w, e, a, b, t + 1);
        lemma_pos_mono(ops, e, a);
        lemma_pos_mono(ops, a, a + t);
        lemma_pos_mono(ops, a + t, ops.len() as int);
        lemma_pos_mono(ops, e, ops.len() as int);
        lemma_script_bounds(ops, o, w, a + t);
        lemma_script_ends(ops, o, w);
        assert(hl[t] == op_line(ops, o, w, a + t));
        let p = npos(ops, a) + opos(ops, a + t) - opos(ops, a);
        if ops[a + t] != EditOp::Insert {
            assert(p >= npos(ops, e));
            assert(cur[p] == o[opos(ops, e) + (p - npos(ops, e))]);
            assert(opos(ops, e) + (p - npos(ops, e)) == opos(ops, a + t));
        }
        assert(opos(ops, a + t + 1) == opos(ops, a + t) + op_old(ops[a + t]));
    }
}

proof fn lemma_hunk_replacement(ops: Seq<EditOp>, o: Seq<Seq<char>>, w: Seq<Seq<char>>, a: int, b: int, t: int)
    requires
        script_ok(ops, o, w),
        0 <= a < b <= ops.len(),
        0 <= t <= b - a,
    ensures
        replacement(range_hunk(ops, o, w, a, b).lines.take(t)) == w.subrange(
            npos(ops, a) as int,
            npos(ops, a + t) as int,
        ),
    decreases t,
{
    let hl = range_hunk(ops, o, w, a, b).lines;
    if t == 0 {
        lemma_pos_mono(ops, a, ops.len() as int);
        lemma_script_ends(ops, o, w);
        assert(hl.take(0) =~= Seq::<LineView>::empty());
        assert(w.subrange(npos(ops, a) as int, npos(ops, a) as int) =~= Seq::<Seq<char>>::empty());
    } else {
        lemma_hunk_replacement(ops, o, w, a, b, t - 1);
        let k = a + t - 1;
        lemma_pos_mono(ops, a, k);
        lemma_pos_mono(ops, k + 1, ops.len() as int);
        lemma_script_bounds(ops, o, w, k);
        lemma_script_ends(ops, o, w);
        assert(hl.take(t).drop_last() =~= hl.take(t - 1));
        assert(hl.take(t).last() == op_line(ops, o, w, k));
        assert(npos(ops, k + 1) == npos(ops, k) + op_new(ops[k]));
        if ops[k] == EditOp::Equal {
            lemma_script_equal(ops, o, w, k);
        }
        assert(replacement(hl.take(t)) =~= w.subrange(npos(ops, a) as int, npos(ops, a + t) as int));
    }
}

#[verifier::spinoff_prover]
#[verifier::rlimit(100)]
proof fn lemma_hunk_step(ops: Seq<EditOp>, o: Seq<Seq<char>>, w: Seq<Seq<char>>, e: int, a: int, b: int)
    requires
        script_ok(ops, o, w),
        0 <= e <= a < b <= ops.len(),
        all_equal(ops, e, a),
        o.len() + w.len() < isize::MAX,
    ensures
        hunk_step(
            midway(ops, o, w, e),
            range_hunk(ops, o, w, a, b),
            npos(ops, e) - opos(ops, e),
        ) == HunkStep::Next(midway(ops, o, w, b), npos(ops, b) - opos(ops, b)),
{
    let h = range_hunk(ops, o, w, a, b);
    let cur = midway(ops, o, w, e);
    lemma_equal_stretch(ops, o, w, e, a);
    lemma_pos_mono(ops, e, a);
    lemma_pos_mono(ops, a, b);
    lemma_pos_mono(ops, b, ops.len() as int);
    lemma_pos_mono(ops, e, ops.len() as int);
    lemma_script_ends(ops, o, w);
    let s = h.old_start - 1 + (npos(ops, e) - opos(ops, e));
    assert(s == npos(ops, a));
    lemma_hunk_checks(ops, o, w, e, a, b, 0);
    assert(mismatch_from(cur, h.lines, 0, s) is None);
    lemma_hunk_replacement(ops, o, w, a, b, b - a);
    assert(h.lines.take(b - a) =~= h.lines);
    let r = replacement(h.lines);
    assert(r == w.subrange(npos(ops, a) as int, npos(ops, b) as int));
    let end = s + h.old_count;
    assert(cur.len() == npos(ops, e) + o.len() - opos(ops, e));
    assert(end <= cur.len());
    let next = cur.subrange(0, s) + r + cur.subrange(end, cur.len() as int);
    assert forall|i: int| 0 <= i < s implies #[trigger] cur.subrange(0, s)[i] == w.take(npos(ops, a) as int)[i] by {
        if i >= npos(ops, e) {
            assert(cur[i] == o[opos(ops, e) + (i - npos(ops, e))]);
            assert(o.subrange(opos(ops, e) as int, opos(ops, a) as int)[i - npos(ops, e)] == w.subrange(
                npos(ops, e) as int,
                npos(ops, a) as int,
            )[i - npos(ops, e)]);
        }
    }
    assert(cur.subrange(0, s) =~= w.take(npos(ops, a) as int));
    assert(cur.subrange(end, cur.len() as int) =~= o.skip(opos(ops, b) as int));
    assert(next =~= midway(ops, o, w, b));
}

/// The operations not in any run keep their lines.
proof fn lemma_gap_equal(ops: Seq<EditOp>, ctx: nat, rs: Seq<(int, int)>, q: int, e: int, a: int)
    requires
        maximal_runs(ops, ctx, rs),
        0 <= q <= rs.len(),
        e == (if q == 0 { 0 } else { rs[q - 1].1 }),
        a == (if q == rs.len() { ops.len() as int } else { rs[q].0 }),
    ensures
        all_equal(ops, e, a),
{
    assert forall|k: int| e <= k < a implies #[trigger] ops[k] == EditOp::Equal by {
        if ops[k] != EditOp::Equal {
            assert(is_change(ops, k));
            assert(covered(ops, ctx, k));
            let q2 = choose|q2: int| 0 <= q2 < rs.len() && (#[trigger] rs[q2]).0 <= k < rs[q2].1;
            if q2 < q {
                if q2 < q - 1 {
                    assert(rs[q2].1 < rs[q - 1].0);
                }
            } else {
                if q2 > q {
                    assert(rs[q].1 < rs[q2].0);
                }
            }
        }
    }
}

#[verifier::spinoff_prover]
#[verifier::rlimit(100)]
proof fn lemma_apply_runs(
    ops: Seq<EditOp>,
    o: Seq<Seq<char>>,
    w: Seq<Seq<char>>,
    ctx: nat,
    rs: Seq<(int, int)>,
    hs: Seq<HunkView>,
    q: int,
)
    requires
        script_ok(ops, o, w),
        maximal_runs(ops, ctx, rs),
        hs.len() == rs.len(),
        forall|p: int| 0 <= p < rs.len() ==> #[trigger] hs[p] == range_hunk(ops, o, w, rs[p].0, rs[p].1),
        0 <= q <= rs.len(),
        o.len() + w.len() < isize::MAX,
    ensures
        ({
            let e = if q == 0 { 0 } else { rs[q - 1].1 };
            apply_from(midway(ops, o, w, e), hs, q, npos(ops, e) - opos(ops, e)) == HunksOutcome::Done(w)
        }),
    decreases rs.len() - q,
{
    let e = if q == 0 { 0 } else { rs[q - 1].1 };
    if q > 0 {
        assert(0 <= rs[q - 1].0 < rs[q - 1].1 <= ops.len());
    }
    if q == rs.len() {
        let n = ops.len() as int;
        lemma_gap_equal(ops, ctx, rs, q, e, n);
        lemma_equal_stretch(ops, o, w, e, n);
        lemma_pos_mono(ops, e, n);
        lemma_pos_mono(ops, 0, e);
        lemma_script_ends(ops, o, w);
        let m = midway(ops, o, w, e);
        assert forall|i: int| 0 <= i < w.len() implies m[i] == w[i] by {
            if i >= npos(ops, e) {
                assert(m[i] == o[opos(ops, e) + (i - npos(ops, e))]);
                assert(o.subrange(opos(ops, e) as int, opos(ops, n) as int)[i - npos(ops, e)] == w.subrange(
                    npos(ops, e) as int,
                    npos(ops, n) as int,
                )[i - npos(ops, e)]);
            }
        }
        assert(m =~= w);
    } else {
        let a = rs[q].0;
        let b = rs[q].1;
        assert(0 <= a < b <= ops.len());
        if q > 0 {
            assert(rs[q - 1].1 < rs[q].0);
        }
        lemma_gap_equal(ops, ctx, rs, q, e, a);
        lemma_hunk_step(ops, o, w, e, a, b);
        lemma_apply_runs(ops, o, w, ctx, rs, hs, q + 1);
        assert(hs[q] == range_hunk(ops, o, w, a, b));
    }
}

proof fn lemma_added_all(hl: Seq<LineView>, w: Seq<Seq<char>>, k: int)
    requires
        1 <= k <= hl.len(),
        hl.len() <= w.len(),
        forall|t: int| 0 <= t < hl.len() ==> #[trigger] hl[t] == LineView::Added(w[t]),
    ensures
        added_text(hl.take(k)) == join(w.take(k), nl()) + nl(),
    decreases k,
{
    assert(hl.take(k).drop_last() =~= hl.take(k - 1));
    assert(hl.take(k).last() == LineView::Added(w[k - 1]));
    assert(w.take(k).drop_last() =~= w.take(k - 1));
    if k == 1 {
        assert(hl.take(0) =~= Seq::<LineView>::empty());
        assert(added_text(hl.take(0)) == Seq::<char>::empty());
        assert(join(w.take(1), nl()) == w[0]);
        assert(added_text(hl.take(1)) =~= join(w.take(k), nl()) + nl());
    } else {
        lemma_added_all(hl, w, k - 1);
        assert(join(w.take(k), nl()) == join(w.take(k - 1), nl()) + nl() + w[k - 1]);
        assert(added_text(hl.take(k)) =~= join(w.take(k), nl()) + nl());
    }
}

/// Creating from empty text writes every line of the new text.
proof fn lemma_create_case(o: Seq<Seq<char>>, w: Seq<Seq<char>>, ctx: nat, hs: Seq<HunkView>, new: Seq<char>)
    requires
        o.len() == 0,
        new.len() > 0,
        new.last() == '\n',
        w == split_lines(new),
        script_ok(diff_script(o, w), o, w),
        hunks_for(diff_script(o, w), o, w, ctx, hs),
    ensures
        created_text(hs) == new,
{
    let ops = diff_script(o, w);
    lemma_join_split_lines(new);
    lemma_script_ends(ops, o, w);
    let n = ops.len() as int;
    assert forall|k: int| 0 <= k < n implies #[trigger] ops[k] == EditOp::Insert by {
        lemma_pos_mono(ops, k + 1, n);
        assert(opos(ops, k + 1) == opos(ops, k) + op_old(ops[k]));
    }
    assert forall|k: int| 0 <= k <= n implies #[trigger] npos(ops, k) == k by {
        lemma_pos_sum(ops, k);
        lemma_pos_mono(ops, 0, k);
        lemma_pos_mono(ops, k, n);
    }
    assert(n == w.len());
    let rs1 = seq![(0int, n)];
    assert forall|i: int| 0 <= i < n implies #[trigger] covered(ops, ctx, i) by {
        assert(is_change(ops, i));
    }
    assert(maximal_runs(ops, ctx, rs1)) by {
        assert forall|i: int| #[trigger] covered(ops, ctx, i) implies exists|q: int|
            0 <= q < rs1.len() && (#[trigger] rs1[q]).0 <= i < rs1[q].1 by {
            assert(rs1[0].0 <= i < rs1[0].1);
        }
    }
    let rs = choose|rs: Seq<(int, int)>|
        maximal_runs(ops, ctx, rs) && hs.len() == rs.len() && forall|q: int|
            0 <= q < rs.len() ==> #[trigger] hs[q] == range_hunk(ops, o, w, rs[q].0, rs[q].1);
    lemma_runs_unique(ops, ctx, rs, rs1);
    let h = hs[0];
    assert(h == range_hunk(ops, o, w, 0, n));
    assert forall|t: int| 0 <= t < h.lines.len() implies #[trigger] h.lines[t] == LineView::Added(w[t]) by {
        assert(h.lines[t] == op_line(ops, o, w, t));
    }
    lemma_added_all(h.lines, w, n);
    assert(h.lines.take(n) =~= h.lines);
    assert(w.take(n) =~= w);
    assert(hs.drop_last() =~= Seq::<HunkView>::empty());
    assert(created_text(hs) == created_text(hs.drop_last()) + added_text(h.lines));
}

/// Applying the diff that [`crate::diff_engine::DiffEngine::generate_diff`]
/// (with any number of context lines, as
/// [`crate::diff_engine::DiffEngine::minimize_diff`] with none) produced
/// from `old` to `new` to the text `old` gives back `new`, whenever
/// `new` is empty or ends with a newline (and, unless `old` is empty, its
/// last line is not empty: a final empty line is not kept).
pub proof fn law_apply_generated_diff(d: FileDiff, path: Seq<char>, old: Seq<char>, new: Seq<char>, ctx: nat)
    requires
        generated(d, path, old, new, ctx),
        split_lines(old).len() + split_lines(new).len() < isize::MAX,
        new.len() == 0 || (new.last() == '\n' && (old.len() == 0 || (new.len() >= 2 && new[new.len() - 2]
            != '\n'))),
    ensures
        diff_in_range(d),
        apply_outcome(old, d) == TextOutcome::Text(new),
{
    let o = split_lines(old);
    let w = split_lines(new);
    let ops = diff_script(o, w);
    let hs = hunks_of(d.hunks@);
    lemma_script_len(ops, o, w);
    lemma_script_ends(ops, o, w);
    let rs = choose|rs: Seq<(int, int)>|
        maximal_runs(ops, ctx, rs) && hs.len() == rs.len() && forall|q: int|
            0 <= q < rs.len() ==> #[trigger] hs[q] == range_hunk(ops, o, w, rs[q].0, rs[q].1);
    assert forall|k: int| 0 <= k < hs.len() implies (#[trigger] hs[k]).old_start <= isize::MAX
        && hs[k].old_count <= isize::MAX && hs[k].lines.len() <= isize::MAX by {
        assert(0 <= rs[k].0 < rs[k].1 <= ops.len());
        lemma_pos_mono(ops, rs[k].0, rs[k].1);
        lemma_pos_mono(ops, rs[k].1, ops.len() as int);
        assert(hs[k] == range_hunk(ops, o, w, rs[k].0, rs[k].1));
    }
    assert forall|k: int| 0 <= k < d.hunks@.len() implies (#[trigger] d.hunks@[k]).lines@.len() <= isize::MAX by {
        assert(hs[k] == d.hunks@[k]@);
        assert(hs[k].lines.len() <= isize::MAX);
    }
    if old.len() == 0 && new.len() > 0 {
        lemma_create_case(o, w, ctx, hs, new);
        assert(d.operation is Create);
        assert(apply_outcome(old, d) == TextOutcome::Text(created_text(hs)));
    } else if old.len() > 0 && new.len() == 0 {
        assert(d.operation is Delete);
        assert(new =~= Seq::<char>::empty());
    } else {
        assert(d.operation is Modify);
        lemma_apply_runs(ops, o, w, ctx, rs, hs, 0);
        assert(opos(ops, 0) == 0 && npos(ops, 0) == 0);
        assert(midway(ops, o, w, 0) =~= o);
        assert(apply_from(o, hs, 0, 0) == HunksOutcome::Done(w));
        if new.len() > 0 {
            lemma_join_split_lines(new);
            let j = join(w, nl());
            assert(j =~= new.drop_last());
            assert(finish_text(w) =~= new);
        } else {
            assert(finish_text(w) =~= new);
        }
    }
}

} // verus!
