//! Minimal diffs: the edit script read back from the LCS table keeps a
//! longest common subsequence of the two texts, so no edit script removes
//! or adds fewer lines.
use vstd::prelude::*;
use crate::diff_script::{EditOp, op_old, op_new, opos, npos, script_from, script_ok, lcs_len, edit_script, diff_script};
use crate::diff_hunks::{hunks_for, maximal_runs, range_hunk, op_line, covered, is_change};
use crate::diff_model::{HunkView, LineView, hunks_removed, hunks_added, removed_in, added_in};

verus! {

/// How many operations of `ops` are `which`.
pub open spec fn op_count(ops: Seq<EditOp>, which: EditOp) -> nat
    decreases ops.len(),
{
    if ops.len() == 0 {
        0
    } else {
        op_count(ops.drop_last(), which) + if ops.last() == which {
            1nat
        } else {
            0nat
        }
    }
}

/// Each prefix of the LCS table grows by at most one per line, and never
/// shrinks when a line is added to either text.
proof fn lemma_lcs_steps(o: Seq<Seq<char>>, n: Seq<Seq<char>>, i: nat, j: nat)
    ensures
        i >= 1 ==> lcs_len(o, n, i, j) <= lcs_len(o, n, (i - 1) as nat, j) + 1,
        j >= 1 ==> lcs_len(o, n, i, j) <= lcs_len(o, n, i, (j - 1) as nat) + 1,
        j >= 1 ==> lcs_len(o, n, i, (j - 1) as nat) <= lcs_len(o, n, i, j),
        i >= 1 ==> lcs_len(o, n, (i - 1) as nat, j) <= lcs_len(o, n, i, j),
    decreases i + j,
{
    if i >= 1 && j >= 1 {
        let i1 = (i - 1) as nat;
        let j1 = (j - 1) as nat;
        lemma_lcs_steps(o, n, i, j1);
        lemma_lcs_steps(o, n, i1, j);
    }
}

/// The LCS table of `old[..i]` and `new[..j]` depends only on those lines.
proof fn lemma_lcs_prefix(o: Seq<Seq<char>>, n: Seq<Seq<char>>, a: int, b: int, i: nat, j: nat)
    requires
        i <= a <= o.len(),
        j <= b <= n.len(),
    ensures
        lcs_len(o.take(a), n.take(b), i, j) == lcs_len(o, n, i, j),
    decreases i + j,
{
    if i >= 1 && j >= 1 {
        assert(o.take(a)[i - 1] == o[i - 1]);
        assert(n.take(b)[j - 1] == n[j - 1]);
        lemma_lcs_prefix(o, n, a, b, (i - 1) as nat, (j - 1) as nat);
        lemma_lcs_prefix(o, n, a, b, (i - 1) as nat, j);
        lemma_lcs_prefix(o, n, a, b, i, (j - 1) as nat);
    }
}

proof fn lemma_pos_drop_last(ops: Seq<EditOp>, k: int)
    requires
        0 <= k < ops.len(),
    ensures
        opos(ops.drop_last(), k) == opos(ops, k),
        npos(ops.drop_last(), k) == npos(ops, k),
    decreases k,
{
    if k > 0 {
        lemma_pos_drop_last(ops, k - 1);
        assert(ops.drop_last()[k - 1] == ops[k - 1]);
    }
}

/// The old lines a script consumes are its kept and deleted lines; the new
/// lines it produces are its kept and inserted lines.
proof fn lemma_pos_counts(ops: Seq<EditOp>)
    ensures
        opos(ops, ops.len() as int) == op_count(ops, EditOp::Equal) + op_count(ops, EditOp::Delete),
        npos(ops, ops.len() as int) == op_count(ops, EditOp::Equal) + op_count(ops, EditOp::Insert),
    decreases ops.len(),
{
    if ops.len() > 0 {
        let d = ops.drop_last();
        lemma_pos_counts(d);
        if d.len() > 0 {
            lemma_pos_drop_last(ops, d.len() as int);
        }
        assert(ops[ops.len() - 1] == ops.last());
    }
}

/// Without its last operation, a script turns the texts without the lines
/// that operation consumed and produced.
#[verifier::spinoff_prover]
#[verifier::rlimit(40)]
proof fn lemma_script_drop_last(s: Seq<EditOp>, o: Seq<Seq<char>>, n: Seq<Seq<char>>)
    requires
        script_ok(s, o, n),
        s.len() > 0,
    ensures
        o.len() >= op_old(s.last()),
        n.len() >= op_new(s.last()),
        script_ok(s.drop_last(), o.take(o.len() - op_old(s.last())), n.take(n.len() - op_new(s.last()))),
        s.last() == EditOp::Equal ==> o[o.len() - 1] == n[n.len() - 1],
{
    reveal(script_from);
    let d = s.drop_last();
    let k = d.len() as int;
    assert(s[k] == s.last());
    if k > 0 {
        lemma_pos_drop_last(s, k);
    }
    crate::diff_script::lemma_pos_mono(s, k, k);
    let o2 = o.take(o.len() - op_old(s.last()));
    let n2 = n.take(n.len() - op_new(s.last()));
    assert forall|t: int| 0 <= t < d.len() && d[t] == EditOp::Equal implies o2[0int + opos(d, t)] == n2[0int + npos(d, t)] by {
        lemma_pos_drop_last(s, t);
        assert(d[t] == s[t]);
        crate::diff_script::lemma_pos_mono(s, t + 1, k);
        assert(opos(s, t + 1) == opos(s, t) + 1);
        assert(npos(s, t + 1) == npos(s, t) + 1);
    }
}

/// A script keeps no more lines than a longest common subsequence has.
proof fn lemma_script_keeps_at_most_lcs(s: Seq<EditOp>, o: Seq<Seq<char>>, n: Seq<Seq<char>>)
    requires
        script_ok(s, o, n),
    ensures
        op_count(s, EditOp::Equal) <= lcs_len(o, n, o.len(), n.len()),
    decreases s.len(),
{
    if s.len() > 0 {
        let l = s.last();
        lemma_script_drop_last(s, o, n);
        let a = o.len() - op_old(l);
        let b = n.len() - op_new(l);
        let o2 = o.take(a);
        let n2 = n.take(b);
        lemma_script_keeps_at_most_lcs(s.drop_last(), o2, n2);
        lemma_lcs_prefix(o, n, a, b, a as nat, b as nat);
        assert(o2.len() == a && n2.len() == b);
        lemma_lcs_steps(o, n, o.len(), n.len());
        if l == EditOp::Equal {
            assert(o[o.len() - 1] == n[n.len() - 1]);
        } else if l == EditOp::Insert {
            assert(o.len() == a);
        } else {
            assert(n.len() == b);
        }
    }
}

/// The script read back from the LCS table keeps exactly a longest common
/// subsequence, deletes the other old lines and inserts the other new ones.
proof fn lemma_edit_script_counts(o: Seq<Seq<char>>, n: Seq<Seq<char>>, i: nat, j: nat)
    requires
        i <= o.len(),
        j <= n.len(),
    ensures
        lcs_len(o, n, i, j) <= i,
        lcs_len(o, n, i, j) <= j,
        op_count(edit_script(o, n, i, j), EditOp::Equal) == lcs_len(o, n, i, j),
        op_count(edit_script(o, n, i, j), EditOp::Delete) == i - lcs_len(o, n, i, j),
        op_count(edit_script(o, n, i, j), EditOp::Insert) == j - lcs_len(o, n, i, j),
    decreases i + j,
{
    let s = edit_script(o, n, i, j);
    if i == 0 && j == 0 {
    } else if i > 0 && j > 0 && o[i - 1] == n[j - 1] {
        lemma_edit_script_counts(o, n, (i - 1) as nat, (j - 1) as nat);
        assert(s.drop_last() == edit_script(o, n, (i - 1) as nat, (j - 1) as nat));
    } else if j > 0 && (i == 0 || lcs_len(o, n, i, (j - 1) as nat) >= lcs_len(o, n, (i - 1) as nat, j)) {
        lemma_edit_script_counts(o, n, i, (j - 1) as nat);
        assert(s.drop_last() == edit_script(o, n, i, (j - 1) as nat));
        assert(lcs_len(o, n, i, j) == lcs_len(o, n, i, (j - 1) as nat));
    } else {
        lemma_edit_script_counts(o, n, (i - 1) as nat, j);
        assert(s.drop_last() == edit_script(o, n, (i - 1) as nat, j));
        assert(lcs_len(o, n, i, j) == lcs_len(o, n, (i - 1) as nat, j));
    }
}

/// Diffs are minimal: the edit script between two texts of lines deletes
/// the old lines outside a longest common subsequence and inserts the new
/// lines outside it, and every edit script between the same texts deletes
/// and inserts at least as many lines.
pub proof fn law_diff_script_minimal(o: Seq<Seq<char>>, n: Seq<Seq<char>>, s: Seq<EditOp>)
    requires
        script_ok(s, o, n),
    ensures
        op_count(diff_script(o, n), EditOp::Delete) == o.len() - lcs_len(o, n, o.len(), n.len()),
        op_count(diff_script(o, n), EditOp::Insert) == n.len() - lcs_len(o, n, o.len(), n.len()),
        op_count(diff_script(o, n), EditOp::Delete) <= op_count(s, EditOp::Delete),
        op_count(diff_script(o, n), EditOp::Insert) <= op_count(s, EditOp::Insert),
{
    lemma_edit_script_counts(o, n, o.len(), n.len());
    lemma_script_keeps_at_most_lcs(s, o, n);
    lemma_pos_counts(s);
    reveal(script_from);
}

// ---------------------------------------------------------------------------
// Counting the changes that hunks show
// ---------------------------------------------------------------------------

/// How many of the operations `a..b` are `which`.
pub open spec fn range_count(ops: Seq<EditOp>, a: int, b: int, which: EditOp) -> nat
    decreases b - a,
{
    if b <= a {
        0
    } else {
        range_count(ops, a, b - 1, which) + if ops[b - 1] == which {
            1nat
        } else {
            0nat
        }
    }
}

proof fn lemma_range_split(ops: Seq<EditOp>, a: int, b: int, c: int, which: EditOp)
    requires
        a <= b <= c,
    ensures
        range_count(ops, a, c, which) == range_count(ops, a, b, which) + range_count(ops, b, c, which),
    decreases c - b,
{
    if b < c {
        lemma_range_split(ops, a, b, c - 1, which);
    }
}

proof fn lemma_range_zero(ops: Seq<EditOp>, a: int, b: int, which: EditOp)
    requires
        which != EditOp::Equal,
        forall|i: int| a <= i < b ==> !is_change(ops, i),
        0 <= a,
        b <= ops.len(),
    ensures
        range_count(ops, a, b, which) == 0,
    decreases b - a,
{
    if a < b {
        assert(!is_change(ops, b - 1));
        lemma_range_zero(ops, a, b - 1, which);
    }
}

proof fn lemma_count_take(ops: Seq<EditOp>, k: int, which: EditOp)
    requires
        0 <= k <= ops.len(),
    ensures
        op_count(ops.take(k), which) == range_count(ops, 0, k, which),
    decreases k,
{
    if k > 0 {
        assert(ops.take(k).drop_last() =~= ops.take(k - 1));
        assert(ops.take(k).last() == ops[k - 1]);
        lemma_count_take(ops, k - 1, which);
    }
}

/// The removed and added lines of the hunk of operations `a..b` are its
/// deletions and insertions.
proof fn lemma_range_hunk_counts(ops: Seq<EditOp>, o: Seq<Seq<char>>, n: Seq<Seq<char>>, a: int, b: int)
    requires
        0 <= a <= b <= ops.len(),
    ensures
        removed_in(range_hunk(ops, o, n, a, b).lines) == range_count(ops, a, b, EditOp::Delete),
        added_in(range_hunk(ops, o, n, a, b).lines) == range_count(ops, a, b, EditOp::Insert),
    decreases b - a,
{
    if a < b {
        lemma_range_hunk_counts(ops, o, n, a, b - 1);
        let l = range_hunk(ops, o, n, a, b).lines;
        assert(l.drop_last() =~= range_hunk(ops, o, n, a, b - 1).lines);
        assert(l.last() == op_line(ops, o, n, b - 1));
    }
}

/// The end of the `q`-th run before run `q`, or 0 for the first.
pub open spec fn run_end(rs: Seq<(int, int)>, q: int) -> int {
    if q <= 0 {
        0
    } else {
        rs[q - 1].1
    }
}

/// Operations between the runs change nothing.
proof fn lemma_gap_unchanged(ops: Seq<EditOp>, ctx: nat, rs: Seq<(int, int)>, q: int, i: int, upto: int)
    requires
        maximal_runs(ops, ctx, rs),
        0 <= q <= rs.len(),
        upto == (if q < rs.len() { rs[q].0 } else { ops.len() as int }),
        run_end(rs, q) <= i < upto,
    ensures
        !is_change(ops, i),
{
    if is_change(ops, i) {
        assert(covered(ops, ctx, i)) by {
            assert(i - ctx <= i <= i + ctx);
        }
        let p = choose|p: int| 0 <= p < rs.len() && (#[trigger] rs[p]).0 <= i < rs[p].1;
        if p < q {
            if p < q - 1 {
                assert(rs[p].1 < rs[q - 1].0);
            }
            assert(rs[p].1 <= rs[q - 1].1);
        } else if p > q {
            assert(rs[q].1 < rs[p].0);
        }
    }
}

/// The hunks of the first `q` runs show the deletions and insertions up to
/// the end of run `q - 1`.
proof fn lemma_runs_prefix(
    ops: Seq<EditOp>,
    o: Seq<Seq<char>>,
    n: Seq<Seq<char>>,
    ctx: nat,
    rs: Seq<(int, int)>,
    hs: Seq<HunkView>,
    q: int,
)
    requires
        0 <= q <= rs.len(),
        maximal_runs(ops, ctx, rs),
        hs.len() == rs.len(),
        forall|p: int| 0 <= p < rs.len() ==> #[trigger] hs[p] == range_hunk(ops, o, n, rs[p].0, rs[p].1),
    ensures
        0 <= run_end(rs, q) <= ops.len(),
        hunks_removed(hs.take(q)) == range_count(ops, 0, run_end(rs, q), EditOp::Delete),
        hunks_added(hs.take(q)) == range_count(ops, 0, run_end(rs, q), EditOp::Insert),
    decreases q,
{
    if q == 0 {
        assert(hs.take(0) =~= Seq::<HunkView>::empty());
    } else {
        let p = q - 1;
        lemma_runs_prefix(ops, o, n, ctx, rs, hs, p);
        let e = run_end(rs, p);
        let a = rs[p].0;
        let b = rs[p].1;
        if p > 0 {
            assert(rs[p - 1].1 < rs[p].0);
        }
        assert forall|i: int| e <= i < a implies !is_change(ops, i) by {
            lemma_gap_unchanged(ops, ctx, rs, p, i, a);
        }
        lemma_range_zero(ops, e, a, EditOp::Delete);
        lemma_range_zero(ops, e, a, EditOp::Insert);
        lemma_range_split(ops, 0, e, a, EditOp::Delete);
        lemma_range_split(ops, 0, e, a, EditOp::Insert);
        lemma_range_split(ops, 0, a, b, EditOp::Delete);
        lemma_range_split(ops, 0, a, b, EditOp::Insert);
        lemma_range_hunk_counts(ops, o, n, a, b);
        assert(hs.take(q).drop_last() =~= hs.take(p));
        assert(hs.take(q).last() == hs[p]);
    }
}

/// The hunks of a script show all its deletions and insertions.
pub proof fn lemma_hunks_count_changes(ops: Seq<EditOp>, o: Seq<Seq<char>>, n: Seq<Seq<char>>, ctx: nat, hs: Seq<HunkView>)
    requires
        hunks_for(ops, o, n, ctx, hs),
    ensures
        hunks_removed(hs) == op_count(ops, EditOp::Delete),
        hunks_added(hs) == op_count(ops, EditOp::Insert),
{
    let rs = choose|rs: Seq<(int, int)>|
        maximal_runs(ops, ctx, rs) && hs.len() == rs.len() && forall|q: int|
            0 <= q < rs.len() ==> #[trigger] hs[q] == range_hunk(ops, o, n, rs[q].0, rs[q].1);
    let q = rs.len() as int;
    lemma_runs_prefix(ops, o, n, ctx, rs, hs, q);
    let e = run_end(rs, q);
    let len = ops.len() as int;
    assert forall|i: int| e <= i < len implies !is_change(ops, i) by {
        lemma_gap_unchanged(ops, ctx, rs, q, i, len);
    }
    lemma_range_zero(ops, e, len, EditOp::Delete);
    lemma_range_zero(ops, e, len, EditOp::Insert);
    lemma_range_split(ops, 0, e, len, EditOp::Delete);
    lemma_range_split(ops, 0, e, len, EditOp::Insert);
    assert(hs.take(q) =~= hs);
    lemma_count_take(ops, len, EditOp::Delete);
    lemma_count_take(ops, len, EditOp::Insert);
    assert(ops.take(len) =~= ops);
}

// ---------------------------------------------------------------------------
// Zero context, and empty diffs
// ---------------------------------------------------------------------------

/// With no context lines, hunks show only changes: no line of any hunk is
/// a context line.
pub proof fn law_zero_context_has_no_context_lines(ops: Seq<EditOp>, o: Seq<Seq<char>>, n: Seq<Seq<char>>, hs: Seq<HunkView>)
    requires
        hunks_for(ops, o, n, 0, hs),
    ensures
        forall|q: int, t: int| 0 <= q < hs.len() && 0 <= t < hs[q].lines.len() ==> !(#[trigger] hs[q].lines[t] is Context),
{
    let rs = choose|rs: Seq<(int, int)>|
        maximal_runs(ops, 0, rs) && hs.len() == rs.len() && forall|q: int|
            0 <= q < rs.len() ==> #[trigger] hs[q] == range_hunk(ops, o, n, rs[q].0, rs[q].1);
    assert forall|q: int, t: int| 0 <= q < hs.len() && 0 <= t < hs[q].lines.len() implies !(#[trigger] hs[q].lines[t] is Context) by {
        assert(hs[q] == range_hunk(ops, o, n, rs[q].0, rs[q].1));
        let i = rs[q].0 + t;
        assert(covered(ops, 0, i));
        let jj = choose|jj: int| #[trigger] is_change(ops, jj) && jj - 0 <= i <= jj + 0;
        assert(jj == i);
        assert(hs[q].lines[t] == op_line(ops, o, n, i));
    }
}

/// A script has changes exactly when it has hunks.
proof fn lemma_hunks_empty_iff_no_change(ops: Seq<EditOp>, o: Seq<Seq<char>>, n: Seq<Seq<char>>, ctx: nat, hs: Seq<HunkView>)
    requires
        hunks_for(ops, o, n, ctx, hs),
    ensures
        (hs.len() == 0) == (forall|i: int| 0 <= i < ops.len() ==> !#[trigger] is_change(ops, i)),
{
    let rs = choose|rs: Seq<(int, int)>|
        maximal_runs(ops, ctx, rs) && hs.len() == rs.len() && forall|q: int|
            0 <= q < rs.len() ==> #[trigger] hs[q] == range_hunk(ops, o, n, rs[q].0, rs[q].1);
    if hs.len() == 0 {
        assert forall|i: int| 0 <= i < ops.len() implies !#[trigger] is_change(ops, i) by {
            if is_change(ops, i) {
                assert(covered(ops, ctx, i)) by {
                    assert(i - ctx <= i <= i + ctx);
                }
            }
        }
    } else {
        let i = rs[0].0;
        assert(covered(ops, ctx, i));
        let jj = choose|jj: int| #[trigger] is_change(ops, jj) && jj - ctx <= i <= jj + ctx;
        assert(is_change(ops, jj));
    }
}

/// The longest common subsequence of a text with itself is the text.
proof fn lemma_lcs_self(o: Seq<Seq<char>>, i: nat)
    requires
        i <= o.len(),
    ensures
        lcs_len(o, o, i, i) == i,
    decreases i,
{
    if i > 0 {
        lemma_lcs_self(o, (i - 1) as nat);
    }
}

/// A script of kept lines only maps each line to the same line.
proof fn lemma_all_equal_pos(ops: Seq<EditOp>, k: int)
    requires
        0 <= k <= ops.len(),
        forall|i: int| 0 <= i < ops.len() ==> !#[trigger] is_change(ops, i),
    ensures
        opos(ops, k) == k,
        npos(ops, k) == k,
    decreases k,
{
    if k > 0 {
        lemma_all_equal_pos(ops, k - 1);
        assert(!is_change(ops, k - 1));
    }
}

/// A diff has no hunks exactly when the two texts have the same lines.
pub proof fn law_no_hunks_iff_same_lines(o: Seq<Seq<char>>, n: Seq<Seq<char>>, ctx: nat, hs: Seq<HunkView>)
    requires
        script_ok(diff_script(o, n), o, n),
        hunks_for(diff_script(o, n), o, n, ctx, hs),
    ensures
        (hs.len() == 0) == (o == n),
{
    let ops = diff_script(o, n);
    lemma_hunks_empty_iff_no_change(ops, o, n, ctx, hs);
    lemma_edit_script_counts(o, n, o.len(), n.len());
    lemma_pos_counts(ops);
    if o == n {
        lemma_lcs_self(o, o.len());
        assert forall|i: int| 0 <= i < ops.len() implies !#[trigger] is_change(ops, i) by {
            if is_change(ops, i) {
                lemma_count_positive(ops, i);
            }
        }
    }
    if hs.len() == 0 {
        reveal(script_from);
        lemma_all_equal_pos(ops, ops.len() as int);
        assert forall|k: int| 0 <= k < o.len() implies o[k] == n[k] by {
            lemma_all_equal_pos(ops, k);
            assert(!is_change(ops, k));
            assert(o[0int + opos(ops, k)] == n[0int + npos(ops, k)]);
        }
        assert(o =~= n);
    }
}

/// A change in a script counts as a deletion or an insertion.
proof fn lemma_count_positive(ops: Seq<EditOp>, i: int)
    requires
        is_change(ops, i),
    ensures
        op_count(ops, EditOp::Delete) + op_count(ops, EditOp::Insert) > 0,
    decreases ops.len(),
{
    if i < ops.len() - 1 {
        assert(is_change(ops.drop_last(), i)) by {
            assert(ops.drop_last()[i] == ops[i]);
        }
        lemma_count_positive(ops.drop_last(), i);
    } else {
        assert(ops.last() == ops[i]);
    }
}

// ---------------------------------------------------------------------------
// The shape of each hunk
// ---------------------------------------------------------------------------

/// The lines of a hunk that come from the old text: context and removed.
pub open spec fn old_side(hl: Seq<LineView>) -> nat
    decreases hl.len(),
{
    if hl.len() == 0 {
        0
    } else {
        old_side(hl.drop_last()) + if hl.last() is Added {
            0nat
        } else {
            1nat
        }
    }
}

/// The lines of a hunk that go to the new text: context and added.
pub open spec fn new_side(hl: Seq<LineView>) -> nat
    decreases hl.len(),
{
    if hl.len() == 0 {
        0
    } else {
        new_side(hl.drop_last()) + if hl.last() is Removed {
            0nat
        } else {
            1nat
        }
    }
}

proof fn lemma_range_sides(ops: Seq<EditOp>, o: Seq<Seq<char>>, n: Seq<Seq<char>>, a: int, b: int)
    requires
        0 <= a <= b <= ops.len(),
    ensures
        old_side(range_hunk(ops, o, n, a, b).lines) == opos(ops, b) - opos(ops, a),
        new_side(range_hunk(ops, o, n, a, b).lines) == npos(ops, b) - npos(ops, a),
    decreases b - a,
{
    if a < b {
        lemma_range_sides(ops, o, n, a, b - 1);
        let l = range_hunk(ops, o, n, a, b).lines;
        assert(l.drop_last() =~= range_hunk(ops, o, n, a, b - 1).lines);
        assert(l.last() == op_line(ops, o, n, b - 1));
        assert(opos(ops, b) == opos(ops, b - 1) + op_old(ops[b - 1]));
        assert(npos(ops, b) == npos(ops, b - 1) + op_new(ops[b - 1]));
    }
}

/// Some line of a hunk is not a context line.
pub open spec fn shows_change(hl: Seq<LineView>) -> bool {
    exists|t: int| 0 <= t < hl.len() && !(#[trigger] hl[t] is Context)
}

/// Between two runs, only kept lines: the old position moves on.
proof fn lemma_gap_moves(ops: Seq<EditOp>, ctx: nat, rs: Seq<(int, int)>, q: int, k: int)
    requires
        maximal_runs(ops, ctx, rs),
        0 <= q < rs.len() - 1,
        rs[q].1 <= k <= rs[q + 1].0,
    ensures
        opos(ops, k) == opos(ops, rs[q].1) + (k - rs[q].1),
        npos(ops, k) == npos(ops, rs[q].1) + (k - rs[q].1),
    decreases k - rs[q].1,
{
    if k > rs[q].1 {
        lemma_gap_moves(ops, ctx, rs, q, k - 1);
        assert(rs[q].1 < rs[q + 1].0);
        lemma_gap_unchanged(ops, ctx, rs, q + 1, k - 1, rs[q + 1].0);
        assert(!is_change(ops, k - 1));
    }
}

/// Each hunk of a script counts its own lines: its old count is its
/// context and removed lines, its new count its context and added lines;
/// it shows at least one change; and the next hunk starts strictly after
/// it ends, in the old text and in the new text.
pub proof fn law_hunk_shape(ops: Seq<EditOp>, o: Seq<Seq<char>>, n: Seq<Seq<char>>, ctx: nat, hs: Seq<HunkView>)
    requires
        hunks_for(ops, o, n, ctx, hs),
    ensures
        forall|q: int| 0 <= q < hs.len() ==> (#[trigger] hs[q]).old_count == old_side(hs[q].lines)
            && hs[q].new_count == new_side(hs[q].lines),
        forall|q: int| 0 <= q < hs.len() ==> shows_change(#[trigger] hs[q].lines),
        forall|q: int| 0 <= q < hs.len() - 1 ==> (#[trigger] hs[q]).old_start + hs[q].old_count < hs[q + 1].old_start
            && hs[q].new_start + hs[q].new_count < hs[q + 1].new_start,
{
    let rs = choose|rs: Seq<(int, int)>|
        maximal_runs(ops, ctx, rs) && hs.len() == rs.len() && forall|q: int|
            0 <= q < rs.len() ==> #[trigger] hs[q] == range_hunk(ops, o, n, rs[q].0, rs[q].1);
    assert forall|q: int| 0 <= q < hs.len() implies (#[trigger] hs[q]).old_count == old_side(hs[q].lines)
        && hs[q].new_count == new_side(hs[q].lines) by {
        assert(hs[q] == range_hunk(ops, o, n, rs[q].0, rs[q].1));
        crate::diff_script::lemma_pos_mono(ops, rs[q].0, rs[q].1);
        lemma_range_sides(ops, o, n, rs[q].0, rs[q].1);
    }
    assert forall|q: int| 0 <= q < hs.len() implies shows_change(#[trigger] hs[q].lines) by {
        assert(hs[q] == range_hunk(ops, o, n, rs[q].0, rs[q].1));
        let i = rs[q].0;
        assert(covered(ops, ctx, i));
        let jj = choose|jj: int| #[trigger] is_change(ops, jj) && jj - ctx <= i <= jj + ctx;
        assert(covered(ops, ctx, jj)) by {
            assert(jj - ctx <= jj <= jj + ctx);
        }
        let p = choose|p: int| 0 <= p < rs.len() && (#[trigger] rs[p]).0 <= jj < rs[p].1;
        if p != q {
            if p < q {
                if p < q - 1 {
                    assert(rs[p].1 < rs[q - 1].0);
                }
                assert(rs[q - 1].1 < rs[q].0);
                // jj < rs[p].1 <= rs[q-1].1 < rs[q].0 <= i, yet i <= jj + ctx: then every op
                // from jj to i is covered by jj, so rs[q].0 - 1 would be covered.
                assert(covered(ops, ctx, rs[q].0 - 1)) by {
                    assert(jj - ctx <= rs[q].0 - 1 <= jj + ctx);
                }
            } else {
                assert(rs[q].1 < rs[p].0);
                assert(covered(ops, ctx, rs[q].1)) by {
                    assert(jj - ctx <= rs[q].1 <= jj + ctx);
                }
            }
        }
        let t = jj - i;
        assert(hs[q].lines[t] == op_line(ops, o, n, jj));
        assert(!(hs[q].lines[t] is Context));
    }
    assert forall|q: int| 0 <= q < hs.len() - 1 implies (#[trigger] hs[q]).old_start + hs[q].old_count < hs[q + 1].old_start
        && hs[q].new_start + hs[q].new_count < hs[q + 1].new_start by {
        assert(hs[q] == range_hunk(ops, o, n, rs[q].0, rs[q].1));
        assert(hs[q + 1] == range_hunk(ops, o, n, rs[q + 1].0, rs[q + 1].1));
        assert(rs[q].1 < rs[q + 1].0);
        crate::diff_script::lemma_pos_mono(ops, rs[q].0, rs[q].1);
        lemma_gap_moves(ops, ctx, rs, q, rs[q + 1].0);
    }
}

} // verus!
