//! Edit scripts between two sequences of lines, computed from a
//! longest-common-subsequence table.
use vstd::prelude::*;
use crate::diff_lines::lines_view;
use crate::text::chars_eq;

verus! {

/// Edit operation produced by the LCS diff algorithm.
#[derive(Debug, Clone, Copy, PartialEq, Eq, Structural)]
pub enum EditOp {
    /// The line is kept.
    Equal,
    /// A line of the new text is inserted.
    Insert,
    /// A line of the old text is deleted.
    Delete,
}

/// How many old lines an operation consumes.
pub open spec fn op_old(op: EditOp) -> nat {
    match op {
        EditOp::Insert => 0,
        _ => 1,
    }
}

/// How many new lines an operation produces.
pub open spec fn op_new(op: EditOp) -> nat {
    match op {
        EditOp::Delete => 0,
        _ => 1,
    }
}

/// The number of old lines consumed by the first `k` operations.
pub open spec fn opos(ops: Seq<EditOp>, k: int) -> nat
    decreases k,
{
    if k <= 0 {
        0
    } else {
        opos(ops, k - 1) + op_old(ops[k - 1])
    }
}

/// The number of new lines produced by the first `k` operations.
pub open spec fn npos(ops: Seq<EditOp>, k: int) -> nat
    decreases k,
{
    if k <= 0 {
        0
    } else {
        npos(ops, k - 1) + op_new(ops[k - 1])
    }
}

/// `ops` turns `old[i..]` into `new[j..]`: it consumes exactly the old lines
/// and produces exactly the new lines, and every kept line is the same on
/// both sides.
#[verifier::opaque]
pub open spec fn script_from(
    ops: Seq<EditOp>,
    old: Seq<Seq<char>>,
    new: Seq<Seq<char>>,
    i: int,
    j: int,
) -> bool {
    &&& 0 <= i && 0 <= j
    &&& i + opos(ops, ops.len() as int) == old.len()
    &&& j + npos(ops, ops.len() as int) == new.len()
    &&& forall|k: int|
        0 <= k < ops.len() && ops[k] == EditOp::Equal ==> old[i + opos(ops, k)] == new[j + npos(
            ops,
            k,
        )]
}

/// `ops` turns `old` into `new`.
pub open spec fn script_ok(ops: Seq<EditOp>, old: Seq<Seq<char>>, new: Seq<Seq<char>>) -> bool {
    script_from(ops, old, new, 0, 0)
}

/// The length of a longest common subsequence of `old[..i]` and `new[..j]`,
/// by the usual recurrence.
pub open spec fn lcs_len(old: Seq<Seq<char>>, new: Seq<Seq<char>>, i: nat, j: nat) -> nat
    decreases i + j,
{
    if i == 0 || j == 0 {
        0
    } else if old[i - 1] == new[j - 1] {
        lcs_len(old, new, (i - 1) as nat, (j - 1) as nat) + 1
    } else {
        let up = lcs_len(old, new, (i - 1) as nat, j);
        let left = lcs_len(old, new, i, (j - 1) as nat);
        if up >= left {
            up
        } else {
            left
        }
    }
}

/// The edit script for `old[..i]` and `new[..j]` read back from the LCS
/// table: an equal last line is kept; otherwise a line of `new` is inserted
/// when that keeps at least as long a common subsequence, else a line of
/// `old` is deleted.
pub open spec fn edit_script(old: Seq<Seq<char>>, new: Seq<Seq<char>>, i: nat, j: nat) -> Seq<EditOp>
    decreases i + j,
{
    if i == 0 && j == 0 {
        Seq::empty()
    } else if i > 0 && j > 0 && old[i - 1] == new[j - 1] {
        edit_script(old, new, (i - 1) as nat, (j - 1) as nat).push(EditOp::Equal)
    } else if j > 0 && (i == 0 || lcs_len(old, new, i, (j - 1) as nat) >= lcs_len(
        old,
        new,
        (i - 1) as nat,
        j,
    )) {
        edit_script(old, new, i, (j - 1) as nat).push(EditOp::Insert)
    } else {
        edit_script(old, new, (i - 1) as nat, j).push(EditOp::Delete)
    }
}

/// The edit script between two whole sequences of lines.
pub open spec fn diff_script(old: Seq<Seq<char>>, new: Seq<Seq<char>>) -> Seq<EditOp> {
    edit_script(old, new, old.len(), new.len())
}

/// The sequence read backwards.
pub open spec fn backwards(r: Seq<EditOp>) -> Seq<EditOp> {
    Seq::new(r.len(), |k: int| r[r.len() - 1 - k])
}

pub proof fn lemma_pos_mono(ops: Seq<EditOp>, a: int, b: int)
    requires
        0 <= a <= b,
    ensures
        opos(ops, a) <= opos(ops, b),
        npos(ops, a) <= npos(ops, b),
        opos(ops, b) - opos(ops, a) <= b - a,
        npos(ops, b) - npos(ops, a) <= b - a,
    decreases b - a,
{
    if a < b {
        lemma_pos_mono(ops, a, b - 1);
    }
}

proof fn lemma_pos_cons(op: EditOp, s: Seq<EditOp>, k: int)
    requires
        0 <= k <= s.len(),
    ensures
        opos(seq![op] + s, k + 1) == op_old(op) + opos(s, k),
        npos(seq![op] + s, k + 1) == op_new(op) + npos(s, k),
    decreases k,
{
    let c = seq![op] + s;
    assert(c[0] == op);
    if k > 0 {
        lemma_pos_cons(op, s, k - 1);
        assert(c[k] == s[k - 1]);
        assert(opos(c, k + 1) == opos(c, k) + op_old(c[k]));
        assert(npos(c, k + 1) == npos(c, k) + op_new(c[k]));
    } else {
        assert(opos(c, 1) == opos(c, 0) + op_old(c[0]));
        assert(npos(c, 1) == npos(c, 0) + op_new(c[0]));
    }
}

/// Extending a script at the front by one operation that fits.
#[verifier::spinoff_prover]
#[verifier::rlimit(50)]
proof fn lemma_script_cons(
    op: EditOp,
    s: Seq<EditOp>,
    old: Seq<Seq<char>>,
    new: Seq<Seq<char>>,
    i: int,
    j: int,
)
    requires
        script_from(s, old, new, i + op_old(op), j + op_new(op)),
        0 <= i,
        0 <= j,
        op == EditOp::Equal ==> i < old.len() && j < new.len() && old[i] == new[j],
    ensures
        script_from(seq![op] + s, old, new, i, j),
{
    reveal(script_from);
    let c = seq![op] + s;
    lemma_pos_cons(op, s, s.len() as int);
    assert(c.len() == s.len() + 1);
    assert forall|k: int| 0 <= k < c.len() && c[k] == EditOp::Equal implies old[i + opos(c, k)]
        == new[j + npos(c, k)] by {
        if k == 0 {
            assert(opos(c, 0) == 0 && npos(c, 0) == 0);
            assert(c[0] == op);
        } else {
            let k1 = k - 1;
            lemma_pos_cons(op, s, k1);
            assert(c[k] == s[k1]);
            assert(s[k1] == EditOp::Equal);
            assert(old[(i + op_old(op)) + opos(s, k1)] == new[(j + op_new(op)) + npos(s, k1)]);
        }
    }
}

/// Positions of a valid script stay within the texts.
pub proof fn lemma_script_bounds(ops: Seq<EditOp>, old: Seq<Seq<char>>, new: Seq<Seq<char>>, k: int)
    requires
        script_ok(ops, old, new),
        0 <= k < ops.len(),
    ensures
        ops[k] != EditOp::Insert ==> opos(ops, k) < old.len(),
        ops[k] != EditOp::Delete ==> npos(ops, k) < new.len(),
        opos(ops, k) <= old.len(),
        npos(ops, k) <= new.len(),
{
    reveal(script_from);
    lemma_pos_mono(ops, k + 1, ops.len() as int);
}

/// The LCS table: `t[i][j]` is computed from `t[i-1][j-1]`, `t[i-1][j]`
/// and `t[i][j-1]` as the standard recurrence does.
fn lcs_table(old: &Vec<Vec<char>>, new: &Vec<Vec<char>>) -> (t: Vec<Vec<u32>>)
    requires
        old@.len() < u32::MAX,
        new@.len() < u32::MAX,
    ensures
        t@.len() == old@.len() + 1,
        forall|i: int| 0 <= i < t@.len() ==> (#[trigger] t@[i])@.len() == new@.len() + 1,
        forall|i: int, j: int|
            0 <= i < t@.len() && 0 <= j <= new@.len() ==> #[trigger] t@[i]@[j] == lcs_len(
                lines_view(old@),
                lines_view(new@),
                i as nat,
                j as nat,
            ),
{
    let ghost o = lines_view(old@);
    let ghost nw = lines_view(new@);
    let m = old.len();
    let n = new.len();
    let mut table: Vec<Vec<u32>> = Vec::new();
    let mut first: Vec<u32> = Vec::new();
    let mut z: usize = 0;
    while z <= n
        invariant
            z <= n + 1,
            n == new@.len() < u32::MAX,
            first@.len() == z,
            forall|b: int| 0 <= b < z ==> first@[b] == 0,
        decreases n + 1 - z,
    {
        first.push(0);
        z = z + 1;
    }
    table.push(first);
    let mut i: usize = 1;
    while i <= m
        invariant
            1 <= i <= m + 1,
            m == old@.len(),
            n == new@.len(),
            m < u32::MAX,
            n < u32::MAX,
            table@.len() == i,
            forall|a: int| 0 <= a < table@.len() ==> (#[trigger] table@[a])@.len() == n + 1,
            forall|a: int, b: int|
                0 <= a < table@.len() && 0 <= b < table@[a]@.len() ==> #[trigger] table@[a]@[b]
                    <= a,
            o == lines_view(old@),
            nw == lines_view(new@),
            forall|a: int, b: int|
                0 <= a < table@.len() && 0 <= b <= n ==> #[trigger] table@[a]@[b] == lcs_len(
                    o,
                    nw,
                    a as nat,
                    b as nat,
                ),
        decreases m + 1 - i,
    {
        let mut row: Vec<u32> = Vec::new();
        row.push(0);
        assert(row@[0] == lcs_len(o, nw, i as nat, 0));
        let mut j: usize = 1;
        while j <= n
            invariant
                1 <= i <= m,
                1 <= j <= n + 1,
                m < u32::MAX,
                n < u32::MAX,
                n == new@.len(),
                m == old@.len(),
                table@.len() == i,
                forall|a: int| 0 <= a < table@.len() ==> (#[trigger] table@[a])@.len() == n + 1,
                forall|a: int, b: int|
                    0 <= a < table@.len() && 0 <= b < table@[a]@.len() ==> #[trigger] table@[a]@[b]
                        <= a,
                row@.len() == j,
                forall|b: int| 0 <= b < row@.len() ==> #[trigger] row@[b] <= i,
                o == lines_view(old@),
                nw == lines_view(new@),
                forall|a: int, b: int|
                    0 <= a < table@.len() && 0 <= b <= n ==> #[trigger] table@[a]@[b] == lcs_len(
                        o,
                        nw,
                        a as nat,
                        b as nat,
                    ),
                forall|b: int| 0 <= b < row@.len() ==> #[trigger] row@[b] == lcs_len(o, nw, i as nat, b as nat),
            decreases n + 1 - j,
        {
            let up_left = table[i - 1][j - 1];
            let up = table[i - 1][j];
            let left = row[j - 1];
            let v = if chars_eq(&old[i - 1], &new[j - 1]) {
                up_left + 1
            } else if up >= left {
                up
            } else {
                left
            };
            assert(v == lcs_len(o, nw, i as nat, j as nat));
            row.push(v);
            j = j + 1;
        }
        table.push(row);
        i = i + 1;
    }
    table
}

/// Reverses a vector of operations.
fn reverse_ops(rev: &Vec<EditOp>) -> (r: Vec<EditOp>)
    ensures
        r@ == backwards(rev@),
{
    let mut out: Vec<EditOp> = Vec::new();
    let mut k: usize = 0;
    while k < rev.len()
        invariant
            k <= rev@.len(),
            out@.len() == k,
            forall|t: int| 0 <= t < k ==> out@[t] == rev@[rev@.len() - 1 - t],
        decreases rev.len() - k,
    {
        out.push(rev[rev.len() - 1 - k]);
        k = k + 1;
    }
    assert(out@ =~= backwards(rev@));
    out
}

/// Compute the edit operations between two line sequences: the LCS table is
/// filled, then walked back from the end, keeping equal lines, preferring an
/// insertion when the table says so and deleting otherwise. The result
/// turns `old` into `new`.
#[verifier::rlimit(40)]
pub fn compute_edit_ops(old: &Vec<Vec<char>>, new: &Vec<Vec<char>>) -> (ops: Vec<EditOp>)
    requires
        old@.len() < u32::MAX,
        new@.len() < u32::MAX,
    ensures
        ops@ == diff_script(lines_view(old@), lines_view(new@)),
        script_ok(ops@, lines_view(old@), lines_view(new@)),
{
    let table = lcs_table(old, new);
    let ghost o = lines_view(old@);
    let ghost nw = lines_view(new@);
    let mut rev: Vec<EditOp> = Vec::new();
    let mut i = old.len();
    let mut j = new.len();
    assert(backwards(rev@) =~= Seq::<EditOp>::empty());
    assert(diff_script(o, nw) =~= edit_script(o, nw, i as nat, j as nat) + backwards(rev@));
    assert(script_from(backwards(rev@), o, nw, i as int, j as int)) by {
        reveal(script_from);
    }
    while i > 0 || j > 0
        invariant
            i <= old@.len(),
            j <= new@.len(),
            o == lines_view(old@),
            nw == lines_view(new@),
            table@.len() == old@.len() + 1,
            forall|a: int| 0 <= a < table@.len() ==> (#[trigger] table@[a])@.len() == new@.len() + 1,
            script_from(backwards(rev@), o, nw, i as int, j as int),
            forall|a: int, b: int|
                0 <= a < table@.len() && 0 <= b <= new@.len() ==> #[trigger] table@[a]@[b] == lcs_len(
                    o,
                    nw,
                    a as nat,
                    b as nat,
                ),
            diff_script(o, nw) == edit_script(o, nw, i as nat, j as nat) + backwards(rev@),
        decreases i + j,
    {
        let ghost before = backwards(rev@);
        if i > 0 && j > 0 && chars_eq(&old[i - 1], &new[j - 1]) {
            rev.push(EditOp::Equal);
            proof {
                assert(backwards(rev@) =~= seq![EditOp::Equal] + before);
                lemma_script_cons(EditOp::Equal, before, o, nw, i - 1, j - 1);
                assert(edit_script(o, nw, i as nat, j as nat) + before =~= edit_script(o, nw, (i - 1) as nat, (j - 1) as nat) + backwards(rev@));
            }
            i = i - 1;
            j = j - 1;
        } else if j > 0 && (i == 0 || table[i][j - 1] >= table[i - 1][j]) {
            rev.push(EditOp::Insert);
            proof {
                assert(backwards(rev@) =~= seq![EditOp::Insert] + before);
                lemma_script_cons(EditOp::Insert, before, o, nw, i as int, j - 1);
                assert(edit_script(o, nw, i as nat, j as nat) + before =~= edit_script(o, nw, i as nat, (j - 1) as nat) + backwards(rev@));
            }
            j = j - 1;
        } else {
            rev.push(EditOp::Delete);
            proof {
                assert(backwards(rev@) =~= seq![EditOp::Delete] + before);
                lemma_script_cons(EditOp::Delete, before, o, nw, i - 1, j as int);
                assert(edit_script(o, nw, i as nat, j as nat) + before =~= edit_script(o, nw, (i - 1) as nat, j as nat) + backwards(rev@));
            }
            i = i - 1;
        }
    }
    assert(edit_script(o, nw, 0, 0) + backwards(rev@) =~= backwards(rev@));
    reverse_ops(&rev)
}

/// A script has no more operations than the two texts have lines.
pub proof fn lemma_script_len(ops: Seq<EditOp>, old: Seq<Seq<char>>, new: Seq<Seq<char>>)
    requires
        script_ok(ops, old, new),
    ensures
        ops.len() <= old.len() + new.len(),
{
    reveal(script_from);
    lemma_pos_sum(ops, ops.len() as int);
}

pub proof fn lemma_pos_sum(ops: Seq<EditOp>, k: int)
    requires
        0 <= k,
    ensures
        k <= opos(ops, k) + npos(ops, k),
    decreases k,
{
    if k > 0 {
        lemma_pos_sum(ops, k - 1);
    }
}

/// A kept line is the same in both texts.
pub proof fn lemma_script_equal(ops: Seq<EditOp>, old: Seq<Seq<char>>, new: Seq<Seq<char>>, k: int)
    requires
        script_ok(ops, old, new),
        0 <= k < ops.len(),
        ops[k] == EditOp::Equal,
    ensures
        old[opos(ops, k) as int] == new[npos(ops, k) as int],
{
    reveal(script_from);
    assert(old[0int + opos(ops, k)] == new[0int + npos(ops, k)]);
}

/// A script consumes all old lines and produces all new ones.
pub proof fn lemma_script_ends(ops: Seq<EditOp>, old: Seq<Seq<char>>, new: Seq<Seq<char>>)
    requires
        script_ok(ops, old, new),
    ensures
        opos(ops, ops.len() as int) == old.len(),
        npos(ops, ops.len() as int) == new.len(),
{
    reveal(script_from);
}

} // verus!
