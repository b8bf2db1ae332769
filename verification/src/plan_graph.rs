//! The dependency graph of a plan's steps: validation (every dependency
//! exists, none is a self-dependency, none is cyclic) and the waves of steps
//! that can run in parallel.
//!
//! Steps are identified by their order numbers; the graph's nodes are the
//! distinct order numbers, and a step with order `o` that depends on `d`
//! gives an edge from `d` to `o`. Wave `k` holds the nodes that are not yet
//! scheduled and whose dependencies were all scheduled in waves before `k`.
use vstd::prelude::*;
use vstd::set_lib::*;
use crate::code_planner::{CodePlanner, ImplementationPlan, PlanStep};
use crate::text::{chars_of, string_of, decimal, decimal_chars, push_chars, push_str};

verus! {

/// `o` is the order number of some step.
pub open spec fn is_node(st: Seq<PlanStep>, o: usize) -> bool {
    exists|i: int| 0 <= i < st.len() && #[trigger] st[i].order == o
}

/// Some step with order `o` lists `d` among its dependencies.
pub open spec fn has_dep(st: Seq<PlanStep>, o: usize, d: usize) -> bool {
    exists|i: int, j: int|
        0 <= i < st.len() && st[i].order == o && 0 <= j < st[i].depends_on@.len() && #[trigger] st[i].depends_on@[j]
            == d
}

/// Every dependency of the steps with order `o` lies in `done`.
pub open spec fn deps_done(st: Seq<PlanStep>, o: usize, done: Set<usize>) -> bool {
    forall|d: usize| #[trigger] has_dep(st, o, d) ==> done.contains(d)
}

/// The nodes outside `done` whose dependencies all lie in `done`.
pub open spec fn ready(st: Seq<PlanStep>, done: Set<usize>) -> Set<usize> {
    Set::new(|o: usize| is_node(st, o) && !done.contains(o) && deps_done(st, o, done))
}

/// The nodes scheduled in the first `k` waves.
pub open spec fn done_after(st: Seq<PlanStep>, k: nat) -> Set<usize>
    decreases k,
{
    if k == 0 {
        Set::empty()
    } else {
        let prev = done_after(st, (k - 1) as nat);
        prev.union(ready(st, prev))
    }
}

/// `s` is strictly increasing.
pub open spec fn sorted_strict(s: Seq<usize>) -> bool {
    forall|a: int, b: int| 0 <= a < b < s.len() ==> s[a] < s[b]
}

/// `w` is the sequence of waves of the steps: each wave lists, in
/// increasing order, the nodes ready after the waves before it, and the
/// sequence stops at the first wave that would be empty.
pub open spec fn waves_of(st: Seq<PlanStep>, w: Seq<Seq<usize>>) -> bool {
    &&& forall|k: int|
        0 <= k < w.len() ==> sorted_strict(#[trigger] w[k]) && w[k].len() > 0 && w[k].to_set() == ready(
            st,
            done_after(st, k as nat),
        )
    &&& ready(st, done_after(st, w.len())) == Set::<usize>::empty()
}

/// The message for a dependency on a step that does not exist.
pub open spec fn missing_dep_message(o: usize, d: usize) -> Seq<char> {
    "Step "@ + decimal(o as nat) + " depends on step "@ + decimal(d as nat) + ", which does not exist"@
}

/// The message for a step that depends on itself.
pub open spec fn self_dep_message(o: usize) -> Seq<char> {
    "Step "@ + decimal(o as nat) + " depends on itself"@
}

/// The message for a dependency graph with a cycle.
pub open spec fn cycle_message() -> Seq<char> {
    "Cycle detected in step dependencies"@
}

/// The problem with the dependency `d` of a step with order `o`, if any.
pub open spec fn dep_problem(st: Seq<PlanStep>, o: usize, d: usize) -> Option<Seq<char>> {
    if !is_node(st, d) {
        Some(missing_dep_message(o, d))
    } else if d == o {
        Some(self_dep_message(o))
    } else {
        None
    }
}

/// The first problem among the dependencies `deps[j..]` of a step with
/// order `o`.
pub open spec fn deps_problem(st: Seq<PlanStep>, o: usize, deps: Seq<usize>, j: int) -> Option<Seq<char>>
    decreases deps.len() - j,
{
    if j < 0 || j >= deps.len() {
        None
    } else {
        match dep_problem(st, o, deps[j]) {
            Some(m) => Some(m),
            None => deps_problem(st, o, deps, j + 1),
        }
    }
}

/// The first dependency problem of the steps `st[i..]`, scanning steps in
/// order and each step's dependencies in order.
pub open spec fn steps_problem(st: Seq<PlanStep>, i: int) -> Option<Seq<char>>
    decreases st.len() - i,
{
    if i < 0 || i >= st.len() {
        None
    } else {
        match deps_problem(st, st[i].order, st[i].depends_on@, 0) {
            Some(m) => Some(m),
            None => steps_problem(st, i + 1),
        }
    }
}

/// The outcome of validating the steps: the first dependency problem if
/// there is one; otherwise a cycle error unless repeated scheduling reaches
/// as many nodes as there are steps (so the order numbers must be distinct
/// and the graph acyclic).
pub open spec fn validation(st: Seq<PlanStep>) -> Result<(), Seq<char>> {
    match steps_problem(st, 0) {
        Some(m) => Err(m),
        None => if done_after(st, st.len()).len() == st.len() {
            Ok(())
        } else {
            Err(cycle_message())
        },
    }
}

/// The set of nodes whose flag is set.
pub open spec fn marked(nodes: Seq<usize>, done: Seq<bool>) -> Set<usize> {
    Set::new(|o: usize| exists|k: int| 0 <= k < nodes.len() && #[trigger] nodes[k] == o && done[k])
}

proof fn lemma_marked_at(nodes: Seq<usize>, done: Seq<bool>, k: int)
    requires
        nodes.no_duplicates(),
        done.len() == nodes.len(),
        0 <= k < nodes.len(),
    ensures
        marked(nodes, done).contains(nodes[k]) == done[k],
{
    if marked(nodes, done).contains(nodes[k]) {
        let k2 = choose|k2: int| 0 <= k2 < nodes.len() && #[trigger] nodes[k2] == nodes[k] && done[k2];
        assert(k2 == k);
    }
}

/// Once no node is ready, later waves add nothing.
pub proof fn lemma_done_settles(st: Seq<PlanStep>, k: nat, m: nat)
    requires
        ready(st, done_after(st, k)) == Set::<usize>::empty(),
    ensures
        done_after(st, k + m) == done_after(st, k),
    decreases m,
{
    if m > 0 {
        lemma_done_settles(st, k, (m - 1) as nat);
        let prev = done_after(st, (k + m - 1) as nat);
        assert(done_after(st, k + m) == prev.union(ready(st, prev)));
        assert(prev.union(ready(st, prev)) =~= prev);
    }
}

/// A node scheduled within `k` waves was ready in one of them.
pub proof fn lemma_done_in_wave(st: Seq<PlanStep>, k: nat, x: usize)
    requires
        done_after(st, k).contains(x),
    ensures
        exists|m: nat| m < k && #[trigger] ready(st, done_after(st, m)).contains(x),
    decreases k,
{
    if k > 0 {
        let prev = done_after(st, (k - 1) as nat);
        if prev.contains(x) {
            lemma_done_in_wave(st, (k - 1) as nat, x);
            let m = choose|m: nat| m < k - 1 && #[trigger] ready(st, done_after(st, m)).contains(x);
            assert(m < k && ready(st, done_after(st, m)).contains(x));
        } else {
            assert(ready(st, done_after(st, (k - 1) as nat)).contains(x));
        }
    }
}

/// Scheduling only grows.
pub proof fn lemma_done_grows(st: Seq<PlanStep>, k: nat, m: nat)
    requires
        k <= m,
    ensures
        done_after(st, k).subset_of(done_after(st, m)),
    decreases m - k,
{
    if k < m {
        lemma_done_grows(st, k, (m - 1) as nat);
    }
}

/// Only nodes are ever scheduled.
pub proof fn lemma_done_nodes(st: Seq<PlanStep>, k: nat, x: usize)
    requires
        done_after(st, k).contains(x),
    ensures
        is_node(st, x),
    decreases k,
{
    if k > 0 {
        let prev = done_after(st, (k - 1) as nat);
        if prev.contains(x) {
            lemma_done_nodes(st, (k - 1) as nat, x);
        }
    }
}

/// The order numbers of the steps, as a sequence.
pub open spec fn orders(st: Seq<PlanStep>) -> Seq<usize> {
    st.map_values(|s: PlanStep| s.order)
}

/// Law: every dependency of a step in a wave was scheduled in an earlier
/// wave.
pub proof fn law_waves_respect_dependencies(st: Seq<PlanStep>, w: Seq<Seq<usize>>, k: int, o: usize, d: usize)
    requires
        waves_of(st, w),
        0 <= k < w.len(),
        w[k].contains(o),
        has_dep(st, o, d),
    ensures
        exists|m: int| 0 <= m < k && #[trigger] w[m].contains(d),
{
    assert(w[k].to_set().contains(o));
    assert(done_after(st, k as nat).contains(d));
    lemma_done_in_wave(st, k as nat, d);
    let m = choose|m: nat| m < k && #[trigger] ready(st, done_after(st, m)).contains(d);
    assert(w[m as int].to_set().contains(d));
}

/// Law: no order number is scheduled in two waves.
pub proof fn law_waves_disjoint(st: Seq<PlanStep>, w: Seq<Seq<usize>>, k1: int, k2: int, x: usize)
    requires
        waves_of(st, w),
        0 <= k1 < k2 < w.len(),
    ensures
        !(w[k1].contains(x) && w[k2].contains(x)),
{
    if w[k1].contains(x) && w[k2].contains(x) {
        assert(w[k1].to_set().contains(x));
        assert(w[k2].to_set().contains(x));
        assert(done_after(st, (k1 + 1) as nat).contains(x));
        lemma_done_grows(st, (k1 + 1) as nat, k2 as nat);
    }
}

/// Law: a plan that validates has distinct order numbers, and every step is
/// scheduled in one of its waves.
pub proof fn law_valid_plan_schedules_every_step(st: Seq<PlanStep>, w: Seq<Seq<usize>>, i: int)
    requires
        validation(st) is Ok,
        waves_of(st, w),
        0 <= i < st.len(),
    ensures
        orders(st).no_duplicates(),
        exists|k: int| 0 <= k < w.len() && #[trigger] w[k].contains(st[i].order),
{
    let n = st.len();
    let dn = done_after(st, n);
    let os = orders(st).to_set();
    assert(dn.subset_of(os)) by {
        assert forall|x: usize| dn.contains(x) implies os.contains(x) by {
            lemma_done_nodes(st, n, x);
            let j = choose|j: int| 0 <= j < st.len() && #[trigger] st[j].order == x;
            assert(orders(st)[j] == x);
        }
    }
    orders(st).lemma_cardinality_of_set();
    lemma_len_subset(dn, os);
    assert(os.len() == n);
    orders(st).lemma_no_dup_set_cardinality();
    assert(os.contains(st[i].order)) by {
        assert(orders(st)[i] == st[i].order);
    }
    assert(dn.contains(st[i].order)) by {
        if !dn.contains(st[i].order) {
            assert(dn.subset_of(os.remove(st[i].order)));
            lemma_len_subset(dn, os.remove(st[i].order));
        }
    }
    lemma_done_in_wave(st, n, st[i].order);
    let m = choose|m: nat| m < n && #[trigger] ready(st, done_after(st, m)).contains(st[i].order);
    if m >= w.len() {
        lemma_done_settles(st, w.len(), (m - w.len()) as nat);
        assert(done_after(st, m) == done_after(st, w.len()));
        assert(false);
    }
    assert(w[m as int].to_set().contains(st[i].order));
}

fn vec_contains(v: &Vec<usize>, x: usize) -> (r: bool)
    ensures
        r == v@.contains(x),
{
    let mut i: usize = 0;
    while i < v.len()
        invariant
            i <= v.len(),
            forall|k: int| 0 <= k < i ==> v@[k] != x,
        decreases v.len() - i,
    {
        if v[i] == x {
            assert(v@[i as int] == x);
            return true;
        }
        i += 1;
    }
    false
}

/// The distinct order numbers of the steps, in the order they first occur.
fn step_orders(steps: &[PlanStep]) -> (nodes: Vec<usize>)
    ensures
        nodes@.no_duplicates(),
        nodes.len() <= steps.len(),
        forall|o: usize| nodes@.contains(o) <==> is_node(steps@, o),
{
    let mut nodes: Vec<usize> = Vec::new();
    let mut i: usize = 0;
    while i < steps.len()
        invariant
            i <= steps.len(),
            nodes.len() <= i,
            nodes@.no_duplicates(),
            forall|o: usize| nodes@.contains(o) <==> exists|m: int| 0 <= m < i && #[trigger] steps@[m].order == o,
        decreases steps.len() - i,
    {
        let o = steps[i].order;
        let ghost before = nodes@;
        if !vec_contains(&nodes, o) {
            nodes.push(o);
            assert forall|a: int, b: int| 0 <= a < b < nodes@.len() implies nodes@[a] != nodes@[b] by {
                if b == nodes@.len() - 1 {
                    assert(before.contains(nodes@[a]));
                }
            }
        }
        assert forall|o2: usize| nodes@.contains(o2) <==> exists|m: int| 0 <= m < i + 1 && #[trigger] steps@[m].order == o2 by {
            if nodes@.contains(o2) && o2 != o {
                let k = choose|k: int| 0 <= k < nodes@.len() && nodes@[k] == o2;
                assert(before.contains(o2)) by {
                    assert(before[k] == o2);
                }
            }
            if o2 == o {
                assert(steps@[i as int].order == o2);
                assert(nodes@.contains(o2)) by {
                    if before.contains(o) {
                        let k = choose|k: int| 0 <= k < before.len() && before[k] == o;
                        assert(nodes@[k] == o);
                    } else {
                        assert(nodes@[nodes@.len() - 1] == o);
                    }
                }
            }
            if (exists|m: int| 0 <= m < i + 1 && #[trigger] steps@[m].order == o2) && o2 != o {
                let m = choose|m: int| 0 <= m < i + 1 && #[trigger] steps@[m].order == o2;
                assert(m < i);
                assert(before.contains(o2));
                let k = choose|k: int| 0 <= k < before.len() && before[k] == o2;
                assert(nodes@[k] == o2);
            }
        }
        i += 1;
    }
    assert forall|o: usize| nodes@.contains(o) <==> is_node(steps@, o) by {
        if is_node(steps@, o) {
            let m = choose|m: int| 0 <= m < steps@.len() && #[trigger] steps@[m].order == o;
            assert(steps@[m].order == o);
        }
    }
    nodes
}

fn in_done(nodes: &Vec<usize>, done: &Vec<bool>, x: usize) -> (r: bool)
    requires
        done.len() == nodes.len(),
    ensures
        r == marked(nodes@, done@).contains(x),
{
    let mut k: usize = 0;
    while k < nodes.len()
        invariant
            k <= nodes.len(),
            done.len() == nodes.len(),
            forall|m: int| 0 <= m < k ==> !(nodes@[m] == x && done@[m]),
        decreases nodes.len() - k,
    {
        if nodes[k] == x && done[k] {
            assert(nodes@[k as int] == x && done@[k as int]);
            return true;
        }
        k += 1;
    }
    false
}

/// Whether every dependency of the steps with order `o` is marked done.
fn deps_all_done(steps: &[PlanStep], o: usize, nodes: &Vec<usize>, done: &Vec<bool>) -> (r: bool)
    requires
        done.len() == nodes.len(),
    ensures
        r == deps_done(steps@, o, marked(nodes@, done@)),
{
    let ghost st = steps@;
    let ghost md = marked(nodes@, done@);
    let mut i: usize = 0;
    while i < steps.len()
        invariant
            st == steps@,
            md == marked(nodes@, done@),
            done.len() == nodes.len(),
            i <= steps.len(),
            forall|m: int, j: int|
                0 <= m < i && st[m].order == o && 0 <= j < st[m].depends_on@.len() ==> md.contains(
                    #[trigger] st[m].depends_on@[j],
                ),
        decreases steps.len() - i,
    {
        if steps[i].order == o {
            let deps = &steps[i].depends_on;
            let mut j: usize = 0;
            while j < deps.len()
                invariant
                    st == steps@,
                    md == marked(nodes@, done@),
                    done.len() == nodes.len(),
                    i < steps.len(),
                    st[i as int].order == o,
                    deps@ == st[i as int].depends_on@,
                    j <= deps.len(),
                    forall|m: int, j2: int|
                        0 <= m < i && st[m].order == o && 0 <= j2 < st[m].depends_on@.len() ==> md.contains(
                            #[trigger] st[m].depends_on@[j2],
                        ),
                    forall|j2: int| 0 <= j2 < j ==> md.contains(#[trigger] deps@[j2]),
                decreases deps.len() - j,
            {
                if !in_done(nodes, done, deps[j]) {
                    assert(has_dep(st, o, deps@[j as int])) by {
                        assert(st[i as int].depends_on@[j as int] == deps@[j as int]);
                    }
                    return false;
                }
                j += 1;
            }
            assert forall|m: int, j2: int|
                0 <= m < i + 1 && st[m].order == o && 0 <= j2 < st[m].depends_on@.len() implies md.contains(
                #[trigger] st[m].depends_on@[j2],
            ) by {
                if m == i {
                    assert(st[m].depends_on@[j2] == deps@[j2]);
                }
            }
        }
        i += 1;
    }
    assert forall|d: usize| #[trigger] has_dep(st, o, d) implies md.contains(d) by {
        let (m, j) = choose|m: int, j: int|
            0 <= m < st.len() && st[m].order == o && 0 <= j < st[m].depends_on@.len() && #[trigger] st[m].depends_on@[j]
                == d;
        assert(md.contains(st[m].depends_on@[j]));
    }
    true
}

/// Insert `x` into a strictly increasing sequence that lacks it.
fn insert_sorted(v: &mut Vec<usize>, x: usize)
    requires
        sorted_strict(old(v)@),
        !old(v)@.contains(x),
    ensures
        sorted_strict(final(v)@),
        final(v)@.len() == old(v)@.len() + 1,
        forall|y: usize| final(v)@.contains(y) <==> (old(v)@.contains(y) || y == x),
{
    let ghost before = v@;
    let mut p: usize = 0;
    while p < v.len() && v[p] < x
        invariant
            v@ == before,
            p <= v.len(),
            forall|k: int| 0 <= k < p ==> v@[k] < x,
        decreases v.len() - p,
    {
        p += 1;
    }
    if p < v.len() {
        assert(v@[p as int] != x);
    }
    v.insert(p, x);
    assert forall|a: int, b: int| 0 <= a < b < v@.len() implies v@[a] < v@[b] by {
        if b < p {
        } else if b == p {
        } else if a < p {
            assert(before[a] < x);
            assert(before[b - 1] > x);
        } else if a == p {
            assert(before[b - 1] > x) by {
                assert(before[p as int] > x);
                if b - 1 > p {
                    assert(before[p as int] < before[b - 1]);
                }
            }
        } else {
            assert(before[a - 1] < before[b - 1]);
        }
    }
    assert forall|y: usize| v@.contains(y) <==> (before.contains(y) || y == x) by {
        if v@.contains(y) {
            let k = choose|k: int| 0 <= k < v@.len() && v@[k] == y;
            if k < p {
                assert(before[k] == y);
            } else if k > p {
                assert(before[k - 1] == y);
            }
        }
        if before.contains(y) {
            let k = choose|k: int| 0 <= k < before.len() && before[k] == y;
            if k < p {
                assert(v@[k] == y);
            } else {
                assert(v@[k + 1] == y);
            }
        }
        if y == x {
            assert(v@[p as int] == x);
        }
    }
}

/// Compute the waves of the steps, and how many nodes they schedule in all.
fn schedule(steps: &[PlanStep]) -> (r: (Vec<Vec<usize>>, usize))
    ensures
        waves_of(steps@, r.0@.map_values(|w: Vec<usize>| w@)),
        r.0.len() <= steps.len(),
        r.1 == done_after(steps@, r.0.len() as nat).len(),
{
    let ghost st = steps@;
    let nodes = step_orders(steps);
    let mut done: Vec<bool> = Vec::new();
    while done.len() < nodes.len()
        invariant
            done.len() <= nodes.len(),
            forall|k: int| 0 <= k < done.len() ==> !done@[k],
        decreases nodes.len() - done.len(),
    {
        done.push(false);
    }
    proof {
        assert(marked(nodes@, done@) =~= Set::<usize>::empty());
        nodes@.unique_seq_to_set();
    }
    let mut waves: Vec<Vec<usize>> = Vec::new();
    let mut scheduled: usize = 0;
    loop
        invariant
            st == steps@,
            done.len() == nodes.len(),
            nodes@.no_duplicates(),
            nodes.len() <= steps.len(),
            nodes@.to_set().len() == nodes.len(),
            forall|o: usize| nodes@.contains(o) <==> is_node(st, o),
            marked(nodes@, done@) == done_after(st, waves.len() as nat),
            marked(nodes@, done@).finite(),
            marked(nodes@, done@).len() <= nodes.len(),
            waves.len() <= marked(nodes@, done@).len(),
            scheduled == marked(nodes@, done@).len(),
            forall|k: int|
                0 <= k < waves.len() ==> sorted_strict(#[trigger] waves@[k]@) && waves@[k]@.len() > 0
                    && waves@[k]@.to_set() == ready(st, done_after(st, k as nat)),
        ensures
            waves.len() <= steps.len(),
            scheduled == done_after(st, waves.len() as nat).len(),
            ready(st, done_after(st, waves.len() as nat)) == Set::<usize>::empty(),
            forall|k: int|
                0 <= k < waves.len() ==> sorted_strict(#[trigger] waves@[k]@) && waves@[k]@.len() > 0
                    && waves@[k]@.to_set() == ready(st, done_after(st, k as nat)),
        decreases nodes.len() - marked(nodes@, done@).len(),
    {
        let ghost d = marked(nodes@, done@);
        let mut wave: Vec<usize> = Vec::new();
        let mut next: Vec<bool> = Vec::new();
        let mut idx: usize = 0;
        while idx < nodes.len()
            invariant
                st == steps@,
                done.len() == nodes.len(),
                nodes@.no_duplicates(),
                d == marked(nodes@, done@),
                idx <= nodes.len(),
                next.len() == idx,
                sorted_strict(wave@),
                forall|k: int| 0 <= k < idx ==> next@[k] == (done@[k] || deps_done(st, nodes@[k], d)),
                forall|o: usize|
                    wave@.contains(o) <==> exists|k: int|
                        0 <= k < idx && #[trigger] nodes@[k] == o && !done@[k] && deps_done(st, o, d),
            decreases nodes.len() - idx,
        {
            let o = nodes[idx];
            let pick = !done[idx] && deps_all_done(steps, o, &nodes, &done);
            let ghost wbefore = wave@;
            if pick {
                assert(!wave@.contains(o)) by {
                    if wave@.contains(o) {
                        let k = choose|k: int|
                            0 <= k < idx && #[trigger] nodes@[k] == o && !done@[k] && deps_done(st, o, d);
                        assert(nodes@[k] == nodes@[idx as int]);
                    }
                }
                insert_sorted(&mut wave, o);
            }
            next.push(done[idx] || pick);
            assert forall|o2: usize|
                wave@.contains(o2) <==> exists|k: int|
                    0 <= k < idx + 1 && #[trigger] nodes@[k] == o2 && !done@[k] && deps_done(st, o2, d) by {
                if exists|k: int| 0 <= k < idx + 1 && #[trigger] nodes@[k] == o2 && !done@[k] && deps_done(st, o2, d) {
                    let k = choose|k: int|
                        0 <= k < idx + 1 && #[trigger] nodes@[k] == o2 && !done@[k] && deps_done(st, o2, d);
                    if k < idx {
                        assert(wbefore.contains(o2));
                    } else {
                        assert(pick);
                    }
                }
                if wave@.contains(o2) {
                    if !wbefore.contains(o2) {
                        assert(nodes@[idx as int] == o2);
                    } else {
                        let k = choose|k: int|
                            0 <= k < idx && #[trigger] nodes@[k] == o2 && !done@[k] && deps_done(st, o2, d);
                        assert(0 <= k < idx + 1 && nodes@[k] == o2);
                    }
                }
            }
            idx += 1;
        }
        proof {
            assert forall|o: usize| wave@.contains(o) <==> ready(st, d).contains(o) by {
                if ready(st, d).contains(o) {
                    let k = choose|k: int| 0 <= k < nodes@.len() && nodes@[k] == o;
                    lemma_marked_at(nodes@, done@, k);
                }
                if wave@.contains(o) {
                    let k = choose|k: int|
                        0 <= k < nodes@.len() && #[trigger] nodes@[k] == o && !done@[k] && deps_done(st, o, d);
                    lemma_marked_at(nodes@, done@, k);
                    assert(nodes@.contains(o));
                }
            }
            assert(wave@.to_set() =~= ready(st, d));
        }
        if wave.len() == 0 {
            proof {
                assert(ready(st, d) =~= Set::<usize>::empty()) by {
                    assert forall|o: usize| !ready(st, d).contains(o) by {
                        if ready(st, d).contains(o) {
                            assert(wave@.contains(o));
                        }
                    }
                }
                lemma_len_subset(d, nodes@.to_set());
            }
            break;
        }
        proof {
            let nd = marked(nodes@, next@);
            assert(nd =~= d.union(ready(st, d))) by {
                assert forall|o: usize| nd.contains(o) <==> d.union(ready(st, d)).contains(o) by {
                    if nd.contains(o) {
                        let k = choose|k: int| 0 <= k < nodes@.len() && #[trigger] nodes@[k] == o && next@[k];
                        lemma_marked_at(nodes@, done@, k);
                    }
                    if d.union(ready(st, d)).contains(o) {
                        let k = choose|k: int| 0 <= k < nodes@.len() && nodes@[k] == o;
                        lemma_marked_at(nodes@, done@, k);
                        lemma_marked_at(nodes@, next@, k);
                    }
                }
            }
            assert(done_after(st, (waves.len() + 1) as nat) == d.union(ready(st, d)));
            assert(wave@.no_duplicates());
            wave@.unique_seq_to_set();
            assert(d.disjoint(ready(st, d)));
            lemma_set_disjoint_lens(d, ready(st, d));
            assert(nd.subset_of(nodes@.to_set())) by {
                assert forall|o: usize| nd.contains(o) implies nodes@.to_set().contains(o) by {
                    let k = choose|k: int| 0 <= k < nodes@.len() && #[trigger] nodes@[k] == o && next@[k];
                    assert(nodes@.contains(o));
                }
            }
            lemma_len_subset(nd, nodes@.to_set());
        }
        scheduled = scheduled + wave.len();
        done = next;
        waves.push(wave);
        proof {
            assert forall|k: int|
                0 <= k < waves.len() implies sorted_strict(#[trigger] waves@[k]@) && waves@[k]@.len() > 0
                && waves@[k]@.to_set() == ready(st, done_after(st, k as nat)) by {
                if k == waves.len() - 1 {
                    assert(waves@[k]@ == wave@);
                }
            }
        }
    }
    proof {
        let w = waves@.map_values(|v: Vec<usize>| v@);
        assert forall|k: int| 0 <= k < w.len() implies sorted_strict(#[trigger] w[k]) && w[k].len() > 0
            && w[k].to_set() == ready(st, done_after(st, k as nat)) by {
            assert(w[k] == waves@[k]@);
        }
    }
    (waves, scheduled)
}

fn missing_dep_text(o: usize, d: usize) -> (r: Vec<char>)
    ensures
        r@ == missing_dep_message(o, d),
{
    let mut v = chars_of("Step ");
    push_chars(&mut v, &decimal_chars(o));
    push_str(&mut v, " depends on step ");
    push_chars(&mut v, &decimal_chars(d));
    push_str(&mut v, ", which does not exist");
    v
}

fn self_dep_text(o: usize) -> (r: Vec<char>)
    ensures
        r@ == self_dep_message(o),
{
    let mut v = chars_of("Step ");
    push_chars(&mut v, &decimal_chars(o));
    push_str(&mut v, " depends on itself");
    v
}

/// The first dependency problem of the steps (see [`steps_problem`]).
fn first_dep_problem(steps: &[PlanStep], nodes: &Vec<usize>) -> (r: Option<Vec<char>>)
    requires
        forall|o: usize| nodes@.contains(o) <==> is_node(steps@, o),
    ensures
        match steps_problem(steps@, 0) {
            None => r is None,
            Some(m) => r matches Some(v) && v@ == m,
        },
{
    let ghost st = steps@;
    let mut i: usize = 0;
    while i < steps.len()
        invariant
            st == steps@,
            i <= steps.len(),
            forall|o: usize| nodes@.contains(o) <==> is_node(st, o),
            steps_problem(st, 0) == steps_problem(st, i as int),
        decreases steps.len() - i,
    {
        let o = steps[i].order;
        let deps = &steps[i].depends_on;
        let mut j: usize = 0;
        while j < deps.len()
            invariant
                st == steps@,
                i < steps.len(),
                o == st[i as int].order,
                deps@ == st[i as int].depends_on@,
                j <= deps.len(),
                forall|o2: usize| nodes@.contains(o2) <==> is_node(st, o2),
                steps_problem(st, 0) == steps_problem(st, i as int),
                deps_problem(st, o, deps@, 0) == deps_problem(st, o, deps@, j as int),
            decreases deps.len() - j,
        {
            let d = deps[j];
            if !vec_contains(nodes, d) {
                return Some(missing_dep_text(o, d));
            }
            if d == o {
                return Some(self_dep_text(o));
            }
            j += 1;
        }
        i += 1;
    }
    None
}

impl CodePlanner {
    /// Group the steps into waves that can run in parallel (see
    /// [`waves_of`]): each wave lists, in increasing order, the order
    /// numbers whose dependencies were all scheduled in earlier waves. Steps
    /// caught in a cycle or depending on a missing step are never scheduled.
    pub fn parallelizable_steps(&self, plan: &ImplementationPlan) -> (r: Vec<Vec<usize>>)
        ensures
            waves_of(plan.steps@, r@.map_values(|w: Vec<usize>| w@)),
    {
        let (waves, _) = schedule(plan.steps.as_slice());
        waves
    }

    /// Validate a plan's dependencies (see [`validation`]): the first
    /// missing or self dependency is reported; otherwise the plan is valid
    /// when scheduling reaches every step.
    pub fn validate_plan(&self, plan: &ImplementationPlan) -> (r: Result<(), String>)
        ensures
            match validation(plan.steps@) {
                Ok(_) => r is Ok,
                Err(m) => r matches Err(e) && e@ == m,
            },
    {
        let steps = plan.steps.as_slice();
        let nodes = step_orders(steps);
        match first_dep_problem(steps, &nodes) {
            Some(m) => {
                return Err(string_of(&m));
            },
            None => {},
        }
        let (waves, scheduled) = schedule(steps);
        proof {
            lemma_done_settles(steps@, waves.len() as nat, (steps.len() - waves.len()) as nat);
            assert(waves.len() + (steps.len() - waves.len()) == steps.len());
        }
        if scheduled != steps.len() {
            Err(string_of(&chars_of("Cycle detected in step dependencies")))
        } else {
            Ok(())
        }
    }
}

} // verus!
