//! Laws of prompt templates: text without tags renders as itself, a chosen
//! variant is what a template renders from, and a registered template is
//! what its id then finds.
use vstd::prelude::*;
use crate::text::{contains, occurs_at};
use crate::template_render::{
    block_match, each_done, each_iter, each_step, first_opener, if_step, opener_at, render_ifs, render_vars_from,
    rendered, var_at,
};
use crate::prompt_store::{PromptTemplate, find_key, find_key_from, pairs_view, put_pair};
use crate::prompt_manager::{chosen_content, registered_store, find_template, find_template_from, bumped, PromptStore};

verus! {

proof fn lemma_no_opener(s: Seq<char>, kw: Seq<char>, p: int)
    requires
        !contains(s, "{{"@),
    ensures
        first_opener(s, kw, p) is None,
    decreases s.len() - p,
{
    if 0 <= p < s.len() {
        if opener_at(s, p, kw) is Some {
            assert(occurs_at(s, "{{#"@ + kw, p));
            assert(occurs_at(s, "{{"@, p)) by {
                reveal_strlit("{{");
                reveal_strlit("{{#");
                assert(("{{#"@ + kw).subrange(0, 2) =~= "{{"@);
                assert(s.subrange(p, p + 2) =~= ("{{#"@ + kw).subrange(0, 2));
            }
        }
        lemma_no_opener(s, kw, p + 1);
    }
}

proof fn lemma_no_vars(s: Seq<char>, vars: Seq<(Seq<char>, Seq<char>)>, p: int)
    requires
        !contains(s, "{{"@),
        0 <= p <= s.len(),
    ensures
        render_vars_from(s, vars, p) == s.skip(p),
    decreases s.len() - p,
{
    if p < s.len() {
        if var_at(s, p) is Some {
            assert(occurs_at(s, "{{"@, p));
        }
        lemma_no_vars(s, vars, p + 1);
        assert(seq![s[p]] + s.skip(p + 1) =~= s.skip(p));
    } else {
        assert(s.skip(p) =~= Seq::<char>::empty());
    }
}

proof fn lemma_each_fixed(s: Seq<char>, vars: Seq<(Seq<char>, Seq<char>)>, k: nat)
    requires
        each_step(s, vars) is None,
    ensures
        each_iter(s, vars, k) == s,
    decreases k,
{
    if k > 0 {
        lemma_each_fixed(s, vars, (k - 1) as nat);
    }
}

/// Law: a template without `{{` renders as itself, whatever the variables.
pub proof fn law_plain_text_renders_unchanged(content: Seq<char>, vars: Seq<(Seq<char>, Seq<char>)>, r: Seq<char>)
    requires
        !contains(content, "{{"@),
    ensures
        rendered(content, vars, r) <==> r == content,
{
    lemma_no_opener(content, "each"@, 0);
    lemma_no_opener(content, "if"@, 0);
    assert(block_match(content, "each"@, "{{/each}}"@) is None);
    assert(each_step(content, vars) is None);
    assert(if_step(content, vars) is None);
    assert(render_ifs(content, vars) == content);
    lemma_no_vars(content, vars, 0);
    assert(content.skip(0) =~= content);
    if rendered(content, vars, r) {
        let t = choose|t: Seq<char>| each_done(content, vars, t) && r == render_vars_from(render_ifs(t, vars), vars, 0);
        let k = choose|k: nat| k <= usize::MAX && t == each_iter(content, vars, k) && (each_step(t, vars) is None || k
            == usize::MAX);
        lemma_each_fixed(content, vars, k);
    }
    if r == content {
        lemma_each_fixed(content, vars, 0);
        assert(each_done(content, vars, content));
        assert(rendered(content, vars, r));
    }
}

proof fn lemma_find_key_hit(v: Seq<(Seq<char>, Seq<char>)>, k: Seq<char>, i: int)
    requires
        0 <= i,
        find_key_from(v, k, i) is Some,
    ensures
        i <= find_key_from(v, k, i)->0 < v.len(),
        v[find_key_from(v, k, i)->0].0 == k,
        forall|j: int| i <= j < find_key_from(v, k, i)->0 ==> v[j].0 != k,
    decreases v.len() - i,
{
    if i < v.len() && v[i].0 != k {
        lemma_find_key_hit(v, k, i + 1);
    }
}

proof fn lemma_find_key_at(v: Seq<(Seq<char>, Seq<char>)>, k: Seq<char>, i: int, m: int)
    requires
        0 <= i <= m < v.len(),
        v[m].0 == k,
        forall|j: int| i <= j < m ==> v[j].0 != k,
    ensures
        find_key_from(v, k, i) == Some(m),
    decreases m - i,
{
    if i < m {
        lemma_find_key_at(v, k, i + 1, m);
    }
}

proof fn lemma_find_key_miss(v: Seq<(Seq<char>, Seq<char>)>, k: Seq<char>, i: int)
    requires
        0 <= i,
        find_key_from(v, k, i) is None,
    ensures
        forall|j: int| i <= j < v.len() ==> v[j].0 != k,
    decreases v.len() - i,
{
    if i < v.len() {
        lemma_find_key_miss(v, k, i + 1);
    }
}

/// After putting `(k, val)`, looking `k` up finds `val`.
pub proof fn lemma_put_then_find(v: Seq<(Seq<char>, Seq<char>)>, k: Seq<char>, val: Seq<char>)
    ensures
        find_key(put_pair(v, k, val), k) matches Some(i) && put_pair(v, k, val)[i].1 == val,
{
    let w = put_pair(v, k, val);
    match find_key(v, k) {
        Some(i) => {
            lemma_find_key_hit(v, k, 0);
            lemma_find_key_at(w, k, 0, i);
        },
        None => {
            lemma_find_key_miss(v, k, 0);
            lemma_find_key_at(w, k, 0, v.len() as int);
        },
    }
}

/// Law: once a template's variant is chosen, the template renders from that
/// variant's content.
pub proof fn law_chosen_variant_is_rendered(
    active: Seq<(Seq<char>, Seq<char>)>,
    t: PromptTemplate,
    variant: Seq<char>,
    j: int,
)
    requires
        find_key(pairs_view(t.variants@), variant) == Some(j),
    ensures
        chosen_content(put_pair(active, t.id@, variant), t) == pairs_view(t.variants@)[j].1,
{
    lemma_put_then_find(active, t.id@, variant);
}


/// What [`find_template_from`] finds has that id, lies in range, and no
/// earlier position from `i` has the id.
proof fn lemma_find_template(ts: Seq<PromptTemplate>, id: Seq<char>, i: int)
    requires
        0 <= i,
    ensures
        find_template_from(ts, id, i) matches Some(k) ==> i <= k < ts.len() && ts[k].id@ == id && (forall|j: int|
            i <= j < k ==> ts[j].id@ != id),
        find_template_from(ts, id, i) is None ==> forall|j: int| i <= j < ts.len() ==> ts[j].id@ != id,
    decreases ts.len() - i,
{
    if i < ts.len() && ts[i].id@ != id {
        lemma_find_template(ts, id, i + 1);
    }
}

/// Finding in sequences that agree on the ids of every position.
proof fn lemma_find_same_ids(a: Seq<PromptTemplate>, b: Seq<PromptTemplate>, id: Seq<char>, i: int)
    requires
        0 <= i,
        a.len() == b.len(),
        forall|j: int| 0 <= j < a.len() ==> a[j].id@ == b[j].id@,
    ensures
        find_template_from(a, id, i) == find_template_from(b, id, i),
    decreases a.len() - i,
{
    if i < a.len() {
        lemma_find_same_ids(a, b, id, i + 1);
    }
}

/// Finding after a push: a known id is found where it was; an unknown one
/// is found at the new end when it is the pushed template's.
proof fn lemma_find_push(ts: Seq<PromptTemplate>, t: PromptTemplate, id: Seq<char>, i: int)
    requires
        0 <= i <= ts.len(),
    ensures
        find_template_from(ts.push(t), id, i) == match find_template_from(ts, id, i) {
            Some(k) => Some(k),
            None => if t.id@ == id {
                Some(ts.len() as int)
            } else {
                None
            },
        },
    decreases ts.len() - i,
{
    if i < ts.len() {
        assert(ts.push(t)[i] == ts[i]);
        lemma_find_push(ts, t, id, i + 1);
    } else {
        assert(ts.push(t)[i] == t);
        assert(find_template_from(ts.push(t), id, i + 1) is None);
    }
}

/// Read after write for templates: after registering `t`, its id finds
/// `t` (with the bumped version when the id was known, and the new update
/// time), and every other id finds what it found before.
pub proof fn law_registered_template_is_found(old: PromptStore, new: PromptStore, t: PromptTemplate, other: Seq<char>)
    requires
        registered_store(old, new, t),
    ensures
        find_template(new.templates@, t.id@) matches Some(i) && new.templates@[i] == (PromptTemplate {
            version: match find_template(old.templates@, t.id@) {
                Some(j) => bumped(old.templates@[j].version),
                None => t.version,
            },
            updated_at: new.templates@[i].updated_at,
            ..t
        }),
        other != t.id@ ==> match find_template(old.templates@, other) {
            Some(j) => find_template(new.templates@, other) == Some(j) && new.templates@[j] == old.templates@[j],
            None => find_template(new.templates@, other) is None,
        },
{
    let ts = old.templates@;
    lemma_find_template(ts, t.id@, 0);
    lemma_find_template(ts, other, 0);
    match find_template(ts, t.id@) {
        None => {
            lemma_find_push(ts, t, t.id@, 0);
            lemma_find_push(ts, t, other, 0);
        },
        Some(i) => {
            let n = new.templates@;
            assert forall|j: int| 0 <= j < ts.len() implies ts[j].id@ == n[j].id@ by {}
            lemma_find_same_ids(ts, n, t.id@, 0);
            lemma_find_same_ids(ts, n, other, 0);
            if other != t.id@ {
                lemma_find_template(ts, other, 0);
                if let Some(j) = find_template(ts, other) {
                    assert(j != i);
                }
            }
        },
    }
}

} // verus!
