//! Adaptive memory: the kinds of memories kept across sessions, the
//! keywords that index a memory, and the sentences of a reply that state
//! facts.
use vstd::prelude::*;
use crate::text::{
    chars_of, contains, contains_str, spec_to_lowercase, to_lowercase, string_of, trim, trim_chars,
    slice_chars,
};
use crate::cost_complexity::utf8_len;
use crate::plan_files::{spec_is_alphanumeric, is_alphanumeric};
use crate::template_render::{split_at_char, split_exec};
use crate::evaluation::distinct;
use crate::structured_output::texts_view;
use crate::diff_lines::lines_view;

verus! {

/// Classifies memories so the system can prioritize and filter by category.
#[derive(Debug, Clone, Copy, PartialEq, Eq, Structural)]
pub enum MemoryKind {
    /// A fact learned during conversation.
    Fact,
    /// A user preference or pattern.
    Preference,
    /// A tool usage pattern (which tools work for which tasks).
    ToolPattern,
    /// A conversation summary.
    Summary,
    /// An error and how it was resolved.
    ErrorResolution,
}

/// A lower-cased sentence holds one of the verbs that signal a fact, each
/// followed by a space.
pub open spec fn has_fact_verb(l: Seq<char>) -> bool {
    contains(l, "is "@) || contains(l, "are "@) || contains(l, "was "@) || contains(l, "were "@)
        || contains(l, "has "@) || contains(l, "have "@) || contains(l, "contains "@) || contains(
        l,
        "returns "@,
    ) || contains(l, "produces "@) || contains(l, "costs "@) || contains(l, "takes "@) || contains(
        l,
        "requires "@,
    )
}

/// Whether a lower-cased sentence holds a fact verb (see [`has_fact_verb`]).
pub fn has_fact_verb_lowered(lower: &str) -> (r: bool)
    ensures
        r == has_fact_verb(lower@),
{
    let l = chars_of(lower);
    contains_str(&l, "is ") || contains_str(&l, "are ") || contains_str(&l, "was ") || contains_str(
        &l,
        "were ",
    ) || contains_str(&l, "has ") || contains_str(&l, "have ") || contains_str(&l, "contains ")
        || contains_str(&l, "returns ") || contains_str(&l, "produces ") || contains_str(&l, "costs ")
        || contains_str(&l, "takes ") || contains_str(&l, "requires ")
}

/// Check if a sentence contains factual indicators: its lower-cased text
/// holds a fact verb.
pub fn contains_factual_indicator(text: &str) -> (r: bool)
    ensures
        r == has_fact_verb(spec_to_lowercase(text@)),
{
    let lower = to_lowercase(&chars_of(text));
    let s = crate::text::string_of(&lower);
    has_fact_verb_lowered(s.as_str())
}


// ---------------------------------------------------------------------------
// Keywords and facts
// ---------------------------------------------------------------------------

/// `s` split at every character that is not alphanumeric; there is one
/// piece more than there are separators, so pieces may be empty.
pub open spec fn alnum_pieces(s: Seq<char>) -> Seq<Seq<char>>
    decreases s.len(),
{
    if s.len() == 0 {
        seq![Seq::empty()]
    } else {
        let w = alnum_pieces(s.drop_last());
        if !spec_is_alphanumeric(s.last()) {
            w.push(Seq::empty())
        } else {
            w.update(w.len() - 1, w.last().push(s.last()))
        }
    }
}

/// The pieces longer than `n` bytes in UTF-8, in order.
pub open spec fn longer_than(ws: Seq<Seq<char>>, n: nat) -> Seq<Seq<char>>
    decreases ws.len(),
{
    if ws.len() == 0 {
        Seq::empty()
    } else if utf8_len(ws.last()) > n {
        longer_than(ws.drop_last(), n).push(ws.last())
    } else {
        longer_than(ws.drop_last(), n)
    }
}

/// The keywords of a text: its lower-cased alphanumeric runs longer than
/// three bytes, each once, in the order they first appear.
pub open spec fn keywords(content: Seq<char>) -> Seq<Seq<char>> {
    distinct(longer_than(alnum_pieces(spec_to_lowercase(content)), 3))
}

/// The UTF-8 length of a text, or `cap` when it is longer.
fn utf8_len_upto(l: &[char], cap: usize) -> (r: usize)
    requires
        cap <= usize::MAX - 4,
    ensures
        r == if utf8_len(l@) < cap {
            utf8_len(l@)
        } else {
            cap as nat
        },
{
    let mut n: usize = 0;
    let mut i: usize = 0;
    while i < l.len() && n < cap
        invariant
            i <= l.len(),
            cap <= usize::MAX - 4,
            n == utf8_len(l@.take(i as int)),
            n < cap + 4,
        decreases l.len() - i,
    {
        assert(l@.take(i + 1).drop_last() =~= l@.take(i as int));
        let c = l[i] as u32;
        let w: usize = if c < 0x80 {
            1
        } else if c < 0x800 {
            2
        } else if c < 0x10000 {
            3
        } else {
            4
        };
        n = n + w;
        i += 1;
    }
    proof {
        lemma_utf8_len_prefix(l@, i as int);
    }
    if n < cap {
        assert(i == l.len());
        assert(l@.take(i as int) =~= l@);
        n
    } else {
        cap
    }
}

/// A prefix is no longer in UTF-8 than the whole.
proof fn lemma_utf8_len_prefix(s: Seq<char>, i: int)
    requires
        0 <= i <= s.len(),
    ensures
        utf8_len(s.take(i)) <= utf8_len(s),
    decreases s.len() - i,
{
    if i < s.len() {
        lemma_utf8_len_prefix(s, i + 1);
        assert(s.take(i + 1).drop_last() =~= s.take(i));
    } else {
        assert(s.take(i) =~= s);
    }
}

/// `s` split at every non-alphanumeric character (see [`alnum_pieces`]).
fn alnum_pieces_exec(s: &[char]) -> (r: Vec<Vec<char>>)
    ensures
        lines_view(r@) == alnum_pieces(s@),
{
    let mut out: Vec<Vec<char>> = Vec::new();
    out.push(Vec::new());
    let mut i: usize = 0;
    assert(lines_view(out@) =~= alnum_pieces(s@.take(0)));
    while i < s.len()
        invariant
            i <= s.len(),
            out.len() >= 1,
            lines_view(out@) == alnum_pieces(s@.take(i as int)),
        decreases s.len() - i,
    {
        assert(s@.take(i + 1).drop_last() =~= s@.take(i as int));
        let ghost before = lines_view(out@);
        if !is_alphanumeric(s[i]) {
            out.push(Vec::new());
            assert(lines_view(out@) =~= before.push(Seq::empty()));
        } else {
            let last = out.len() - 1;
            let mut piece = slice_chars(&out[last], 0, out[last].len());
            assert(piece@ =~= before.last());
            piece.push(s[i]);
            let ghost pv = piece@;
            out.set(last, piece);
            assert(pv =~= before.last().push(s@[i as int]));
            assert(lines_view(out@) =~= before.update(before.len() - 1, before.last().push(s@[i as int])));
        }
        i += 1;
    }
    assert(s@.take(s.len() as int) =~= s@);
    out
}

/// Whether `w` is one of the words in `v`.
fn has_text(v: &Vec<String>, w: &[char]) -> (r: bool)
    ensures
        r == texts_view(v@).contains(w@),
{
    let ghost tv = texts_view(v@);
    let mut i: usize = 0;
    while i < v.len()
        invariant
            tv == texts_view(v@),
            i <= v.len(),
            forall|j: int| 0 <= j < i ==> tv[j] != w@,
        decreases v.len() - i,
    {
        if crate::text::chars_eq(&chars_of(v[i].as_str()), w) {
            assert(tv[i as int] == w@);
            return true;
        }
        i += 1;
    }
    false
}

/// The keywords of a text (see [`keywords`]).
pub fn extract_keywords(content: &str) -> (r: Vec<String>)
    ensures
        texts_view(r@) == keywords(content@),
{
    let low = to_lowercase(&chars_of(content));
    let pieces = alnum_pieces_exec(&low);
    let ghost pv = lines_view(pieces@);
    let ghost lw = longer_than(pv, 3);
    let mut out: Vec<String> = Vec::new();
    let mut k: usize = 0;
    assert(pv.take(0) =~= Seq::<Seq<char>>::empty());
    assert(texts_view(out@) =~= Seq::<Seq<char>>::empty());
    while k < pieces.len()
        invariant
            pv == lines_view(pieces@),
            k <= pieces.len(),
            texts_view(out@) == distinct(longer_than(pv.take(k as int), 3)),
        decreases pieces.len() - k,
    {
        assert(pv.take(k + 1).drop_last() =~= pv.take(k as int));
        assert(pv.take(k + 1).last() == pieces@[k as int]@);
        let ghost lk = longer_than(pv.take(k as int), 3);
        if utf8_len_upto(&pieces[k], 4) == 4 {
            assert(longer_than(pv.take(k + 1), 3) == lk.push(pieces@[k as int]@));
            assert(lk.push(pieces@[k as int]@).drop_last() =~= lk);
            if !has_text(&out, &pieces[k]) {
                let ghost before = out@;
                out.push(string_of(&pieces[k]));
                assert(texts_view(out@) =~= texts_view(before).push(pieces@[k as int]@));
            }
        }
        k += 1;
    }
    assert(pv.take(pieces.len() as int) =~= pv);
    out
}

/// The sentences of a reply that state facts: the pieces between full
/// stops, trimmed, longer than 20 and shorter than 200 UTF-8 bytes, that
/// hold a fact verb.
pub open spec fn fact_sentences(response: Seq<char>) -> Seq<Seq<char>> {
    fact_pieces(split_at_char(response, '.'))
}

/// The trimmed pieces that state facts (see [`fact_sentences`]).
pub open spec fn fact_pieces(ps: Seq<Seq<char>>) -> Seq<Seq<char>>
    decreases ps.len(),
{
    if ps.len() == 0 {
        Seq::empty()
    } else {
        let r = fact_pieces(ps.drop_last());
        let t = trim(ps.last());
        if 20 < utf8_len(t) && utf8_len(t) < 200 && has_fact_verb(spec_to_lowercase(t)) {
            r.push(t)
        } else {
            r
        }
    }
}

/// The sentences of a reply that state facts (see [`fact_sentences`]).
pub fn fact_sentences_of(agent_response: &str) -> (r: Vec<String>)
    ensures
        texts_view(r@) == fact_sentences(agent_response@),
{
    let text = chars_of(agent_response);
    let pieces = split_exec(&text, '.');
    let ghost pv = pieces@.map_values(|x: Vec<char>| x@);
    let mut out: Vec<String> = Vec::new();
    let mut k: usize = 0;
    assert(pv.take(0) =~= Seq::<Seq<char>>::empty());
    assert(texts_view(out@) =~= Seq::<Seq<char>>::empty());
    while k < pieces.len()
        invariant
            pv == pieces@.map_values(|x: Vec<char>| x@),
            k <= pieces.len(),
            texts_view(out@) == fact_pieces(pv.take(k as int)),
        decreases pieces.len() - k,
    {
        assert(pv.take(k + 1).drop_last() =~= pv.take(k as int));
        assert(pv.take(k + 1).last() == pieces@[k as int]@);
        let t = trim_chars(&pieces[k]);
        let n = utf8_len_upto(&t, 200);
        if 20 < n && n < 200 {
            let ts = string_of(&t);
            if contains_factual_indicator(ts.as_str()) {
                let ghost before = out@;
                out.push(ts);
                assert(texts_view(out@) =~= texts_view(before).push(t@));
            }
        }
        k += 1;
    }
    assert(pv.take(pieces.len() as int) =~= pv);
    out
}


/// The content of a tool-usage memory.
pub open spec fn tool_pattern(task: Seq<char>, tool: Seq<char>, success: bool) -> Seq<char> {
    if success {
        "Tool '"@ + tool + "' worked well for: "@ + task
    } else {
        "Tool '"@ + tool + "' failed for: "@ + task
    }
}

/// The content of a tool-usage memory (see [`tool_pattern`]).
pub fn tool_pattern_text(task_description: &str, tool_name: &str, success: bool) -> (r: String)
    ensures
        r@ == tool_pattern(task_description@, tool_name@, success),
{
    let mut v: Vec<char> = Vec::new();
    crate::text::push_str(&mut v, "Tool '");
    crate::text::push_str(&mut v, tool_name);
    if success {
        crate::text::push_str(&mut v, "' worked well for: ");
    } else {
        crate::text::push_str(&mut v, "' failed for: ");
    }
    crate::text::push_str(&mut v, task_description);
    assert(v@ =~= tool_pattern(task_description@, tool_name@, success));
    string_of(&v)
}

/// How many of the query keywords are among the entry keywords.
pub open spec fn keyword_hits(query: Seq<Seq<char>>, entry: Seq<Seq<char>>) -> nat
    decreases query.len(),
{
    if query.len() == 0 {
        0
    } else {
        keyword_hits(query.drop_last(), entry) + if entry.contains(query.last()) {
            1nat
        } else {
            0nat
        }
    }
}

/// How many of the query keywords are among the entry keywords (see
/// [`keyword_hits`]).
pub fn keyword_matches(query_kw: &Vec<String>, entry_kw: &Vec<String>) -> (r: usize)
    ensures
        r == keyword_hits(texts_view(query_kw@), texts_view(entry_kw@)),
        r <= query_kw@.len(),
{
    let ghost qv = texts_view(query_kw@);
    let mut n: usize = 0;
    let mut k: usize = 0;
    assert(qv.take(0) =~= Seq::<Seq<char>>::empty());
    while k < query_kw.len()
        invariant
            qv == texts_view(query_kw@),
            k <= query_kw.len(),
            n <= k,
            n == keyword_hits(qv.take(k as int), texts_view(entry_kw@)),
        decreases query_kw.len() - k,
    {
        assert(qv.take(k + 1).drop_last() =~= qv.take(k as int));
        assert(qv.take(k + 1).last() == query_kw@[k as int]@);
        if has_text(entry_kw, &chars_of(query_kw[k].as_str())) {
            n += 1;
        }
        k += 1;
    }
    assert(qv.take(query_kw.len() as int) =~= qv);
    n
}

/// A lower-cased sentence signals a fact exactly when it holds one of the
/// verbs is, are, was, were, has, have, contains, returns, produces,
/// costs, takes or requires, followed by a space.
pub proof fn law_fact_verbs(l: Seq<char>)
    ensures
        has_fact_verb(l) == (contains(l, "is "@) || contains(l, "are "@) || contains(l, "was "@) || contains(
            l,
            "were "@,
        ) || contains(l, "has "@) || contains(l, "have "@) || contains(l, "contains "@) || contains(l, "returns "@)
            || contains(l, "produces "@) || contains(l, "costs "@) || contains(l, "takes "@) || contains(
            l,
            "requires "@,
        )),
{
}

} // verus!
