//! The prompt template language and its renderer.
//!
//! A template is text with three kinds of tags:
//! - `{{#each name}}body{{/each}}`: the body once per comma-separated item
//!   of the variable, with `{{item}}` replaced by the trimmed item; nothing
//!   when the variable is unset;
//! - `{{#if name}}body{{/if}}`: the body when the variable is set and is not
//!   empty, `false` or `0`;
//! - `{{name}}`, `{{name|filter}}`, `{{name|filter:arg}}`: the variable's
//!   value, upper- or lower-cased with `upper` / `lower`, or `arg` when the
//!   variable is unset with `default`.
//!
//! Names and filters are runs of word characters; between `#each` or `#if`
//! and the name stands a run of whitespace. Blocks are expanded one at a
//! time, always the first complete block of the text, until none is left;
//! then variables are replaced in one left-to-right pass.
use vstd::prelude::*;
use crate::text::{
    chars_of, string_of, occurs_at, first_occurrence, lemma_first_occurrence, find_from, trim, trim_chars,
    is_whitespace, is_space, spec_to_lowercase, to_lowercase, push_chars, slice_chars, chars_eq,
    eq_str, matches_at,
};

verus! {

/// Whether a character is a word character, as the `regex` crate's `\w`
/// decides.
pub uninterp spec fn spec_is_word_char(c: char) -> bool;

/// What `str::to_uppercase` returns for a string with these characters.
pub uninterp spec fn spec_to_uppercase(s: Seq<char>) -> Seq<char>;

/// An ASCII letter, digit or underscore.
pub open spec fn is_ascii_word(c: char) -> bool {
    ('a' <= c && c <= 'z') || ('A' <= c && c <= 'Z') || ('0' <= c && c <= '9') || c == '_'
}

/// `regex_syntax::is_word_character`: Unicode word characters (alphabetic,
/// join controls, decimal numbers, marks and connector punctuation), the
/// class that `\w` stands for. Within ASCII that is exactly letters, digits
/// and the underscore; outside ASCII nothing more is stated. It panics only
/// without the crate's `unicode-perl` feature, which its default features
/// enable.
#[verifier::external_body]
fn is_word_char(c: char) -> (r: bool)
    ensures
        r == spec_is_word_char(c),
        (c as u32) < 128 ==> (r <==> is_ascii_word(c)),
{
    regex_syntax::is_word_character(c)
}

/// `str::to_uppercase` on the characters.
///
/// The contract names the result by `spec_to_uppercase`; what Unicode
/// upper-casing does to each character is not stated.
#[verifier::external_body]
fn to_uppercase(v: &[char]) -> (r: Vec<char>)
    ensures
        r@ == spec_to_uppercase(v@),
{
    let s: String = v.iter().collect();
    s.to_uppercase().chars().collect()
}

/// Variables as (name, value) pairs; a later pair for a name overrides an
/// earlier one.
pub open spec fn lookup(vars: Seq<(Seq<char>, Seq<char>)>, name: Seq<char>) -> Option<Seq<char>>
    decreases vars.len(),
{
    if vars.len() == 0 {
        None
    } else if vars.last().0 == name {
        Some(vars.last().1)
    } else {
        lookup(vars.drop_last(), name)
    }
}

/// The end of the run of whitespace that starts at `i`.
pub open spec fn ws_end(s: Seq<char>, i: int) -> int
    decreases s.len() - i,
{
    if 0 <= i < s.len() && is_space(s[i]) {
        ws_end(s, i + 1)
    } else {
        i
    }
}

/// The end of the run of word characters that starts at `i`.
pub open spec fn word_end(s: Seq<char>, i: int) -> int
    decreases s.len() - i,
{
    if 0 <= i < s.len() && spec_is_word_char(s[i]) {
        word_end(s, i + 1)
    } else {
        i
    }
}

/// A block opener `{{#kw name}}` at `p`: the name and the position after
/// the opener.
pub open spec fn opener_at(s: Seq<char>, p: int, kw: Seq<char>) -> Option<(Seq<char>, int)> {
    let head = "{{#"@ + kw;
    if 0 <= p && occurs_at(s, head, p) {
        let a = p + head.len();
        let b = ws_end(s, a);
        let c = word_end(s, b);
        if b > a && c > b && occurs_at(s, "}}"@, c) {
            Some((s.subrange(b, c), c + 2))
        } else {
            None
        }
    } else {
        None
    }
}

/// The first block opener at or after `p`.
pub open spec fn first_opener(s: Seq<char>, kw: Seq<char>, p: int) -> Option<int>
    decreases s.len() - p,
{
    if p < 0 || p >= s.len() {
        None
    } else if opener_at(s, p, kw) is Some {
        Some(p)
    } else {
        first_opener(s, kw, p + 1)
    }
}

/// A block found in a text: where it starts, its name, where its body
/// starts and where its closer starts.
pub struct BlockMatch {
    pub start: int,
    pub name: Seq<char>,
    pub body_start: int,
    pub closer: int,
}

/// The first complete block `{{#kw name}}...{{/kw}}`: the first opener,
/// with the first closer after it (no later opener can have a closer when
/// the first has none).
pub open spec fn block_match(s: Seq<char>, kw: Seq<char>, closer: Seq<char>) -> Option<BlockMatch> {
    match first_opener(s, kw, 0) {
        None => None,
        Some(p) => {
            let (name, e) = opener_at(s, p, kw)->0;
            match first_occurrence(s, closer, e) {
                None => None,
                Some(q) => Some(BlockMatch { start: p, name, body_start: e, closer: q }),
            }
        },
    }
}

/// `s` split at every `c` (`str::split`): one piece more than there are
/// separators.
pub open spec fn split_at_char(s: Seq<char>, c: char) -> Seq<Seq<char>>
    decreases s.len(),
{
    if s.len() == 0 {
        seq![Seq::empty()]
    } else {
        let w = split_at_char(s.drop_last(), c);
        if s.last() == c {
            w.push(Seq::empty())
        } else {
            w.update(w.len() - 1, w.last().push(s.last()))
        }
    }
}

/// `s` with every non-overlapping occurrence of a non-empty `pat` from `p`
/// on replaced by `rep`, left to right (`str::replace`).
pub open spec fn replace_from(s: Seq<char>, pat: Seq<char>, rep: Seq<char>, p: int) -> Seq<char>
    decreases s.len() - p,
{
    if p < 0 || p >= s.len() {
        Seq::empty()
    } else if pat.len() > 0 && occurs_at(s, pat, p) {
        rep + replace_from(s, pat, rep, p + pat.len())
    } else {
        seq![s[p]] + replace_from(s, pat, rep, p + 1)
    }
}

/// The body once per item, `{{item}}` replaced by the trimmed item.
pub open spec fn each_items(body: Seq<char>, items: Seq<Seq<char>>) -> Seq<char>
    decreases items.len(),
{
    if items.len() == 0 {
        Seq::empty()
    } else {
        each_items(body, items.drop_last()) + replace_from(body, "{{item}}"@, trim(items.last()), 0)
    }
}

/// The text with its first complete `each` block expanded, if it has one.
pub open spec fn each_step(s: Seq<char>, vars: Seq<(Seq<char>, Seq<char>)>) -> Option<Seq<char>> {
    match block_match(s, "each"@, "{{/each}}"@) {
        None => None,
        Some(m) => {
            let body = s.subrange(m.body_start, m.closer);
            let rep = match lookup(vars, m.name) {
                Some(v) => each_items(body, split_at_char(v, ',')),
                None => Seq::empty(),
            };
            Some(s.take(m.start) + rep + s.skip(m.closer + 9))
        },
    }
}

/// The text after `k` rounds of expanding `each` blocks (a round without a
/// block leaves the text as it is).
pub open spec fn each_iter(s: Seq<char>, vars: Seq<(Seq<char>, Seq<char>)>, k: nat) -> Seq<char>
    decreases k,
{
    if k == 0 {
        s
    } else {
        let prev = each_iter(s, vars, (k - 1) as nat);
        match each_step(prev, vars) {
            Some(t) => t,
            None => prev,
        }
    }
}

/// A value that makes an `if` block show its body: set, and not empty,
/// `false` or `0`.
pub open spec fn truthy(v: Option<Seq<char>>) -> bool {
    match v {
        Some(x) => x.len() > 0 && x != "false"@ && x != "0"@,
        None => false,
    }
}

/// The text with its first complete `if` block resolved, if it has one.
pub open spec fn if_step(s: Seq<char>, vars: Seq<(Seq<char>, Seq<char>)>) -> Option<Seq<char>> {
    match block_match(s, "if"@, "{{/if}}"@) {
        None => None,
        Some(m) => {
            let rep = if truthy(lookup(vars, m.name)) {
                s.subrange(m.body_start, m.closer)
            } else {
                Seq::empty()
            };
            Some(s.take(m.start) + rep + s.skip(m.closer + 7))
        },
    }
}

/// The text with all `if` blocks resolved, one after another.
pub open spec fn render_ifs(s: Seq<char>, vars: Seq<(Seq<char>, Seq<char>)>) -> Seq<char>
    decreases s.len(),
{
    match if_step(s, vars) {
        Some(t) => if t.len() < s.len() {
            render_ifs(t, vars)
        } else {
            t
        },
        None => s,
    }
}

/// A variable tag at `p`: `{{name}}`, `{{name|filter}}` or
/// `{{name|filter:arg}}` (the argument runs up to the next `}`), with the
/// position after it.
pub struct VarTag {
    pub name: Seq<char>,
    pub filter: Option<Seq<char>>,
    pub arg: Option<Seq<char>>,
    pub end: int,
}

/// The end of the run of characters other than `}` that starts at `i`.
pub open spec fn arg_end(s: Seq<char>, i: int) -> int
    decreases s.len() - i,
{
    if 0 <= i < s.len() && s[i] != '}' {
        arg_end(s, i + 1)
    } else {
        i
    }
}

/// The variable tag at `p`, if one starts there.
pub open spec fn var_at(s: Seq<char>, p: int) -> Option<VarTag> {
    if 0 <= p && occurs_at(s, "{{"@, p) {
        let a = p + 2;
        let b = word_end(s, a);
        if b == a {
            None
        } else if occurs_at(s, "}}"@, b) {
            Some(VarTag { name: s.subrange(a, b), filter: None, arg: None, end: b + 2 })
        } else if b < s.len() && s[b] == '|' {
            let c = word_end(s, b + 1);
            if c == b + 1 {
                None
            } else if occurs_at(s, "}}"@, c) {
                Some(VarTag { name: s.subrange(a, b), filter: Some(s.subrange(b + 1, c)), arg: None, end: c + 2 })
            } else if c < s.len() && s[c] == ':' {
                let d = arg_end(s, c + 1);
                if occurs_at(s, "}}"@, d) {
                    Some(
                        VarTag {
                            name: s.subrange(a, b),
                            filter: Some(s.subrange(b + 1, c)),
                            arg: Some(s.subrange(c + 1, d)),
                            end: d + 2,
                        },
                    )
                } else {
                    None
                }
            } else {
                None
            }
        } else {
            None
        }
    } else {
        None
    }
}

/// What a variable tag renders to.
pub open spec fn tag_value(t: VarTag, vars: Seq<(Seq<char>, Seq<char>)>) -> Seq<char> {
    let v = lookup(vars, t.name);
    let raw = match v {
        Some(x) => x,
        None => Seq::empty(),
    };
    if t.filter == Some("default"@) {
        match v {
            Some(x) => x,
            None => match t.arg {
                Some(a) => a,
                None => Seq::empty(),
            },
        }
    } else if t.filter == Some("upper"@) {
        spec_to_uppercase(raw)
    } else if t.filter == Some("lower"@) {
        spec_to_lowercase(raw)
    } else {
        raw
    }
}

/// The text from `p` on with every variable tag replaced, left to right.
pub open spec fn render_vars_from(s: Seq<char>, vars: Seq<(Seq<char>, Seq<char>)>, p: int) -> Seq<char>
    decreases s.len() - p,
{
    if p < 0 || p >= s.len() {
        Seq::empty()
    } else {
        match var_at(s, p) {
            Some(t) => if p < t.end <= s.len() {
                tag_value(t, vars) + render_vars_from(s, vars, t.end)
            } else {
                Seq::empty()
            },
            None => seq![s[p]] + render_vars_from(s, vars, p + 1),
        }
    }
}

/// The variables as plain values.
pub open spec fn vars_view(v: Seq<(String, String)>) -> Seq<(Seq<char>, Seq<char>)> {
    v.map_values(|p: (String, String)| (p.0@, p.1@))
}

fn copy_string(s: &String) -> (r: Vec<char>)
    ensures
        r@ == s@,
{
    chars_of(s.as_str())
}

/// The value of a variable (see [`lookup`]).
pub(crate) fn lookup_exec(vars: &[(String, String)], name: &[char]) -> (r: Option<Vec<char>>)
    ensures
        match lookup(vars_view(vars@), name@) {
            Some(x) => r matches Some(v) && v@ == x,
            None => r is None,
        },
{
    let ghost vv = vars_view(vars@);
    let mut i: usize = vars.len();
    assert(vv.take(i as int) =~= vv);
    while i > 0
        invariant
            i <= vars.len(),
            vv == vars_view(vars@),
            lookup(vv, name@) == lookup(vv.take(i as int), name@),
        decreases i,
    {
        i -= 1;
        assert(vv.take(i + 1).drop_last() =~= vv.take(i as int));
        let k = copy_string(&vars[i].0);
        if chars_eq(&k, name) {
            return Some(copy_string(&vars[i].1));
        }
    }
    None
}

fn ws_end_exec(s: &[char], i: usize) -> (r: usize)
    requires
        i <= s.len(),
    ensures
        r == ws_end(s@, i as int),
        i <= r <= s.len(),
{
    let mut j = i;
    while j < s.len() && is_whitespace(s[j])
        invariant
            i <= j <= s.len(),
            ws_end(s@, i as int) == ws_end(s@, j as int),
        decreases s.len() - j,
    {
        j += 1;
    }
    j
}

fn word_end_exec(s: &[char], i: usize) -> (r: usize)
    requires
        i <= s.len(),
    ensures
        r == word_end(s@, i as int),
        i <= r <= s.len(),
{
    let mut j = i;
    while j < s.len() && is_word_char(s[j])
        invariant
            i <= j <= s.len(),
            word_end(s@, i as int) == word_end(s@, j as int),
        decreases s.len() - j,
    {
        j += 1;
    }
    j
}

fn arg_end_exec(s: &[char], i: usize) -> (r: usize)
    requires
        i <= s.len(),
    ensures
        r == arg_end(s@, i as int),
        i <= r <= s.len(),
{
    let mut j = i;
    while j < s.len() && s[j] != '}'
        invariant
            i <= j <= s.len(),
            arg_end(s@, i as int) == arg_end(s@, j as int),
        decreases s.len() - j,
    {
        j += 1;
    }
    j
}

/// The block opener at `p` (see [`opener_at`]).
fn opener_exec(s: &[char], p: usize, kw: &str) -> (r: Option<(Vec<char>, usize)>)
    requires
        p <= s.len(),
    ensures
        match opener_at(s@, p as int, kw@) {
            Some((name, e)) => r matches Some((n, e2)) && n@ == name && e2 == e,
            None => r is None,
        },
{
    let mut head = chars_of("{{#");
    crate::text::push_str(&mut head, kw);
    if !matches_at(s, &head, p) {
        return None;
    }
    let a = p + head.len();
    let b = ws_end_exec(s, a);
    let c = word_end_exec(s, b);
    if b > a && c > b && matches_at(s, &chars_of("}}"), c) {
        proof {
            reveal_strlit("}}");
        }
        Some((slice_chars(s, b, c), c + 2))
    } else {
        None
    }
}

/// The first block opener (see [`first_opener`]).
fn first_opener_exec(s: &[char], kw: &str) -> (r: Option<usize>)
    ensures
        match first_opener(s@, kw@, 0) {
            Some(p) => r == Some(p as usize) && 0 <= p < s.len(),
            None => r is None,
        },
{
    let mut p: usize = 0;
    while p < s.len()
        invariant
            p <= s.len(),
            first_opener(s@, kw@, 0) == first_opener(s@, kw@, p as int),
        decreases s.len() - p,
    {
        if opener_exec(s, p, kw).is_some() {
            return Some(p);
        }
        p += 1;
    }
    None
}

proof fn lemma_first_opener(s: Seq<char>, kw: Seq<char>, q: int)
    requires
        first_opener(s, kw, q) is Some,
    ensures
        opener_at(s, first_opener(s, kw, q)->0, kw) is Some,
        q <= first_opener(s, kw, q)->0 < s.len(),
    decreases s.len() - q,
{
    if q >= 0 && q < s.len() && opener_at(s, q, kw) is None {
        lemma_first_opener(s, kw, q + 1);
    }
}

proof fn lemma_each_done(s: Seq<char>, vars: Seq<(Seq<char>, Seq<char>)>, k: nat)
    requires
        k <= usize::MAX,
        each_step(each_iter(s, vars, k), vars) is None || k == usize::MAX,
    ensures
        each_done(s, vars, each_iter(s, vars, k)),
{
}

/// The first complete block (see [`block_match`]), as (start, name, body
/// start, closer position).
fn block_match_exec(s: &[char], kw: &str, closer: &str) -> (r: Option<(usize, Vec<char>, usize, usize)>)
    ensures
        match block_match(s@, kw@, closer@) {
            Some(m) => r matches Some((a, n, b, c)) && a == m.start && n@ == m.name && b == m.body_start
                && c == m.closer && m.start < m.body_start <= m.closer && m.closer + closer@.len() <= s.len(),
            None => r is None,
        },
{
    match first_opener_exec(s, kw) {
        None => None,
        Some(p) => {
            proof {
                lemma_first_opener(s@, kw@, 0);
            }
            match opener_exec(s, p, kw) {
                None => None,
                Some((name, e)) => {
                    proof {
                        reveal_strlit("{{#");
                    }
                    let cl = chars_of(closer);
                    match find_from(s, &cl, e) {
                        None => {
                            proof {
                                if first_occurrence(s@, closer@, e as int) is Some {
                                    let i = choose|i: int| e <= i && occurs_at(s@, closer@, i)
                                        && forall|j: int| e <= j < i ==> !occurs_at(s@, closer@, j);
                                    assert(occurs_at(s@, closer@, i));
                                }
                            }
                            None
                        },
                        Some(q) => {
                            proof {
                                lemma_first_occurrence(s@, closer@, e as int, q as int);
                            }
                            Some((p, name, e, q))
                        },
                    }
                },
            }
        },
    }
}

/// `s` split at every `c` (see [`split_at_char`]).
pub(crate) fn split_exec(s: &[char], c: char) -> (r: Vec<Vec<char>>)
    ensures
        r@.map_values(|x: Vec<char>| x@) == split_at_char(s@, c),
{
    let mut out: Vec<Vec<char>> = Vec::new();
    out.push(Vec::new());
    let mut i: usize = 0;
    assert(out@.map_values(|x: Vec<char>| x@) =~= split_at_char(s@.take(0), c));
    while i < s.len()
        invariant
            i <= s.len(),
            out.len() >= 1,
            out@.map_values(|x: Vec<char>| x@) == split_at_char(s@.take(i as int), c),
        decreases s.len() - i,
    {
        assert(s@.take(i + 1).drop_last() =~= s@.take(i as int));
        let ghost before = out@.map_values(|x: Vec<char>| x@);
        if s[i] == c {
            out.push(Vec::new());
            assert(out@.map_values(|x: Vec<char>| x@) =~= before.push(Seq::empty()));
        } else {
            let last = out.len() - 1;
            let mut piece = slice_chars(&out[last], 0, out[last].len());
            assert(piece@ =~= before.last());
            piece.push(s[i]);
            let ghost pv = piece@;
            out.set(last, piece);
            assert(pv =~= before.last().push(s@[i as int]));
            assert(out@.map_values(|x: Vec<char>| x@) =~= before.update(before.len() - 1, before.last().push(s@[i as int])));
        }
        i += 1;
    }
    assert(s@.take(s.len() as int) =~= s@);
    out
}

/// `s` with every `{{item}}` replaced by `rep` (see [`replace_from`]).
fn replace_item(s: &[char], rep: &[char]) -> (r: Vec<char>)
    ensures
        r@ == replace_from(s@, "{{item}}"@, rep@, 0),
{
    let pat = chars_of("{{item}}");
    proof {
        reveal_strlit("{{item}}");
        assert(pat@.len() == 8);
    }
    let mut out: Vec<char> = Vec::new();
    let mut p: usize = 0;
    while p < s.len()
        invariant
            p <= s.len(),
            pat@ == "{{item}}"@,
            pat@.len() == 8,
            out@ + replace_from(s@, pat@, rep@, p as int) == replace_from(s@, pat@, rep@, 0),
        decreases s.len() - p,
    {
        if matches_at(s, &pat, p) {
            let ghost before = out@;
            push_chars(&mut out, rep);
            assert(out@ + replace_from(s@, pat@, rep@, p + 8) =~= before + replace_from(s@, pat@, rep@, p as int));
            p = p + 8;
        } else {
            let ghost before = out@;
            out.push(s[p]);
            assert(out@ + replace_from(s@, pat@, rep@, p + 1) =~= before + replace_from(s@, pat@, rep@, p as int));
            p = p + 1;
        }
    }
    assert(out@ + replace_from(s@, pat@, rep@, p as int) =~= out@);
    out
}

/// The body once per comma-separated item (see [`each_items`]).
fn each_rep(body: &Vec<char>, v: &Vec<char>) -> (r: Vec<char>)
    ensures
        r@ == each_items(body@, split_at_char(v@, ',')),
{
    let items = split_exec(v, ',');
    let ghost iv = items@.map_values(|x: Vec<char>| x@);
    let mut rep: Vec<char> = Vec::new();
    let mut k: usize = 0;
    while k < items.len()
        invariant
            k <= items.len(),
            iv == items@.map_values(|x: Vec<char>| x@),
            rep@ == each_items(body@, iv.take(k as int)),
        decreases items.len() - k,
    {
        assert(iv.take(k + 1).drop_last() =~= iv.take(k as int));
        let t = trim_chars(&items[k]);
        let piece = replace_item(body, &t);
        push_chars(&mut rep, &piece);
        k += 1;
    }
    assert(iv.take(items.len() as int) =~= iv);
    rep
}

/// The first complete `each` block expanded (see [`each_step`]).
fn each_step_exec(s: &Vec<char>, vars: &[(String, String)]) -> (r: Option<Vec<char>>)
    ensures
        match each_step(s@, vars_view(vars@)) {
            Some(t) => r matches Some(v) && v@ == t,
            None => r is None,
        },
{
    proof {
        reveal_strlit("{{/each}}");
    }
    match block_match_exec(s.as_slice(), "each", "{{/each}}") {
        None => None,
        Some((start, name, body_start, closer)) => {
            let body = slice_chars(s.as_slice(), body_start, closer);
            let rep = match lookup_exec(vars, &name) {
                Some(v) => each_rep(&body, &v),
                None => Vec::new(),
            };
            let mut out = slice_chars(s.as_slice(), 0, start);
            push_chars(&mut out, &rep);
            push_chars(&mut out, &slice_chars(s.as_slice(), closer + 9, s.len()));
            assert(s@.take(start as int) =~= s@.subrange(0, start as int));
            assert(s@.skip(closer + 9) =~= s@.subrange(closer + 9, s.len() as int));
            Some(out)
        },
    }
}

/// A text whose `each` blocks are all expanded: `each` rounds applied to
/// `s` until no block is left, or the largest number of rounds a `usize`
/// counts.
pub open spec fn each_done(s: Seq<char>, vars: Seq<(Seq<char>, Seq<char>)>, t: Seq<char>) -> bool {
    exists|k: nat| k <= usize::MAX && t == each_iter(s, vars, k) && (each_step(t, vars) is None || k == usize::MAX)
}

/// Expand the `each` blocks (see [`each_done`]).
fn render_each(content: &Vec<char>, vars: &[(String, String)]) -> (r: Vec<char>)
    ensures
        each_done(content@, vars_view(vars@), r@),
{
    let ghost vv = vars_view(vars@);
    let mut cur = slice_chars(content.as_slice(), 0, content.len());
    assert(cur@ =~= content@);
    let mut k: usize = 0;
    loop
        invariant
            vv == vars_view(vars@),
            cur@ == each_iter(content@, vv, k as nat),
        decreases usize::MAX - k,
    {
        match each_step_exec(&cur, vars) {
            None => {
                proof {
                    lemma_each_done(content@, vv, k as nat);
                }
                return cur;
            },
            Some(next) => {
                if k == usize::MAX {
                    proof {
                        lemma_each_done(content@, vv, k as nat);
                    }
                    return cur;
                }
                assert(next@ == each_iter(content@, vv, (k + 1) as nat));
                cur = next;
                k = k + 1;
            },
        }
    }
}

/// The first complete `if` block resolved (see [`if_step`]).
fn if_step_exec(s: &Vec<char>, vars: &[(String, String)]) -> (r: Option<Vec<char>>)
    ensures
        match if_step(s@, vars_view(vars@)) {
            Some(t) => r matches Some(v) && v@ == t && t.len() < s@.len(),
            None => r is None,
        },
{
    proof {
        reveal_strlit("{{/if}}");
    }
    match block_match_exec(s.as_slice(), "if", "{{/if}}") {
        None => None,
        Some((start, name, body_start, closer)) => {
            let value = lookup_exec(vars, &name);
            let show = match &value {
                Some(v) => v.len() > 0 && !eq_str(v, "false") && !eq_str(v, "0"),
                None => false,
            };
            let mut out = slice_chars(s.as_slice(), 0, start);
            if show {
                push_chars(&mut out, &slice_chars(s.as_slice(), body_start, closer));
            }
            push_chars(&mut out, &slice_chars(s.as_slice(), closer + 7, s.len()));
            assert(s@.take(start as int) =~= s@.subrange(0, start as int));
            assert(s@.skip(closer + 7) =~= s@.subrange(closer + 7, s.len() as int));
            Some(out)
        },
    }
}

/// Resolve the `if` blocks (see [`render_ifs`]).
fn render_if_blocks(content: Vec<char>, vars: &[(String, String)]) -> (r: Vec<char>)
    ensures
        r@ == render_ifs(content@, vars_view(vars@)),
{
    let ghost vv = vars_view(vars@);
    let mut cur = content;
    loop
        invariant
            vv == vars_view(vars@),
            render_ifs(cur@, vv) == render_ifs(content@, vv),
        decreases cur@.len(),
    {
        match if_step_exec(&cur, vars) {
            None => {
                return cur;
            },
            Some(next) => {
                cur = next;
            },
        }
    }
}

/// The variable tag at `p` (see [`var_at`]).
fn var_at_exec(s: &[char], p: usize) -> (r: Option<(Vec<char>, Option<Vec<char>>, Option<Vec<char>>, usize)>)
    requires
        p <= s.len(),
    ensures
        match var_at(s@, p as int) {
            Some(t) => r matches Some((n, f, a, e)) && n@ == t.name && e == t.end && p < e <= s.len() && (match t.filter {
                Some(x) => f matches Some(fv) && fv@ == x,
                None => f is None,
            }) && (match t.arg {
                Some(x) => a matches Some(av) && av@ == x,
                None => a is None,
            }),
            None => r is None,
        },
{
    proof {
        reveal_strlit("{{");
        reveal_strlit("}}");
    }
    let close = chars_of("}}");
    if !matches_at(s, &chars_of("{{"), p) {
        return None;
    }
    let a = p + 2;
    let b = word_end_exec(s, a);
    if b == a {
        return None;
    }
    if matches_at(s, &close, b) {
        return Some((slice_chars(s, a, b), None, None, b + 2));
    }
    if b < s.len() && s[b] == '|' {
        let c = word_end_exec(s, b + 1);
        if c == b + 1 {
            return None;
        }
        if matches_at(s, &close, c) {
            return Some((slice_chars(s, a, b), Some(slice_chars(s, b + 1, c)), None, c + 2));
        }
        if c < s.len() && s[c] == ':' {
            let d = arg_end_exec(s, c + 1);
            if matches_at(s, &close, d) {
                return Some((slice_chars(s, a, b), Some(slice_chars(s, b + 1, c)), Some(slice_chars(s, c + 1, d)), d + 2));
            }
        }
    }
    None
}

/// What a tag renders to (see [`tag_value`]).
fn tag_value_exec(name: &Vec<char>, filter: &Option<Vec<char>>, arg: &Option<Vec<char>>, vars: &[(String, String)]) -> (r: Vec<char>)
    ensures
        r@ == tag_value(
            VarTag {
                name: name@,
                filter: match filter {
                    Some(f) => Some(f@),
                    None => None,
                },
                arg: match arg {
                    Some(a) => Some(a@),
                    None => None,
                },
                end: 0,
            },
            vars_view(vars@),
        ),
{
    let v = lookup_exec(vars, name);
    let raw = match &v {
        Some(x) => slice_chars(x, 0, x.len()),
        None => Vec::new(),
    };
    assert(raw@ =~= match lookup(vars_view(vars@), name@) {
        Some(x) => x,
        None => Seq::<char>::empty(),
    });
    let kind: u8 = match filter {
        Some(f) => if eq_str(f, "default") {
            1
        } else if eq_str(f, "upper") {
            2
        } else if eq_str(f, "lower") {
            3
        } else {
            0
        },
        None => 0,
    };
    if kind == 1 {
        match v {
            Some(x) => x,
            None => match arg {
                Some(a) => {
                    let r = slice_chars(a, 0, a.len());
                    assert(r@ =~= a@);
                    r
                },
                None => Vec::new(),
            },
        }
    } else if kind == 2 {
        to_uppercase(&raw)
    } else if kind == 3 {
        to_lowercase(&raw)
    } else {
        raw
    }
}

/// Replace every variable tag, left to right (see [`render_vars_from`]).
fn render_variables(s: &[char], vars: &[(String, String)]) -> (r: Vec<char>)
    ensures
        r@ == render_vars_from(s@, vars_view(vars@), 0),
{
    let ghost vv = vars_view(vars@);
    let mut out: Vec<char> = Vec::new();
    let mut p: usize = 0;
    while p < s.len()
        invariant
            p <= s.len(),
            vv == vars_view(vars@),
            out@ + render_vars_from(s@, vv, p as int) == render_vars_from(s@, vv, 0),
        decreases s.len() - p,
    {
        let ghost before = out@;
        match var_at_exec(s, p) {
            Some((name, filter, arg, end)) => {
                let v = tag_value_exec(&name, &filter, &arg, vars);
                push_chars(&mut out, &v);
                assert(out@ + render_vars_from(s@, vv, end as int) =~= before + render_vars_from(s@, vv, p as int));
                p = end;
            },
            None => {
                out.push(s[p]);
                assert(out@ + render_vars_from(s@, vv, p + 1) =~= before + render_vars_from(s@, vv, p as int));
                p = p + 1;
            },
        }
    }
    assert(out@ + render_vars_from(s@, vv, p as int) =~= out@);
    out
}

/// What rendering a template gives: its `each` blocks expanded (see
/// [`each_done`]), then its `if` blocks resolved, then its variable tags
/// replaced.
pub open spec fn rendered(content: Seq<char>, vars: Seq<(Seq<char>, Seq<char>)>, r: Seq<char>) -> bool {
    exists|t: Seq<char>| each_done(content, vars, t) && r == render_vars_from(render_ifs(t, vars), vars, 0)
}

/// Render a template with variables (see [`rendered`]).
pub fn render_template(content: &str, vars: &[(String, String)]) -> (r: String)
    ensures
        rendered(content@, vars_view(vars@), r@),
{
    let c = chars_of(content);
    let t = render_each(&c, vars);
    let i = render_if_blocks(slice_chars(&t, 0, t.len()), vars);
    proof {
        assert(i@ == render_ifs(t@, vars_view(vars@))) by {
            assert(t@.subrange(0, t@.len() as int) =~= t@);
        }
    }
    let out = render_variables(&i, vars);
    string_of(&out)
}

} // verus!
