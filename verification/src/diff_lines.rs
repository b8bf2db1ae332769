//! Lines of text: splitting on `\n`, joining, and the line conventions of
//! `str::lines`.
use vstd::prelude::*;
use crate::text::{join, chars_of, push_chars};

verus! {

/// The pieces of `s` between `\n` characters (`str::split('\n')`); there is
/// always at least one piece.
pub open spec fn split_newline(s: Seq<char>) -> Seq<Seq<char>>
    decreases s.len(),
{
    if s.len() == 0 {
        seq![Seq::<char>::empty()]
    } else {
        let p = split_newline(s.drop_last());
        if s.last() == '\n' {
            p.push(Seq::<char>::empty())
        } else {
            p.update(p.len() - 1, p.last().push(s.last()))
        }
    }
}

/// The lines of `s`: no lines for empty text, and a final newline does not
/// start an extra empty line.
pub open spec fn split_lines(s: Seq<char>) -> Seq<Seq<char>> {
    if s.len() == 0 {
        Seq::empty()
    } else {
        let p = split_newline(s);
        if p.last().len() == 0 {
            p.drop_last()
        } else {
            p
        }
    }
}

/// One trailing carriage return removed, if present.
pub open spec fn strip_cr(l: Seq<char>) -> Seq<char> {
    if l.len() > 0 && l.last() == '\r' {
        l.drop_last()
    } else {
        l
    }
}

/// `str::lines`: the lines of `split_lines`, where a line that ended with
/// `\r\n` loses its `\r`.
pub open spec fn str_lines(s: Seq<char>) -> Seq<Seq<char>> {
    let p = split_lines(s);
    Seq::new(
        p.len(),
        |i: int|
            if i < p.len() - 1 || (s.len() > 0 && s.last() == '\n') {
                strip_cr(p[i])
            } else {
                p[i]
            },
    )
}

/// The newline as a one-character sequence.
pub open spec fn nl() -> Seq<char> {
    seq!['\n']
}

/// The views of a vector of lines.
pub open spec fn lines_view(v: Seq<Vec<char>>) -> Seq<Seq<char>> {
    v.map_values(|l: Vec<char>| l@)
}

pub proof fn lemma_split_newline_nonempty(s: Seq<char>)
    ensures
        split_newline(s).len() >= 1,
    decreases s.len(),
{
    if s.len() > 0 {
        lemma_split_newline_nonempty(s.drop_last());
    }
}

proof fn lemma_join_push_last(q: Seq<Seq<char>>, c: char)
    requires
        q.len() >= 1,
    ensures
        join(q.update(q.len() - 1, q.last().push(c)), nl()) == join(q, nl()).push(c),
{
    let q2 = q.update(q.len() - 1, q.last().push(c));
    if q.len() == 1 {
    } else {
        assert(q2.drop_last() =~= q.drop_last());
        assert(join(q2, nl()) == join(q.drop_last(), nl()) + nl() + q.last().push(c));
        assert(join(q2, nl()) =~= (join(q.drop_last(), nl()) + nl() + q.last()).push(c));
    }
}

/// Joining the pieces of `s` with newlines gives `s` back.
pub proof fn lemma_join_split_newline(s: Seq<char>)
    ensures
        join(split_newline(s), nl()) == s,
    decreases s.len(),
{
    if s.len() == 0 {
    } else {
        let t = s.drop_last();
        lemma_join_split_newline(t);
        lemma_split_newline_nonempty(t);
        let p = split_newline(t);
        if s.last() == '\n' {
            assert(p.push(Seq::<char>::empty()).drop_last() =~= p);
            assert(join(p.push(Seq::<char>::empty()), nl()) =~= t + nl());
            assert(t + nl() =~= s);
        } else {
            lemma_join_push_last(p, s.last());
            assert(t.push(s.last()) =~= s);
        }
    }
}

/// A text that ends with a newline is its lines joined by newlines, plus a
/// newline.
pub proof fn lemma_join_split_lines(s: Seq<char>)
    requires
        s.len() > 0,
        s.last() == '\n',
    ensures
        join(split_lines(s), nl()) + nl() == s,
        split_lines(s).len() >= 1,
{
    let t = s.drop_last();
    lemma_join_split_newline(t);
    lemma_split_newline_nonempty(t);
    let p = split_newline(t);
    assert(split_newline(s) == p.push(Seq::<char>::empty()));
    assert(split_lines(s) =~= p);
    assert(t + nl() =~= s);
}

/// Joining pieces with a separator (`[String]::join`).
pub fn join_with(lines: &Vec<Vec<char>>, sep: &[char]) -> (r: Vec<char>)
    ensures
        r@ == join(lines_view(lines@), sep@),
{
    let mut out: Vec<char> = Vec::new();
    let mut i: usize = 0;
    while i < lines.len()
        invariant
            i <= lines@.len(),
            out@ == join(lines_view(lines@.take(i as int)), sep@),
        decreases lines.len() - i,
    {
        let ghost prev = lines_view(lines@.take(i as int));
        if i > 0 {
            push_chars(&mut out, sep);
        }
        let ghost base = out@;
        push_chars(&mut out, &lines[i]);
        proof {
            let nxt = lines_view(lines@.take(i + 1));
            assert(nxt.drop_last() =~= prev);
            assert(nxt.last() == lines@[i as int]@);
            if i == 0 {
                assert(nxt.len() == 1);
                assert(out@ =~= nxt[0]);
            } else {
                assert(out@ =~= join(prev, sep@) + sep@ + lines@[i as int]@);
            }
        }
        i = i + 1;
    }
    assert(lines@.take(lines@.len() as int) =~= lines@);
    out
}

/// Joining lines with `\n` (`[String]::join("\n")`).
pub fn join_lines(lines: &Vec<Vec<char>>) -> (r: Vec<char>)
    ensures
        r@ == join(lines_view(lines@), nl()),
{
    let sep = vec!['\n'];
    assert(sep@ =~= nl());
    join_with(lines, &sep)
}

/// The lines of a text (see [`split_lines`]).
pub fn split_lines_exec(s: &[char]) -> (r: Vec<Vec<char>>)
    ensures
        lines_view(r@) == split_lines(s@),
{
    if s.len() == 0 {
        let r: Vec<Vec<char>> = Vec::new();
        assert(lines_view(r@) =~= split_lines(s@));
        return r;
    }
    let mut done: Vec<Vec<char>> = Vec::new();
    let mut cur: Vec<char> = Vec::new();
    let mut i: usize = 0;
    assert(s@.take(0) =~= Seq::<char>::empty());
    assert(lines_view(done@).push(cur@) =~= split_newline(s@.take(0)));
    while i < s.len()
        invariant
            i <= s@.len(),
            lines_view(done@).push(cur@) == split_newline(s@.take(i as int)),
        decreases s.len() - i,
    {
        let c = s[i];
        let ghost p = split_newline(s@.take(i as int));
        assert(s@.take(i + 1).drop_last() =~= s@.take(i as int));
        assert(s@.take(i + 1).last() == c);
        if c == '\n' {
            done.push(cur);
            cur = Vec::new();
            assert(lines_view(done@).push(cur@) =~= p.push(Seq::<char>::empty()));
        } else {
            cur.push(c);
            assert(lines_view(done@).push(cur@) =~= p.update(p.len() - 1, p.last().push(c)));
        }
        i = i + 1;
    }
    assert(s@.take(s@.len() as int) =~= s@);
    if cur.len() == 0 {
        assert(lines_view(done@) =~= split_newline(s@).drop_last());
        done
    } else {
        done.push(cur);
        done
    }
}

/// The lines of a text as `str::lines` gives them (see [`str_lines`]).
pub fn str_lines_exec(s: &[char]) -> (r: Vec<Vec<char>>)
    ensures
        lines_view(r@) == str_lines(s@),
{
    let p = split_lines_exec(s);
    let ends_nl = s.len() > 0 && s[s.len() - 1] == '\n';
    let mut out: Vec<Vec<char>> = Vec::new();
    let mut i: usize = 0;
    while i < p.len()
        invariant
            i <= p@.len(),
            lines_view(p@) == split_lines(s@),
            ends_nl == (s@.len() > 0 && s@.last() == '\n'),
            out@.len() == i,
            forall|j: int| 0 <= j < i ==> (#[trigger] out@[j])@ == str_lines(s@)[j],
        decreases p.len() - i,
    {
        let l = &p[i];
        let strip = (i + 1 < p.len() || ends_nl) && l.len() > 0 && l[l.len() - 1] == '\r';
        if strip {
            let mut v: Vec<char> = Vec::new();
            let mut k: usize = 0;
            while k < l.len() - 1
                invariant
                    l@.len() > 0,
                    k + 1 <= l@.len(),
                    v@ == l@.take(k as int),
                decreases l@.len() - k,
            {
                v.push(l[k]);
                k = k + 1;
                assert(v@ =~= l@.take(k as int));
            }
            assert(v@ =~= l@.drop_last());
            out.push(v);
        } else {
            let mut v: Vec<char> = Vec::new();
            let mut k: usize = 0;
            while k < l.len()
                invariant
                    k <= l@.len(),
                    v@ == l@.take(k as int),
                decreases l@.len() - k,
            {
                v.push(l[k]);
                k = k + 1;
                assert(v@ =~= l@.take(k as int));
            }
            assert(v@ =~= l@);
            out.push(v);
        }
        i = i + 1;
    }
    assert(lines_view(out@) =~= str_lines(s@));
    out
}

/// The lines of a string slice as `str::lines` gives them.
pub fn lines_of_str(s: &str) -> (r: Vec<Vec<char>>)
    ensures
        lines_view(r@) == str_lines(s@),
{
    let c = chars_of(s);
    str_lines_exec(&c)
}

/// The views of lines after a push.
pub proof fn lemma_lines_view_push(v: Seq<Vec<char>>, x: Vec<char>)
    ensures
        lines_view(v.push(x)) == lines_view(v).push(x@),
{
    assert(lines_view(v.push(x)) =~= lines_view(v).push(x@));
}

} // verus!
