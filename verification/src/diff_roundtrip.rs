//! Reading back what was written: unified diff text that a diff was
//! formatted into parses to the same path, operation and hunks.
use vstd::prelude::*;
use crate::text::{is_prefix, occurs_at, first_occurrence, lemma_first_occurrence, decimal, digit_char, is_digit, is_space,
    digits_from, int_parse, IntParse};
use crate::diff_lines::{nl, split_newline, split_lines, str_lines, strip_cr};
use crate::diff_parse::{words, range_parse, header_parse, line_item, scan_hunks, close_hunk, OpenHunk, parse_spec, ParsedView, op_from_paths};
use crate::diff_model::{HunkView, LineView, FileDiff, line_text, hunks_of};
use crate::diff_text::{prefix_char, render_line, render_lines, hunk_header, render_hunks, source_path, unified};

verus! {

// ---------------------------------------------------------------------------
// Lines
// ---------------------------------------------------------------------------

/// Each line followed by a newline.
pub open spec fn with_newlines(ls: Seq<Seq<char>>) -> Seq<char>
    decreases ls.len(),
{
    if ls.len() == 0 {
        Seq::empty()
    } else {
        with_newlines(ls.drop_last()) + ls.last() + nl()
    }
}

/// A line that splitting at newlines gives back: no newline in it, and no
/// carriage return at its end.
pub open spec fn clean_line(l: Seq<char>) -> bool {
    &&& forall|k: int| 0 <= k < l.len() ==> l[k] != '\n'
    &&& (l.len() > 0 ==> l.last() != '\r')
}

/// Writing lines one after another is writing them all.
pub proof fn lemma_with_newlines_concat(a: Seq<Seq<char>>, b: Seq<Seq<char>>)
    ensures
        with_newlines(a + b) == with_newlines(a) + with_newlines(b),
    decreases b.len(),
{
    if b.len() == 0 {
        assert(a + b =~= a);
        assert(with_newlines(a) + with_newlines(b) =~= with_newlines(a));
    } else {
        lemma_with_newlines_concat(a, b.drop_last());
        assert((a + b).drop_last() =~= a + b.drop_last());
        assert((a + b).last() == b.last());
        assert(with_newlines(a + b) =~= with_newlines(a) + with_newlines(b));
    }
}

/// Text without newlines extends the last piece.
proof fn lemma_split_extend(s: Seq<char>, l: Seq<char>)
    requires
        forall|k: int| 0 <= k < l.len() ==> l[k] != '\n',
    ensures
        split_newline(s + l) == split_newline(s).update(
            split_newline(s).len() - 1,
            split_newline(s).last() + l,
        ),
    decreases l.len(),
{
    crate::diff_lines::lemma_split_newline_nonempty(s);
    if l.len() == 0 {
        assert(s + l =~= s);
        assert(split_newline(s).last() + l =~= split_newline(s).last());
        assert(split_newline(s).update(split_newline(s).len() - 1, split_newline(s).last()) =~= split_newline(
            s,
        ));
    } else {
        let l1 = l.drop_last();
        lemma_split_extend(s, l1);
        assert((s + l).drop_last() =~= s + l1);
        assert((s + l).last() == l.last());
        crate::diff_lines::lemma_split_newline_nonempty(s + l1);
        let p = split_newline(s);
        assert(split_newline(s + l) =~= p.update(p.len() - 1, p.last() + l)) by {
            assert((p.last() + l1).push(l.last()) =~= p.last() + l);
        }
    }
}

/// Splitting written lines gives them back, with an empty piece after the
/// last newline.
proof fn lemma_split_written(ls: Seq<Seq<char>>)
    requires
        forall|k: int| 0 <= k < ls.len() ==> clean_line(#[trigger] ls[k]),
    ensures
        split_newline(with_newlines(ls)) == ls.push(Seq::<char>::empty()),
    decreases ls.len(),
{
    if ls.len() == 0 {
        assert(split_newline(Seq::<char>::empty()) =~= seq![Seq::<char>::empty()]);
        assert(ls.push(Seq::<char>::empty()) =~= seq![Seq::<char>::empty()]);
    } else {
        let l0 = ls.drop_last();
        assert forall|k: int| 0 <= k < l0.len() implies clean_line(#[trigger] l0[k]) by {
            assert(l0[k] == ls[k]);
        }
        lemma_split_written(l0);
        let w = with_newlines(l0);
        let l = ls.last();
        assert(clean_line(ls[ls.len() - 1]));
        lemma_split_extend(w, l);
        let p = split_newline(w);
        assert(p.update(p.len() - 1, p.last() + l) =~= ls) by {
            assert(p.last() + l =~= l);
        }
        let t = w + l + nl();
        assert(t.drop_last() =~= w + l);
        assert(t.last() == '\n');
        assert(split_newline(t) =~= ls.push(Seq::<char>::empty()));
    }
}

/// The lines of written clean lines are those lines.
pub proof fn lemma_str_lines_written(ls: Seq<Seq<char>>)
    requires
        forall|k: int| 0 <= k < ls.len() ==> clean_line(#[trigger] ls[k]),
    ensures
        str_lines(with_newlines(ls)) == ls,
{
    let s = with_newlines(ls);
    lemma_split_written(ls);
    if ls.len() == 0 {
        assert(split_lines(s) =~= Seq::<Seq<char>>::empty());
        assert(str_lines(s) =~= ls);
    } else {
        assert(s.len() > 0 && s.last() == '\n') by {
            assert(s == with_newlines(ls.drop_last()) + ls.last() + nl());
        }
        assert(split_lines(s) =~= ls);
        assert forall|k: int| 0 <= k < ls.len() implies strip_cr(#[trigger] ls[k]) == ls[k] by {
            assert(clean_line(ls[k]));
        }
        assert(str_lines(s) =~= ls);
    }
}


// ---------------------------------------------------------------------------
// Numbers
// ---------------------------------------------------------------------------

/// The value of a text of decimal digits.
pub open spec fn digits_value(s: Seq<char>) -> nat
    decreases s.len(),
{
    if s.len() == 0 {
        0
    } else {
        digits_value(s.drop_last()) * 10 + ((s.last() as u32) - 48) as nat
    }
}

/// A text made only of decimal digits.
pub open spec fn all_digits(s: Seq<char>) -> bool {
    forall|k: int| 0 <= k < s.len() ==> is_digit(#[trigger] s[k])
}

/// The decimal rendering of `n` is a non-empty text of digits worth `n`.
proof fn lemma_decimal_digits(n: nat)
    ensures
        decimal(n).len() >= 1,
        all_digits(decimal(n)),
        digits_value(decimal(n)) == n,
    decreases n,
{
    assert((digit_char(n % 10) as u32) == 48 + n % 10);
    if n < 10 {
        assert(decimal(n).drop_last() =~= Seq::<char>::empty());
        assert(decimal(n).last() == digit_char(n));
        assert(n % 10 == n);
        assert(digits_value(decimal(n).drop_last()) == 0);
        assert(digits_value(decimal(n)) == n);
    } else {
        lemma_decimal_digits(n / 10);
        let d = decimal(n / 10);
        let s = d.push(digit_char(n % 10));
        assert(s.drop_last() =~= d);
        assert(s.last() == digit_char(n % 10));
        assert(decimal(n) == s);
        assert(digits_value(s) == digits_value(d) * 10 + n % 10);
        assert(n == (n / 10) * 10 + n % 10);
        assert(digits_value(d) == n / 10);
        assert(digits_value(s) == n);
        assert forall|k: int| 0 <= k < s.len() implies is_digit(#[trigger] s[k]) by {
            if k < d.len() {
                assert(s[k] == d[k]);
            }
        }
    }
}

/// A prefix of a text of digits is worth no more than the text.
proof fn lemma_digits_prefix(s: Seq<char>, j: int)
    requires
        0 <= j <= s.len(),
        all_digits(s),
    ensures
        digits_value(s.take(j)) <= digits_value(s),
    decreases s.len() - j,
{
    if j < s.len() {
        let d = s.drop_last();
        assert forall|k: int| 0 <= k < d.len() implies is_digit(#[trigger] d[k]) by {
            assert(d[k] == s[k]);
        }
        if j < d.len() {
            lemma_digits_prefix(d, j);
            assert(d.take(j) =~= s.take(j));
        } else {
            assert(s.take(j) =~= d);
        }
    } else {
        assert(s.take(j) =~= s);
    }
}

/// Reading digits from position `i`, with the value of those before, gives
/// the value of the whole text when it fits.
proof fn lemma_digits_from(s: Seq<char>, i: int)
    requires
        0 <= i <= s.len(),
        all_digits(s),
        digits_value(s) <= usize::MAX,
    ensures
        digits_from(s, i, digits_value(s.take(i))) == IntParse::Value(digits_value(s) as usize),
    decreases s.len() - i,
{
    if i < s.len() {
        assert(s.take(i + 1).drop_last() =~= s.take(i));
        assert(s.take(i + 1).last() == s[i]);
        assert(is_digit(s[i]));
        lemma_digits_prefix(s, i + 1);
        lemma_digits_from(s, i + 1);
    } else {
        assert(s.take(i) =~= s);
    }
}

/// A rendered number parses back to itself.
pub proof fn lemma_parse_decimal(n: nat)
    requires
        n <= usize::MAX,
    ensures
        int_parse(decimal(n)) == IntParse::Value(n as usize),
{
    lemma_decimal_digits(n);
    let s = decimal(n);
    assert(is_digit(s[0]));
    assert(s.take(0) =~= Seq::<char>::empty());
    lemma_digits_from(s, 0);
}


// ---------------------------------------------------------------------------
// Hunk headers
// ---------------------------------------------------------------------------

/// A hunk's header line without its newline.
pub open spec fn header_line(h: HunkView) -> Seq<char> {
    "@@ -"@ + decimal(h.old_start) + ","@ + decimal(h.old_count) + " +"@ + decimal(h.new_start) + ","@
        + decimal(h.new_count) + " @@"@
}

/// No character of `x` is whitespace.
pub open spec fn no_space(x: Seq<char>) -> bool {
    forall|k: int| 0 <= k < x.len() ==> !is_space(#[trigger] x[k])
}

/// A word after whitespace is one more word.
proof fn lemma_words_after_space(w: Seq<char>, y: Seq<char>)
    requires
        w.len() > 0,
        is_space(w.last()),
        y.len() > 0,
        no_space(y),
    ensures
        words(w + y) == words(w).push(y),
    decreases y.len(),
{
    let s = w + y;
    if y.len() == 1 {
        assert(s.drop_last() =~= w);
        assert(s.last() == y[0]);
        assert(s[s.len() - 2] == w.last());
        assert(seq![y[0]] =~= y);
    } else {
        let y1 = y.drop_last();
        assert forall|k: int| 0 <= k < y1.len() implies !is_space(#[trigger] y1[k]) by {
            assert(y1[k] == y[k]);
        }
        lemma_words_after_space(w, y1);
        assert(s.drop_last() =~= w + y1);
        assert(s.last() == y.last());
        assert(s[s.len() - 2] == y1.last());
        assert(!is_space(y.last()));
        assert(!is_space(y1.last())) by {
            assert(y1.last() == y[y.len() - 2]);
        }
        let p = words(w + y1);
        assert(p.update(p.len() - 1, p.last().push(y.last())) =~= words(w).push(y)) by {
            assert(y1.push(y.last()) =~= y);
        }
    }
}

/// A non-empty text without whitespace is one word.
proof fn lemma_words_single(x: Seq<char>)
    requires
        x.len() > 0,
        no_space(x),
    ensures
        words(x) == seq![x],
    decreases x.len(),
{
    if x.len() == 1 {
        assert(x.drop_last() =~= Seq::<char>::empty());
        assert(words(Seq::<char>::empty()) == Seq::<Seq<char>>::empty());
        assert(!is_space(x[0]));
        assert(seq![x.last()] =~= x);
        assert(words(x) =~= seq![x]);
    } else {
        let x1 = x.drop_last();
        assert forall|k: int| 0 <= k < x1.len() implies !is_space(#[trigger] x1[k]) by {
            assert(x1[k] == x[k]);
        }
        lemma_words_single(x1);
        assert(!is_space(x[x.len() - 2]));
        assert(!is_space(x.last()));
        assert(x1.push(x.last()) =~= x);
    }
}

/// Two words with a space between them.
proof fn lemma_two_words(x: Seq<char>, y: Seq<char>)
    requires
        x.len() > 0,
        no_space(x),
        y.len() > 0,
        no_space(y),
    ensures
        words(x + seq![' '] + y) == seq![x, y],
{
    let w = x + seq![' '];
    lemma_words_single(x);
    assert(w.drop_last() =~= x);
    assert(is_space(w.last()));
    assert(words(w) == words(x));
    lemma_words_after_space(w, y);
    assert(seq![x].push(y) =~= seq![x, y]);
}

/// Digits are neither whitespace nor punctuation.
proof fn lemma_digit_chars(s: Seq<char>)
    requires
        all_digits(s),
    ensures
        no_space(s),
        forall|k: int| 0 <= k < s.len() ==> s[k] != ',' && s[k] != '@' && s[k] != ' ',
{
    assert forall|k: int| 0 <= k < s.len() implies !is_space(#[trigger] s[k]) by {
        assert(is_digit(s[k]));
    }
}

/// A range `a,b` written in decimal reads back as `(a, b)`.
proof fn lemma_range_parse(a: nat, b: nat, ctx: Seq<char>)
    requires
        a <= usize::MAX,
        b <= usize::MAX,
    ensures
        range_parse(decimal(a) + seq![','] + decimal(b), ctx) == Ok::<(usize, usize), Seq<char>>((a as usize, b as usize)),
{
    let da = decimal(a);
    let db = decimal(b);
    let s = da + seq![','] + db;
    lemma_decimal_digits(a);
    lemma_digit_chars(da);
    assert(occurs_at(s, seq![','], da.len() as int)) by {
        assert(s.subrange(da.len() as int, da.len() as int + 1) =~= seq![',']);
    }
    assert forall|j: int| 0 <= j < da.len() implies !occurs_at(s, seq![','], j) by {
        assert(s[j] == da[j]);
        assert(s.subrange(j, j + 1)[0] == s[j]);
    }
    lemma_first_occurrence(s, seq![','], 0, da.len() as int);
    assert(s.take(da.len() as int) =~= da);
    assert(s.skip(da.len() as int + 1) =~= db);
    lemma_parse_decimal(a);
    lemma_parse_decimal(b);
}

/// The left range of a header: `-a,b`.
pub open spec fn left_range(h: HunkView) -> Seq<char> {
    seq!['-'] + decimal(h.old_start) + seq![','] + decimal(h.old_count)
}

/// The right range of a header: `+c,d`.
pub open spec fn right_range(h: HunkView) -> Seq<char> {
    seq!['+'] + decimal(h.new_start) + seq![','] + decimal(h.new_count)
}

/// A marker, digits, a comma and digits hold no whitespace and no `@`.
proof fn lemma_range_chars(m: char, da: Seq<char>, db: Seq<char>)
    requires
        m == '-' || m == '+',
        all_digits(da),
        all_digits(db),
    ensures
        no_space(seq![m] + da + seq![','] + db),
        forall|k: int| 0 <= k < (seq![m] + da + seq![','] + db).len() ==> (seq![m] + da + seq![','] + db)[k] != '@',
{
    let x = seq![m] + da + seq![','] + db;
    lemma_digit_chars(da);
    lemma_digit_chars(db);
    assert forall|k: int| 0 <= k < x.len() implies !is_space(#[trigger] x[k]) && x[k] != '@' by {
        if 1 <= k < 1 + da.len() {
            assert(x[k] == da[k - 1]);
        } else if 1 + da.len() < k {
            assert(x[k] == db[k - 2 - da.len()]);
        }
    }
}

/// Where the closing ` @@` of a header is: right after the two ranges.
#[verifier::spinoff_prover]
#[verifier::rlimit(40)]
proof fn lemma_header_close(h: HunkView)
    ensures
        is_prefix("@@ "@, header_line(h)),
        header_line(h).skip(3) == left_range(h) + seq![' '] + right_range(h) + " @@"@,
        first_occurrence(header_line(h).skip(3), " @@"@, 0) == Some((left_range(h) + seq![' '] + right_range(h)).len() as int),
{
    reveal_strlit("@@ -");
    reveal_strlit(",");
    reveal_strlit(" +");
    reveal_strlit(" @@");
    reveal_strlit("@@ ");
    lemma_decimal_digits(h.old_start);
    lemma_decimal_digits(h.old_count);
    lemma_decimal_digits(h.new_start);
    lemma_decimal_digits(h.new_count);
    let x = left_range(h);
    let y = right_range(h);
    lemma_range_chars('-', decimal(h.old_start), decimal(h.old_count));
    lemma_range_chars('+', decimal(h.new_start), decimal(h.new_count));
    let body = x + seq![' '] + y;
    let line = header_line(h);
    assert(line =~= seq!['@', '@', ' '] + body + " @@"@);
    assert(line.subrange(0, 3) =~= "@@ "@);
    let t = line.skip(3);
    assert(t =~= body + " @@"@);
    assert forall|k: int| 0 <= k < body.len() implies body[k] != '@' by {
        if k < x.len() {
            assert(body[k] == x[k]);
        } else if k > x.len() {
            assert(body[k] == y[k - x.len() - 1]);
        }
    }
    assert(t.subrange(body.len() as int, body.len() as int + 3) =~= " @@"@);
    assert forall|j: int| 0 <= j < body.len() implies !occurs_at(t, " @@"@, j) by {
        if occurs_at(t, " @@"@, j) {
            assert(t.subrange(j, j + 3)[1] == t[j + 1]);
            if j + 1 < body.len() {
                assert(t[j + 1] == body[j + 1]);
            }
        }
    }
    lemma_first_occurrence(t, " @@"@, 0, body.len() as int);
}

/// The words between `@@ ` and ` @@` of a header are its two ranges.
#[verifier::spinoff_prover]
#[verifier::rlimit(40)]
proof fn lemma_header_words(h: HunkView)
    ensures
        words(header_line(h).skip(3).take((left_range(h) + seq![' '] + right_range(h)).len() as int)) == seq![
            left_range(h),
            right_range(h),
        ],
{
    lemma_header_close(h);
    lemma_decimal_digits(h.old_start);
    lemma_decimal_digits(h.old_count);
    lemma_decimal_digits(h.new_start);
    lemma_decimal_digits(h.new_count);
    let x = left_range(h);
    let y = right_range(h);
    lemma_range_chars('-', decimal(h.old_start), decimal(h.old_count));
    lemma_range_chars('+', decimal(h.new_start), decimal(h.new_count));
    let body = x + seq![' '] + y;
    assert(header_line(h).skip(3).take(body.len() as int) =~= body);
    lemma_two_words(x, y);
}

/// A range of a header reads back as its two numbers.
proof fn lemma_side_parse(m: char, a: nat, b: nat, ctx: Seq<char>)
    requires
        a <= usize::MAX,
        b <= usize::MAX,
    ensures
        is_prefix(seq![m], seq![m] + decimal(a) + seq![','] + decimal(b)),
        range_parse((seq![m] + decimal(a) + seq![','] + decimal(b)).drop_first(), ctx) == Ok::<
            (usize, usize),
            Seq<char>,
        >((a as usize, b as usize)),
{
    let x = seq![m] + decimal(a) + seq![','] + decimal(b);
    assert(x.subrange(0, 1) =~= seq![m]);
    assert(x.drop_first() =~= decimal(a) + seq![','] + decimal(b));
    lemma_range_parse(a, b, ctx);
}

/// A hunk header line reads back as its four numbers.
#[verifier::spinoff_prover]
#[verifier::rlimit(40)]
pub proof fn lemma_header_parse(h: HunkView)
    requires
        h.old_start <= usize::MAX,
        h.old_count <= usize::MAX,
        h.new_start <= usize::MAX,
        h.new_count <= usize::MAX,
    ensures
        header_parse(header_line(h)) == Ok::<(usize, usize, usize, usize), Seq<char>>(
            (h.old_start as usize, h.old_count as usize, h.new_start as usize, h.new_count as usize),
        ),
{
    let line = header_line(h);
    let x = left_range(h);
    let y = right_range(h);
    let p = (x + seq![' '] + y).len() as int;
    lemma_header_close(h);
    lemma_header_words(h);
    let parts = words(line.skip(3).take(p));
    assert(parts.len() == 2 && parts[0] == x && parts[1] == y);
    lemma_side_parse('-', h.old_start, h.old_count, line);
    lemma_side_parse('+', h.new_start, h.new_count, line);
    assert(is_prefix(seq!['-'], x) && is_prefix(seq!['+'], y));
    assert(range_parse(x.drop_first(), line) == Ok::<(usize, usize), Seq<char>>(
        (h.old_start as usize, h.old_count as usize),
    ));
    assert(range_parse(y.drop_first(), line) == Ok::<(usize, usize), Seq<char>>(
        (h.new_start as usize, h.new_count as usize),
    ));
    reveal(header_parse);
}

// ---------------------------------------------------------------------------
// Rendered hunks as lines
// ---------------------------------------------------------------------------

/// The lines of one rendered hunk: its header, then its diff lines.
pub open spec fn hunk_lines(h: HunkView) -> Seq<Seq<char>> {
    seq![header_line(h)] + h.lines.map_values(|l: LineView| render_line(l))
}

/// The lines of rendered hunks, one hunk after another.
pub open spec fn hunks_text(hs: Seq<HunkView>) -> Seq<Seq<char>>
    decreases hs.len(),
{
    if hs.len() == 0 {
        Seq::empty()
    } else {
        hunk_lines(hs[0]) + hunks_text(hs.drop_first())
    }
}

/// The lines of hunks end with the lines of the last hunk.
proof fn lemma_hunks_text_last(hs: Seq<HunkView>)
    requires
        hs.len() > 0,
    ensures
        hunks_text(hs) == hunks_text(hs.drop_last()) + hunk_lines(hs.last()),
    decreases hs.len(),
{
    if hs.len() == 1 {
        assert(hs.drop_first() =~= Seq::<HunkView>::empty());
        assert(hs.drop_last() =~= Seq::<HunkView>::empty());
        assert(hunks_text(hs.drop_first()) == Seq::<Seq<char>>::empty());
        assert(hunks_text(hs.drop_last()) == Seq::<Seq<char>>::empty());
        assert(hunks_text(hs) =~= hunk_lines(hs[0]));
        assert(hunks_text(hs.drop_last()) + hunk_lines(hs.last()) =~= hunk_lines(hs[0]));
    } else {
        let t = hs.drop_first();
        lemma_hunks_text_last(t);
        assert(t.drop_last() =~= hs.drop_last().drop_first());
        assert(t.last() == hs.last());
        assert(hs.drop_last()[0] == hs[0]);
        assert(hunks_text(hs) =~= hunks_text(hs.drop_last()) + hunk_lines(hs.last()));
    }
}

/// Rendered diff lines are the lines rendered one by one.
proof fn lemma_render_lines(ls: Seq<LineView>)
    ensures
        render_lines(ls) == with_newlines(ls.map_values(|l: LineView| render_line(l))),
    decreases ls.len(),
{
    if ls.len() > 0 {
        lemma_render_lines(ls.drop_last());
        assert(ls.drop_last().map_values(|l: LineView| render_line(l)) =~= ls.map_values(
            |l: LineView| render_line(l),
        ).drop_last());
    } else {
        assert(ls.map_values(|l: LineView| render_line(l)) =~= Seq::<Seq<char>>::empty());
    }
}

/// Rendered hunks are their lines, each followed by a newline.
proof fn lemma_render_hunks(hs: Seq<HunkView>)
    ensures
        render_hunks(hs) == with_newlines(hunks_text(hs)),
    decreases hs.len(),
{
    if hs.len() == 0 {
        assert(hunks_text(hs) =~= Seq::<Seq<char>>::empty());
    } else {
        let h = hs.last();
        lemma_render_hunks(hs.drop_last());
        lemma_hunks_text_last(hs);
        lemma_render_lines(h.lines);
        let m = h.lines.map_values(|l: LineView| render_line(l));
        lemma_with_newlines_concat(seq![header_line(h)], m);
        assert(with_newlines(seq![header_line(h)]) =~= hunk_header(h)) by {
            assert(seq![header_line(h)].drop_last() =~= Seq::<Seq<char>>::empty());
            assert(with_newlines(Seq::<Seq<char>>::empty()) == Seq::<char>::empty());
            assert(seq![header_line(h)].last() == header_line(h));
            assert(hunk_header(h) == header_line(h) + nl());
        }
        lemma_with_newlines_concat(hunks_text(hs.drop_last()), hunk_lines(h));
    }
}

// ---------------------------------------------------------------------------
// Scanning rendered hunks
// ---------------------------------------------------------------------------

/// A rendered diff line opens no hunk and reads back as itself.
proof fn lemma_line_item(l: LineView)
    ensures
        !is_prefix("@@ "@, render_line(l)),
        line_item(render_line(l)) == Some(l),
{
    let r = render_line(l);
    reveal_strlit("@@ ");
    assert(r[0] == prefix_char(l));
    if is_prefix("@@ "@, r) {
        assert(r.subrange(0, 3)[0] == r[0]);
    }
    assert(r.drop_first() =~= line_text(l));
}

/// Inside an open hunk, rendered diff lines are added to it one by one.
proof fn lemma_scan_lines(
    tl: Seq<Seq<char>>,
    i: int,
    h: (usize, usize, usize, usize),
    ls: Seq<LineView>,
    acc: Seq<HunkView>,
    l: Seq<LineView>,
)
    requires
        0 <= i,
        i + l.len() <= tl.len(),
        forall|j: int| #![trigger l[j]] 0 <= j < l.len() ==> tl[i + j] == render_line(l[j]),
    ensures
        scan_hunks(tl, i, Some((h, ls)), acc) == scan_hunks(tl, i + l.len(), Some((h, ls + l)), acc),
    decreases l.len(),
{
    if l.len() == 0 {
        assert(ls + l =~= ls);
    } else {
        assert(tl[i + 0] == render_line(l[0]));
        lemma_line_item(l[0]);
        assert(scan_hunks(tl, i, Some((h, ls)), acc) == scan_hunks(tl, i + 1, Some((h, ls.push(l[0]))), acc))
            by {
            reveal(scan_hunks);
        }
        let l1 = l.drop_first();
        assert forall|j: int| #![trigger l1[j]] 0 <= j < l1.len() implies tl[(i + 1) + j] == render_line(l1[j]) by {
            assert(l1[j] == l[j + 1]);
            assert(tl[i + (j + 1)] == render_line(l[j + 1]));
        }
        lemma_scan_lines(tl, i + 1, h, ls.push(l[0]), acc, l1);
        assert(ls.push(l[0]) + l1 =~= ls + l);
    }
}

/// Hunk numbers that fit in `usize`.
pub open spec fn fits(hs: Seq<HunkView>) -> bool {
    forall|k: int|
        0 <= k < hs.len() ==> {
            &&& #[trigger] hs[k].old_start <= usize::MAX
            &&& hs[k].old_count <= usize::MAX
            &&& hs[k].new_start <= usize::MAX
            &&& hs[k].new_count <= usize::MAX
        }
}

/// Scanning the rendered lines of hunks reads those hunks.
#[verifier::spinoff_prover]
#[verifier::rlimit(80)]
proof fn lemma_scan_hunks(tl: Seq<Seq<char>>, i: int, cur: Option<OpenHunk>, acc: Seq<HunkView>, hs: Seq<HunkView>)
    requires
        0 <= i <= tl.len(),
        tl.skip(i) == hunks_text(hs),
        fits(hs),
    ensures
        scan_hunks(tl, i, cur, acc) == Ok::<Seq<HunkView>, Seq<char>>(close_hunk(acc, cur) + hs),
    decreases hs.len(),
{
    if hs.len() == 0 {
        assert(tl.skip(i).len() == 0);
        assert(scan_hunks(tl, i, cur, acc) == Ok::<Seq<HunkView>, Seq<char>>(close_hunk(acc, cur))) by {
            reveal(scan_hunks);
        }
        assert(close_hunk(acc, cur) + hs =~= close_hunk(acc, cur));
    } else {
        let h = hs[0];
        let rest = hs.drop_first();
        let m = h.lines.map_values(|l: LineView| render_line(l));
        let n = m.len() as int;
        let c = close_hunk(acc, cur);
        assert(hunks_text(hs) == hunk_lines(h) + hunks_text(rest));
        assert(tl.skip(i)[0] == header_line(h));
        assert(tl[i] == header_line(h));
        assert(h.old_start <= usize::MAX);
        lemma_header_close(h);
        lemma_header_parse(h);
        let nums = (h.old_start as usize, h.old_count as usize, h.new_start as usize, h.new_count as usize);
        assert(scan_hunks(tl, i, cur, acc) == scan_hunks(tl, i + 1, Some((nums, Seq::<LineView>::empty())), c))
            by {
            reveal(scan_hunks);
        }
        assert forall|j: int| #![trigger h.lines[j]] 0 <= j < h.lines.len() implies tl[(i + 1) + j] == render_line(
            h.lines[j],
        ) by {
            assert(tl.skip(i)[1 + j] == m[j]);
        }
        lemma_scan_lines(tl, i + 1, nums, Seq::<LineView>::empty(), c, h.lines);
        assert(Seq::<LineView>::empty() + h.lines =~= h.lines);
        let ht = hunks_text(rest);
        assert(tl.skip(i) == seq![header_line(h)] + m + ht);
        assert(tl.len() - i == 1 + n + ht.len());
        assert forall|k: int| 0 <= k < ht.len() implies #[trigger] tl.skip(i + 1 + n)[k] == ht[k] by {
            assert(tl.skip(i)[1 + n + k] == ht[k]);
            assert(tl.skip(i + 1 + n)[k] == tl[i + 1 + n + k]);
        }
        assert(tl.skip(i + 1 + n) =~= ht);
        assert(fits(rest)) by {
            assert forall|k: int| 0 <= k < rest.len() implies #[trigger] rest[k].old_start <= usize::MAX by {
                assert(rest[k] == hs[k + 1]);
            }
        }
        lemma_scan_hunks(tl, i + 1 + n, Some((nums, h.lines)), c, rest);
        assert(close_hunk(c, Some((nums, h.lines))) == c.push(h));
        assert(c.push(h) + rest =~= c + hs);
    }
}

// ---------------------------------------------------------------------------
// Format, then parse
// ---------------------------------------------------------------------------

/// The two ranges of a header hold no whitespace.
proof fn lemma_ranges_no_space(h: HunkView)
    ensures
        no_space(left_range(h)),
        no_space(right_range(h)),
{
    lemma_decimal_digits(h.old_start);
    lemma_decimal_digits(h.old_count);
    lemma_decimal_digits(h.new_start);
    lemma_decimal_digits(h.new_count);
    lemma_range_chars('-', decimal(h.old_start), decimal(h.old_count));
    lemma_range_chars('+', decimal(h.new_start), decimal(h.new_count));
}

/// A line `@@ ` + body + ` @@` is clean when its body has no newline.
proof fn lemma_marked_clean(line: Seq<char>, body: Seq<char>)
    requires
        is_prefix("@@ "@, line),
        line.skip(3) == body + " @@"@,
        forall|k: int| 0 <= k < body.len() ==> body[k] != '\n',
    ensures
        clean_line(line),
{
    reveal_strlit("@@ ");
    reveal_strlit(" @@");
    let t = line.skip(3);
    assert(line.len() >= 3);
    assert(t.len() == line.len() - 3);
    assert(t.len() == body.len() + 3);
    assert forall|k: int| 0 <= k < line.len() implies line[k] != '\n' by {
        if k < 3 {
            assert(line.subrange(0, 3) == "@@ "@);
            assert(line.subrange(0, 3)[k] == line[k]);
        } else {
            assert(t[k - 3] == line[k]);
            if k - 3 < body.len() {
                assert(t[k - 3] == body[k - 3]);
            } else {
                assert(t[k - 3] == " @@"@[k - 3 - body.len()]);
            }
        }
    }
    assert(line.last() == t.last());
    assert(t.last() == '@');
}

/// A header line holds no newline and does not end with a carriage return.
proof fn lemma_header_clean(h: HunkView)
    ensures
        clean_line(header_line(h)),
{
    lemma_header_close(h);
    lemma_ranges_no_space(h);
    let x = left_range(h);
    let y = right_range(h);
    let body = x + seq![' '] + y;
    assert forall|k: int| 0 <= k < body.len() implies body[k] != '\n' by {
        if k < x.len() {
            assert(body[k] == x[k]);
            assert(!is_space(x[k]));
        } else if x.len() < k {
            assert(body[k] == y[k - x.len() - 1]);
            assert(!is_space(y[k - x.len() - 1]));
        }
    }
    lemma_marked_clean(header_line(h), body);
}

/// Every line of rendered hunks is clean when their diff lines are.
proof fn lemma_hunks_text_clean(hs: Seq<HunkView>)
    requires
        forall|k: int, j: int|
            0 <= k < hs.len() && 0 <= j < hs[k].lines.len() ==> clean_line(line_text(#[trigger] hs[k].lines[j])),
    ensures
        forall|k: int| 0 <= k < hunks_text(hs).len() ==> clean_line(#[trigger] hunks_text(hs)[k]),
    decreases hs.len(),
{
    if hs.len() > 0 {
        let h = hs[0];
        let rest = hs.drop_first();
        assert forall|k: int, j: int|
            0 <= k < rest.len() && 0 <= j < rest[k].lines.len() implies clean_line(line_text(#[trigger] rest[k].lines[j])) by {
            assert(rest[k] == hs[k + 1]);
        }
        lemma_hunks_text_clean(rest);
        lemma_header_clean(h);
        let m = h.lines.map_values(|l: LineView| render_line(l));
        let hl = hunk_lines(h);
        assert forall|k: int| 0 <= k < hl.len() implies clean_line(#[trigger] hl[k]) by {
            if k > 0 {
                let l = h.lines[k - 1];
                assert(hl[k] == m[k - 1]);
                assert(clean_line(line_text(hs[0].lines[k - 1])));
                let r = render_line(l);
                assert forall|q: int| 0 <= q < r.len() implies r[q] != '\n' by {
                    if q > 0 {
                        assert(r[q] == line_text(l)[q - 1]);
                    }
                }
            }
        }
        let t = hunks_text(hs);
        assert(t == hl + hunks_text(rest));
        assert forall|k: int| 0 <= k < t.len() implies clean_line(#[trigger] t[k]) by {
            if k < hl.len() {
                assert(t[k] == hl[k]);
            } else {
                assert(t[k] == hunks_text(rest)[k - hl.len()]);
            }
        }
    }
}

/// Formatting a diff as unified text and parsing that text gives back its
/// path and its hunks, and the operation that its two header paths stand
/// for; this holds when the paths and the diff lines are single lines that
/// do not end with a carriage return.
pub proof fn law_format_then_parse(d: FileDiff)
    requires
        clean_line(source_path(d)),
        clean_line(d.path@),
        forall|k: int, j: int|
            0 <= k < d.hunks@.len() && 0 <= j < d.hunks@[k].lines@.len() ==> clean_line(
                line_text(#[trigger] d.hunks@[k].lines@[j]@),
            ),
    ensures
        parse_spec(unified(d)) == Ok::<ParsedView, Seq<char>>(
            ParsedView {
                path: d.path@,
                operation: op_from_paths(source_path(d), d.path@),
                hunks: hunks_of(d.hunks@),
            },
        ),
{
    reveal_strlit("--- ");
    reveal_strlit("+++ ");
    reveal_strlit("--- a/");
    reveal_strlit("+++ b/");
    let hs = hunks_of(d.hunks@);
    let src = source_path(d);
    let l0 = "--- a/"@ + src;
    let l1 = "+++ b/"@ + d.path@;
    let top = seq![l0, l1];
    let ht = hunks_text(hs);
    let ls = top + ht;
    lemma_render_hunks(hs);
    lemma_with_newlines_concat(top, ht);
    assert(with_newlines(top) =~= l0 + nl() + l1 + nl()) by {
        assert(top.drop_last() =~= seq![l0]);
        assert(seq![l0].drop_last() =~= Seq::<Seq<char>>::empty());
        assert(with_newlines(Seq::<Seq<char>>::empty()) == Seq::<char>::empty());
        assert(with_newlines(seq![l0]) =~= l0 + nl());
        assert(with_newlines(top) == with_newlines(seq![l0]) + l1 + nl());
    }
    assert(unified(d) =~= with_newlines(ls));
    assert forall|k: int, j: int|
        0 <= k < hs.len() && 0 <= j < hs[k].lines.len() implies clean_line(line_text(#[trigger] hs[k].lines[j])) by {
        assert(hs[k] == d.hunks@[k]@);
        assert(hs[k].lines[j] == d.hunks@[k].lines@[j]@);
    }
    lemma_hunks_text_clean(hs);
    assert(clean_line(l0)) by {
        assert forall|k: int| 0 <= k < l0.len() implies l0[k] != '\n' by {
            if k >= 6 {
                assert(l0[k] == src[k - 6]);
            }
        }
    }
    assert(clean_line(l1)) by {
        assert forall|k: int| 0 <= k < l1.len() implies l1[k] != '\n' by {
            if k >= 6 {
                assert(l1[k] == d.path@[k - 6]);
            }
        }
    }
    assert forall|k: int| 0 <= k < ls.len() implies clean_line(#[trigger] ls[k]) by {
        if k >= 2 {
            assert(ls[k] == ht[k - 2]);
        }
    }
    lemma_str_lines_written(ls);
    let tl = str_lines(unified(d));
    assert(tl == ls);
    assert(is_prefix("--- "@, l0) && is_prefix("--- a/"@, l0)) by {
        assert(l0.subrange(0, 4) =~= "--- "@);
        assert(l0.subrange(0, 6) =~= "--- a/"@);
    }
    assert(is_prefix("+++ "@, l1) && is_prefix("+++ b/"@, l1)) by {
        assert(l1.subrange(0, 4) =~= "+++ "@);
        assert(l1.subrange(0, 6) =~= "+++ b/"@);
    }
    assert(l0.skip(6) =~= src);
    assert(l1.skip(6) =~= d.path@);
    assert(tl.skip(2) =~= ht);
    assert(fits(hs)) by {
        assert forall|k: int| 0 <= k < hs.len() implies #[trigger] hs[k].old_start <= usize::MAX by {
            assert(hs[k] == d.hunks@[k]@);
        }
    }
    lemma_scan_hunks(tl, 2, None, Seq::empty(), hs);
    assert(Seq::<HunkView>::empty() + hs =~= hs);
}

} // verus!
