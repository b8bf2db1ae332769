//! Where a plan puts things: the file that holds a feature's interfaces and
//! the test file that goes with a source file.
use vstd::prelude::*;
use crate::code_planner::CodePlanner;
use crate::text::{
    chars_of, string_of, contains, contains_str, is_prefix, is_suffix, starts_with_str, ends_with_str,
    spec_to_lowercase, to_lowercase, join, push_chars, push_str, slice_chars,
};
use crate::diff_lines::{join_with, lines_view};
use crate::diff_parse::{words, words_exec};

verus! {

/// Whether a character is alphanumeric, as `char::is_alphanumeric` decides.
pub uninterp spec fn spec_is_alphanumeric(c: char) -> bool;

/// An ASCII letter or digit.
pub open spec fn is_ascii_alnum(c: char) -> bool {
    ('a' <= c && c <= 'z') || ('A' <= c && c <= 'Z') || ('0' <= c && c <= '9')
}

/// `char::is_alphanumeric`: whether the character is alphabetic or numeric
/// in Unicode's sense. Within ASCII that is exactly the letters and digits;
/// outside ASCII nothing more is stated.
#[verifier::external_body]
pub(crate) fn is_alphanumeric(c: char) -> (r: bool)
    ensures
        r == spec_is_alphanumeric(c),
        (c as u32) < 128 ==> (r <==> is_ascii_alnum(c)),
{
    c.is_alphanumeric()
}

/// The texts of a sequence of string slices.
pub open spec fn strs(s: Seq<&str>) -> Seq<Seq<char>> {
    s.map_values(|x: &str| x@)
}

/// `s` without every trailing `.rs`.
pub open spec fn trim_rs(s: Seq<char>) -> Seq<char>
    decreases s.len(),
{
    if s.len() >= 3 && is_suffix(".rs"@, s) {
        trim_rs(s.take(s.len() - 3))
    } else {
        s
    }
}

/// The part of `s` after its last `/` (all of `s` without one).
pub open spec fn last_segment(s: Seq<char>) -> Seq<char>
    decreases s.len(),
{
    if s.len() == 0 {
        s
    } else if s.last() == '/' {
        Seq::empty()
    } else {
        last_segment(s.drop_last()).push(s.last())
    }
}

/// The test file for a source file: `tests/test.rs` for no file; for a file
/// under `src/`, its name under `tests/` with `_test.rs`; a file whose name
/// mentions tests is its own; otherwise its last path segment under
/// `tests/` with `_test.rs`.
pub open spec fn test_file_for(src: Seq<char>) -> Seq<char> {
    if src.len() == 0 {
        "tests/test.rs"@
    } else if is_prefix("src/"@, src) {
        "tests/"@ + trim_rs(src.skip(4)) + "_test.rs"@
    } else if contains(src, "test"@) {
        src
    } else {
        "tests/"@ + trim_rs(last_segment(src)) + "_test.rs"@
    }
}

/// A lower-cased file name that looks like a types or model file.
pub open spec fn types_name(l: Seq<char>) -> bool {
    contains(l, "types"@) || contains(l, "model"@) || contains(l, "lib"@)
}

/// The first file from index `j` on whose lower-cased name looks like a
/// types or model file.
pub open spec fn types_file_from(files: Seq<Seq<char>>, j: int) -> Option<int>
    decreases files.len() - j,
{
    if j < 0 || j >= files.len() {
        None
    } else if types_name(spec_to_lowercase(files[j])) {
        Some(j)
    } else {
        types_file_from(files, j + 1)
    }
}

/// The alphanumeric characters and underscores of `s`, in order.
pub open spec fn slug_chars(s: Seq<char>) -> Seq<char>
    decreases s.len(),
{
    if s.len() == 0 {
        s
    } else if spec_is_alphanumeric(s.last()) || s.last() == '_' {
        slug_chars(s.drop_last()).push(s.last())
    } else {
        slug_chars(s.drop_last())
    }
}

/// At most the first three words.
pub open spec fn first_three(w: Seq<Seq<char>>) -> Seq<Seq<char>> {
    if w.len() <= 3 {
        w
    } else {
        w.take(3)
    }
}

/// The slug of a description: its first three lower-cased words joined by
/// `_`, keeping only alphanumeric characters and underscores.
pub open spec fn slug_of(description: Seq<char>) -> Seq<char> {
    slug_chars(join(first_three(words(spec_to_lowercase(description))), "_"@))
}

/// The interface file of a feature: the first existing file that looks like
/// a types or model file, else `src/<slug>.rs` from the description, or
/// `src/types.rs` when the slug is empty.
pub open spec fn interface_file(description: Seq<char>, files: Seq<Seq<char>>) -> Seq<char> {
    match types_file_from(files, 0) {
        Some(j) => files[j],
        None => if slug_of(description).len() == 0 {
            "src/types.rs"@
        } else {
            "src/"@ + slug_of(description) + ".rs"@
        },
    }
}

fn trim_rs_chars(s: &[char]) -> (r: Vec<char>)
    ensures
        r@ == trim_rs(s@),
{
    proof {
        reveal_strlit(".rs");
    }
    let mut n: usize = s.len();
    assert(s@.take(n as int) =~= s@);
    while n >= 3 && ends_with_str(&slice_chars(s, 0, n), ".rs")
        invariant
            n <= s.len(),
            trim_rs(s@) == trim_rs(s@.take(n as int)),
        decreases n,
    {
        assert(s@.take(n as int).take(n - 3) =~= s@.take(n - 3));
        n = n - 3;
    }
    let r = slice_chars(s, 0, n);
    assert(r@ =~= s@.take(n as int));
    r
}

fn last_segment_chars(s: &[char]) -> (r: Vec<char>)
    ensures
        r@ == last_segment(s@),
{
    let mut j: usize = s.len();
    assert(s@.take(j as int) =~= s@);
    while j > 0 && s[j - 1] != '/'
        invariant
            j <= s.len(),
            last_segment(s@) == last_segment(s@.take(j as int)) + s@.subrange(j as int, s.len() as int),
        decreases j,
    {
        let ghost t = s@.take(j as int);
        assert(t.drop_last() =~= s@.take(j - 1));
        assert(last_segment(t) == last_segment(s@.take(j - 1)).push(s@[j - 1]));
        assert(last_segment(s@.take(j - 1)).push(s@[j - 1]) + s@.subrange(j as int, s.len() as int)
            =~= last_segment(s@.take(j - 1)) + s@.subrange(j - 1, s.len() as int));
        j = j - 1;
    }
    if j == 0 {
        assert(s@.take(0) =~= Seq::<char>::empty());
        assert(s@.subrange(0, s.len() as int) =~= s@);
    } else {
        assert(s@.take(j as int).last() == '/');
    }
    let r = slice_chars(s, j, s.len());
    assert(last_segment(s@) =~= r@);
    r
}

fn slug_chars_exec(s: &[char]) -> (r: Vec<char>)
    ensures
        r@ == slug_chars(s@),
{
    let mut out: Vec<char> = Vec::new();
    let mut i: usize = 0;
    while i < s.len()
        invariant
            i <= s.len(),
            out@ == slug_chars(s@.take(i as int)),
        decreases s.len() - i,
    {
        assert(s@.take(i + 1).drop_last() =~= s@.take(i as int));
        let c = s[i];
        if is_alphanumeric(c) || c == '_' {
            out.push(c);
        }
        i += 1;
    }
    assert(s@.take(s.len() as int) =~= s@);
    out
}

impl CodePlanner {
    /// The test file for a source file (see [`test_file_for`]).
    pub fn infer_test_file(source: &str) -> (r: String)
        ensures
            r@ == test_file_for(source@),
    {
        proof {
            reveal_strlit("src/");
        }
        let s = chars_of(source);
        if s.len() == 0 {
            return string_of(&chars_of("tests/test.rs"));
        }
        if starts_with_str(&s, "src/") {
            let mut out = chars_of("tests/");
            push_chars(&mut out, &trim_rs_chars(&slice_chars(&s, 4, s.len())));
            push_str(&mut out, "_test.rs");
            assert(s@.subrange(4, s@.len() as int) =~= s@.skip(4));
            return string_of(&out);
        }
        if contains_str(&s, "test") {
            return string_of(&s);
        }
        let mut out = chars_of("tests/");
        push_chars(&mut out, &trim_rs_chars(&last_segment_chars(&s)));
        push_str(&mut out, "_test.rs");
        string_of(&out)
    }

    /// The interface file of a feature (see [`interface_file`]).
    pub fn infer_interface_file(description: &str, existing_files: &[&str]) -> (r: String)
        ensures
            r@ == interface_file(description@, strs(existing_files@)),
    {
        let ghost files = strs(existing_files@);
        let mut j: usize = 0;
        while j < existing_files.len()
            invariant
                j <= existing_files.len(),
                files == strs(existing_files@),
                types_file_from(files, 0) == types_file_from(files, j as int),
            decreases existing_files.len() - j,
        {
            let f = existing_files[j];
            let lower = to_lowercase(&chars_of(f));
            if contains_str(&lower, "types") || contains_str(&lower, "model") || contains_str(&lower, "lib") {
                return string_of(&chars_of(f));
            }
            j += 1;
        }
        let words_v = words_exec(&to_lowercase(&chars_of(description)));
        let mut first: Vec<Vec<char>> = Vec::new();
        let mut k: usize = 0;
        while k < words_v.len() && k < 3
            invariant
                k <= words_v.len(),
                k <= 3,
                lines_view(first@) == lines_view(words_v@).take(k as int),
            decreases words_v.len() - k,
        {
            let ghost before = first@;
            let w = slice_chars(&words_v[k], 0, words_v[k].len());
            assert(w@ =~= words_v@[k as int]@);
            first.push(w);
            assert(lines_view(first@) =~= lines_view(before).push(w@));
            assert(lines_view(words_v@).take(k + 1) =~= lines_view(words_v@).take(k as int).push(w@));
            k += 1;
        }
        assert(lines_view(first@) =~= first_three(lines_view(words_v@)));
        let joined = join_with(&first, &chars_of("_"));
        let slug = slug_chars_exec(&joined);
        if slug.len() == 0 {
            string_of(&chars_of("src/types.rs"))
        } else {
            let mut out = chars_of("src/");
            push_chars(&mut out, &slug);
            push_str(&mut out, ".rs");
            string_of(&out)
        }
    }
}

} // verus!
