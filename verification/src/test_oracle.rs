//! Test execution analysis and the TDD loop: the data of a test run, what
//! regular expressions find in test output, failure classification and the
//! red-green-refactor state machine.
use vstd::prelude::*;
use crate::text::{chars_of, string_of, contains, contains_str, is_digit, decimal};

verus! {

/// Supported test frameworks.
#[derive(Debug, Clone, Copy, PartialEq, Eq, Hash, Structural)]
pub enum TestFramework {
    /// Rust `cargo test`
    CargoTest,
    /// Python `pytest`
    Pytest,
    /// JavaScript/TypeScript `jest`
    Jest,
    /// Go `go test`
    GoTest,
    /// Unknown or unsupported framework.
    Unknown,
}

/// Status of a single test case.
#[derive(Debug, Clone, Copy, PartialEq, Eq, Structural)]
pub enum TestStatus {
    /// Test passed.
    Passed,
    /// Test failed.
    Failed,
    /// Test was skipped / ignored.
    Skipped,
    /// Test encountered an error (e.g., compilation, setup failure).
    Error,
}

/// A single parsed test result.
#[derive(Debug, Clone)]
pub struct TestCase {
    /// Fully qualified test name (e.g., `module::test_name`).
    pub name: String,
    /// Outcome of the test.
    pub status: TestStatus,
    /// Duration in milliseconds, if reported.
    pub duration_ms: Option<u64>,
    /// Error or failure message, if any.
    pub error_message: Option<String>,
    /// Source file where the test is defined, if known.
    pub file: Option<String>,
    /// Source line number, if known.
    pub line: Option<usize>,
    /// Captured stdout, if any.
    pub stdout: Option<String>,
}

/// Summary of a test run.
#[derive(Debug, Clone)]
pub struct TestRunSummary {
    /// Which framework produced this output.
    pub framework: TestFramework,
    /// Total number of tests.
    pub total: usize,
    /// Number of passed tests.
    pub passed: usize,
    /// Number of failed tests.
    pub failed: usize,
    /// Number of skipped/ignored tests.
    pub skipped: usize,
    /// Number of error (non-failure) tests.
    pub errors: usize,
    /// Total duration in milliseconds, if reported.
    pub duration_ms: Option<u64>,
    /// Individual test case results.
    pub cases: Vec<TestCase>,
}

/// The text of an optional string.
pub open spec fn opt_view(o: Option<String>) -> Option<Seq<char>> {
    match o {
        Some(s) => Some(s@),
        None => None,
    }
}

/// What a test case holds, as plain values.
pub struct CaseView {
    pub name: Seq<char>,
    pub status: TestStatus,
    pub duration_ms: Option<u64>,
    pub error_message: Option<Seq<char>>,
    pub file: Option<Seq<char>>,
    pub line: Option<usize>,
    pub stdout: Option<Seq<char>>,
}

impl View for TestCase {
    type V = CaseView;

    open spec fn view(&self) -> CaseView {
        CaseView {
            name: self.name@,
            status: self.status,
            duration_ms: self.duration_ms,
            error_message: opt_view(self.error_message),
            file: opt_view(self.file),
            line: self.line,
            stdout: opt_view(self.stdout),
        }
    }
}

/// The views of test cases.
pub open spec fn cases_view(v: Seq<TestCase>) -> Seq<CaseView> {
    v.map_values(|c: TestCase| c@)
}

// ---------------------------------------------------------------------------
// Regular expressions
// ---------------------------------------------------------------------------

/// The name for what `regex::Regex::captures` finds for a pattern in a
/// text: the groups of the leftmost-first match (group 0 is the whole
/// match), each present or not; `None` when nothing matches.
pub uninterp spec fn regex_first(pattern: Seq<char>, text: Seq<char>) -> Option<Seq<Option<Seq<char>>>>;

/// The name for what `regex::Regex::captures_iter` finds for a pattern in a
/// text: the groups of each successive non-overlapping match.
pub uninterp spec fn regex_all(pattern: Seq<char>, text: Seq<char>) -> Seq<Seq<Option<Seq<char>>>>;

/// The texts of the groups of one match.
pub open spec fn groups_view(g: Seq<Option<String>>) -> Seq<Option<Seq<char>>> {
    g.map_values(|o: Option<String>| opt_view(o))
}

/// `regex::Regex::new(pattern)` then `captures(text)`, each group turned
/// into an owned string; a pattern that does not compile finds nothing.
///
/// The contract names the result by [`regex_first`]; what a pattern
/// matches is left to the `regex` crate.
#[verifier::external_body]
fn captures(pattern: &str, text: &str) -> (r: Option<Vec<Option<String>>>)
    ensures
        match r {
            Some(g) => regex_first(pattern@, text@) == Some(groups_view(g@)),
            None => regex_first(pattern@, text@) is None,
        },
{
    regex::Regex::new(pattern).ok().and_then(
        |re| re.captures(text).map(|c| c.iter().map(|m| m.map(|m| m.as_str().to_string())).collect()),
    )
}

/// `regex::Regex::new(pattern)` then `captures_iter(text)`, each group
/// turned into an owned string; a pattern that does not compile finds
/// nothing.
///
/// The contract names the result by [`regex_all`].
#[verifier::external_body]
fn captures_all(pattern: &str, text: &str) -> (r: Vec<Vec<Option<String>>>)
    ensures
        r@.map_values(|g: Vec<Option<String>>| groups_view(g@)) == regex_all(pattern@, text@),
{
    match regex::Regex::new(pattern) {
        Ok(re) => re.captures_iter(text).map(
            |c| c.iter().map(|m| m.map(|m| m.as_str().to_string())).collect(),
        ).collect(),
        Err(_) => Vec::new(),
    }
}

/// Group `k` of a match, empty when absent.
pub open spec fn grp(g: Seq<Option<Seq<char>>>, k: int) -> Seq<char> {
    if 0 <= k < g.len() && g[k] is Some {
        g[k]->0
    } else {
        Seq::empty()
    }
}

/// Group `k` of a match, if present.
pub open spec fn opt_grp(g: Seq<Option<Seq<char>>>, k: int) -> Option<Seq<char>> {
    if 0 <= k < g.len() {
        g[k]
    } else {
        None
    }
}

/// Group `k` of a match as a string, empty when absent.
fn group(g: &Vec<Option<String>>, k: usize) -> (r: Vec<char>)
    ensures
        r@ == grp(groups_view(g@), k as int),
{
    if k < g.len() {
        match &g[k] {
            Some(s) => chars_of(s.as_str()),
            None => Vec::new(),
        }
    } else {
        Vec::new()
    }
}

/// Group `k` of a match as a string, if present.
fn opt_group(g: &Vec<Option<String>>, k: usize) -> (r: Option<Vec<char>>)
    ensures
        match r {
            Some(v) => opt_grp(groups_view(g@), k as int) == Some(v@),
            None => opt_grp(groups_view(g@), k as int) is None,
        },
{
    if k < g.len() {
        match &g[k] {
            Some(s) => Some(chars_of(s.as_str())),
            None => None,
        }
    } else {
        None
    }
}

// ---------------------------------------------------------------------------
// Durations
// ---------------------------------------------------------------------------

/// The value of a run of decimal digits.
pub open spec fn digits_val(s: Seq<char>) -> nat
    decreases s.len(),
{
    if s.len() == 0 {
        0
    } else {
        digits_val(s.drop_last()) * 10 + ((s.last() as u32) - 48) as nat
    }
}

/// Every character is a decimal digit.
pub open spec fn all_digits(s: Seq<char>) -> bool {
    forall|i: int| 0 <= i < s.len() ==> is_digit(#[trigger] s[i])
}

/// The thousandths in fractional digits: the first three, padded with
/// zeros.
pub open spec fn thousandths(f: Seq<char>) -> nat {
    let p = if f.len() >= 3 {
        f.take(3)
    } else if f.len() == 2 {
        f.push('0')
    } else if f.len() == 1 {
        f.push('0').push('0')
    } else {
        seq!['0', '0', '0']
    };
    digits_val(p)
}

/// The milliseconds in a number of seconds written `digits` or
/// `digits.digits`, rounded down and capped at `u64::MAX`; `None` for other
/// text.
pub open spec fn seconds_ms(s: Seq<char>) -> Option<u64> {
    let (ip, fp, dot) = match crate::text::first_occurrence(s, seq!['.'], 0) {
        Some(p) => (s.take(p), s.skip(p + 1), true),
        None => (s, Seq::<char>::empty(), false),
    };
    if ip.len() == 0 || !all_digits(ip) || (dot && (fp.len() == 0 || !all_digits(fp))) {
        None
    } else {
        let v = digits_val(ip) * 1000 + thousandths(fp);
        Some(if v > u64::MAX { u64::MAX } else { v as u64 })
    }
}

/// The value of digits, capped at `u64::MAX`.
fn digits_capped(s: &[char]) -> (r: u64)
    requires
        all_digits(s@),
    ensures
        r == (if digits_val(s@) > u64::MAX { u64::MAX as nat } else { digits_val(s@) }),
{
    let mut acc: u64 = 0;
    let mut i: usize = 0;
    while i < s.len()
        invariant
            i <= s@.len(),
            all_digits(s@),
            acc == (if digits_val(s@.take(i as int)) > u64::MAX {
                u64::MAX as nat
            } else {
                digits_val(s@.take(i as int))
            }),
        decreases s.len() - i,
    {
        let c = s[i];
        assert(is_digit(s@[i as int]));
        let d = (c as u32 - 48) as u64;
        proof {
            assert(s@.take(i + 1).drop_last() =~= s@.take(i as int));
        }
        acc = match acc.checked_mul(10) {
            Some(m) => match m.checked_add(d) {
                Some(v) => v,
                None => u64::MAX,
            },
            None => u64::MAX,
        };
        i = i + 1;
    }
    assert(s@.take(i as int) =~= s@);
    acc
}

/// The milliseconds in a number of seconds (see [`seconds_ms`]).
fn parse_seconds_ms(s: &[char]) -> (r: Option<u64>)
    ensures
        r == seconds_ms(s@),
{
    let dot = vec!['.'];
    assert(dot@ =~= seq!['.']);
    let n = s.len();
    let (ip, fp, has_dot) = match crate::text::find_from(s, &dot, 0) {
        Some(p) => {
            assert(crate::text::occurs_at(s@, dot@, p as int));
            let a = crate::text::slice_chars(s, 0, p);
            let b = crate::text::slice_chars(s, p + 1, n);
            assert(a@ =~= s@.take(p as int));
            assert(b@ =~= s@.skip(p + 1));
            (a, b, true)
        },
        None => (crate::text::slice_chars(s, 0, n), Vec::new(), false),
    };
    assert(s@.subrange(0, n as int) =~= s@);
    if ip.len() == 0 || !digits_only(&ip) || (has_dot && (fp.len() == 0 || !digits_only(&fp))) {
        return None;
    }
    let whole = digits_capped(&ip);
    let mut f3: Vec<char> = Vec::new();
    let mut k: usize = 0;
    while k < 3
        invariant
            k <= 3,
            f3@.len() == k,
            forall|j: int| 0 <= j < k ==> f3@[j] == (if j < fp@.len() { fp@[j] } else { '0' }),
        decreases 3 - k,
    {
        if k < fp.len() {
            f3.push(fp[k]);
        } else {
            f3.push('0');
        }
        k = k + 1;
    }
    proof {
        let p = if fp@.len() >= 3 {
            fp@.take(3)
        } else if fp@.len() == 2 {
            fp@.push('0')
        } else if fp@.len() == 1 {
            fp@.push('0').push('0')
        } else {
            seq!['0', '0', '0']
        };
        assert(f3@ =~= p);
        reveal_with_fuel(digits_val, 4);
        assert(digits_val(f3@) < 1000);
    }
    let frac = (((f3[0] as u32 - 48) * 100 + (f3[1] as u32 - 48) * 10 + (f3[2] as u32 - 48)) as u64);
    proof {
        reveal_with_fuel(digits_val, 4);
        assert(f3@.drop_last().drop_last().drop_last() =~= Seq::<char>::empty());
    }
    let ms = match whole.checked_mul(1000) {
        Some(m) => match m.checked_add(frac) {
            Some(v) => v,
            None => u64::MAX,
        },
        None => u64::MAX,
    };
    Some(ms)
}

/// Whether every character is a decimal digit.
fn digits_only(s: &[char]) -> (r: bool)
    ensures
        r == all_digits(s@),
{
    let mut i: usize = 0;
    while i < s.len()
        invariant
            i <= s@.len(),
            forall|j: int| 0 <= j < i ==> is_digit(#[trigger] s@[j]),
        decreases s.len() - i,
    {
        if !('0' <= s[i] && s[i] <= '9') {
            assert(!is_digit(s@[i as int]));
            return false;
        }
        i = i + 1;
    }
    true
}

// ---------------------------------------------------------------------------
// Framework detection and summaries
// ---------------------------------------------------------------------------

/// The `running N tests` line of `cargo test`.
pub const RUNNING_TESTS: &'static str = "running \\d+ tests?";

/// Which framework produced the output, from characteristic markers:
/// `test result:` or `running N tests` for cargo, `--- PASS:` / `--- FAIL:`
/// for go, `PASSED` / `FAILED` with `::` or ` passed` for pytest (jest when
/// a `Tests:` summary appears without ` passed in `), and a `Tests:`
/// summary or check marks for jest.
pub open spec fn detect_spec(o: Seq<char>) -> TestFramework {
    if contains(o, "test result:"@) || regex_first(RUNNING_TESTS@, o) is Some {
        TestFramework::CargoTest
    } else if contains(o, "--- PASS:"@) || contains(o, "--- FAIL:"@) {
        TestFramework::GoTest
    } else if (contains(o, "PASSED"@) || contains(o, "FAILED"@)) && (contains(o, "::"@) || contains(
        o,
        " passed"@,
    )) {
        if contains(o, "Tests:"@) && !contains(o, " passed in "@) {
            TestFramework::Jest
        } else {
            TestFramework::Pytest
        }
    } else if contains(o, "Tests:"@) || contains(o, "\u{2713}"@) || contains(o, "\u{2715}"@) {
        TestFramework::Jest
    } else {
        TestFramework::Unknown
    }
}

/// The number of cases with status `st`.
pub open spec fn count_status(cs: Seq<CaseView>, st: TestStatus) -> nat
    decreases cs.len(),
{
    if cs.len() == 0 {
        0
    } else {
        count_status(cs.drop_last(), st) + if cs.last().status == st {
            1nat
        } else {
            0nat
        }
    }
}

/// `r` summarizes the cases `cs` of framework `fw` run in `dur`
/// milliseconds: the total and the count of each status.
pub open spec fn summarizes(r: TestRunSummary, fw: TestFramework, cs: Seq<CaseView>, dur: Option<u64>) -> bool {
    &&& r.framework == fw
    &&& cases_view(r.cases@) == cs
    &&& r.total == cs.len()
    &&& r.passed == count_status(cs, TestStatus::Passed)
    &&& r.failed == count_status(cs, TestStatus::Failed)
    &&& r.skipped == count_status(cs, TestStatus::Skipped)
    &&& r.errors == count_status(cs, TestStatus::Error)
    &&& r.duration_ms == dur
}

/// The number of cases with status `st`.
fn count_cases(cases: &Vec<TestCase>, st: TestStatus) -> (r: usize)
    ensures
        r == count_status(cases_view(cases@), st),
{
    let ghost cv = cases_view(cases@);
    let mut n: usize = 0;
    let mut i: usize = 0;
    while i < cases.len()
        invariant
            i <= cases@.len(),
            cv == cases_view(cases@),
            n == count_status(cv.take(i as int), st),
            n <= i,
        decreases cases.len() - i,
    {
        proof {
            assert(cv.take(i + 1).drop_last() =~= cv.take(i as int));
            assert(cv[i as int] == cases@[i as int]@);
        }
        if cases[i].status == st {
            n = n + 1;
        }
        i = i + 1;
    }
    assert(cv.take(i as int) =~= cv);
    n
}

/// The summary of cases of framework `fw` run in `dur` milliseconds.
fn summarize(fw: TestFramework, cases: Vec<TestCase>, dur: Option<u64>) -> (r: TestRunSummary)
    ensures
        summarizes(r, fw, cases_view(cases@), dur),
{
    let passed = count_cases(&cases, TestStatus::Passed);
    let failed = count_cases(&cases, TestStatus::Failed);
    let skipped = count_cases(&cases, TestStatus::Skipped);
    let errors = count_cases(&cases, TestStatus::Error);
    TestRunSummary {
        framework: fw,
        total: cases.len(),
        passed,
        failed,
        skipped,
        errors,
        duration_ms: dur,
        cases,
    }
}

/// The test oracle: parses test output, analyzes failures, drives TDD loops.
pub struct TestOracle;

impl TestOracle {
    /// Create a new `TestOracle` instance.
    pub fn new() -> (r: Self) {
        TestOracle
    }

    /// Detect which test framework produced the given output (see
    /// [`detect_spec`]).
    pub fn detect_framework(output: &str) -> (r: TestFramework)
        ensures
            r == detect_spec(output@),
    {
        let o = chars_of(output);
        if contains_str(&o, "test result:") || captures(RUNNING_TESTS, output).is_some() {
            return TestFramework::CargoTest;
        }
        if contains_str(&o, "--- PASS:") || contains_str(&o, "--- FAIL:") {
            return TestFramework::GoTest;
        }
        if (contains_str(&o, "PASSED") || contains_str(&o, "FAILED")) && (contains_str(&o, "::")
            || contains_str(&o, " passed")) {
            if contains_str(&o, "Tests:") && !contains_str(&o, " passed in ") {
                return TestFramework::Jest;
            }
            return TestFramework::Pytest;
        }
        if contains_str(&o, "Tests:") || contains_str(&o, "\u{2713}") || contains_str(&o, "\u{2715}") {
            return TestFramework::Jest;
        }
        TestFramework::Unknown
    }

    /// Check if all tests in a summary passed (none failed or errored).
    pub fn all_passing(summary: &TestRunSummary) -> (r: bool)
        ensures
            r == (summary.failed == 0 && summary.errors == 0),
    {
        summary.failed == 0 && summary.errors == 0
    }

    /// Get only the failed test cases from a summary, in order.
    pub fn failures(summary: &TestRunSummary) -> (r: Vec<&TestCase>)
        ensures
            r@.map_values(|c: &TestCase| c@) == failed_cases(cases_view(summary.cases@)),
    {
        let ghost cv = cases_view(summary.cases@);
        let mut out: Vec<&TestCase> = Vec::new();
        let mut i: usize = 0;
        while i < summary.cases.len()
            invariant
                i <= summary.cases@.len(),
                cv == cases_view(summary.cases@),
                out@.map_values(|c: &TestCase| c@) == failed_cases(cv.take(i as int)),
            decreases summary.cases.len() - i,
        {
            let ghost before = out@;
            proof {
                assert(cv.take(i + 1).drop_last() =~= cv.take(i as int));
                assert(cv[i as int] == summary.cases@[i as int]@);
            }
            if summary.cases[i].status == TestStatus::Failed {
                out.push(&summary.cases[i]);
            }
            proof {
                assert(out@.map_values(|c: &TestCase| c@) =~= failed_cases(cv.take(i + 1)));
            }
            i = i + 1;
        }
        assert(cv.take(i as int) =~= cv);
        out
    }
}

/// The failed cases, in order.
pub open spec fn failed_cases(cs: Seq<CaseView>) -> Seq<CaseView>
    decreases cs.len(),
{
    if cs.len() == 0 {
        Seq::empty()
    } else {
        failed_cases(cs.drop_last()) + if cs.last().status == TestStatus::Failed {
            seq![cs.last()]
        } else {
            Seq::empty()
        }
    }
}

impl Default for TestOracle {
    fn default() -> (r: Self) {
        TestOracle::new()
    }
}

// ---------------------------------------------------------------------------
// cargo test
// ---------------------------------------------------------------------------

/// The header of a failing test's captured output.
pub const CARGO_STDOUT: &'static str = "---- (.+?) stdout ----";

/// A test result line.
pub const CARGO_TEST_LINE: &'static str = "^test (.+?) \\.\\.\\. (.+)$";

/// The run time on the summary line.
pub const CARGO_FINISHED: &'static str = "finished in (\\d+(?:\\.\\d+)?)s";

/// A panic message in the older format, with its location.
pub const PANIC_OLD: &'static str = "panicked at '([^']*)'(?:,\\s*(.+?):(\\d+)(?::\\d+)?)?";

/// A panic message in the newer format: location, then message.
pub const PANIC_NEW: &'static str = "panicked at (.+?):(\\d+)(?::\\d+)?:?\\s*\\n(.+)";

/// An output block being read: the test's name and its lines so far.
pub type OpenBlock = (Seq<char>, Seq<Seq<char>>);

/// The blocks read, with the open one closed: its lines joined by newlines.
pub open spec fn close_block(acc: Seq<(Seq<char>, Seq<char>)>, cur: Option<OpenBlock>) -> Seq<(Seq<char>, Seq<char>)> {
    match cur {
        Some((name, content)) => acc.push((name, crate::text::join(content, crate::diff_lines::nl()))),
        None => acc,
    }
}

/// Reading the captured output of failing tests from line `i` on: a
/// `---- name stdout ----` line opens a block, which takes the lines up to
/// one starting with `----` or `failures:`.
pub open spec fn cargo_blocks(
    ls: Seq<Seq<char>>,
    i: int,
    cur: Option<OpenBlock>,
    acc: Seq<(Seq<char>, Seq<char>)>,
) -> Seq<(Seq<char>, Seq<char>)>
    decreases ls.len() - i, (if cur is Some { 1int } else { 0int }),
{
    if i < 0 || i >= ls.len() {
        close_block(acc, cur)
    } else {
        match cur {
            Some((name, content)) => if crate::text::is_prefix("----"@, ls[i]) || crate::text::is_prefix(
                "failures:"@,
                ls[i],
            ) {
                cargo_blocks(ls, i, None, close_block(acc, cur))
            } else {
                cargo_blocks(ls, i + 1, Some((name, content.push(ls[i]))), acc)
            },
            None => match regex_first(CARGO_STDOUT@, ls[i]) {
                Some(g) => cargo_blocks(ls, i + 1, Some((grp(g, 1), Seq::empty())), acc),
                None => cargo_blocks(ls, i + 1, None, acc),
            },
        }
    }
}

/// The text recorded last for `name`.
pub open spec fn block_of(acc: Seq<(Seq<char>, Seq<char>)>, name: Seq<char>) -> Option<Seq<char>>
    decreases acc.len(),
{
    if acc.len() == 0 {
        None
    } else if acc.last().0 == name {
        Some(acc.last().1)
    } else {
        block_of(acc.drop_last(), name)
    }
}

/// The status a cargo result word names.
pub open spec fn cargo_status(w: Seq<char>) -> TestStatus {
    if w == "ok"@ {
        TestStatus::Passed
    } else if w == "FAILED"@ {
        TestStatus::Failed
    } else if w == "ignored"@ {
        TestStatus::Skipped
    } else {
        TestStatus::Error
    }
}

/// A line number in decimal, if it parses.
pub open spec fn line_number(s: Seq<char>) -> Option<usize> {
    match crate::text::int_parse(s) {
        crate::text::IntParse::Value(v) => Some(v),
        _ => None,
    }
}

/// The message, file and line of a failure, from its captured output: the
/// older panic format, else the newer one, else the whole trimmed output.
pub open spec fn cargo_failure(b: Option<Seq<char>>) -> (Option<Seq<char>>, Option<Seq<char>>, Option<usize>) {
    match b {
        None => (None, None, None),
        Some(t) => panic_failure(regex_first(PANIC_OLD@, t), regex_first(PANIC_NEW@, t), t),
    }
}

/// The message, file and line of a failure from the matches of the older
/// panic format (message, file, line) and of the newer one (file, line,
/// message) in its output `t`: the older when it matched, else the newer,
/// else the whole trimmed output if not empty.
pub open spec fn panic_failure(
    old_match: Option<Seq<Option<Seq<char>>>>,
    new_match: Option<Seq<Option<Seq<char>>>>,
    t: Seq<char>,
) -> (Option<Seq<char>>, Option<Seq<char>>, Option<usize>) {
    match old_match {
        Some(g) => (
            Some(grp(g, 1)),
            opt_grp(g, 2),
            match opt_grp(g, 3) {
                Some(d) => line_number(d),
                None => None,
            },
        ),
        None => match new_match {
            Some(g) => (Some(crate::text::trim(grp(g, 3))), Some(grp(g, 1)), line_number(grp(g, 2))),
            None => if crate::text::trim(t).len() > 0 {
                (Some(crate::text::trim(t)), None, None)
            } else {
                (None, None, None)
            },
        },
    }
}

/// The views of an optional match.
pub open spec fn match_view(m: Option<Vec<Option<String>>>) -> Option<Seq<Option<Seq<char>>>> {
    match m {
        Some(g) => Some(groups_view(g@)),
        None => None,
    }
}

/// The case a result line describes.
pub open spec fn cargo_case(g: Seq<Option<Seq<char>>>, blocks: Seq<(Seq<char>, Seq<char>)>) -> CaseView {
    let name = grp(g, 1);
    let b = block_of(blocks, name);
    let f = cargo_failure(b);
    CaseView {
        name,
        status: cargo_status(crate::text::trim(grp(g, 2))),
        duration_ms: None,
        error_message: f.0,
        file: f.1,
        line: f.2,
        stdout: b,
    }
}

/// The cases of the result lines from line `i` on.
pub open spec fn cargo_cases(ls: Seq<Seq<char>>, i: int, blocks: Seq<(Seq<char>, Seq<char>)>) -> Seq<CaseView>
    decreases ls.len() - i,
{
    if i < 0 || i >= ls.len() {
        Seq::empty()
    } else {
        (match regex_first(CARGO_TEST_LINE@, ls[i]) {
            Some(g) => seq![cargo_case(g, blocks)],
            None => Seq::empty(),
        }) + cargo_cases(ls, i + 1, blocks)
    }
}

/// The run time of a cargo run, in milliseconds.
pub open spec fn cargo_duration(o: Seq<char>) -> Option<u64> {
    duration_by(CARGO_FINISHED@, o, 1)
}

/// The pairs of texts of a list of string pairs.
pub open spec fn pairs_view(v: Seq<(Vec<char>, Vec<char>)>) -> Seq<(Seq<char>, Seq<char>)> {
    v.map_values(|p: (Vec<char>, Vec<char>)| (p.0@, p.1@))
}

/// The view of the block being read.
pub open spec fn open_block_view(cur: Option<(Vec<char>, Vec<Vec<char>>)>) -> Option<OpenBlock> {
    match cur {
        Some((n, c)) => Some((n@, crate::diff_lines::lines_view(c@))),
        None => None,
    }
}

/// `captures` on a line given as characters.
fn captures_chars(pattern: &str, text: &[char]) -> (r: Option<Vec<Option<String>>>)
    ensures
        match r {
            Some(g) => regex_first(pattern@, text@) == Some(groups_view(g@)),
            None => regex_first(pattern@, text@) is None,
        },
{
    let t = string_of(text);
    captures(pattern, t.as_str())
}

/// Closes the open block onto `acc`.
fn close_block_exec(acc: &mut Vec<(Vec<char>, Vec<char>)>, cur: Option<(Vec<char>, Vec<Vec<char>>)>)
    ensures
        pairs_view(final(acc)@) == close_block(pairs_view(old(acc)@), open_block_view(cur)),
{
    match cur {
        Some((n, c)) => {
            let j = crate::diff_lines::join_lines(&c);
            let ghost before = acc@;
            acc.push((n, j));
            assert(pairs_view(acc@) =~= pairs_view(before).push((n@, j@)));
        },
        None => {},
    }
}

/// The captured output blocks of a cargo run (see [`cargo_blocks`]).
fn cargo_blocks_exec(ls: &Vec<Vec<char>>) -> (r: Vec<(Vec<char>, Vec<char>)>)
    ensures
        pairs_view(r@) == cargo_blocks(crate::diff_lines::lines_view(ls@), 0, None, Seq::empty()),
{
    let ghost lv = crate::diff_lines::lines_view(ls@);
    let ghost goal = cargo_blocks(lv, 0, None, Seq::empty());
    let mut acc: Vec<(Vec<char>, Vec<char>)> = Vec::new();
    let mut cur: Option<(Vec<char>, Vec<Vec<char>>)> = None;
    let mut i: usize = 0;
    assert(pairs_view(acc@) =~= Seq::<(Seq<char>, Seq<char>)>::empty());
    while i < ls.len()
        invariant
            i <= ls@.len(),
            lv == crate::diff_lines::lines_view(ls@),
            goal == cargo_blocks(lv, i as int, open_block_view(cur), pairs_view(acc@)),
        decreases ls.len() - i, (if cur is Some { 1int } else { 0int }),
    {
        assert(ls@[i as int]@ == lv[i as int]);
        let taken = cur;
        match taken {
            Some((name, mut content)) => {
                if crate::text::starts_with_str(&ls[i], "----") || crate::text::starts_with_str(
                    &ls[i],
                    "failures:",
                ) {
                    close_block_exec(&mut acc, Some((name, content)));
                    cur = None;
                } else {
                    let ghost before = content@;
                    let l = crate::text::slice_chars(&ls[i], 0, ls[i].len());
                    assert(l@ =~= ls@[i as int]@);
                    content.push(l);
                    proof {
                        crate::diff_lines::lemma_lines_view_push(before, l);
                    }
                    cur = Some((name, content));
                    i = i + 1;
                }
            },
            None => {
                match captures_chars(CARGO_STDOUT, &ls[i]) {
                    Some(g) => {
                        let name = group(&g, 1);
                        let content: Vec<Vec<char>> = Vec::new();
                        assert(crate::diff_lines::lines_view(content@) =~= Seq::<Seq<char>>::empty());
                        cur = Some((name, content));
                    },
                    None => {
                        cur = None;
                    },
                }
                i = i + 1;
            },
        }
    }
    close_block_exec(&mut acc, cur);
    acc
}

/// The text recorded last for `name` (see [`block_of`]).
fn block_lookup(acc: &Vec<(Vec<char>, Vec<char>)>, name: &[char]) -> (r: Option<Vec<char>>)
    ensures
        match r {
            Some(v) => block_of(pairs_view(acc@), name@) == Some(v@),
            None => block_of(pairs_view(acc@), name@) is None,
        },
{
    let ghost pv = pairs_view(acc@);
    let mut i: usize = acc.len();
    assert(pv.take(i as int) =~= pv);
    while i > 0
        invariant
            i <= acc@.len(),
            pv == pairs_view(acc@),
            block_of(pv, name@) == block_of(pv.take(i as int), name@),
        decreases i,
    {
        assert(pv.take(i as int).drop_last() =~= pv.take(i - 1));
        if crate::text::chars_eq(&acc[i - 1].0, name) {
            let v = crate::text::slice_chars(&acc[i - 1].1, 0, acc[i - 1].1.len());
            assert(v@ =~= acc@[i - 1].1@);
            return Some(v);
        }
        i = i - 1;
    }
    None
}

/// A line number, if it parses (see [`line_number`]).
fn line_number_exec(s: &[char]) -> (r: Option<usize>)
    ensures
        r == line_number(s@),
{
    match crate::text::parse_int(s) {
        crate::text::IntParse::Value(v) => Some(v),
        _ => None,
    }
}

/// An optional owned string from optional characters.
fn opt_string(o: Option<Vec<char>>) -> (r: Option<String>)
    ensures
        opt_view(r) == match o {
            Some(v) => Some(v@),
            None => None::<Seq<char>>,
        },
{
    match o {
        Some(v) => Some(string_of(&v)),
        None => None,
    }
}

/// The message, file and line of a failure (see [`cargo_failure`]).
fn cargo_failure_exec(b: &Option<Vec<char>>) -> (r: (Option<String>, Option<String>, Option<usize>))
    ensures
        (opt_view(r.0), opt_view(r.1), r.2) == cargo_failure(match b {
            Some(v) => Some(v@),
            None => None,
        }),
{
    match b {
        None => (None, None, None),
        Some(t) => {
            let old_match = captures_chars(PANIC_OLD, t);
            let new_match = if old_match.is_some() {
                None
            } else {
                captures_chars(PANIC_NEW, t)
            };
            TestOracle::panic_failure_from(&old_match, &new_match, t)
        },
    }
}

impl TestOracle {
    /// The message, file and line of a failure from the matches of the two
    /// panic formats in its output (see [`panic_failure`]); the newer
    /// format's match is read only when the older one did not match.
    pub fn panic_failure_from(
        old_match: &Option<Vec<Option<String>>>,
        new_match: &Option<Vec<Option<String>>>,
        t: &[char],
    ) -> (r: (Option<String>, Option<String>, Option<usize>))
        ensures
            (opt_view(r.0), opt_view(r.1), r.2) == panic_failure(match_view(*old_match), match_view(*new_match), t@),
    {
        match old_match {
            Some(g) => {
                let msg = group(g, 1);
                let file = opt_group(g, 2);
                let line = match opt_group(g, 3) {
                    Some(d) => line_number_exec(&d),
                    None => None,
                };
                (Some(string_of(&msg)), opt_string(file), line)
            },
            None => match new_match {
                Some(g) => {
                    let msg = crate::text::trim_chars(&group(g, 3));
                    let file = group(g, 1);
                    let line = line_number_exec(&group(g, 2));
                    (Some(string_of(&msg)), Some(string_of(&file)), line)
                },
                None => {
                    let tt = crate::text::trim_chars(t);
                    if tt.len() > 0 {
                        (Some(string_of(&tt)), None, None)
                    } else {
                        (None, None, None)
                    }
                },
            },
        }
    }
}

/// The milliseconds that group `k` of a pattern's first match gives.
pub open spec fn duration_by(pattern: Seq<char>, o: Seq<char>, k: int) -> Option<u64> {
    match regex_first(pattern, o) {
        Some(g) => seconds_ms(grp(g, k)),
        None => None,
    }
}

/// The milliseconds that group `k` of a pattern's first match gives (see
/// [`duration_by`]).
fn duration_from(pattern: &str, o: &str, k: usize) -> (r: Option<u64>)
    ensures
        r == duration_by(pattern@, o@, k as int),
{
    match captures(pattern, o) {
        Some(g) => parse_seconds_ms(&group(&g, k)),
        None => None,
    }
}

impl TestOracle {
    /// The case that a `test name ... result` line describes, from the
    /// groups of its match (name, result word) and the captured output
    /// blocks (see [`cargo_case`]).
    pub fn cargo_case_from(groups: &Vec<Option<String>>, blocks: &Vec<(Vec<char>, Vec<char>)>) -> (r: TestCase)
        ensures
            r@ == cargo_case(groups_view(groups@), pairs_view(blocks@)),
    {
        let name = group(groups, 1);
        let word = crate::text::trim_chars(&group(groups, 2));
        let status = if crate::text::eq_str(&word, "ok") {
            TestStatus::Passed
        } else if crate::text::eq_str(&word, "FAILED") {
            TestStatus::Failed
        } else if crate::text::eq_str(&word, "ignored") {
            TestStatus::Skipped
        } else {
            TestStatus::Error
        };
        let b = block_lookup(blocks, &name);
        let (error_message, file, line) = cargo_failure_exec(&b);
        TestCase { name: string_of(&name), status, duration_ms: None, error_message, file, line, stdout: opt_string(b) }
    }

    /// Parse `cargo test` output: one case per `test name ... result`
    /// line, with the failure details of its captured output, and the run
    /// time of the summary line.
    pub fn parse_cargo_test(output: &str) -> (r: TestRunSummary)
        ensures
            summarizes(
                r,
                TestFramework::CargoTest,
                cargo_cases(
                    crate::diff_lines::str_lines(output@),
                    0,
                    cargo_blocks(crate::diff_lines::str_lines(output@), 0, None, Seq::empty()),
                ),
                cargo_duration(output@),
            ),
    {
        let ls = crate::diff_lines::lines_of_str(output);
        let ghost lv = crate::diff_lines::lines_view(ls@);
        let blocks = cargo_blocks_exec(&ls);
        let ghost bv = pairs_view(blocks@);
        let ghost goal = cargo_cases(lv, 0, bv);
        let mut cases: Vec<TestCase> = Vec::new();
        let mut i: usize = 0;
        assert(cases_view(cases@) =~= Seq::<CaseView>::empty());
        while i < ls.len()
            invariant
                i <= ls@.len(),
                lv == crate::diff_lines::lines_view(ls@),
                bv == pairs_view(blocks@),
                cases_view(cases@) + cargo_cases(lv, i as int, bv) == goal,
            decreases ls.len() - i,
        {
            assert(ls@[i as int]@ == lv[i as int]);
            let ghost before = cases@;
            match captures_chars(CARGO_TEST_LINE, &ls[i]) {
                Some(g) => {
                    let c = Self::cargo_case_from(&g, &blocks);
                    cases.push(c);
                    proof {
                        assert(cases_view(cases@) =~= cases_view(before).push(c@));
                    }
                },
                None => {},
            }
            i = i + 1;
            assert(cases_view(cases@) + cargo_cases(lv, i as int, bv) =~= goal);
        }
        assert(cases_view(cases@) =~= goal);
        let dur = duration_from(CARGO_FINISHED, output, 1);
        summarize(TestFramework::CargoTest, cases, dur)
    }
}

// ---------------------------------------------------------------------------
// pytest
// ---------------------------------------------------------------------------

/// A pytest result line.
pub const PYTEST_RESULT: &'static str = "(PASSED|FAILED|SKIPPED|ERROR)\\s+(\\S+?)(?:\\s+-\\s+(.+))?$";

/// The summary line with failures.
pub const PYTEST_SUMMARY: &'static str = "(\\d+) failed.*?(\\d+) passed.*?in (\\d+(?:\\.\\d+)?)s";

/// The summary line with passes only.
pub const PYTEST_PASSED: &'static str = "(\\d+) passed.*?in (\\d+(?:\\.\\d+)?)s";

/// The status a pytest result word names.
pub open spec fn pytest_status(w: Seq<char>) -> TestStatus {
    if w == "PASSED"@ {
        TestStatus::Passed
    } else if w == "FAILED"@ {
        TestStatus::Failed
    } else if w == "SKIPPED"@ {
        TestStatus::Skipped
    } else {
        TestStatus::Error
    }
}

/// The case a pytest result line describes: `file::name`, split at the
/// first `::`.
pub open spec fn pytest_case(g: Seq<Option<Seq<char>>>) -> CaseView {
    let full = grp(g, 2);
    let (file, name) = match crate::text::first_occurrence(full, "::"@, 0) {
        Some(p) => (Some(full.take(p)), full.skip(p + 2)),
        None => (None, full),
    };
    CaseView {
        name,
        status: pytest_status(grp(g, 1)),
        duration_ms: None,
        error_message: opt_grp(g, 3),
        file,
        line: None,
        stdout: None,
    }
}

/// The cases of the pytest result lines from line `i` on (each line
/// trimmed first).
pub open spec fn pytest_cases(ls: Seq<Seq<char>>, i: int) -> Seq<CaseView>
    decreases ls.len() - i,
{
    if i < 0 || i >= ls.len() {
        Seq::empty()
    } else {
        (match regex_first(PYTEST_RESULT@, crate::text::trim(ls[i])) {
            Some(g) => seq![pytest_case(g)],
            None => Seq::empty(),
        }) + pytest_cases(ls, i + 1)
    }
}

/// The run time of a pytest run: from the summary with failures, else from
/// the summary with passes only.
pub open spec fn pytest_duration(o: Seq<char>) -> Option<u64> {
    match duration_by(PYTEST_SUMMARY@, o, 3) {
        Some(d) => Some(d),
        None => duration_by(PYTEST_PASSED@, o, 2),
    }
}

impl TestOracle {
    /// The case that a pytest result line describes, from the groups of its
    /// match (result word, `file::name`, message) (see [`pytest_case`]).
    pub fn pytest_case_from(groups: &Vec<Option<String>>) -> (r: TestCase)
        ensures
            r@ == pytest_case(groups_view(groups@)),
    {
        let word = group(groups, 1);
        let status = if crate::text::eq_str(&word, "PASSED") {
            TestStatus::Passed
        } else if crate::text::eq_str(&word, "FAILED") {
            TestStatus::Failed
        } else if crate::text::eq_str(&word, "SKIPPED") {
            TestStatus::Skipped
        } else {
            TestStatus::Error
        };
        let full = group(groups, 2);
        let sep = chars_of("::");
        proof {
            reveal_strlit("::");
        }
        let n = full.len();
        let (file, name) = match crate::text::find_from(&full, &sep, 0) {
            Some(p) => {
                assert(crate::text::occurs_at(full@, sep@, p as int));
                let a = crate::text::slice_chars(&full, 0, p);
                let b = crate::text::slice_chars(&full, p + 2, n);
                assert(a@ =~= full@.take(p as int));
                assert(b@ =~= full@.skip(p + 2));
                (Some(string_of(&a)), string_of(&b))
            },
            None => (None, string_of(&full)),
        };
        TestCase {
            name,
            status,
            duration_ms: None,
            error_message: opt_string(opt_group(groups, 3)),
            file,
            line: None,
            stdout: None,
        }
    }

    /// Parse `pytest` output: one case per result line, and the run time of
    /// the summary line.
    pub fn parse_pytest(output: &str) -> (r: TestRunSummary)
        ensures
            summarizes(r, TestFramework::Pytest, pytest_cases(crate::diff_lines::str_lines(output@), 0), pytest_duration(output@)),
    {
        let ls = crate::diff_lines::lines_of_str(output);
        let ghost lv = crate::diff_lines::lines_view(ls@);
        let ghost goal = pytest_cases(lv, 0);
        let mut cases: Vec<TestCase> = Vec::new();
        let mut i: usize = 0;
        assert(cases_view(cases@) =~= Seq::<CaseView>::empty());
        while i < ls.len()
            invariant
                i <= ls@.len(),
                lv == crate::diff_lines::lines_view(ls@),
                cases_view(cases@) + pytest_cases(lv, i as int) == goal,
            decreases ls.len() - i,
        {
            assert(ls@[i as int]@ == lv[i as int]);
            let ghost before = cases@;
            let trimmed = crate::text::trim_chars(&ls[i]);
            match captures_chars(PYTEST_RESULT, &trimmed) {
                Some(g) => {
                    let c = Self::pytest_case_from(&g);
                    cases.push(c);
                    proof {
                        assert(cases_view(cases@) =~= cases_view(before).push(c@));
                    }
                },
                None => {},
            }
            i = i + 1;
            assert(cases_view(cases@) + pytest_cases(lv, i as int) =~= goal);
        }
        assert(cases_view(cases@) =~= goal);
        let dur = match duration_from(PYTEST_SUMMARY, output, 3) {
            Some(d) => Some(d),
            None => duration_from(PYTEST_PASSED, output, 2),
        };
        summarize(TestFramework::Pytest, cases, dur)
    }
}

// ---------------------------------------------------------------------------
// go test
// ---------------------------------------------------------------------------

/// A go test result line.
pub const GO_RESULT: &'static str = "--- (PASS|FAIL|SKIP): (\\S+) \\((\\d+(?:\\.\\d+)?)s\\)";

/// A failure detail line: file, line and message.
pub const GO_DETAIL: &'static str = "^\\s+(\\S+\\.go):(\\d+):\\s+(.+)$";

/// The package line of a passing run.
pub const GO_OK: &'static str = "ok\\s+\\S+\\s+(\\d+(?:\\.\\d+)?)s";

/// The package line of a failing run.
pub const GO_FAIL: &'static str = "FAIL\\s+\\S+\\s+(\\d+(?:\\.\\d+)?)s";

/// A failure detail: file, message and line (0 when it does not parse).
pub type Detail = (Seq<char>, Seq<char>, usize);

/// The detail a detail line describes.
pub open spec fn detail_of(d: Seq<Option<Seq<char>>>) -> Detail {
    (grp(d, 1), grp(d, 3), match line_number(grp(d, 2)) {
        Some(v) => v,
        None => 0,
    })
}

/// Details recorded after each failing result line, for that test: from
/// line `i` on, `cur` being the test of the last result line if it failed.
pub open spec fn go_details_after(ls: Seq<Seq<char>>, i: int, cur: Option<Seq<char>>, acc: Seq<(Seq<char>, Detail)>) -> Seq<(Seq<char>, Detail)>
    decreases ls.len() - i,
{
    if i < 0 || i >= ls.len() {
        acc
    } else {
        match regex_first(GO_RESULT@, ls[i]) {
            Some(g) => go_details_after(
                ls,
                i + 1,
                if grp(g, 1) == "FAIL"@ { Some(grp(g, 2)) } else { None },
                acc,
            ),
            None => match cur {
                Some(t) => match regex_first(GO_DETAIL@, ls[i]) {
                    Some(d) => go_details_after(ls, i + 1, cur, acc.push((t, detail_of(d)))),
                    None => go_details_after(ls, i + 1, cur, acc),
                },
                None => go_details_after(ls, i + 1, cur, acc),
            },
        }
    }
}

/// The first result line at or after line `j`.
pub open spec fn next_result(ls: Seq<Seq<char>>, j: int) -> Option<Seq<Option<Seq<char>>>>
    decreases ls.len() - j,
{
    if j < 0 || j >= ls.len() {
        None
    } else {
        match regex_first(GO_RESULT@, ls[j]) {
            Some(g) => Some(g),
            None => next_result(ls, j + 1),
        }
    }
}

/// Details recorded before each failing result line: a detail line
/// belongs to the first result line after it, when that one failed.
pub open spec fn go_details_before(ls: Seq<Seq<char>>, i: int, acc: Seq<(Seq<char>, Detail)>) -> Seq<(Seq<char>, Detail)>
    decreases ls.len() - i,
{
    if i < 0 || i >= ls.len() {
        acc
    } else {
        match regex_first(GO_DETAIL@, ls[i]) {
            Some(d) => match next_result(ls, i + 1) {
                Some(r) => if grp(r, 1) == "FAIL"@ {
                    go_details_before(ls, i + 1, acc.push((grp(r, 2), detail_of(d))))
                } else {
                    go_details_before(ls, i + 1, acc)
                },
                None => go_details_before(ls, i + 1, acc),
            },
            None => go_details_before(ls, i + 1, acc),
        }
    }
}

/// The detail recorded last for `name`.
pub open spec fn detail_for(acc: Seq<(Seq<char>, Detail)>, name: Seq<char>) -> Option<Detail>
    decreases acc.len(),
{
    if acc.len() == 0 {
        None
    } else if acc.last().0 == name {
        Some(acc.last().1)
    } else {
        detail_for(acc.drop_last(), name)
    }
}

/// The status a go result word names.
pub open spec fn go_status(w: Seq<char>) -> TestStatus {
    if w == "PASS"@ {
        TestStatus::Passed
    } else if w == "FAIL"@ {
        TestStatus::Failed
    } else if w == "SKIP"@ {
        TestStatus::Skipped
    } else {
        TestStatus::Error
    }
}

/// The case a go result line describes, with the detail recorded after it,
/// else before it.
pub open spec fn go_case(g: Seq<Option<Seq<char>>>, after: Seq<(Seq<char>, Detail)>, before: Seq<(Seq<char>, Detail)>) -> CaseView {
    let name = grp(g, 2);
    let det = match detail_for(after, name) {
        Some(d) => Some(d),
        None => detail_for(before, name),
    };
    CaseView {
        name,
        status: go_status(grp(g, 1)),
        duration_ms: seconds_ms(grp(g, 3)),
        error_message: match det {
            Some(d) => Some(d.1),
            None => None,
        },
        file: match det {
            Some(d) => Some(d.0),
            None => None,
        },
        line: match det {
            Some(d) => Some(d.2),
            None => None,
        },
        stdout: None,
    }
}

/// The cases of the go result lines from line `i` on.
pub open spec fn go_cases(ls: Seq<Seq<char>>, i: int, after: Seq<(Seq<char>, Detail)>, before: Seq<(Seq<char>, Detail)>) -> Seq<CaseView>
    decreases ls.len() - i,
{
    if i < 0 || i >= ls.len() {
        Seq::empty()
    } else {
        (match regex_first(GO_RESULT@, ls[i]) {
            Some(g) => seq![go_case(g, after, before)],
            None => Seq::empty(),
        }) + go_cases(ls, i + 1, after, before)
    }
}

/// The run time of a go run: from the `ok` package line, else from the
/// `FAIL` one.
pub open spec fn go_duration(o: Seq<char>) -> Option<u64> {
    match duration_by(GO_OK@, o, 1) {
        Some(d) => Some(d),
        None => duration_by(GO_FAIL@, o, 1),
    }
}

/// The views of recorded details.
pub open spec fn details_view(v: Seq<(Vec<char>, (Vec<char>, Vec<char>, usize))>) -> Seq<(Seq<char>, Detail)> {
    v.map_values(|p: (Vec<char>, (Vec<char>, Vec<char>, usize))| (p.0@, (p.1.0@, p.1.1@, p.1.2)))
}

/// The detail that a go detail line describes, from the groups of its
/// match (file, line, message) (see [`detail_of`]).
pub fn go_detail_from(d: &Vec<Option<String>>) -> (r: (Vec<char>, Vec<char>, usize))
    ensures
        (r.0@, r.1@, r.2) == detail_of(groups_view(d@)),
{
    let ln = match line_number_exec(&group(d, 2)) {
        Some(v) => v,
        None => 0,
    };
    (group(d, 1), group(d, 3), ln)
}

/// Pushes a recorded detail.
fn push_detail(acc: &mut Vec<(Vec<char>, (Vec<char>, Vec<char>, usize))>, name: Vec<char>, d: (Vec<char>, Vec<char>, usize))
    ensures
        details_view(final(acc)@) == details_view(old(acc)@).push((name@, (d.0@, d.1@, d.2))),
{
    let ghost before = acc@;
    let ghost v = (name@, (d.0@, d.1@, d.2));
    acc.push((name, d));
    assert(details_view(acc@) =~= details_view(before).push(v));
}

/// The detail recorded last for `name` (see [`detail_for`]).
fn detail_lookup(acc: &Vec<(Vec<char>, (Vec<char>, Vec<char>, usize))>, name: &[char]) -> (r: Option<(Vec<char>, Vec<char>, usize)>)
    ensures
        match r {
            Some(d) => detail_for(details_view(acc@), name@) == Some((d.0@, d.1@, d.2)),
            None => detail_for(details_view(acc@), name@) is None,
        },
{
    let ghost dv = details_view(acc@);
    let mut i: usize = acc.len();
    assert(dv.take(i as int) =~= dv);
    while i > 0
        invariant
            i <= acc@.len(),
            dv == details_view(acc@),
            detail_for(dv, name@) == detail_for(dv.take(i as int), name@),
        decreases i,
    {
        assert(dv.take(i as int).drop_last() =~= dv.take(i - 1));
        if crate::text::chars_eq(&acc[i - 1].0, name) {
            let e = &acc[i - 1].1;
            let a = crate::text::slice_chars(&e.0, 0, e.0.len());
            let b = crate::text::slice_chars(&e.1, 0, e.1.len());
            assert(a@ =~= e.0@);
            assert(b@ =~= e.1@);
            return Some((a, b, e.2));
        }
        i = i - 1;
    }
    None
}

/// Details recorded after failing result lines (see [`go_details_after`]).
fn go_after_exec(ls: &Vec<Vec<char>>) -> (r: Vec<(Vec<char>, (Vec<char>, Vec<char>, usize))>)
    ensures
        details_view(r@) == go_details_after(crate::diff_lines::lines_view(ls@), 0, None, Seq::empty()),
{
    let ghost lv = crate::diff_lines::lines_view(ls@);
    let ghost goal = go_details_after(lv, 0, None, Seq::empty());
    let mut acc: Vec<(Vec<char>, (Vec<char>, Vec<char>, usize))> = Vec::new();
    let mut cur: Option<Vec<char>> = None;
    let mut i: usize = 0;
    assert(details_view(acc@) =~= Seq::<(Seq<char>, Detail)>::empty());
    while i < ls.len()
        invariant
            i <= ls@.len(),
            lv == crate::diff_lines::lines_view(ls@),
            goal == go_details_after(lv, i as int, match cur {
                Some(t) => Some(t@),
                None => None,
            }, details_view(acc@)),
        decreases ls.len() - i,
    {
        assert(ls@[i as int]@ == lv[i as int]);
        match captures_chars(GO_RESULT, &ls[i]) {
            Some(g) => {
                if crate::text::eq_str(&group(&g, 1), "FAIL") {
                    cur = Some(group(&g, 2));
                } else {
                    cur = None;
                }
            },
            None => {
                match &cur {
                    Some(t) => match captures_chars(GO_DETAIL, &ls[i]) {
                        Some(d) => {
                            let tc = crate::text::slice_chars(t, 0, t.len());
                            assert(tc@ =~= t@);
                            push_detail(&mut acc, tc, go_detail_from(&d));
                        },
                        None => {},
                    },
                    None => {},
                }
            },
        }
        i = i + 1;
    }
    acc
}

/// The first result line at or after line `j` (see [`next_result`]).
fn next_result_exec(ls: &Vec<Vec<char>>, j: usize) -> (r: Option<Vec<Option<String>>>)
    requires
        j <= ls@.len(),
    ensures
        match r {
            Some(g) => next_result(crate::diff_lines::lines_view(ls@), j as int) == Some(groups_view(g@)),
            None => next_result(crate::diff_lines::lines_view(ls@), j as int) is None,
        },
{
    let ghost lv = crate::diff_lines::lines_view(ls@);
    let mut k = j;
    while k < ls.len()
        invariant
            j <= k <= ls@.len(),
            lv == crate::diff_lines::lines_view(ls@),
            next_result(lv, j as int) == next_result(lv, k as int),
        decreases ls.len() - k,
    {
        assert(ls@[k as int]@ == lv[k as int]);
        match captures_chars(GO_RESULT, &ls[k]) {
            Some(g) => {
                return Some(g);
            },
            None => {},
        }
        k = k + 1;
    }
    None
}

/// Details recorded before failing result lines (see [`go_details_before`]).
fn go_before_exec(ls: &Vec<Vec<char>>) -> (r: Vec<(Vec<char>, (Vec<char>, Vec<char>, usize))>)
    ensures
        details_view(r@) == go_details_before(crate::diff_lines::lines_view(ls@), 0, Seq::empty()),
{
    let ghost lv = crate::diff_lines::lines_view(ls@);
    let ghost goal = go_details_before(lv, 0, Seq::empty());
    let mut acc: Vec<(Vec<char>, (Vec<char>, Vec<char>, usize))> = Vec::new();
    let mut i: usize = 0;
    assert(details_view(acc@) =~= Seq::<(Seq<char>, Detail)>::empty());
    while i < ls.len()
        invariant
            i <= ls@.len(),
            lv == crate::diff_lines::lines_view(ls@),
            goal == go_details_before(lv, i as int, details_view(acc@)),
        decreases ls.len() - i,
    {
        assert(ls@[i as int]@ == lv[i as int]);
        match captures_chars(GO_DETAIL, &ls[i]) {
            Some(d) => match next_result_exec(ls, i + 1) {
                Some(r) => {
                    if crate::text::eq_str(&group(&r, 1), "FAIL") {
                        push_detail(&mut acc, group(&r, 2), go_detail_from(&d));
                    }
                },
                None => {},
            },
            None => {},
        }
        i = i + 1;
    }
    acc
}

impl TestOracle {
    /// The case that a go result line describes, from the groups of its
    /// match (result word, name, seconds) and the details recorded after and
    /// before result lines (see [`go_case`]).
    pub fn go_case_from(
        groups: &Vec<Option<String>>,
        after: &Vec<(Vec<char>, (Vec<char>, Vec<char>, usize))>,
        before: &Vec<(Vec<char>, (Vec<char>, Vec<char>, usize))>,
    ) -> (r: TestCase)
        ensures
            r@ == go_case(groups_view(groups@), details_view(after@), details_view(before@)),
    {
        let word = group(groups, 1);
        let status = if crate::text::eq_str(&word, "PASS") {
            TestStatus::Passed
        } else if crate::text::eq_str(&word, "FAIL") {
            TestStatus::Failed
        } else if crate::text::eq_str(&word, "SKIP") {
            TestStatus::Skipped
        } else {
            TestStatus::Error
        };
        let name = group(groups, 2);
        let duration_ms = parse_seconds_ms(&group(groups, 3));
        let det = match detail_lookup(after, &name) {
            Some(d) => Some(d),
            None => detail_lookup(before, &name),
        };
        let (error_message, file, line) = match det {
            Some((f, m, ln)) => (Some(string_of(&m)), Some(string_of(&f)), Some(ln)),
            None => (None, None, None),
        };
        TestCase { name: string_of(&name), status, duration_ms, error_message, file, line, stdout: None }
    }

    /// Parse `go test` output: one case per `--- PASS/FAIL/SKIP` line, with
    /// its duration and the failure detail recorded for it, and the run
    /// time of the package line.
    pub fn parse_go_test(output: &str) -> (r: TestRunSummary)
        ensures
            ({
                let ls = crate::diff_lines::str_lines(output@);
                summarizes(
                    r,
                    TestFramework::GoTest,
                    go_cases(ls, 0, go_details_after(ls, 0, None, Seq::empty()), go_details_before(ls, 0, Seq::empty())),
                    go_duration(output@),
                )
            }),
    {
        let ls = crate::diff_lines::lines_of_str(output);
        let ghost lv = crate::diff_lines::lines_view(ls@);
        let after = go_after_exec(&ls);
        let before_d = go_before_exec(&ls);
        let ghost av = details_view(after@);
        let ghost bv = details_view(before_d@);
        let ghost goal = go_cases(lv, 0, av, bv);
        let mut cases: Vec<TestCase> = Vec::new();
        let mut i: usize = 0;
        assert(cases_view(cases@) =~= Seq::<CaseView>::empty());
        while i < ls.len()
            invariant
                i <= ls@.len(),
                lv == crate::diff_lines::lines_view(ls@),
                av == details_view(after@),
                bv == details_view(before_d@),
                cases_view(cases@) + go_cases(lv, i as int, av, bv) == goal,
            decreases ls.len() - i,
        {
            assert(ls@[i as int]@ == lv[i as int]);
            let ghost prev = cases@;
            match captures_chars(GO_RESULT, &ls[i]) {
                Some(g) => {
                    let c = Self::go_case_from(&g, &after, &before_d);
                    cases.push(c);
                    proof {
                        assert(cases_view(cases@) =~= cases_view(prev).push(c@));
                    }
                },
                None => {},
            }
            i = i + 1;
            assert(cases_view(cases@) + go_cases(lv, i as int, av, bv) =~= goal);
        }
        assert(cases_view(cases@) =~= goal);
        let dur = match duration_from(GO_OK, output, 1) {
            Some(d) => Some(d),
            None => duration_from(GO_FAIL, output, 1),
        };
        summarize(TestFramework::GoTest, cases, dur)
    }
}

// ---------------------------------------------------------------------------
// jest
// ---------------------------------------------------------------------------

/// A `PASS file` / `FAIL file` header line.
pub const JEST_HEADER: &'static str = "^(PASS|FAIL)\\s+(.+)$";

/// A check-mark result line, with an optional duration.
pub const JEST_CHECK: &'static str = "^\\s*[\u{2713}\u{2715}]\\s+(.+?)(?:\\s+\\((\\d+)\\s*ms\\))?$";

/// The fallback result line with other marks.
pub const JEST_ASCII: &'static str = "^\\s*(?:\u{221a}|\u{d7})\\s+(.+?)(?:\\s+\\((\\d+)\\s*ms\\))?$";

/// An `Expected:` failure detail.
pub const JEST_EXPECTED: &'static str = "Expected:\\s+(.+)";

/// A `Received:` failure detail.
pub const JEST_RECEIVED: &'static str = "Received:\\s+(.+)";

/// The run time line.
pub const JEST_TIME: &'static str = "Time:\\s+(\\d+(?:\\.\\d+)?)\\s*s";

/// Reading digits for a `u64` from index `i` on, `acc` being the value so
/// far; `None` on a character that is not a digit or on overflow.
pub open spec fn u64_digits(body: Seq<char>, i: int, acc: nat) -> Option<u64>
    decreases body.len() - i,
{
    if i < 0 || i >= body.len() {
        if acc <= u64::MAX {
            Some(acc as u64)
        } else {
            None
        }
    } else if !is_digit(body[i]) {
        None
    } else {
        let v = acc * 10 + ((body[i] as u32) - 48) as nat;
        if v > u64::MAX {
            None
        } else {
            u64_digits(body, i + 1, v)
        }
    }
}

/// `u64::from_str`, as an option: an optional `+`, then decimal digits.
pub open spec fn u64_parse(s: Seq<char>) -> Option<u64> {
    if s.len() == 0 || (s.len() == 1 && (s[0] == '+' || s[0] == '-')) {
        None
    } else if s[0] == '+' {
        u64_digits(s.drop_first(), 0, 0)
    } else {
        u64_digits(s, 0, 0)
    }
}

/// `u64::from_str` on characters, as an option (see [`u64_parse`]).
fn parse_u64(s: &[char]) -> (r: Option<u64>)
    ensures
        r == u64_parse(s@),
{
    if s.len() == 0 || (s.len() == 1 && (s[0] == '+' || s[0] == '-')) {
        return None;
    }
    let start: usize = if s[0] == '+' { 1 } else { 0 };
    let ghost body = if s@[0] == '+' { s@.drop_first() } else { s@ };
    let mut i = start;
    let mut acc: u64 = 0;
    while i < s.len()
        invariant
            start <= i <= s.len(),
            start == 0 || start == 1,
            body.len() == s@.len() - start,
            forall|k: int| 0 <= k < body.len() ==> body[k] == s@[k + start],
            u64_parse(s@) == u64_digits(body, i - start, acc as nat),
        decreases s.len() - i,
    {
        let c = s[i];
        if !('0' <= c && c <= '9') {
            return None;
        }
        let d = (c as u32 - 48) as u64;
        match acc.checked_mul(10) {
            Some(m) => match m.checked_add(d) {
                Some(v) => {
                    acc = v;
                },
                None => {
                    return None;
                },
            },
            None => {
                return None;
            },
        }
        i = i + 1;
    }
    Some(acc)
}

/// What is known while reading jest output: the file of the last header,
/// the last expected and received values, and the cases so far.
pub struct JestState {
    pub file: Option<Seq<char>>,
    pub expected: Option<Seq<char>>,
    pub received: Option<Seq<char>>,
    pub cases: Seq<CaseView>,
}

/// The case a result line describes.
pub open spec fn jest_case(g: Seq<Option<Seq<char>>>, status: TestStatus, file: Option<Seq<char>>) -> CaseView {
    CaseView {
        name: crate::text::trim(grp(g, 1)),
        status,
        duration_ms: match opt_grp(g, 2) {
            Some(d) => u64_parse(d),
            None => None,
        },
        error_message: None,
        file,
        line: None,
        stdout: None,
    }
}

/// One line of jest output (trimmed): a header sets the file; a check or
/// cross line, or a line with the fallback marks, adds a case; otherwise
/// expected and received values are recorded.
pub open spec fn jest_step(st: JestState, t: Seq<char>) -> JestState {
    match regex_first(JEST_HEADER@, t) {
        Some(g) => JestState { file: Some(grp(g, 2)), ..st },
        None => {
            let check = regex_first(JEST_CHECK@, t);
            if contains(t, "\u{2713}"@) && check is Some {
                JestState { cases: st.cases.push(jest_case(check->0, TestStatus::Passed, st.file)), ..st }
            } else if contains(t, "\u{2715}"@) && check is Some {
                JestState { cases: st.cases.push(jest_case(check->0, TestStatus::Failed, st.file)), ..st }
            } else {
                match regex_first(JEST_ASCII@, t) {
                    Some(g) => JestState {
                        cases: st.cases.push(
                            jest_case(
                                g,
                                if contains(t, "\u{221a}"@) { TestStatus::Passed } else { TestStatus::Failed },
                                st.file,
                            ),
                        ),
                        ..st
                    },
                    None => JestState {
                        expected: match regex_first(JEST_EXPECTED@, t) {
                            Some(g) => Some(grp(g, 1)),
                            None => st.expected,
                        },
                        received: match regex_first(JEST_RECEIVED@, t) {
                            Some(g) => Some(grp(g, 1)),
                            None => st.received,
                        },
                        ..st
                    },
                }
            }
        },
    }
}

/// Reading jest output from line `i` on.
pub open spec fn jest_scan(ls: Seq<Seq<char>>, i: int, st: JestState) -> JestState
    decreases ls.len() - i,
{
    if i < 0 || i >= ls.len() {
        st
    } else {
        jest_scan(ls, i + 1, jest_step(st, crate::text::trim(ls[i])))
    }
}

/// The index of the last failed case, if any.
pub open spec fn last_failed(cs: Seq<CaseView>) -> Option<int>
    decreases cs.len(),
{
    if cs.len() == 0 {
        None
    } else if cs.last().status == TestStatus::Failed {
        Some(cs.len() - 1)
    } else {
        last_failed(cs.drop_last())
    }
}

/// The message attached to the last failed case.
pub open spec fn expectation_message(e: Option<Seq<char>>, r: Option<Seq<char>>) -> Seq<char> {
    "Expected: "@ + (match e {
        Some(x) => x,
        None => "?"@,
    }) + ", Received: "@ + (match r {
        Some(x) => x,
        None => "?"@,
    })
}

/// The cases of jest output: when an expected or received value was seen,
/// the last failed case gets them as its message.
pub open spec fn jest_cases(ls: Seq<Seq<char>>) -> Seq<CaseView> {
    let st = jest_scan(ls, 0, JestState { file: None, expected: None, received: None, cases: Seq::empty() });
    if (st.expected is Some || st.received is Some) && last_failed(st.cases) is Some {
        let k = last_failed(st.cases)->0;
        st.cases.update(k, CaseView { error_message: Some(expectation_message(st.expected, st.received)), ..st.cases[k] })
    } else {
        st.cases
    }
}

/// The view of an optional character vector.
pub open spec fn ov(o: Option<Vec<char>>) -> Option<Seq<char>> {
    match o {
        Some(v) => Some(v@),
        None => None,
    }
}

/// A copy of optional characters.
fn copy_opt(o: &Option<Vec<char>>) -> (r: Option<Vec<char>>)
    ensures
        ov(r) == ov(*o),
{
    match o {
        Some(v) => {
            let c = crate::text::slice_chars(v, 0, v.len());
            assert(c@ =~= v@);
            Some(c)
        },
        None => None,
    }
}

/// The case that a jest result line describes, from the groups of its
/// match (name, milliseconds), its status and the current file (see
/// [`jest_case`]).
pub fn jest_case_from(g: &Vec<Option<String>>, status: TestStatus, file: &Option<Vec<char>>) -> (r: TestCase)
    ensures
        r@ == jest_case(groups_view(g@), status, ov(*file)),
{
    let name = crate::text::trim_chars(&group(g, 1));
    let duration_ms = match opt_group(g, 2) {
        Some(d) => parse_u64(&d),
        None => None,
    };
    TestCase {
        name: string_of(&name),
        status,
        duration_ms,
        error_message: None,
        file: opt_string(copy_opt(file)),
        line: None,
        stdout: None,
    }
}

impl TestOracle {
    /// Parse `jest` output (see [`jest_cases`]) with the run time of its
    /// `Time:` line.
    pub fn parse_jest(output: &str) -> (r: TestRunSummary)
        ensures
            summarizes(r, TestFramework::Jest, jest_cases(crate::diff_lines::str_lines(output@)), duration_by(JEST_TIME@, output@, 1)),
    {
        let ls = crate::diff_lines::lines_of_str(output);
        let ghost lv = crate::diff_lines::lines_view(ls@);
        let ghost init = JestState { file: None, expected: None, received: None, cases: Seq::empty() };
        let ghost goal = jest_scan(lv, 0, init);
        let mut file: Option<Vec<char>> = None;
        let mut expected: Option<Vec<char>> = None;
        let mut received: Option<Vec<char>> = None;
        let mut cases: Vec<TestCase> = Vec::new();
        let mut i: usize = 0;
        assert(cases_view(cases@) =~= Seq::<CaseView>::empty());
        while i < ls.len()
            invariant
                i <= ls@.len(),
                lv == crate::diff_lines::lines_view(ls@),
                goal == jest_scan(lv, i as int, JestState { file: ov(file), expected: ov(expected), received: ov(received), cases: cases_view(cases@) }),
            decreases ls.len() - i,
        {
            assert(ls@[i as int]@ == lv[i as int]);
            let ghost st = JestState { file: ov(file), expected: ov(expected), received: ov(received), cases: cases_view(cases@) };
            let ghost prev = cases@;
            let t = crate::text::trim_chars(&ls[i]);
            match captures_chars(JEST_HEADER, &t) {
                Some(g) => {
                    file = Some(group(&g, 2));
                },
                None => {
                    let check = captures_chars(JEST_CHECK, &t);
                    let has_check = crate::text::contains_str(&t, "\u{2713}");
                    let has_cross = crate::text::contains_str(&t, "\u{2715}");
                    if has_check && check.is_some() {
                        let c = match &check {
                            Some(g) => jest_case_from(g, TestStatus::Passed, &file),
                            None => jest_case_from(&Vec::new(), TestStatus::Passed, &file),
                        };
                        cases.push(c);
                        assert(cases_view(cases@) =~= cases_view(prev).push(c@));
                    } else if has_cross && check.is_some() {
                        let c = match &check {
                            Some(g) => jest_case_from(g, TestStatus::Failed, &file),
                            None => jest_case_from(&Vec::new(), TestStatus::Failed, &file),
                        };
                        cases.push(c);
                        assert(cases_view(cases@) =~= cases_view(prev).push(c@));
                    } else {
                        match captures_chars(JEST_ASCII, &t) {
                            Some(g) => {
                                let st_v = if crate::text::contains_str(&t, "\u{221a}") {
                                    TestStatus::Passed
                                } else {
                                    TestStatus::Failed
                                };
                                let c = jest_case_from(&g, st_v, &file);
                                cases.push(c);
                                assert(cases_view(cases@) =~= cases_view(prev).push(c@));
                            },
                            None => {
                                match captures_chars(JEST_EXPECTED, &t) {
                                    Some(g) => {
                                        expected = Some(group(&g, 1));
                                    },
                                    None => {},
                                }
                                match captures_chars(JEST_RECEIVED, &t) {
                                    Some(g) => {
                                        received = Some(group(&g, 1));
                                    },
                                    None => {},
                                }
                            },
                        }
                    }
                },
            }
            assert(JestState { file: ov(file), expected: ov(expected), received: ov(received), cases: cases_view(cases@) } == jest_step(st, t@));
            i = i + 1;
        }
        let ghost fin = JestState { file: ov(file), expected: ov(expected), received: ov(received), cases: cases_view(cases@) };
        assert(fin == goal);
        if expected.is_some() || received.is_some() {
            let ghost cv = cases_view(cases@);
            let mut k: usize = cases.len();
            let mut found: Option<usize> = None;
            assert(cv.take(k as int) =~= cv);
            while k > 0 && found.is_none()
                invariant
                    k <= cases@.len(),
                    cv == cases_view(cases@),
                    found is None ==> last_failed(cv) == last_failed(cv.take(k as int)),
                    found matches Some(idx) ==> last_failed(cv) == Some(idx as int) && idx < cases@.len(),
                decreases k,
            {
                assert(cv.take(k as int).drop_last() =~= cv.take(k - 1));
                assert(cv[k - 1] == cases@[k - 1]@);
                if cases[k - 1].status == TestStatus::Failed {
                    found = Some(k - 1);
                }
                k = k - 1;
            }
            proof {
                if found is None {
                    assert(cv.take(0) =~= Seq::<CaseView>::empty());
                }
            }
            match found {
                Some(idx) => {
                    let mut m = chars_of("Expected: ");
                    match &expected {
                        Some(e) => crate::text::push_chars(&mut m, e),
                        None => crate::text::push_str(&mut m, "?"),
                    }
                    crate::text::push_str(&mut m, ", Received: ");
                    match &received {
                        Some(e) => crate::text::push_chars(&mut m, e),
                        None => crate::text::push_str(&mut m, "?"),
                    }
                    let ghost before = cases@;
                    let old = cases.remove(idx);
                    let c = TestCase {
                        name: old.name,
                        status: old.status,
                        duration_ms: old.duration_ms,
                        error_message: Some(string_of(&m)),
                        file: old.file,
                        line: old.line,
                        stdout: old.stdout,
                    };
                    cases.insert(idx, c);
                    proof {
                        assert(cases@ =~= before.update(idx as int, c));
                        assert(cases_view(cases@) =~= cv.update(idx as int, CaseView { error_message: Some(expectation_message(ov(expected), ov(received))), ..cv[idx as int] }));
                    }
                },
                None => {},
            }
        }
        let dur = duration_from(JEST_TIME, output, 1);
        summarize(TestFramework::Jest, cases, dur)
    }

    /// Parse test output into a structured [`TestRunSummary`], with the
    /// parser of the framework it detects; unknown output has no cases.
    pub fn parse_output(output: &str) -> (r: TestRunSummary)
        ensures
            ({
                let ls = crate::diff_lines::str_lines(output@);
                match detect_spec(output@) {
                    TestFramework::CargoTest => summarizes(r, TestFramework::CargoTest, cargo_cases(ls, 0, cargo_blocks(ls, 0, None, Seq::empty())), cargo_duration(output@)),
                    TestFramework::Pytest => summarizes(r, TestFramework::Pytest, pytest_cases(ls, 0), pytest_duration(output@)),
                    TestFramework::Jest => summarizes(r, TestFramework::Jest, jest_cases(ls), duration_by(JEST_TIME@, output@, 1)),
                    TestFramework::GoTest => summarizes(r, TestFramework::GoTest, go_cases(ls, 0, go_details_after(ls, 0, None, Seq::empty()), go_details_before(ls, 0, Seq::empty())), go_duration(output@)),
                    TestFramework::Unknown => summarizes(r, TestFramework::Unknown, Seq::empty(), None),
                }
            }),
    {
        match Self::detect_framework(output) {
            TestFramework::CargoTest => Self::parse_cargo_test(output),
            TestFramework::Pytest => Self::parse_pytest(output),
            TestFramework::Jest => Self::parse_jest(output),
            TestFramework::GoTest => Self::parse_go_test(output),
            TestFramework::Unknown => {
                let cases: Vec<TestCase> = Vec::new();
                assert(cases_view(cases@) =~= Seq::<CaseView>::empty());
                summarize(TestFramework::Unknown, cases, None)
            },
        }
    }
}

// ---------------------------------------------------------------------------
// Failure analysis
// ---------------------------------------------------------------------------

/// Classification of error types.
#[derive(Debug, Clone, Copy, PartialEq, Eq, Structural)]
pub enum ErrorType {
    /// Compilation error (Rust `error[E...]`, etc.).
    CompilationError,
    /// Type mismatch between expected and actual types.
    TypeMismatch,
    /// Missing import, module, or dependency.
    MissingImport,
    /// Assertion failure (`assert!`, `assert_eq!`, etc.).
    AssertionFailure,
    /// Panic from `.unwrap()` or `.expect()` on `None`/`Err`.
    PanicUnwrap,
    /// Test exceeded its time limit.
    Timeout,
    /// Generic runtime error.
    RuntimeError,
    /// Logical error in the implementation.
    LogicError,
    /// OS-level permission denied.
    PermissionDenied,
    /// Resource not found (file, endpoint, etc.).
    NotFound,
    /// Could not determine the error type.
    Unknown,
}

/// Suggested strategy for fixing a failure.
#[derive(Debug, Clone, PartialEq, Eq)]
pub enum FixStrategy {
    /// Add a missing import or dependency.
    AddImport {
        /// The module or crate to import.
        module: String,
    },
    /// Fix a type mismatch by changing the type.
    FixType {
        /// The expected type.
        expected: String,
        /// The actual type found.
        actual: String,
    },
    /// Update an assertion's expected value.
    UpdateAssertion,
    /// Handle an unwrap/expect that panicked.
    AddErrorHandling,
    /// Fix logic in the implementation.
    FixLogic {
        /// Hint about what the logic error might be.
        hint: String,
    },
    /// Add a missing function, method, or field.
    AddMissing {
        /// Description of what is missing.
        what: String,
    },
    /// Increase timeout or optimize for performance.
    FixPerformance,
    /// General investigation needed.
    Investigate {
        /// Suggestion for what to look at.
        suggestion: String,
    },
}

/// What a fix strategy holds, as plain values.
pub enum FixView {
    AddImport(Seq<char>),
    FixType(Seq<char>, Seq<char>),
    UpdateAssertion,
    AddErrorHandling,
    FixLogic(Seq<char>),
    AddMissing(Seq<char>),
    FixPerformance,
    Investigate(Seq<char>),
}

/// The view of a fix strategy.
pub open spec fn fix_view(f: FixStrategy) -> FixView {
    match f {
        FixStrategy::AddImport { module } => FixView::AddImport(module@),
        FixStrategy::FixType { expected, actual } => FixView::FixType(expected@, actual@),
        FixStrategy::UpdateAssertion => FixView::UpdateAssertion,
        FixStrategy::AddErrorHandling => FixView::AddErrorHandling,
        FixStrategy::FixLogic { hint } => FixView::FixLogic(hint@),
        FixStrategy::AddMissing { what } => FixView::AddMissing(what@),
        FixStrategy::FixPerformance => FixView::FixPerformance,
        FixStrategy::Investigate { suggestion } => FixView::Investigate(suggestion@),
    }
}

/// The error type a lower-cased message shows, by keywords checked in a
/// fixed order.
pub open spec fn classify_lower(l: Seq<char>) -> ErrorType {
    if contains(l, "error[e"@) {
        ErrorType::CompilationError
    } else if contains(l, "permission denied"@) {
        ErrorType::PermissionDenied
    } else if contains(l, "timeout"@) || contains(l, "timed out"@) {
        ErrorType::Timeout
    } else if contains(l, "called `option::unwrap()` on a `none` value"@) || contains(
        l,
        "called `result::unwrap()` on an `err` value"@,
    ) || contains(l, "called `.unwrap()`"@) || contains(l, "called `.expect()`"@) || contains(
        l,
        "panicked at 'called `option::unwrap()`"@,
    ) || contains(l, "panicked at 'called `result::unwrap()`"@) {
        ErrorType::PanicUnwrap
    } else if contains(l, "type mismatch"@) || contains(l, "mismatched types"@) || (contains(
        l,
        "expected"@,
    ) && contains(l, "found"@)) {
        ErrorType::TypeMismatch
    } else if contains(l, "assertion"@) || contains(l, "assert_eq"@) || contains(l, "assert_ne"@)
        || contains(l, "assert!"@) || contains(l, "assertionerror"@) {
        ErrorType::AssertionFailure
    } else if contains(l, "cannot find"@) || contains(l, "not found"@) || contains(l, "unresolved"@)
        || contains(l, "no such file"@) || contains(l, "module not found"@) || contains(
        l,
        "import error"@,
    ) {
        ErrorType::MissingImport
    } else if contains(l, "404"@) || contains(l, "resource not found"@) {
        ErrorType::NotFound
    } else if contains(l, "runtime error"@) || contains(l, "segmentation fault"@) || contains(
        l,
        "stack overflow"@,
    ) {
        ErrorType::RuntimeError
    } else if contains(l, "expected"@) && contains(l, "got"@) {
        ErrorType::LogicError
    } else {
        ErrorType::Unknown
    }
}

/// `cannot find` / `unresolved import` followed by a quoted name.
pub const MODULE_QUOTED: &'static str = "(?:cannot find|unresolved(?: import)?)\\s+`([^`]+)`";

/// `module not found:` followed by a name.
pub const MODULE_PLAIN: &'static str = "module not found:\\s*(\\S+)";

/// Any back-quoted text.
pub const BACKTICKED: &'static str = "`([^`]+)`";

/// `expected X, found Y`.
pub const EXPECTED_FOUND: &'static str = "expected\\s+`?([^`,]+?)`?,?\\s+found\\s+`?([^`\\s,]+)`?";

/// `expected X but got Y`.
pub const EXPECTED_BUT_GOT: &'static str = "expected\\s+(\\S+)\\s+but\\s+got\\s+(\\S+)";

/// A missing item of a named kind.
pub const MISSING_ITEM: &'static str = "(?:cannot find|not found)\\s+(?:value|type|function|method|struct|trait|module)\\s+`([^`]+)`";

/// `expected X, got Y`.
pub const EXPECTED_GOT: &'static str = "expected\\s+(.+?),\\s+got\\s+(.+)";

/// A back-quoted identifier path.
pub const SYMBOL_BACKTICK: &'static str = "`([A-Za-z_]\\w*(?:::\\w+)*)`";

/// A single-quoted identifier path.
pub const SYMBOL_QUOTE: &'static str = "'([A-Za-z_]\\w*(?:::\\w+)*)'";

/// The first group of the first pattern that matches, else `fallback`.
pub open spec fn first_group3(p1: Seq<char>, p2: Seq<char>, p3: Seq<char>, m: Seq<char>, fallback: Seq<char>) -> Seq<char> {
    first_group_of(regex_first(p1, m), regex_first(p2, m), regex_first(p3, m), fallback)
}

/// The first group of the first of three matches that exists, else
/// `fallback`.
pub open spec fn first_group_of(
    g1: Option<Seq<Option<Seq<char>>>>,
    g2: Option<Seq<Option<Seq<char>>>>,
    g3: Option<Seq<Option<Seq<char>>>>,
    fallback: Seq<char>,
) -> Seq<char> {
    match g1 {
        Some(g) => grp(g, 1),
        None => match g2 {
            Some(g) => grp(g, 1),
            None => match g3 {
                Some(g) => grp(g, 1),
                None => fallback,
            },
        },
    }
}

/// The module a "not found" message names.
pub open spec fn missing_module(m: Seq<char>) -> Seq<char> {
    first_group3(MODULE_QUOTED@, MODULE_PLAIN@, BACKTICKED@, m, "unknown"@)
}

/// The expected and actual types a mismatch message names.
pub open spec fn type_mismatch(m: Seq<char>) -> (Seq<char>, Seq<char>) {
    type_mismatch_of(regex_first(EXPECTED_FOUND@, m), regex_first(EXPECTED_BUT_GOT@, m))
}

/// The expected and actual types from a match of `expected X, found Y`
/// (both trimmed), else of `expected X but got Y`, else unknown.
pub open spec fn type_mismatch_of(found: Option<Seq<Option<Seq<char>>>>, got: Option<Seq<Option<Seq<char>>>>) -> (Seq<char>, Seq<char>) {
    match found {
        Some(g) => (crate::text::trim(grp(g, 1)), crate::text::trim(grp(g, 2))),
        None => match got {
            Some(g) => (grp(g, 1), grp(g, 2)),
            None => ("unknown"@, "unknown"@),
        },
    }
}

/// The item a compilation error says is missing.
pub open spec fn missing_item(m: Seq<char>) -> Seq<char> {
    missing_item_of(regex_first(MISSING_ITEM@, m), regex_first(BACKTICKED@, m))
}

/// The missing item from a match of the "cannot find" pattern, else of a
/// backticked name, else `unknown item`.
pub open spec fn missing_item_of(item: Option<Seq<Option<Seq<char>>>>, ticked: Option<Seq<Option<Seq<char>>>>) -> Seq<char> {
    match item {
        Some(g) => grp(g, 1),
        None => match ticked {
            Some(g) => grp(g, 1),
            None => "unknown item"@,
        },
    }
}

/// A hint for a logic error from an `expected X, got Y` message.
pub open spec fn logic_hint(m: Seq<char>) -> Seq<char> {
    logic_hint_of(regex_first(EXPECTED_GOT@, m))
}

/// The logic hint from a match of `expected X, got Y`, if any.
pub open spec fn logic_hint_of(g: Option<Seq<Option<Seq<char>>>>) -> Seq<char> {
    match g {
        Some(g) => "Expected `"@ + crate::text::trim(grp(g, 1)) + "` but got `"@ + crate::text::trim(grp(g, 2))
            + "` \u{2014} check the computation logic"@,
        None => "Review the implementation logic against the test expectations"@,
    }
}

/// The fix strategy for an error type and its message (`lower` being the
/// message lower-cased).
pub open spec fn suggest_spec(et: ErrorType, m: Seq<char>, lower: Seq<char>) -> FixView {
    match et {
        ErrorType::MissingImport => FixView::AddImport(missing_module(m)),
        ErrorType::TypeMismatch => FixView::FixType(type_mismatch(m).0, type_mismatch(m).1),
        ErrorType::AssertionFailure => FixView::UpdateAssertion,
        ErrorType::PanicUnwrap => FixView::AddErrorHandling,
        ErrorType::Timeout => FixView::FixPerformance,
        ErrorType::CompilationError => if contains(lower, "cannot find"@) || contains(lower, "not found"@) {
            FixView::AddMissing(missing_item(m))
        } else {
            FixView::Investigate("Review the compilation error and fix the source code"@)
        },
        ErrorType::LogicError => FixView::FixLogic(logic_hint(m)),
        ErrorType::PermissionDenied => FixView::Investigate(
            "Check file/directory permissions or run with elevated privileges"@,
        ),
        ErrorType::NotFound => FixView::AddMissing(missing_item(m)),
        ErrorType::RuntimeError => FixView::Investigate(
            "Debug the runtime error; check for null pointers, buffer overflows, or resource exhaustion"@,
        ),
        ErrorType::Unknown => FixView::Investigate("Investigate the error message and test output for clues"@),
    }
}

/// The first group of the first of three patterns that matches, else
/// `fallback` (see [`first_group3`]).
fn first_group3_exec(p1: &str, p2: &str, p3: &str, m: &str, fallback: &str) -> (r: Vec<char>)
    ensures
        r@ == first_group3(p1@, p2@, p3@, m@, fallback@),
{
    let g1 = captures(p1, m);
    let g2 = if g1.is_some() { None } else { captures(p2, m) };
    let g3 = if g1.is_some() || g2.is_some() { None } else { captures(p3, m) };
    TestOracle::first_group_from(&g1, &g2, &g3, fallback)
}

/// The expected and actual types of a mismatch (see [`type_mismatch`]).
fn type_mismatch_exec(m: &str) -> (r: (Vec<char>, Vec<char>))
    ensures
        (r.0@, r.1@) == type_mismatch(m@),
{
    let found = captures(EXPECTED_FOUND, m);
    let got = if found.is_some() { None } else { captures(EXPECTED_BUT_GOT, m) };
    TestOracle::type_mismatch_from(&found, &got)
}

/// The missing item (see [`missing_item`]).
fn missing_item_exec(m: &str) -> (r: Vec<char>)
    ensures
        r@ == missing_item(m@),
{
    let item = captures(MISSING_ITEM, m);
    let ticked = if item.is_some() { None } else { captures(BACKTICKED, m) };
    TestOracle::missing_item_from(&item, &ticked)
}

/// The logic hint (see [`logic_hint`]).
fn logic_hint_exec(m: &str) -> (r: Vec<char>)
    ensures
        r@ == logic_hint(m@),
{
    TestOracle::logic_hint_from(&captures(EXPECTED_GOT, m))
}

impl TestOracle {
    /// The first group of the first of three matches that exists, else
    /// `fallback` (see [`first_group_of`]).
    pub fn first_group_from(
        g1: &Option<Vec<Option<String>>>,
        g2: &Option<Vec<Option<String>>>,
        g3: &Option<Vec<Option<String>>>,
        fallback: &str,
    ) -> (r: Vec<char>)
        ensures
            r@ == first_group_of(match_view(*g1), match_view(*g2), match_view(*g3), fallback@),
    {
        match g1 {
            Some(g) => group(g, 1),
            None => match g2 {
                Some(g) => group(g, 1),
                None => match g3 {
                    Some(g) => group(g, 1),
                    None => chars_of(fallback),
                },
            },
        }
    }

    /// The expected and actual types of a mismatch from the matches of its
    /// two patterns (see [`type_mismatch_of`]).
    pub fn type_mismatch_from(found: &Option<Vec<Option<String>>>, got: &Option<Vec<Option<String>>>) -> (r: (Vec<char>, Vec<char>))
        ensures
            (r.0@, r.1@) == type_mismatch_of(match_view(*found), match_view(*got)),
    {
        match found {
            Some(g) => (crate::text::trim_chars(&group(g, 1)), crate::text::trim_chars(&group(g, 2))),
            None => match got {
                Some(g) => (group(g, 1), group(g, 2)),
                None => (chars_of("unknown"), chars_of("unknown")),
            },
        }
    }

    /// The missing item from the matches of its two patterns (see
    /// [`missing_item_of`]).
    pub fn missing_item_from(item: &Option<Vec<Option<String>>>, ticked: &Option<Vec<Option<String>>>) -> (r: Vec<char>)
        ensures
            r@ == missing_item_of(match_view(*item), match_view(*ticked)),
    {
        match item {
            Some(g) => group(g, 1),
            None => match ticked {
                Some(g) => group(g, 1),
                None => chars_of("unknown item"),
            },
        }
    }

    /// The logic hint from the match of `expected X, got Y`, if any (see
    /// [`logic_hint_of`]).
    pub fn logic_hint_from(g: &Option<Vec<Option<String>>>) -> (r: Vec<char>)
        ensures
            r@ == logic_hint_of(match_view(*g)),
    {
        match g {
            Some(g) => {
                let mut v = chars_of("Expected `");
                crate::text::push_chars(&mut v, &crate::text::trim_chars(&group(g, 1)));
                crate::text::push_str(&mut v, "` but got `");
                crate::text::push_chars(&mut v, &crate::text::trim_chars(&group(g, 2)));
                crate::text::push_str(&mut v, "` \u{2014} check the computation logic");
                v
            },
            None => chars_of("Review the implementation logic against the test expectations"),
        }
    }
}

impl TestOracle {
    /// The error type a lower-cased message shows (see [`classify_lower`]).
    pub fn classify_lowered(lower: &str) -> (r: ErrorType)
        ensures
            r == classify_lower(lower@),
    {
        let l = chars_of(lower);
        if contains_str(&l, "error[e") {
            ErrorType::CompilationError
        } else if contains_str(&l, "permission denied") {
            ErrorType::PermissionDenied
        } else if contains_str(&l, "timeout") || contains_str(&l, "timed out") {
            ErrorType::Timeout
        } else if contains_str(&l, "called `option::unwrap()` on a `none` value") || contains_str(
            &l,
            "called `result::unwrap()` on an `err` value",
        ) || contains_str(&l, "called `.unwrap()`") || contains_str(&l, "called `.expect()`")
            || contains_str(&l, "panicked at 'called `option::unwrap()`") || contains_str(
            &l,
            "panicked at 'called `result::unwrap()`",
        ) {
            ErrorType::PanicUnwrap
        } else if contains_str(&l, "type mismatch") || contains_str(&l, "mismatched types") || (
        contains_str(&l, "expected") && contains_str(&l, "found")) {
            ErrorType::TypeMismatch
        } else if contains_str(&l, "assertion") || contains_str(&l, "assert_eq") || contains_str(
            &l,
            "assert_ne",
        ) || contains_str(&l, "assert!") || contains_str(&l, "assertionerror") {
            ErrorType::AssertionFailure
        } else if contains_str(&l, "cannot find") || contains_str(&l, "not found") || contains_str(
            &l,
            "unresolved",
        ) || contains_str(&l, "no such file") || contains_str(&l, "module not found")
            || contains_str(&l, "import error") {
            ErrorType::MissingImport
        } else if contains_str(&l, "404") || contains_str(&l, "resource not found") {
            ErrorType::NotFound
        } else if contains_str(&l, "runtime error") || contains_str(&l, "segmentation fault")
            || contains_str(&l, "stack overflow") {
            ErrorType::RuntimeError
        } else if contains_str(&l, "expected") && contains_str(&l, "got") {
            ErrorType::LogicError
        } else {
            ErrorType::Unknown
        }
    }

    /// Classify an error message: its lower-cased text, by keywords (see
    /// [`classify_lower`]).
    pub fn classify_error(message: &str) -> (r: ErrorType)
        ensures
            r == classify_lower(crate::text::spec_to_lowercase(message@)),
            crate::text::all_ascii(message@) ==> r == classify_lower(crate::text::ascii_lower(message@)),
    {
        let lower = string_of(&crate::text::to_lowercase(&chars_of(message)));
        Self::classify_lowered(lower.as_str())
    }

    /// Suggest a fix strategy for an error type and its message (see
    /// [`suggest_spec`]).
    pub fn suggest_fix(error_type: &ErrorType, message: &str) -> (r: FixStrategy)
        ensures
            fix_view(r) == suggest_spec(*error_type, message@, crate::text::spec_to_lowercase(message@)),
    {
        match error_type {
            ErrorType::MissingImport => FixStrategy::AddImport {
                module: string_of(&first_group3_exec(MODULE_QUOTED, MODULE_PLAIN, BACKTICKED, message, "unknown")),
            },
            ErrorType::TypeMismatch => {
                let (e, a) = type_mismatch_exec(message);
                FixStrategy::FixType { expected: string_of(&e), actual: string_of(&a) }
            },
            ErrorType::AssertionFailure => FixStrategy::UpdateAssertion,
            ErrorType::PanicUnwrap => FixStrategy::AddErrorHandling,
            ErrorType::Timeout => FixStrategy::FixPerformance,
            ErrorType::CompilationError => {
                let lower = crate::text::to_lowercase(&chars_of(message));
                if contains_str(&lower, "cannot find") || contains_str(&lower, "not found") {
                    FixStrategy::AddMissing { what: string_of(&missing_item_exec(message)) }
                } else {
                    FixStrategy::Investigate {
                        suggestion: string_of(&chars_of("Review the compilation error and fix the source code")),
                    }
                }
            },
            ErrorType::LogicError => FixStrategy::FixLogic { hint: string_of(&logic_hint_exec(message)) },
            ErrorType::PermissionDenied => FixStrategy::Investigate {
                suggestion: string_of(&chars_of("Check file/directory permissions or run with elevated privileges")),
            },
            ErrorType::NotFound => FixStrategy::AddMissing { what: string_of(&missing_item_exec(message)) },
            ErrorType::RuntimeError => FixStrategy::Investigate {
                suggestion: string_of(
                    &chars_of(
                        "Debug the runtime error; check for null pointers, buffer overflows, or resource exhaustion",
                    ),
                ),
            },
            ErrorType::Unknown => FixStrategy::Investigate {
                suggestion: string_of(&chars_of("Investigate the error message and test output for clues")),
            },
        }
    }
}

/// Analysis of a test failure.
#[derive(Debug, Clone)]
pub struct FailureAnalysis {
    /// Name of the failing test.
    pub test_name: String,
    /// Classified error type.
    pub error_type: ErrorType,
    /// The raw error message.
    pub error_message: String,
    /// Source file, if determined.
    pub source_file: Option<String>,
    /// Source line, if determined.
    pub source_line: Option<usize>,
    /// Human-readable explanation of the probable cause.
    pub likely_cause: String,
    /// Suggested strategy for fixing the failure.
    pub fix_strategy: FixStrategy,
    /// Symbols (functions, types, variables) related to the failure.
    pub related_symbols: Vec<String>,
}

/// The first sentence of a trimmed message: up to and including the first
/// `.` followed by a space, else all of it.
pub open spec fn first_sentence(m: Seq<char>) -> Seq<char> {
    let t = crate::text::trim(m);
    match crate::text::first_occurrence(t, ". "@, 0) {
        Some(i) => t.take(i + 1),
        None => t,
    }
}

/// The likely cause of a failure of type `et` with message `m`.
pub open spec fn cause_spec(et: ErrorType, m: Seq<char>) -> Seq<char> {
    match et {
        ErrorType::CompilationError => "Code does not compile: "@ + first_sentence(m),
        ErrorType::TypeMismatch => "Type mismatch: expected `"@ + type_mismatch(m).0 + "`, got `"@ + type_mismatch(m).1 + "`"@,
        ErrorType::MissingImport => "Missing import or unresolved symbol: `"@ + missing_module(m) + "`"@,
        ErrorType::AssertionFailure => "Assertion failed: the actual value did not match the expected value. "@
            + first_sentence(m),
        ErrorType::PanicUnwrap => "Called `.unwrap()` or `.expect()` on a `None` or `Err` value"@,
        ErrorType::Timeout => "Test exceeded its time limit"@,
        ErrorType::RuntimeError => "Runtime error: "@ + first_sentence(m),
        ErrorType::LogicError => "Logic error: output did not match expectations. "@ + first_sentence(m),
        ErrorType::PermissionDenied => "Insufficient permissions to access a resource"@,
        ErrorType::NotFound => "Resource not found: "@ + first_sentence(m),
        ErrorType::Unknown => "Unknown error: "@ + first_sentence(m),
    }
}

/// The UTF-8 encoding of `s` takes more than one byte: more than one
/// character, or one outside ASCII.
pub open spec fn longer_than_a_byte(s: Seq<char>) -> bool {
    s.len() > 1 || (s.len() == 1 && (s[0] as u32) >= 128)
}

/// Adding the first group of each match to `acc` when it is new (and, if
/// `min_two`, longer than one byte).
pub open spec fn add_symbols(acc: Seq<Seq<char>>, ms: Seq<Seq<Option<Seq<char>>>>, min_two: bool) -> Seq<Seq<char>>
    decreases ms.len(),
{
    if ms.len() == 0 {
        acc
    } else {
        let a = add_symbols(acc, ms.drop_last(), min_two);
        let sym = grp(ms.last(), 1);
        if (!min_two || longer_than_a_byte(sym)) && !a.contains(sym) {
            a.push(sym)
        } else {
            a
        }
    }
}

/// The symbols a message mentions: back-quoted identifiers, then
/// single-quoted ones longer than one byte, each once.
pub open spec fn symbols_spec(m: Seq<char>) -> Seq<Seq<char>> {
    add_symbols(add_symbols(Seq::empty(), regex_all(SYMBOL_BACKTICK@, m), false), regex_all(SYMBOL_QUOTE@, m), true)
}

/// The texts of a list of strings.
pub open spec fn strs_view(v: Seq<String>) -> Seq<Seq<char>> {
    v.map_values(|s: String| s@)
}

/// The first sentence of a message (see [`first_sentence`]).
fn first_sentence_exec(m: &[char]) -> (r: Vec<char>)
    ensures
        r@ == first_sentence(m@),
{
    let t = crate::text::trim_chars(m);
    let dot = chars_of(". ");
    proof {
        reveal_strlit(". ");
    }
    match crate::text::find_from(&t, &dot, 0) {
        Some(i) => {
            assert(crate::text::occurs_at(t@, dot@, i as int));
            let n = t.len();
            assert(i + 2 <= n);
            let r = crate::text::slice_chars(&t, 0, i + 1);
            assert(r@ =~= t@.take(i + 1));
            r
        },
        None => t,
    }
}

/// Whether `v` holds the text `s`.
fn holds_string(v: &Vec<String>, s: &[char]) -> (r: bool)
    ensures
        r == strs_view(v@).contains(s@),
{
    let mut i: usize = 0;
    while i < v.len()
        invariant
            i <= v@.len(),
            forall|j: int| 0 <= j < i ==> strs_view(v@)[j] != s@,
        decreases v.len() - i,
    {
        if crate::text::eq_str(s, v[i].as_str()) {
            assert(strs_view(v@)[i as int] == s@);
            return true;
        }
        i = i + 1;
    }
    false
}

/// Adds the first group of each match (see [`add_symbols`]).
fn add_symbols_exec(acc: &mut Vec<String>, ms: &Vec<Vec<Option<String>>>, min_two: bool)
    ensures
        strs_view(final(acc)@) == add_symbols(strs_view(old(acc)@), ms@.map_values(|g: Vec<Option<String>>| groups_view(g@)), min_two),
{
    let ghost a0 = strs_view(acc@);
    let ghost mv = ms@.map_values(|g: Vec<Option<String>>| groups_view(g@));
    let mut i: usize = 0;
    assert(mv.take(0) =~= Seq::<Seq<Option<Seq<char>>>>::empty());
    while i < ms.len()
        invariant
            i <= ms@.len(),
            mv == ms@.map_values(|g: Vec<Option<String>>| groups_view(g@)),
            strs_view(acc@) == add_symbols(a0, mv.take(i as int), min_two),
        decreases ms.len() - i,
    {
        proof {
            assert(mv.take(i + 1).drop_last() =~= mv.take(i as int));
            assert(mv.take(i + 1).last() == groups_view(ms@[i as int]@));
        }
        let sym = group(&ms[i], 1);
        let s = string_of(&sym);
        let long_enough = !min_two || sym.len() > 1 || (sym.len() == 1 && (sym[0] as u32) >= 128);
        let ghost a = strs_view(acc@);
        proof {
            assert(add_symbols(a0, mv.take(i + 1), min_two) == (if (!min_two || longer_than_a_byte(sym@)) && !a.contains(sym@) {
                a.push(sym@)
            } else {
                a
            }));
        }
        if long_enough && !holds_string(acc, &sym) {
            let ghost before = acc@;
            acc.push(s);
            assert(strs_view(acc@) =~= strs_view(before).push(sym@));
        }
        i = i + 1;
    }
    assert(mv.take(i as int) =~= mv);
}

impl TestOracle {
    /// Analyze a test failure (see [`cause_spec`], [`suggest_spec`] and
    /// [`symbols_spec`]); a case without a message is analyzed as
    /// `unknown error`.
    pub fn analyze_failure(test_case: &TestCase) -> (r: FailureAnalysis)
        ensures
            ({
                let m = match test_case.error_message {
                    Some(e) => e@,
                    None => "unknown error"@,
                };
                let et = classify_lower(crate::text::spec_to_lowercase(m));
                &&& r.test_name@ == test_case.name@
                &&& r.error_type == et
                &&& r.error_message@ == m
                &&& opt_view(r.source_file) == opt_view(test_case.file)
                &&& r.source_line == test_case.line
                &&& r.likely_cause@ == cause_spec(et, m)
                &&& fix_view(r.fix_strategy) == suggest_spec(et, m, crate::text::spec_to_lowercase(m))
                &&& strs_view(r.related_symbols@) == symbols_spec(m)
            }),
    {
        let em = match &test_case.error_message {
            Some(e) => string_of(&chars_of(e.as_str())),
            None => string_of(&chars_of("unknown error")),
        };
        let m = em.as_str();
        let error_type = Self::classify_error(m);
        let fix_strategy = Self::suggest_fix(&error_type, m);
        let likely_cause = Self::infer_cause(&error_type, m);
        let mut related_symbols: Vec<String> = Vec::new();
        assert(strs_view(related_symbols@) =~= Seq::<Seq<char>>::empty());
        add_symbols_exec(&mut related_symbols, &captures_all(SYMBOL_BACKTICK, m), false);
        add_symbols_exec(&mut related_symbols, &captures_all(SYMBOL_QUOTE, m), true);
        let file = match &test_case.file {
            Some(f) => Some(string_of(&chars_of(f.as_str()))),
            None => None,
        };
        FailureAnalysis {
            test_name: string_of(&chars_of(test_case.name.as_str())),
            error_type,
            error_message: string_of(&chars_of(m)),
            source_file: file,
            source_line: test_case.line,
            likely_cause,
            fix_strategy,
            related_symbols,
        }
    }

    /// The likely cause of a failure (see [`cause_spec`]).
    pub fn infer_cause(error_type: &ErrorType, message: &str) -> (r: String)
        ensures
            r@ == cause_spec(*error_type, message@),
    {
        let m = chars_of(message);
        let v = match error_type {
            ErrorType::CompilationError => {
                let mut v = chars_of("Code does not compile: ");
                crate::text::push_chars(&mut v, &first_sentence_exec(&m));
                v
            },
            ErrorType::TypeMismatch => {
                let (e, a) = type_mismatch_exec(message);
                let mut v = chars_of("Type mismatch: expected `");
                crate::text::push_chars(&mut v, &e);
                crate::text::push_str(&mut v, "`, got `");
                crate::text::push_chars(&mut v, &a);
                crate::text::push_str(&mut v, "`");
                v
            },
            ErrorType::MissingImport => {
                let mut v = chars_of("Missing import or unresolved symbol: `");
                crate::text::push_chars(
                    &mut v,
                    &first_group3_exec(MODULE_QUOTED, MODULE_PLAIN, BACKTICKED, message, "unknown"),
                );
                crate::text::push_str(&mut v, "`");
                v
            },
            ErrorType::AssertionFailure => {
                let mut v = chars_of("Assertion failed: the actual value did not match the expected value. ");
                crate::text::push_chars(&mut v, &first_sentence_exec(&m));
                v
            },
            ErrorType::PanicUnwrap => chars_of("Called `.unwrap()` or `.expect()` on a `None` or `Err` value"),
            ErrorType::Timeout => chars_of("Test exceeded its time limit"),
            ErrorType::RuntimeError => {
                let mut v = chars_of("Runtime error: ");
                crate::text::push_chars(&mut v, &first_sentence_exec(&m));
                v
            },
            ErrorType::LogicError => {
                let mut v = chars_of("Logic error: output did not match expectations. ");
                crate::text::push_chars(&mut v, &first_sentence_exec(&m));
                v
            },
            ErrorType::PermissionDenied => chars_of("Insufficient permissions to access a resource"),
            ErrorType::NotFound => {
                let mut v = chars_of("Resource not found: ");
                crate::text::push_chars(&mut v, &first_sentence_exec(&m));
                v
            },
            ErrorType::Unknown => {
                let mut v = chars_of("Unknown error: ");
                crate::text::push_chars(&mut v, &first_sentence_exec(&m));
                v
            },
        };
        string_of(&v)
    }
}

// ---------------------------------------------------------------------------
// Prompts
// ---------------------------------------------------------------------------

/// The name of an error type, as its debug format prints it.
pub open spec fn error_type_name(et: ErrorType) -> Seq<char> {
    match et {
        ErrorType::CompilationError => "CompilationError"@,
        ErrorType::TypeMismatch => "TypeMismatch"@,
        ErrorType::MissingImport => "MissingImport"@,
        ErrorType::AssertionFailure => "AssertionFailure"@,
        ErrorType::PanicUnwrap => "PanicUnwrap"@,
        ErrorType::Timeout => "Timeout"@,
        ErrorType::RuntimeError => "RuntimeError"@,
        ErrorType::LogicError => "LogicError"@,
        ErrorType::PermissionDenied => "PermissionDenied"@,
        ErrorType::NotFound => "NotFound"@,
        ErrorType::Unknown => "Unknown"@,
    }
}

/// A fix strategy as a sentence.
pub open spec fn fix_text(f: FixView) -> Seq<char> {
    match f {
        FixView::AddImport(m) => "Add missing import: `"@ + m + "`"@,
        FixView::FixType(e, a) => "Fix type: change `"@ + a + "` to `"@ + e + "`"@,
        FixView::UpdateAssertion => "Update the assertion's expected value"@,
        FixView::AddErrorHandling => "Replace `.unwrap()`/`.expect()` with proper error handling"@,
        FixView::FixLogic(h) => "Fix logic: "@ + h,
        FixView::AddMissing(w) => "Add missing: `"@ + w + "`"@,
        FixView::FixPerformance => "Increase timeout or optimize the code for performance"@,
        FixView::Investigate(s) => "Investigate: "@ + s,
    }
}

/// The prompt asking to fix a failing test: its name, error type and
/// message, location when known, likely cause, fix strategy and related
/// symbols, then fixed instructions.
pub open spec fn fix_prompt_spec(a: FailureAnalysis) -> Seq<char> {
    "## Fix Failing Test\n\n"@ + "**Test:** `"@ + a.test_name@ + "`\n"@ + "**Error type:** "@ + error_type_name(
        a.error_type,
    ) + "\n"@ + "**Error message:** "@ + a.error_message@ + "\n"@ + (match a.source_file {
        Some(f) => "**File:** `"@ + f@ + "`"@ + (match a.source_line {
            Some(l) => " (line "@ + decimal(l as nat) + ")"@,
            None => Seq::empty(),
        }) + "\n"@,
        None => Seq::empty(),
    }) + "**Likely cause:** "@ + a.likely_cause@ + "\n"@ + "**Fix strategy:** "@ + fix_text(
        fix_view(a.fix_strategy),
    ) + "\n"@ + (if a.related_symbols@.len() > 0 {
        "**Related symbols:** "@ + crate::text::join(strs_view(a.related_symbols@), ", "@) + "\n"@
    } else {
        Seq::empty()
    }) + "\n### Instructions\n\n"@ + "1. Read the source file at the indicated location.\n"@
        + "2. Apply the suggested fix strategy.\n"@ + "3. Run the test again to verify it passes.\n"@
        + "4. Ensure no other tests are broken by the change.\n"@
}

/// The framework hint for a lower-cased language name.
pub open spec fn framework_hint(l: Seq<char>) -> Seq<char> {
    if l == "rust"@ {
        "Use `#[test]` and `assert_eq!`/`assert!` macros. Follow `cargo test` conventions."@
    } else if l == "python"@ {
        "Use `pytest` conventions. Name test functions with `test_` prefix."@
    } else if l == "javascript"@ || l == "typescript"@ || l == "js"@ || l == "ts"@ {
        "Use `jest` conventions with `describe`/`it`/`expect`."@
    } else if l == "go"@ {
        "Use Go testing conventions with `func TestXxx(t *testing.T)`."@
    } else {
        "Use the standard testing framework for the language."@
    }
}

/// The prompt asking for a failing test of a feature.
pub open spec fn test_prompt_spec(feature: Seq<char>, language: Seq<char>, hint: Seq<char>) -> Seq<char> {
    "## Write a Failing Test (TDD Red Phase)\n\n**Feature:** "@ + feature + "\n**Language:** "@ + language
        + "\n**Framework:** "@ + hint
        + "\n\n### Instructions\n\n1. Write a test that describes the expected behavior of the feature.\n2. The test MUST fail when run (since the feature is not implemented yet).\n3. Keep the test focused on a single behavior.\n4. Use descriptive test names that explain what is being tested.\n5. Include edge cases if the feature has boundary conditions.\n"@
}

/// The name of an error type (see [`error_type_name`]).
fn error_type_text(et: &ErrorType) -> (r: Vec<char>)
    ensures
        r@ == error_type_name(*et),
{
    match et {
        ErrorType::CompilationError => chars_of("CompilationError"),
        ErrorType::TypeMismatch => chars_of("TypeMismatch"),
        ErrorType::MissingImport => chars_of("MissingImport"),
        ErrorType::AssertionFailure => chars_of("AssertionFailure"),
        ErrorType::PanicUnwrap => chars_of("PanicUnwrap"),
        ErrorType::Timeout => chars_of("Timeout"),
        ErrorType::RuntimeError => chars_of("RuntimeError"),
        ErrorType::LogicError => chars_of("LogicError"),
        ErrorType::PermissionDenied => chars_of("PermissionDenied"),
        ErrorType::NotFound => chars_of("NotFound"),
        ErrorType::Unknown => chars_of("Unknown"),
    }
}

/// Strings as character vectors.
fn strings_chars(v: &Vec<String>) -> (r: Vec<Vec<char>>)
    ensures
        crate::diff_lines::lines_view(r@) == strs_view(v@),
{
    let mut out: Vec<Vec<char>> = Vec::new();
    let mut i: usize = 0;
    while i < v.len()
        invariant
            i <= v@.len(),
            crate::diff_lines::lines_view(out@) == strs_view(v@).take(i as int),
        decreases v.len() - i,
    {
        let ghost before = out@;
        let c = chars_of(v[i].as_str());
        out.push(c);
        proof {
            crate::diff_lines::lemma_lines_view_push(before, c);
            assert(strs_view(v@).take(i + 1) =~= strs_view(v@).take(i as int).push(c@));
        }
        i = i + 1;
    }
    assert(strs_view(v@).take(i as int) =~= strs_view(v@));
    out
}

impl TestOracle {
    /// A fix strategy as a sentence (see [`fix_text`]).
    pub fn format_fix_strategy(strategy: &FixStrategy) -> (r: String)
        ensures
            r@ == fix_text(fix_view(*strategy)),
    {
        let v = match strategy {
            FixStrategy::AddImport { module } => {
                let mut v = chars_of("Add missing import: `");
                crate::text::push_str(&mut v, module.as_str());
                crate::text::push_str(&mut v, "`");
                v
            },
            FixStrategy::FixType { expected, actual } => {
                let mut v = chars_of("Fix type: change `");
                crate::text::push_str(&mut v, actual.as_str());
                crate::text::push_str(&mut v, "` to `");
                crate::text::push_str(&mut v, expected.as_str());
                crate::text::push_str(&mut v, "`");
                v
            },
            FixStrategy::UpdateAssertion => chars_of("Update the assertion's expected value"),
            FixStrategy::AddErrorHandling => chars_of("Replace `.unwrap()`/`.expect()` with proper error handling"),
            FixStrategy::FixLogic { hint } => {
                let mut v = chars_of("Fix logic: ");
                crate::text::push_str(&mut v, hint.as_str());
                v
            },
            FixStrategy::AddMissing { what } => {
                let mut v = chars_of("Add missing: `");
                crate::text::push_str(&mut v, what.as_str());
                crate::text::push_str(&mut v, "`");
                v
            },
            FixStrategy::FixPerformance => chars_of("Increase timeout or optimize the code for performance"),
            FixStrategy::Investigate { suggestion } => {
                let mut v = chars_of("Investigate: ");
                crate::text::push_str(&mut v, suggestion.as_str());
                v
            },
        };
        string_of(&v)
    }

    /// The prompt asking to fix a failing test (see [`fix_prompt_spec`]).
    #[verifier::spinoff_prover]
    #[verifier::rlimit(40)]
    pub fn fix_prompt(analysis: &FailureAnalysis) -> (r: String)
        ensures
            r@ == fix_prompt_spec(*analysis),
    {
        let mut p = chars_of("## Fix Failing Test\n\n");
        crate::text::push_str(&mut p, "**Test:** `");
        crate::text::push_str(&mut p, analysis.test_name.as_str());
        crate::text::push_str(&mut p, "`\n");
        crate::text::push_str(&mut p, "**Error type:** ");
        crate::text::push_chars(&mut p, &error_type_text(&analysis.error_type));
        crate::text::push_str(&mut p, "\n");
        crate::text::push_str(&mut p, "**Error message:** ");
        crate::text::push_str(&mut p, analysis.error_message.as_str());
        crate::text::push_str(&mut p, "\n");
        let ghost head = p@;
        match &analysis.source_file {
            Some(f) => {
                crate::text::push_str(&mut p, "**File:** `");
                crate::text::push_str(&mut p, f.as_str());
                crate::text::push_str(&mut p, "`");
                match analysis.source_line {
                    Some(l) => {
                        crate::text::push_str(&mut p, " (line ");
                        crate::text::push_chars(&mut p, &crate::text::decimal_chars(l));
                        crate::text::push_str(&mut p, ")");
                    },
                    None => {},
                }
                crate::text::push_str(&mut p, "\n");
            },
            None => {},
        }
        let ghost mid = p@;
        crate::text::push_str(&mut p, "**Likely cause:** ");
        crate::text::push_str(&mut p, analysis.likely_cause.as_str());
        crate::text::push_str(&mut p, "\n");
        crate::text::push_str(&mut p, "**Fix strategy:** ");
        let fs = Self::format_fix_strategy(&analysis.fix_strategy);
        crate::text::push_str(&mut p, fs.as_str());
        crate::text::push_str(&mut p, "\n");
        let ghost mid2 = p@;
        if analysis.related_symbols.len() > 0 {
            crate::text::push_str(&mut p, "**Related symbols:** ");
            let syms = strings_chars(&analysis.related_symbols);
            crate::text::push_chars(&mut p, &crate::diff_lines::join_with(&syms, &chars_of(", ")));
            crate::text::push_str(&mut p, "\n");
        }
        crate::text::push_str(&mut p, "\n### Instructions\n\n");
        crate::text::push_str(&mut p, "1. Read the source file at the indicated location.\n");
        crate::text::push_str(&mut p, "2. Apply the suggested fix strategy.\n");
        crate::text::push_str(&mut p, "3. Run the test again to verify it passes.\n");
        crate::text::push_str(&mut p, "4. Ensure no other tests are broken by the change.\n");
        assert(p@ =~= fix_prompt_spec(*analysis));
        string_of(&p)
    }

    /// The framework hint for a lower-cased language name (see
    /// [`framework_hint`]).
    pub fn framework_hint_for(lower: &str) -> (r: &'static str)
        ensures
            r@ == framework_hint(lower@),
    {
        let l = chars_of(lower);
        if crate::text::eq_str(&l, "rust") {
            "Use `#[test]` and `assert_eq!`/`assert!` macros. Follow `cargo test` conventions."
        } else if crate::text::eq_str(&l, "python") {
            "Use `pytest` conventions. Name test functions with `test_` prefix."
        } else if crate::text::eq_str(&l, "javascript") || crate::text::eq_str(&l, "typescript")
            || crate::text::eq_str(&l, "js") || crate::text::eq_str(&l, "ts") {
            "Use `jest` conventions with `describe`/`it`/`expect`."
        } else if crate::text::eq_str(&l, "go") {
            "Use Go testing conventions with `func TestXxx(t *testing.T)`."
        } else {
            "Use the standard testing framework for the language."
        }
    }

    /// The prompt asking for a failing test of a feature, with the hint of
    /// the lower-cased language (see [`test_prompt_spec`]).
    pub fn test_prompt(feature_description: &str, language: &str) -> (r: String)
        ensures
            r@ == test_prompt_spec(
                feature_description@,
                language@,
                framework_hint(crate::text::spec_to_lowercase(language@)),
            ),
    {
        let lower = string_of(&crate::text::to_lowercase(&chars_of(language)));
        let hint = Self::framework_hint_for(lower.as_str());
        let mut p = chars_of("## Write a Failing Test (TDD Red Phase)\n\n**Feature:** ");
        crate::text::push_str(&mut p, feature_description);
        crate::text::push_str(&mut p, "\n**Language:** ");
        crate::text::push_str(&mut p, language);
        crate::text::push_str(&mut p, "\n**Framework:** ");
        crate::text::push_str(&mut p, hint);
        crate::text::push_str(
            &mut p,
            "\n\n### Instructions\n\n1. Write a test that describes the expected behavior of the feature.\n2. The test MUST fail when run (since the feature is not implemented yet).\n3. Keep the test focused on a single behavior.\n4. Use descriptive test names that explain what is being tested.\n5. Include edge cases if the feature has boundary conditions.\n",
        );
        assert(p@ =~= test_prompt_spec(feature_description@, language@, hint@));
        string_of(&p)
    }
}

// ---------------------------------------------------------------------------
// TDD cycle
// ---------------------------------------------------------------------------

/// State of the TDD cycle.
#[derive(Debug, Clone, Copy, PartialEq, Eq, Structural)]
pub enum TddPhase {
    /// Write a failing test (Red).
    Red,
    /// Make the test pass with minimal code (Green).
    Green,
    /// Improve code quality without changing behavior (Refactor).
    Refactor,
    /// All tests pass, cycle complete.
    Complete,
}

/// A single iteration within a TDD cycle.
#[derive(Debug, Clone)]
pub struct TddIteration {
    /// The phase during this iteration.
    pub phase: TddPhase,
    /// Action taken (e.g., "wrote failing test", "implemented function").
    pub action: String,
    /// Test result after the action, if a test was run.
    pub test_result: Option<TestStatus>,
    /// Free-form notes about what happened.
    pub notes: String,
}

/// TDD cycle state machine: the current phase, the iteration count and the
/// history of actions.
#[derive(Debug, Clone)]
pub struct TddCycle {
    /// Current phase of the TDD cycle.
    pub phase: TddPhase,
    /// Name of the test being targeted, if any.
    pub target_test: Option<String>,
    /// Number of iterations completed so far.
    pub iterations: usize,
    /// Maximum number of iterations before aborting.
    pub max_iterations: usize,
    /// History of TDD iterations.
    pub history: Vec<TddIteration>,
}

/// What an iteration holds, as plain values.
pub struct IterView {
    pub phase: TddPhase,
    pub action: Seq<char>,
    pub test_result: Option<TestStatus>,
    pub notes: Seq<char>,
}

/// What a cycle holds, as plain values.
pub struct CycleView {
    pub phase: TddPhase,
    pub target: Option<Seq<char>>,
    pub iterations: nat,
    pub max_iterations: nat,
    pub history: Seq<IterView>,
}

impl View for TddIteration {
    type V = IterView;

    open spec fn view(&self) -> IterView {
        IterView { phase: self.phase, action: self.action@, test_result: self.test_result, notes: self.notes@ }
    }
}

impl View for TddCycle {
    type V = CycleView;

    open spec fn view(&self) -> CycleView {
        CycleView {
            phase: self.phase,
            target: opt_view(self.target_test),
            iterations: self.iterations as nat,
            max_iterations: self.max_iterations as nat,
            history: self.history@.map_values(|i: TddIteration| i@),
        }
    }
}

/// The status of the first case whose name contains `target`.
pub open spec fn first_match(cs: Seq<CaseView>, target: Seq<char>) -> Option<TestStatus>
    decreases cs.len(),
{
    if cs.len() == 0 {
        None
    } else if contains(cs[0].name, target) {
        Some(cs[0].status)
    } else {
        first_match(cs.drop_first(), target)
    }
}

/// The names of the failed cases.
pub open spec fn failed_names(cs: Seq<CaseView>) -> Seq<Seq<char>> {
    failed_cases(cs).map_values(|c: CaseView| c.name)
}

/// The cycle with the phase `phase`, one more iteration, and `it` appended
/// to its history.
pub open spec fn record(c: CycleView, phase: TddPhase, it: IterView) -> CycleView {
    CycleView { phase, iterations: c.iterations + 1, history: c.history.push(it), ..c }
}

/// One step of the cycle for a test run with cases `cs` and the given
/// failed and error counts: the next cycle and the action to take.
///
/// Past the maximum number of iterations the cycle aborts. In Red, a
/// failing target moves to Green and a passing one to Refactor. In Green,
/// a run with no failures or errors moves to Refactor. In Refactor, such a
/// run completes the cycle, another goes back to Green.
pub open spec fn tdd_step(c: CycleView, cs: Seq<CaseView>, failed: nat, errors: nat) -> (CycleView, Seq<char>) {
    let all = failed == 0 && errors == 0;
    if c.iterations + 1 > c.max_iterations {
        let a = "TDD cycle aborted: exceeded maximum iterations ("@ + decimal(c.max_iterations) + ")"@;
        (record(c, TddPhase::Complete, IterView { phase: c.phase, action: a, test_result: None, notes: "Max iterations exceeded"@ }), a)
    } else {
        let target = match c.target {
            Some(t) => t,
            None => Seq::empty(),
        };
        let ts = first_match(cs, target);
        match c.phase {
            TddPhase::Red => if ts == Some(TestStatus::Failed) {
                let a = "Test '"@ + target + "' is failing as expected. Write minimal implementation to make it pass."@;
                (record(c, TddPhase::Green, IterView { phase: TddPhase::Red, action: a, test_result: Some(TestStatus::Failed), notes: "Target test is red, moving to green phase"@ }), a)
            } else if ts == Some(TestStatus::Passed) {
                let a = "Test '"@ + target + "' already passes. Skipping to refactor phase."@;
                (record(c, TddPhase::Refactor, IterView { phase: TddPhase::Red, action: a, test_result: Some(TestStatus::Passed), notes: "Target test was already passing"@ }), a)
            } else {
                let a = "Write a failing test for '"@ + target + "'. The test must fail before writing implementation."@;
                (record(c, TddPhase::Red, IterView { phase: TddPhase::Red, action: a, test_result: ts, notes: "Target test not found or errored"@ }), a)
            },
            TddPhase::Green => if all {
                let a = "All tests pass. Review the code for improvements (refactor phase)."@;
                (record(c, TddPhase::Refactor, IterView { phase: TddPhase::Green, action: a, test_result: Some(TestStatus::Passed), notes: "All tests green, moving to refactor"@ }), a)
            } else {
                let names = failed_names(cs);
                let a = "Tests still failing: ["@ + crate::text::join(names, ", "@) + "]. Fix the implementation to make them pass."@;
                (record(c, TddPhase::Green, IterView { phase: TddPhase::Green, action: a, test_result: Some(TestStatus::Failed), notes: decimal(names.len()) + " tests still failing"@ }), a)
            },
            TddPhase::Refactor => if all {
                let a = "Refactoring complete. All tests still pass. TDD cycle done."@;
                (record(c, TddPhase::Complete, IterView { phase: TddPhase::Refactor, action: a, test_result: Some(TestStatus::Passed), notes: "Refactor successful, cycle complete"@ }), a)
            } else {
                let a = "Refactoring broke tests! Go back to green phase and fix them."@;
                (record(c, TddPhase::Green, IterView { phase: TddPhase::Refactor, action: a, test_result: Some(TestStatus::Failed), notes: "Refactor broke tests, returning to green"@ }), a)
            },
            TddPhase::Complete => (
                CycleView { iterations: c.iterations + 1, ..c },
                "TDD cycle is already complete. Start a new cycle if needed."@,
            ),
        }
    }
}

/// The status of the first case whose name contains `target` (see
/// [`first_match`]).
fn first_match_exec(cases: &Vec<TestCase>, target: &[char]) -> (r: Option<TestStatus>)
    ensures
        r == first_match(cases_view(cases@), target@),
{
    let ghost cv = cases_view(cases@);
    let mut i: usize = 0;
    assert(cv.skip(0) =~= cv);
    while i < cases.len()
        invariant
            i <= cases@.len(),
            cv == cases_view(cases@),
            first_match(cv, target@) == first_match(cv.skip(i as int), target@),
        decreases cases.len() - i,
    {
        assert(cv.skip(i as int).drop_first() =~= cv.skip(i + 1));
        assert(cv.skip(i as int)[0] == cases@[i as int]@);
        if crate::text::contains_chars(&chars_of(cases[i].name.as_str()), target) {
            return Some(cases[i].status);
        }
        i = i + 1;
    }
    assert(cv.skip(i as int) =~= Seq::<CaseView>::empty());
    None
}

/// Appends an iteration to the history.
fn push_iteration(h: &mut Vec<TddIteration>, phase: TddPhase, action: &[char], test_result: Option<TestStatus>, notes: &[char])
    ensures
        final(h)@.map_values(|i: TddIteration| i@) == old(h)@.map_values(|i: TddIteration| i@).push(
            IterView { phase, action: action@, test_result, notes: notes@ },
        ),
{
    let ghost before = h@;
    let it = TddIteration { phase, action: string_of(action), test_result, notes: string_of(notes) };
    h.push(it);
    assert(h@.map_values(|i: TddIteration| i@) =~= before.map_values(|i: TddIteration| i@).push(it@));
}

impl TestOracle {
    /// Create a new TDD cycle targeting a test, in the Red phase, with no
    /// iterations and an empty history.
    pub fn start_tdd(target_test: &str, max_iterations: usize) -> (r: TddCycle)
        ensures
            r@ == (CycleView {
                phase: TddPhase::Red,
                target: Some(target_test@),
                iterations: 0,
                max_iterations: max_iterations as nat,
                history: Seq::empty(),
            }),
    {
        let r = TddCycle {
            phase: TddPhase::Red,
            target_test: Some(string_of(&chars_of(target_test))),
            iterations: 0,
            max_iterations,
            history: Vec::new(),
        };
        assert(r@.history =~= Seq::<IterView>::empty());
        r
    }

    /// Advance the TDD cycle on a test run (see [`tdd_step`]), returning the
    /// next action to take.
    pub fn advance_tdd(cycle: &mut TddCycle, summary: &TestRunSummary) -> (r: String)
        requires
            old(cycle).iterations < usize::MAX,
        ensures
            (final(cycle)@, r@) == tdd_step(old(cycle)@, cases_view(summary.cases@), summary.failed as nat, summary.errors as nat),
    {
        let ghost c0 = cycle@;
        cycle.iterations = cycle.iterations + 1;
        if cycle.iterations > cycle.max_iterations {
            let mut a = chars_of("TDD cycle aborted: exceeded maximum iterations (");
            crate::text::push_chars(&mut a, &crate::text::decimal_chars(cycle.max_iterations));
            crate::text::push_str(&mut a, ")");
            let phase = cycle.phase;
            push_iteration(&mut cycle.history, phase, &a, None, &chars_of("Max iterations exceeded"));
            cycle.phase = TddPhase::Complete;
            assert(cycle@ =~= tdd_step(c0, cases_view(summary.cases@), summary.failed as nat, summary.errors as nat).0);
            return string_of(&a);
        }
        let target = match &cycle.target_test {
            Some(t) => chars_of(t.as_str()),
            None => Vec::new(),
        };
        let ts = first_match_exec(&summary.cases, &target);
        let all = Self::all_passing(summary);
        let a = match cycle.phase {
            TddPhase::Red => {
                if ts == Some(TestStatus::Failed) {
                    let mut a = chars_of("Test '");
                    crate::text::push_chars(&mut a, &target);
                    crate::text::push_str(&mut a, "' is failing as expected. Write minimal implementation to make it pass.");
                    push_iteration(&mut cycle.history, TddPhase::Red, &a, Some(TestStatus::Failed), &chars_of("Target test is red, moving to green phase"));
                    cycle.phase = TddPhase::Green;
                    a
                } else if ts == Some(TestStatus::Passed) {
                    let mut a = chars_of("Test '");
                    crate::text::push_chars(&mut a, &target);
                    crate::text::push_str(&mut a, "' already passes. Skipping to refactor phase.");
                    push_iteration(&mut cycle.history, TddPhase::Red, &a, Some(TestStatus::Passed), &chars_of("Target test was already passing"));
                    cycle.phase = TddPhase::Refactor;
                    a
                } else {
                    let mut a = chars_of("Write a failing test for '");
                    crate::text::push_chars(&mut a, &target);
                    crate::text::push_str(&mut a, "'. The test must fail before writing implementation.");
                    push_iteration(&mut cycle.history, TddPhase::Red, &a, ts, &chars_of("Target test not found or errored"));
                    a
                }
            },
            TddPhase::Green => {
                if all {
                    let a = chars_of("All tests pass. Review the code for improvements (refactor phase).");
                    push_iteration(&mut cycle.history, TddPhase::Green, &a, Some(TestStatus::Passed), &chars_of("All tests green, moving to refactor"));
                    cycle.phase = TddPhase::Refactor;
                    a
                } else {
                    let failures = Self::failures(summary);
                    let mut names: Vec<Vec<char>> = Vec::new();
                    let mut k: usize = 0;
                    while k < failures.len()
                        invariant
                            k <= failures@.len(),
                            crate::diff_lines::lines_view(names@) == failures@.map_values(|c: &TestCase| c@.name).take(k as int),
                        decreases failures.len() - k,
                    {
                        let ghost before = names@;
                        let nm = chars_of(failures[k].name.as_str());
                        names.push(nm);
                        proof {
                            crate::diff_lines::lemma_lines_view_push(before, nm);
                            assert(failures@.map_values(|c: &TestCase| c@.name).take(k + 1) =~= failures@.map_values(|c: &TestCase| c@.name).take(k as int).push(nm@));
                        }
                        k = k + 1;
                    }
                    proof {
                        assert(failures@.map_values(|c: &TestCase| c@.name).take(k as int) =~= failures@.map_values(|c: &TestCase| c@.name));
                        assert(failures@.map_values(|c: &TestCase| c@.name) =~= failed_names(cases_view(summary.cases@)));
                    }
                    let mut a = chars_of("Tests still failing: [");
                    crate::text::push_chars(&mut a, &crate::diff_lines::join_with(&names, &chars_of(", ")));
                    crate::text::push_str(&mut a, "]. Fix the implementation to make them pass.");
                    let mut notes = crate::text::decimal_chars(failures.len());
                    crate::text::push_str(&mut notes, " tests still failing");
                    push_iteration(&mut cycle.history, TddPhase::Green, &a, Some(TestStatus::Failed), &notes);
                    a
                }
            },
            TddPhase::Refactor => {
                if all {
                    let a = chars_of("Refactoring complete. All tests still pass. TDD cycle done.");
                    push_iteration(&mut cycle.history, TddPhase::Refactor, &a, Some(TestStatus::Passed), &chars_of("Refactor successful, cycle complete"));
                    cycle.phase = TddPhase::Complete;
                    a
                } else {
                    let a = chars_of("Refactoring broke tests! Go back to green phase and fix them.");
                    push_iteration(&mut cycle.history, TddPhase::Refactor, &a, Some(TestStatus::Failed), &chars_of("Refactor broke tests, returning to green"));
                    cycle.phase = TddPhase::Green;
                    a
                }
            },
            TddPhase::Complete => chars_of("TDD cycle is already complete. Start a new cycle if needed."),
        };
        assert(cycle@ =~= tdd_step(c0, cases_view(summary.cases@), summary.failed as nat, summary.errors as nat).0);
        string_of(&a)
    }
}

// ---------------------------------------------------------------------------
// Laws of the TDD cycle
// ---------------------------------------------------------------------------

/// Every step counts one iteration.
pub proof fn law_tdd_counts_iterations(c: CycleView, cs: Seq<CaseView>, failed: nat, errors: nat)
    ensures
        tdd_step(c, cs, failed, errors).0.iterations == c.iterations + 1,
        tdd_step(c, cs, failed, errors).0.max_iterations == c.max_iterations,
        tdd_step(c, cs, failed, errors).0.target == c.target,
{
}

/// A complete cycle stays complete.
pub proof fn law_tdd_complete_is_final(c: CycleView, cs: Seq<CaseView>, failed: nat, errors: nat)
    requires
        c.phase == TddPhase::Complete,
    ensures
        tdd_step(c, cs, failed, errors).0.phase == TddPhase::Complete,
{
}

/// A step past the maximum number of iterations completes the cycle and
/// records the abort.
pub proof fn law_tdd_aborts_past_max(c: CycleView, cs: Seq<CaseView>, failed: nat, errors: nat)
    requires
        c.iterations >= c.max_iterations,
    ensures
        tdd_step(c, cs, failed, errors).0.phase == TddPhase::Complete,
        tdd_step(c, cs, failed, errors).0.history.len() == c.history.len() + 1,
        tdd_step(c, cs, failed, errors).0.history.last().test_result is None,
{
}

/// The history only grows, by one entry per step, except for a step on a
/// complete cycle within its iterations.
pub proof fn law_tdd_history_grows(c: CycleView, cs: Seq<CaseView>, failed: nat, errors: nat)
    ensures
        ({
            let h = tdd_step(c, cs, failed, errors).0.history;
            if c.phase == TddPhase::Complete && c.iterations + 1 <= c.max_iterations {
                h == c.history
            } else {
                h.len() == c.history.len() + 1 && h.take(c.history.len() as int) == c.history
            }
        }),
{
    let h = tdd_step(c, cs, failed, errors).0.history;
    if !(c.phase == TddPhase::Complete && c.iterations + 1 <= c.max_iterations) {
        assert(h.take(c.history.len() as int) =~= c.history);
    }
}

/// Within its iterations, Red moves to Green exactly when the target test
/// fails, and Refactor completes exactly when no test fails or errs.
pub proof fn law_tdd_transitions(c: CycleView, cs: Seq<CaseView>, failed: nat, errors: nat)
    requires
        c.iterations + 1 <= c.max_iterations,
    ensures
        c.phase == TddPhase::Red ==> (tdd_step(c, cs, failed, errors).0.phase == TddPhase::Green
            <==> first_match(cs, match c.target {
                Some(t) => t,
                None => Seq::empty(),
            }) == Some(TestStatus::Failed)),
        c.phase == TddPhase::Refactor ==> (tdd_step(c, cs, failed, errors).0.phase == TddPhase::Complete
            <==> (failed == 0 && errors == 0)),
        c.phase == TddPhase::Green ==> (tdd_step(c, cs, failed, errors).0.phase == TddPhase::Refactor
            <==> (failed == 0 && errors == 0)),
{
}

/// Classifying ASCII text ignores its case: by the contract of
/// [`TestOracle::classify_error`] an ASCII message is classified by its
/// ASCII lower-casing, and the message, its upper-cased form and its
/// lower-cased form (all ASCII) lower-case to the same text.
pub proof fn law_classify_ignores_case(m: Seq<char>)
    requires
        crate::text::all_ascii(m),
    ensures
        crate::text::all_ascii(crate::text::ascii_upper(m)),
        crate::text::all_ascii(crate::text::ascii_lower(m)),
        classify_lower(crate::text::ascii_lower(crate::text::ascii_upper(m))) == classify_lower(crate::text::ascii_lower(m)),
        classify_lower(crate::text::ascii_lower(crate::text::ascii_lower(m))) == classify_lower(crate::text::ascii_lower(m)),
{
    crate::text::lemma_ascii_case(m);
}

// ---------------------------------------------------------------------------
// What the result words and the error keywords mean
// ---------------------------------------------------------------------------

/// A pytest result line reports its test as passed, failed, skipped or
/// errored exactly for the words `PASSED`, `FAILED`, `SKIPPED` and `ERROR`
/// (any other word counts as an error, never as a pass or a skip); its
/// message is the text after ` - `, if any; a name without `::` has no file.
pub proof fn law_pytest_result_words(g: Seq<Option<Seq<char>>>)
    ensures
        grp(g, 1) == "PASSED"@ ==> pytest_case(g).status == TestStatus::Passed,
        grp(g, 1) == "FAILED"@ ==> pytest_case(g).status == TestStatus::Failed,
        grp(g, 1) == "SKIPPED"@ ==> pytest_case(g).status == TestStatus::Skipped,
        grp(g, 1) == "ERROR"@ ==> pytest_case(g).status == TestStatus::Error,
        (pytest_case(g).status == TestStatus::Passed) == (grp(g, 1) == "PASSED"@),
        (pytest_case(g).status == TestStatus::Failed) == (grp(g, 1) == "FAILED"@),
        (pytest_case(g).status == TestStatus::Skipped) == (grp(g, 1) == "SKIPPED"@),
        pytest_case(g).error_message == (if 3 < g.len() { g[3] } else { None::<Seq<char>> }),
        pytest_case(g).duration_ms is None,
        pytest_case(g).file is None ==> pytest_case(g).name == grp(g, 2) && !contains(grp(g, 2), "::"@),
        pytest_case(g).file matches Some(f) ==> grp(g, 2) == f + "::"@ + pytest_case(g).name && !contains(f, "::"@),
{
    reveal_strlit("::");
    crate::text::lemma_first_occurrence_found(grp(g, 2), "::"@, 0);
    let full = grp(g, 2);
    match crate::text::first_occurrence(full, "::"@, 0) {
        Some(p) => {
            assert(0 <= p && crate::text::occurs_at(full, "::"@, p));
            assert(full.subrange(p, p + 2) == "::"@);
            assert(full =~= full.take(p) + "::"@ + full.skip(p + 2));
            if contains(full.take(p), "::"@) {
                let j = choose|j: int| crate::text::occurs_at(full.take(p), "::"@, j);
                assert(0 <= j && j + 2 <= p);
                assert(full.take(p).subrange(j, j + 2) =~= full.subrange(j, j + 2));
                assert(crate::text::occurs_at(full, "::"@, j));
            }
        },
        None => {
            if contains(full, "::"@) {
                let j = choose|j: int| crate::text::occurs_at(full, "::"@, j);
            }
        },
    }
    reveal_strlit("PASSED");
    reveal_strlit("FAILED");
    reveal_strlit("SKIPPED");
    reveal_strlit("ERROR");
    assert("PASSED"@[0] == 'P');
    assert("FAILED"@[0] == 'F');
    assert("SKIPPED"@[0] == 'S');
    assert("ERROR"@[0] == 'E');
}

/// A cargo result line reports its test as passed, failed or skipped
/// exactly for the trimmed words `ok`, `FAILED` and `ignored`; any other
/// word is an error.
pub proof fn law_cargo_result_words(g: Seq<Option<Seq<char>>>, blocks: Seq<(Seq<char>, Seq<char>)>)
    ensures
        (cargo_case(g, blocks).status == TestStatus::Passed) == (crate::text::trim(grp(g, 2)) == "ok"@),
        (cargo_case(g, blocks).status == TestStatus::Failed) == (crate::text::trim(grp(g, 2)) == "FAILED"@),
        (cargo_case(g, blocks).status == TestStatus::Skipped) == (crate::text::trim(grp(g, 2)) == "ignored"@),
        cargo_case(g, blocks).name == grp(g, 1),
{
    reveal_strlit("ok");
    reveal_strlit("FAILED");
    reveal_strlit("ignored");
    assert("ok"@[0] == 'o');
    assert("FAILED"@[0] == 'F');
    assert("ignored"@[0] == 'i');
}

/// A go result line reports its test as passed, failed or skipped exactly
/// for the words `PASS`, `FAIL` and `SKIP`; any other word is an error.
pub proof fn law_go_result_words(g: Seq<Option<Seq<char>>>, after: Seq<(Seq<char>, Detail)>, before: Seq<(Seq<char>, Detail)>)
    ensures
        (go_case(g, after, before).status == TestStatus::Passed) == (grp(g, 1) == "PASS"@),
        (go_case(g, after, before).status == TestStatus::Failed) == (grp(g, 1) == "FAIL"@),
        (go_case(g, after, before).status == TestStatus::Skipped) == (grp(g, 1) == "SKIP"@),
        go_case(g, after, before).name == grp(g, 2),
{
    reveal_strlit("PASS");
    reveal_strlit("FAIL");
    reveal_strlit("SKIP");
    assert("PASS"@[0] == 'P');
    assert("FAIL"@[0] == 'F');
    assert("SKIP"@[0] == 'S');
}

/// The keyword table of error classification, on a lower-cased message,
/// in order of precedence: a compiler error code, a denied permission, a
/// timeout, an unwrap or expect panic, a type mismatch, an assertion, a
/// missing item, a 404, a runtime crash, an expected/got pair; a message
/// with none of these is unknown.
#[verifier::spinoff_prover]
#[verifier::rlimit(40)]
pub proof fn law_error_keywords(l: Seq<char>)
    ensures
        ({
            let compile = contains(l, "error[e"@);
            let perm = contains(l, "permission denied"@);
            let time = contains(l, "timeout"@) || contains(l, "timed out"@);
            let unwrap = contains(l, "called `option::unwrap()` on a `none` value"@) || contains(
                l,
                "called `result::unwrap()` on an `err` value"@,
            ) || contains(l, "called `.unwrap()`"@) || contains(l, "called `.expect()`"@) || contains(
                l,
                "panicked at 'called `option::unwrap()`"@,
            ) || contains(l, "panicked at 'called `result::unwrap()`"@);
            let types = contains(l, "type mismatch"@) || contains(l, "mismatched types"@) || (contains(l, "expected"@)
                && contains(l, "found"@));
            let assertion = contains(l, "assertion"@) || contains(l, "assert_eq"@) || contains(l, "assert_ne"@)
                || contains(l, "assert!"@) || contains(l, "assertionerror"@);
            let missing = contains(l, "cannot find"@) || contains(l, "not found"@) || contains(l, "unresolved"@)
                || contains(l, "no such file"@) || contains(l, "module not found"@) || contains(l, "import error"@);
            let nf = contains(l, "404"@) || contains(l, "resource not found"@);
            let crash = contains(l, "runtime error"@) || contains(l, "segmentation fault"@) || contains(
                l,
                "stack overflow"@,
            );
            let logic = contains(l, "expected"@) && contains(l, "got"@);
            &&& compile ==> classify_lower(l) == ErrorType::CompilationError
            &&& !compile && perm ==> classify_lower(l) == ErrorType::PermissionDenied
            &&& !compile && !perm && time ==> classify_lower(l) == ErrorType::Timeout
            &&& !compile && !perm && !time && unwrap ==> classify_lower(l) == ErrorType::PanicUnwrap
            &&& !compile && !perm && !time && !unwrap && types ==> classify_lower(l) == ErrorType::TypeMismatch
            &&& !compile && !perm && !time && !unwrap && !types && assertion ==> classify_lower(l)
                == ErrorType::AssertionFailure
            &&& !compile && !perm && !time && !unwrap && !types && !assertion && missing ==> classify_lower(l)
                == ErrorType::MissingImport
            &&& !compile && !perm && !time && !unwrap && !types && !assertion && !missing && nf ==> classify_lower(
                l,
            ) == ErrorType::NotFound
            &&& !compile && !perm && !time && !unwrap && !types && !assertion && !missing && !nf && crash
                ==> classify_lower(l) == ErrorType::RuntimeError
            &&& !compile && !perm && !time && !unwrap && !types && !assertion && !missing && !nf && !crash && logic
                ==> classify_lower(l) == ErrorType::LogicError
            &&& !compile && !perm && !time && !unwrap && !types && !assertion && !missing && !nf && !crash && !logic
                ==> classify_lower(l) == ErrorType::Unknown
        }),
{
}

/// The framework table of test output, in order of precedence: a cargo
/// summary or `running N tests` line; go result markers; pytest result
/// words with `::` names or a ` passed` count (jest when it also has a
/// `Tests:` line and no ` passed in `); jest markers; otherwise unknown.
pub proof fn law_framework_table(o: Seq<char>)
    ensures
        ({
            let cargo = contains(o, "test result:"@) || regex_first(RUNNING_TESTS@, o) is Some;
            let go = contains(o, "--- PASS:"@) || contains(o, "--- FAIL:"@);
            let py = (contains(o, "PASSED"@) || contains(o, "FAILED"@)) && (contains(o, "::"@) || contains(o, " passed"@));
            let jest_summary = contains(o, "Tests:"@) && !contains(o, " passed in "@);
            let jest = contains(o, "Tests:"@) || contains(o, "\u{2713}"@) || contains(o, "\u{2715}"@);
            &&& cargo ==> detect_spec(o) == TestFramework::CargoTest
            &&& !cargo && go ==> detect_spec(o) == TestFramework::GoTest
            &&& !cargo && !go && py && !jest_summary ==> detect_spec(o) == TestFramework::Pytest
            &&& !cargo && !go && py && jest_summary ==> detect_spec(o) == TestFramework::Jest
            &&& !cargo && !go && !py && jest ==> detect_spec(o) == TestFramework::Jest
            &&& !cargo && !go && !py && !jest ==> detect_spec(o) == TestFramework::Unknown
        }),
{
}

/// The kind of fix suggested for each kind of error: an import for a
/// missing import, a type fix for a mismatch, an assertion update, error
/// handling for an unwrap panic, a performance fix for a timeout, a logic
/// fix for a logic error, the missing item for a not-found error (and for
/// a compilation error that says something cannot be found), and an
/// investigation otherwise.
pub proof fn law_fix_kinds(et: ErrorType, m: Seq<char>, lower: Seq<char>)
    ensures
        et == ErrorType::MissingImport ==> suggest_spec(et, m, lower) is AddImport,
        et == ErrorType::TypeMismatch ==> suggest_spec(et, m, lower) is FixType,
        et == ErrorType::AssertionFailure ==> suggest_spec(et, m, lower) == FixView::UpdateAssertion,
        et == ErrorType::PanicUnwrap ==> suggest_spec(et, m, lower) == FixView::AddErrorHandling,
        et == ErrorType::Timeout ==> suggest_spec(et, m, lower) == FixView::FixPerformance,
        et == ErrorType::LogicError ==> suggest_spec(et, m, lower) is FixLogic,
        et == ErrorType::NotFound ==> suggest_spec(et, m, lower) is AddMissing,
        et == ErrorType::CompilationError ==> ((suggest_spec(et, m, lower) is AddMissing) == (contains(
            lower,
            "cannot find"@,
        ) || contains(lower, "not found"@))),
        et == ErrorType::PermissionDenied || et == ErrorType::RuntimeError || et == ErrorType::Unknown
            ==> suggest_spec(et, m, lower) is Investigate,
{
}

} // verus!
