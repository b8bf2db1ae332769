//! Evaluation of agent outputs against the expectations of a case: exact
//! match, expected and forbidden substrings, JSON shape, and token overlap.
//!
//! Scores are kept as exact fractions: a case's score is the mean of the
//! fractions in [`CaseResult::score`], each in `[0, 1]`.
use vstd::prelude::*;
use std::time::Duration;
use crate::text::{
    chars_of, string_of, push_str, to_lowercase, contains, contains_chars, spec_to_lowercase,
    chars_eq,
};
use crate::structured_output::{
    JsonValue, JsonView, json_view, json_parse, parse_json, member_from, members_view, find_member,
    more_than_two_bytes, owned, copy_text, texts_view, lemma_member_from,
};
use crate::diff_parse::{words, words_exec};
use crate::diff_lines::lines_view;
use crate::cost_complexity::utf8_len;
use crate::circuit_breaker::{instant_now, instant_elapsed};

verus! {

/// `Duration::as_millis`, narrowed to `u64` as the callers store it.
/// Nothing is stated of the result: durations are opaque here.
#[verifier::external_body]
fn duration_millis(d: &Duration) -> (r: u64) {
    d.as_millis() as u64
}

/// Milliseconds since `start` on the monotonic clock; nothing is stated of
/// the value.
fn millis_since(start: &std::time::Instant) -> (r: u64) {
    let d = instant_elapsed(start);
    duration_millis(&d)
}

/// A fraction `num / den`.
#[derive(Debug, Clone, Copy, PartialEq, Eq, Structural)]
pub struct Ratio {
    /// Numerator.
    pub num: u64,
    /// Denominator.
    pub den: u64,
}

/// One when `b` holds, else zero.
pub open spec fn ratio_of(b: bool) -> Ratio {
    if b {
        Ratio { num: 1, den: 1 }
    } else {
        Ratio { num: 0, den: 1 }
    }
}

/// `k` out of `n`, or one when there is nothing to count.
pub open spec fn fraction(k: nat, n: nat) -> Ratio {
    if n == 0 {
        Ratio { num: 1, den: 1 }
    } else {
        Ratio { num: k as u64, den: n as u64 }
    }
}

/// A single evaluation scenario with expected outputs and constraints.
#[derive(Debug)]
pub struct EvalCase {
    /// Unique identifier.
    pub id: String,
    /// The input prompt or question.
    pub input: String,
    /// If set, the output must match exactly.
    pub expected_output: Option<String>,
    /// The output must contain all of these (ignoring case).
    pub expected_contains: Vec<String>,
    /// The output must contain none of these (ignoring case).
    pub expected_not_contains: Vec<String>,
    /// If set, the output must be JSON of this shape.
    pub expected_json_schema: Option<JsonValue>,
    /// Reference answer for similarity scoring.
    pub reference_answer: Option<String>,
    /// Tags for grouping.
    pub tags: Vec<String>,
    /// Optional maximum token budget.
    pub max_tokens: Option<u64>,
    /// Category for grouped reporting.
    pub category: String,
}

impl EvalCase {
    /// A case with only an id, an input and a category.
    pub fn new(id: &str, input: &str, category: &str) -> (r: Self)
        ensures
            r.id@ == id@,
            r.input@ == input@,
            r.category@ == category@,
            r.expected_output is None,
            r.expected_contains@.len() == 0,
            r.expected_not_contains@.len() == 0,
            r.expected_json_schema is None,
            r.reference_answer is None,
            r.tags@.len() == 0,
            r.max_tokens is None,
    {
        EvalCase {
            id: owned(id),
            input: owned(input),
            expected_output: None,
            expected_contains: Vec::new(),
            expected_not_contains: Vec::new(),
            expected_json_schema: None,
            reference_answer: None,
            tags: Vec::new(),
            max_tokens: None,
            category: owned(category),
        }
    }
}

/// A named collection of evaluation cases.
#[derive(Debug)]
pub struct EvalSuite {
    /// Unique identifier.
    pub id: String,
    /// Human-readable name.
    pub name: String,
    /// What the suite tests.
    pub description: String,
    /// The cases, in order.
    pub cases: Vec<EvalCase>,
    /// Metadata as key/value pairs.
    pub metadata: Vec<(String, String)>,
}

impl EvalSuite {
    /// An empty suite.
    pub fn new(id: &str, name: &str, description: &str) -> (r: Self)
        ensures
            r.id@ == id@,
            r.name@ == name@,
            r.description@ == description@,
            r.cases@.len() == 0,
            r.metadata@.len() == 0,
    {
        EvalSuite {
            id: owned(id),
            name: owned(name),
            description: owned(description),
            cases: Vec::new(),
            metadata: Vec::new(),
        }
    }

    /// The suite with one more case at the end.
    pub fn with_case(self, case: EvalCase) -> (r: Self)
        ensures
            r.id == self.id,
            r.name == self.name,
            r.description == self.description,
            r.cases@ == self.cases@.push(case),
            r.metadata == self.metadata,
    {
        let mut s = self;
        s.cases.push(case);
        s
    }
}

/// The result of evaluating one case.
#[derive(Debug)]
pub struct CaseResult {
    /// The case evaluated.
    pub case_id: String,
    /// Whether the case passed.
    pub passed: bool,
    /// The score is the mean of these fractions.
    pub score: Vec<Ratio>,
    /// Named parts of the score, in the order they were checked.
    pub details: Vec<(String, Ratio)>,
    /// The output that was evaluated.
    pub actual_output: String,
    /// Wall-clock duration in milliseconds.
    pub duration_ms: u64,
    /// The problems found.
    pub errors: Vec<String>,
}

/// Named fractions as plain values.
pub open spec fn details_view(d: Seq<(String, Ratio)>) -> Seq<(Seq<char>, Ratio)> {
    d.map_values(|p: (String, Ratio)| (p.0@, p.1))
}

/// An evaluation strategy.
pub trait Evaluator {
    /// Evaluates `actual_output` against the expectations of `case`.
    fn evaluate(&self, case: &EvalCase, actual_output: &str) -> CaseResult;
}

/// Builds a result from its parts.
fn make_result(
    case: &EvalCase,
    passed: bool,
    score: Vec<Ratio>,
    details: Vec<(String, Ratio)>,
    actual_output: &str,
    start: &std::time::Instant,
    errors: Vec<String>,
) -> (r: CaseResult)
    ensures
        r.case_id@ == case.id@,
        r.passed == passed,
        r.score == score,
        r.details == details,
        r.actual_output@ == actual_output@,
        r.errors == errors,
{
    CaseResult {
        case_id: copy_text(&case.id),
        passed,
        score,
        details,
        actual_output: owned(actual_output),
        duration_ms: millis_since(start),
        errors,
    }
}

/// A named fraction.
fn named(name: &str, r: Ratio) -> (p: (String, Ratio))
    ensures
        p.0@ == name@,
        p.1 == r,
{
    (owned(name), r)
}

/// Text between two literals: `a`, then `x`, then `b`.
fn wrap(a: &str, x: &str, b: &str) -> (r: String)
    ensures
        r@ == a@ + x@ + b@,
{
    let mut v: Vec<char> = Vec::new();
    push_str(&mut v, a);
    push_str(&mut v, x);
    push_str(&mut v, b);
    assert(v@ =~= a@ + x@ + b@);
    string_of(&v)
}

// ---------------------------------------------------------------------------
// Exact match
// ---------------------------------------------------------------------------

/// Binary pass/fail on exact match with the expected output.
#[derive(Debug, Default)]
pub struct ExactMatchEvaluator;

/// `r` is what exact matching gives: with an expected output, a pass iff
/// the output equals it, else an error quoting both; without one, a pass.
pub open spec fn exact_match_outcome(case: EvalCase, actual: Seq<char>, r: CaseResult) -> bool {
    &&& r.case_id@ == case.id@
    &&& r.actual_output@ == actual
    &&& match case.expected_output {
        Some(e) => {
            let m = actual == e@;
            &&& r.passed == m
            &&& r.score@ == seq![ratio_of(m)]
            &&& details_view(r.details@) == seq![("exact_match"@, ratio_of(m))]
            &&& texts_view(r.errors@) == (if m {
                Seq::<Seq<char>>::empty()
            } else {
                seq!["Expected exact output '"@ + e@ + "', got '"@ + actual + "'"@]
            })
        },
        None => {
            &&& r.passed
            &&& r.score@ == seq![ratio_of(true)]
            &&& details_view(r.details@) == seq![("exact_match"@, ratio_of(true))]
            &&& r.errors@.len() == 0
        },
    }
}

impl Evaluator for ExactMatchEvaluator {
    fn evaluate(&self, case: &EvalCase, actual_output: &str) -> (r: CaseResult)
        ensures
            exact_match_outcome(*case, actual_output@, r),
    {
        let start = instant_now();
        let mut errors: Vec<String> = Vec::new();
        let (passed, ratio) = match &case.expected_output {
            Some(expected) => {
                let matched = chars_eq(&chars_of(actual_output), &chars_of(expected.as_str()));
                if !matched {
                    let mut v: Vec<char> = Vec::new();
                    push_str(&mut v, "Expected exact output '");
                    push_str(&mut v, expected.as_str());
                    push_str(&mut v, "', got '");
                    push_str(&mut v, actual_output);
                    push_str(&mut v, "'");
                    assert(v@ =~= "Expected exact output '"@ + expected@ + "', got '"@ + actual_output@ + "'"@);
                    errors.push(string_of(&v));
                }
                let r = if matched { Ratio { num: 1, den: 1 } } else { Ratio { num: 0, den: 1 } };
                (matched, r)
            },
            None => (true, Ratio { num: 1, den: 1 }),
        };
        let details = vec![named("exact_match", ratio)];
        assert(details_view(details@) =~= seq![("exact_match"@, ratio)]);
        assert(texts_view(errors@) =~= (if passed {
            Seq::<Seq<char>>::empty()
        } else {
            seq!["Expected exact output '"@ + case.expected_output->0@ + "', got '"@ + actual_output@ + "'"@]
        }));
        let score = vec![ratio];
        assert(score@ =~= seq![ratio]);
        assert(ratio == ratio_of(passed));
        make_result(case, passed, score, details, actual_output, &start, errors)
    }
}


// ---------------------------------------------------------------------------
// Expected and forbidden substrings
// ---------------------------------------------------------------------------

/// Checks the expected and the forbidden substrings, ignoring case.
#[derive(Debug, Default)]
pub struct ContainsEvaluator;

/// `sub`, lower-cased, occurs in the lower-cased output `low`.
pub open spec fn found(low: Seq<char>, sub: Seq<char>) -> bool {
    contains(low, spec_to_lowercase(sub))
}

/// How many of `subs` occur in `low`.
pub open spec fn count_found(low: Seq<char>, subs: Seq<Seq<char>>) -> nat
    decreases subs.len(),
{
    if subs.len() == 0 {
        0
    } else {
        count_found(low, subs.drop_last()) + if found(low, subs.last()) {
            1nat
        } else {
            0nat
        }
    }
}

/// One error for each expected substring that does not occur, in order.
pub open spec fn missing_errors(low: Seq<char>, subs: Seq<Seq<char>>) -> Seq<Seq<char>>
    decreases subs.len(),
{
    if subs.len() == 0 {
        Seq::empty()
    } else {
        let e = missing_errors(low, subs.drop_last());
        if found(low, subs.last()) {
            e
        } else {
            e.push("Missing expected substring: '"@ + subs.last() + "'"@)
        }
    }
}

/// One error for each forbidden substring that occurs, in order.
pub open spec fn forbidden_errors(low: Seq<char>, subs: Seq<Seq<char>>) -> Seq<Seq<char>>
    decreases subs.len(),
{
    if subs.len() == 0 {
        Seq::empty()
    } else {
        let e = forbidden_errors(low, subs.drop_last());
        if found(low, subs.last()) {
            e.push("Found forbidden substring: '"@ + subs.last() + "'"@)
        } else {
            e
        }
    }
}

/// `r` is what the substring checks give: the share of expected
/// substrings found and the share of forbidden ones absent, an error for
/// each miss, and a pass when there is no error.
pub open spec fn contains_outcome(case: EvalCase, actual: Seq<char>, r: CaseResult) -> bool {
    let low = spec_to_lowercase(actual);
    let ec = texts_view(case.expected_contains@);
    let ef = texts_view(case.expected_not_contains@);
    let cs = fraction(count_found(low, ec), ec.len());
    let ns = fraction((ef.len() - count_found(low, ef)) as nat, ef.len());
    &&& r.case_id@ == case.id@
    &&& r.actual_output@ == actual
    &&& r.score@ == seq![cs, ns]
    &&& details_view(r.details@) == seq![("contains"@, cs), ("not_contains"@, ns)]
    &&& texts_view(r.errors@) == missing_errors(low, ec) + forbidden_errors(low, ef)
    &&& r.passed == (r.errors@.len() == 0)
}

/// Whether the lower-cased `sub` occurs in `low`.
fn found_exec(low: &[char], sub: &String) -> (r: bool)
    ensures
        r == found(low@, sub@),
{
    let s = to_lowercase(&chars_of(sub.as_str()));
    contains_chars(low, &s)
}

/// One error per expected substring not found.
proof fn lemma_missing_errors_len(low: Seq<char>, subs: Seq<Seq<char>>)
    ensures
        missing_errors(low, subs).len() + count_found(low, subs) == subs.len(),
    decreases subs.len(),
{
    if subs.len() > 0 {
        lemma_missing_errors_len(low, subs.drop_last());
    }
}

/// One error per forbidden substring found.
proof fn lemma_forbidden_errors_len(low: Seq<char>, subs: Seq<Seq<char>>)
    ensures
        forbidden_errors(low, subs).len() == count_found(low, subs),
    decreases subs.len(),
{
    if subs.len() > 0 {
        lemma_forbidden_errors_len(low, subs.drop_last());
    }
}

/// The substring check passes exactly when every expected substring is
/// found and no forbidden one is.
pub proof fn law_contains_passes_iff(case: EvalCase, actual: Seq<char>, r: CaseResult)
    requires
        contains_outcome(case, actual, r),
    ensures
        r.passed <==> (count_found(spec_to_lowercase(actual), texts_view(case.expected_contains@))
            == case.expected_contains@.len() && count_found(
            spec_to_lowercase(actual),
            texts_view(case.expected_not_contains@),
        ) == 0),
{
    let low = spec_to_lowercase(actual);
    lemma_missing_errors_len(low, texts_view(case.expected_contains@));
    lemma_forbidden_errors_len(low, texts_view(case.expected_not_contains@));
    assert(texts_view(r.errors@).len() == r.errors@.len());
}

impl Evaluator for ContainsEvaluator {
    fn evaluate(&self, case: &EvalCase, actual_output: &str) -> (r: CaseResult)
        ensures
            contains_outcome(*case, actual_output@, r),
    {
        let start = instant_now();
        let low = to_lowercase(&chars_of(actual_output));
        let ghost ec = texts_view(case.expected_contains@);
        let ghost ef = texts_view(case.expected_not_contains@);
        let mut errors: Vec<String> = Vec::new();
        let expected = &case.expected_contains;
        let mut matched: usize = 0;
        let mut k: usize = 0;
        assert(ec.take(0) =~= Seq::<Seq<char>>::empty());
        assert(texts_view(errors@) =~= Seq::<Seq<char>>::empty());
        while k < expected.len()
            invariant
                ec == texts_view(expected@),
                k <= expected.len(),
                matched <= k,
                matched == count_found(low@, ec.take(k as int)),
                texts_view(errors@) == missing_errors(low@, ec.take(k as int)),
            decreases expected.len() - k,
        {
            assert(ec.take(k + 1).drop_last() =~= ec.take(k as int));
            assert(ec.take(k + 1).last() == expected@[k as int]@);
            if found_exec(&low, &expected[k]) {
                matched += 1;
            } else {
                let ghost before = errors@;
                errors.push(wrap("Missing expected substring: '", expected[k].as_str(), "'"));
                assert(texts_view(errors@) =~= texts_view(before).push(
                    "Missing expected substring: '"@ + expected@[k as int]@ + "'"@,
                ));
            }
            k += 1;
        }
        assert(ec.take(expected.len() as int) =~= ec);
        let ghost after_contains = errors@;
        let forbidden = &case.expected_not_contains;
        let mut clean: usize = 0;
        let mut j: usize = 0;
        assert(ef.take(0) =~= Seq::<Seq<char>>::empty());
        while j < forbidden.len()
            invariant
                ef == texts_view(forbidden@),
                j <= forbidden.len(),
                clean <= j,
                clean + count_found(low@, ef.take(j as int)) == j,
                texts_view(errors@) == texts_view(after_contains) + forbidden_errors(low@, ef.take(j as int)),
            decreases forbidden.len() - j,
        {
            assert(ef.take(j + 1).drop_last() =~= ef.take(j as int));
            assert(ef.take(j + 1).last() == forbidden@[j as int]@);
            if found_exec(&low, &forbidden[j]) {
                let ghost before = errors@;
                errors.push(wrap("Found forbidden substring: '", forbidden[j].as_str(), "'"));
                assert(texts_view(errors@) =~= texts_view(before).push(
                    "Found forbidden substring: '"@ + forbidden@[j as int]@ + "'"@,
                ));
            } else {
                clean += 1;
            }
            j += 1;
        }
        assert(ef.take(forbidden.len() as int) =~= ef);
        let cs = if expected.len() == 0 {
            Ratio { num: 1, den: 1 }
        } else {
            Ratio { num: matched as u64, den: expected.len() as u64 }
        };
        let ns = if forbidden.len() == 0 {
            Ratio { num: 1, den: 1 }
        } else {
            Ratio { num: clean as u64, den: forbidden.len() as u64 }
        };
        let details = vec![named("contains", cs), named("not_contains", ns)];
        assert(details_view(details@) =~= seq![("contains"@, cs), ("not_contains"@, ns)]);
        let score = vec![cs, ns];
        assert(score@ =~= seq![cs, ns]);
        let passed = errors.len() == 0;
        make_result(case, passed, score, details, actual_output, &start, errors)
    }
}


// ---------------------------------------------------------------------------
// JSON shape
// ---------------------------------------------------------------------------

/// Checks that the output is JSON and, when the case gives a schema, that
/// it has the schema's shape.
#[derive(Debug, Default)]
pub struct JsonSchemaEvaluator;

/// The string value of member `k`, if it is there and a string.
pub open spec fn str_member(m: Seq<(Seq<char>, JsonView)>, k: Seq<char>) -> Option<Seq<char>> {
    match member_from(m, k, 0) {
        Some(i) => match m[i].1 {
            JsonView::Str(t) => Some(t),
            _ => None,
        },
        None => None,
    }
}

/// The members of member `k`, if it is there and an object.
pub open spec fn obj_member(m: Seq<(Seq<char>, JsonView)>, k: Seq<char>) -> Option<Seq<(Seq<char>, JsonView)>> {
    match member_from(m, k, 0) {
        Some(i) => match m[i].1 {
            JsonView::Object(o) => Some(o),
            _ => None,
        },
        None => None,
    }
}

/// Object members `m` have a member with key `k`.
pub open spec fn has_key(m: Seq<(Seq<char>, JsonView)>, k: Seq<char>) -> bool {
    member_from(m, k, 0) is Some
}

/// Object members `m` have every key of the members `p`.
pub open spec fn has_all_keys(m: Seq<(Seq<char>, JsonView)>, p: Seq<(Seq<char>, JsonView)>) -> bool {
    forall|i: int| 0 <= i < p.len() ==> #[trigger] has_key(m, p[i].0)
}

/// A value has the shape a schema asks for: its `"type"` of `"object"`
/// wants an object with every key listed under `"properties"`; `"array"`,
/// `"string"`, `"number"` and `"boolean"` want a value of that kind; any
/// other type, or none, accepts every value.
pub open spec fn schema_ok(v: JsonView, schema: JsonView) -> bool {
    let t = match schema {
        JsonView::Object(m) => str_member(m, "type"@),
        _ => None,
    };
    let props = match schema {
        JsonView::Object(m) => obj_member(m, "properties"@),
        _ => None,
    };
    if t == Some("object"@) {
        match v {
            JsonView::Object(vm) => match props {
                Some(p) => has_all_keys(vm, p),
                None => true,
            },
            _ => false,
        }
    } else if t == Some("array"@) {
        v is Array
    } else if t == Some("string"@) {
        v is Str
    } else if t == Some("number"@) {
        v is Number
    } else if t == Some("boolean"@) {
        v is Bool
    } else {
        true
    }
}

/// `r` is what the JSON check gives: text that is not JSON fails with a
/// zero score; JSON passes when there is no schema or it has the schema's
/// shape, and scores the mean of "is JSON" and "has the shape".
pub open spec fn json_outcome(case: EvalCase, actual: Seq<char>, r: CaseResult) -> bool {
    &&& r.case_id@ == case.id@
    &&& r.actual_output@ == actual
    &&& match json_parse(actual) {
        None => {
            &&& !r.passed
            &&& r.score@ == seq![ratio_of(false)]
            &&& details_view(r.details@) == seq![("json_valid"@, ratio_of(false))]
            &&& texts_view(r.errors@) == seq!["Output is not valid JSON"@]
        },
        Some(v) => {
            let ok = match case.expected_json_schema {
                Some(s) => schema_ok(v, json_view(s)),
                None => true,
            };
            &&& r.passed == ok
            &&& r.score@ == seq![ratio_of(true), ratio_of(ok)]
            &&& details_view(r.details@) == seq![("json_valid"@, ratio_of(true)), ("schema_match"@, ratio_of(ok))]
            &&& texts_view(r.errors@) == (if ok {
                Seq::<Seq<char>>::empty()
            } else {
                seq!["Output does not match expected JSON schema"@]
            })
        },
    }
}

/// Whether member `key` of `m` is a string equal to `lit`.
fn str_member_is(m: &JsonValue, key: &str, lit: &str) -> (r: bool)
    ensures
        r == (match json_view(*m) {
            JsonView::Object(ms) => str_member(ms, key@),
            _ => None,
        } == Some(lit@)),
{
    match m {
        JsonValue::Object(ms) => {
            proof {
                lemma_member_from(members_view(ms@), key@, 0);
                assert(json_view(*m)->Object_0 =~= members_view(ms@));
            }
            match m.get(key) {
                Some(JsonValue::Str(t)) => crate::text::eq_str(&chars_of(t.as_str()), lit),
                _ => false,
            }
        },
        _ => false,
    }
}

/// Whether a value has a schema's shape (see [`schema_ok`]).
#[verifier::loop_isolation(false)]
pub fn validate_schema(v: &JsonValue, schema: &JsonValue) -> (r: bool)
    ensures
        r == schema_ok(json_view(*v), json_view(*schema)),
{
    if str_member_is(schema, "type", "object") {
        match v {
            JsonValue::Object(vm) => {
                let ghost vmv = members_view(vm@);
                assert(json_view(*v)->Object_0 =~= vmv);
                match schema {
                    JsonValue::Object(sm) => {
                        proof {
                            lemma_member_from(members_view(sm@), "properties"@, 0);
                            assert(json_view(*schema)->Object_0 =~= members_view(sm@));
                        }
                        match schema.get("properties") {
                            Some(JsonValue::Object(pm)) => {
                                let ghost pv = members_view(pm@);
                                assert(json_view(JsonValue::Object(*pm))->Object_0 =~= pv);
                                let mut i: usize = 0;
                                while i < pm.len()
                                    invariant
                                        pv == members_view(pm@),
                                        vmv == members_view(vm@),
                                        i <= pm.len(),
                                        forall|j: int| 0 <= j < i ==> #[trigger] has_key(vmv, pv[j].0),
                                    decreases pm.len() - i,
                                {
                                    let k = chars_of(pm[i].0.as_str());
                                    if find_member(vm, &k).is_none() {
                                        assert(pv[i as int].0 == k@);
                                        assert(obj_member(members_view(sm@), "properties"@) == Some(pv));
                                        assert(!has_key(vmv, pv[i as int].0));
                                        assert(!has_all_keys(vmv, pv));
                                        return false;
                                    }
                                    i += 1;
                                }
                                assert(has_all_keys(vmv, pv));
                                true
                            },
                            _ => true,
                        }
                    },
                    _ => true,
                }
            },
            _ => false,
        }
    } else if str_member_is(schema, "type", "array") {
        matches!(v, JsonValue::Array(_))
    } else if str_member_is(schema, "type", "string") {
        matches!(v, JsonValue::Str(_))
    } else if str_member_is(schema, "type", "number") {
        matches!(v, JsonValue::Number { .. })
    } else if str_member_is(schema, "type", "boolean") {
        matches!(v, JsonValue::Bool(_))
    } else {
        true
    }
}

impl Evaluator for JsonSchemaEvaluator {
    fn evaluate(&self, case: &EvalCase, actual_output: &str) -> (r: CaseResult)
        ensures
            json_outcome(*case, actual_output@, r),
    {
        let start = instant_now();
        let mut errors: Vec<String> = Vec::new();
        match parse_json(actual_output) {
            None => {
                errors.push(owned("Output is not valid JSON"));
                assert(texts_view(errors@) =~= seq!["Output is not valid JSON"@]);
                let z = Ratio { num: 0, den: 1 };
                let details = vec![named("json_valid", z)];
                assert(details_view(details@) =~= seq![("json_valid"@, z)]);
                let score = vec![z];
                assert(score@ =~= seq![z]);
                make_result(case, false, score, details, actual_output, &start, errors)
            },
            Some(value) => {
                let ok = match &case.expected_json_schema {
                    Some(schema) => validate_schema(&value, schema),
                    None => true,
                };
                if !ok {
                    errors.push(owned("Output does not match expected JSON schema"));
                }
                assert(texts_view(errors@) =~= (if ok {
                    Seq::<Seq<char>>::empty()
                } else {
                    seq!["Output does not match expected JSON schema"@]
                }));
                let one = Ratio { num: 1, den: 1 };
                let m = if ok { Ratio { num: 1, den: 1 } } else { Ratio { num: 0, den: 1 } };
                let details = vec![named("json_valid", one), named("schema_match", m)];
                assert(details_view(details@) =~= seq![("json_valid"@, one), ("schema_match"@, m)]);
                let score = vec![one, m];
                assert(score@ =~= seq![one, m]);
                make_result(case, ok, score, details, actual_output, &start, errors)
            },
        }
    }
}


// ---------------------------------------------------------------------------
// Token overlap
// ---------------------------------------------------------------------------

/// The words longer than two UTF-8 bytes, in order.
pub open spec fn long_words(ws: Seq<Seq<char>>) -> Seq<Seq<char>>
    decreases ws.len(),
{
    if ws.len() == 0 {
        Seq::empty()
    } else if utf8_len(ws.last()) > 2 {
        long_words(ws.drop_last()).push(ws.last())
    } else {
        long_words(ws.drop_last())
    }
}

/// Each word once, in the order of first occurrence.
pub open spec fn distinct(ws: Seq<Seq<char>>) -> Seq<Seq<char>>
    decreases ws.len(),
{
    if ws.len() == 0 {
        Seq::empty()
    } else {
        let d = distinct(ws.drop_last());
        if d.contains(ws.last()) {
            d
        } else {
            d.push(ws.last())
        }
    }
}

/// The token set of a text: its lower-cased words longer than two bytes,
/// each once.
pub open spec fn tokens(s: Seq<char>) -> Seq<Seq<char>> {
    distinct(long_words(words(spec_to_lowercase(s))))
}

/// How many words of `a` occur in `b`.
pub open spec fn count_in(a: Seq<Seq<char>>, b: Seq<Seq<char>>) -> nat
    decreases a.len(),
{
    if a.len() == 0 {
        0
    } else {
        count_in(a.drop_last(), b) + if b.contains(a.last()) {
            1nat
        } else {
            0nat
        }
    }
}

/// How many words of `a` do not occur in `b`.
pub open spec fn count_not_in(a: Seq<Seq<char>>, b: Seq<Seq<char>>) -> nat
    decreases a.len(),
{
    if a.len() == 0 {
        0
    } else {
        count_not_in(a.drop_last(), b) + if b.contains(a.last()) {
            0nat
        } else {
            1nat
        }
    }
}

/// Whether `w` is one of the words in `v`.
fn has_word(v: &Vec<Vec<char>>, w: &[char]) -> (r: bool)
    ensures
        r == lines_view(v@).contains(w@),
{
    let ghost lv = lines_view(v@);
    let mut i: usize = 0;
    while i < v.len()
        invariant
            lv == lines_view(v@),
            i <= v.len(),
            forall|j: int| 0 <= j < i ==> lv[j] != w@,
        decreases v.len() - i,
    {
        if chars_eq(&v[i], w) {
            assert(lv[i as int] == w@);
            return true;
        }
        i += 1;
    }
    false
}

/// The token set of a text (see [`tokens`]).
fn tokens_exec(s: &str) -> (r: Vec<Vec<char>>)
    ensures
        lines_view(r@) == tokens(s@),
{
    let low = to_lowercase(&chars_of(s));
    let ws = words_exec(&low);
    let ghost wv = lines_view(ws@);
    let mut long: Vec<Vec<char>> = Vec::new();
    let mut k: usize = 0;
    assert(wv.take(0) =~= Seq::<Seq<char>>::empty());
    assert(lines_view(long@) =~= Seq::<Seq<char>>::empty());
    while k < ws.len()
        invariant
            wv == lines_view(ws@),
            k <= ws.len(),
            lines_view(long@) == long_words(wv.take(k as int)),
        decreases ws.len() - k,
    {
        assert(wv.take(k + 1).drop_last() =~= wv.take(k as int));
        assert(wv.take(k + 1).last() == ws@[k as int]@);
        if more_than_two_bytes(&ws[k]) {
            let ghost before = long@;
            long.push(ws[k].clone());
            assert(lines_view(long@) =~= lines_view(before).push(ws@[k as int]@));
        }
        k += 1;
    }
    assert(wv.take(ws.len() as int) =~= wv);
    let ghost lw = lines_view(long@);
    let mut out: Vec<Vec<char>> = Vec::new();
    let mut j: usize = 0;
    assert(lw.take(0) =~= Seq::<Seq<char>>::empty());
    assert(lines_view(out@) =~= Seq::<Seq<char>>::empty());
    while j < long.len()
        invariant
            lw == lines_view(long@),
            j <= long.len(),
            lines_view(out@) == distinct(lw.take(j as int)),
        decreases long.len() - j,
    {
        assert(lw.take(j + 1).drop_last() =~= lw.take(j as int));
        assert(lw.take(j + 1).last() == long@[j as int]@);
        if !has_word(&out, &long[j]) {
            let ghost before = out@;
            out.push(long[j].clone());
            assert(lines_view(out@) =~= lines_view(before).push(long@[j as int]@));
        }
        j += 1;
    }
    assert(lw.take(long.len() as int) =~= lw);
    out
}

/// The overlap of the token sets of `a` and `b`: the tokens they share,
/// the tokens only `a` has, and the number of tokens of `b`. The union of
/// the two sets has the second and third counts together.
pub fn token_overlap(a: &str, b: &str) -> (r: (usize, usize, usize))
    ensures
        r.0 == count_in(tokens(a@), tokens(b@)),
        r.1 == count_not_in(tokens(a@), tokens(b@)),
        r.2 == tokens(b@).len(),
{
    let ta = tokens_exec(a);
    let tb = tokens_exec(b);
    let ghost av = lines_view(ta@);
    let ghost bv = lines_view(tb@);
    let mut shared: usize = 0;
    let mut only_a: usize = 0;
    let mut k: usize = 0;
    assert(av.take(0) =~= Seq::<Seq<char>>::empty());
    while k < ta.len()
        invariant
            av == lines_view(ta@),
            bv == lines_view(tb@),
            k <= ta.len(),
            shared + only_a == k,
            shared == count_in(av.take(k as int), bv),
            only_a == count_not_in(av.take(k as int), bv),
        decreases ta.len() - k,
    {
        assert(av.take(k + 1).drop_last() =~= av.take(k as int));
        assert(av.take(k + 1).last() == ta@[k as int]@);
        if has_word(&tb, &ta[k]) {
            shared += 1;
        } else {
            only_a += 1;
        }
        k += 1;
    }
    assert(av.take(ta.len() as int) =~= av);
    (shared, only_a, tb.len())
}


// ---------------------------------------------------------------------------
// Ready-made suites
// ---------------------------------------------------------------------------

/// Literal texts as plain values.
pub open spec fn strs_view(s: Seq<&str>) -> Seq<Seq<char>> {
    s.map_values(|t: &str| t@)
}

/// `c` is the case with these fields, a reference answer, and no exact
/// output, JSON schema or token budget.
pub open spec fn case_is(
    c: EvalCase,
    id: Seq<char>,
    input: Seq<char>,
    category: Seq<char>,
    contains: Seq<Seq<char>>,
    not_contains: Seq<Seq<char>>,
    reference: Seq<char>,
    tags: Seq<Seq<char>>,
) -> bool {
    &&& c.id@ == id
    &&& c.input@ == input
    &&& c.category@ == category
    &&& texts_view(c.expected_contains@) == contains
    &&& texts_view(c.expected_not_contains@) == not_contains
    &&& c.reference_answer matches Some(r) && r@ == reference
    &&& texts_view(c.tags@) == tags
    &&& c.expected_output is None
    &&& c.expected_json_schema is None
    &&& c.max_tokens is None
}

/// `s` is a suite with these names and the metadata `domain` =
/// `xcapit_sff`.
pub open spec fn suite_is(s: EvalSuite, id: Seq<char>, name: Seq<char>, description: Seq<char>) -> bool {
    &&& s.id@ == id
    &&& s.name@ == name
    &&& s.description@ == description
    &&& s.metadata@.len() == 1
    &&& s.metadata@[0].0@ == "domain"@
    &&& s.metadata@[0].1@ == "xcapit_sff"@
}

/// Owned copies of literal texts.
fn strings_of(parts: Vec<&str>) -> (r: Vec<String>)
    ensures
        texts_view(r@) == strs_view(parts@),
{
    let mut out: Vec<String> = Vec::new();
    let mut k: usize = 0;
    while k < parts.len()
        invariant
            k <= parts.len(),
            texts_view(out@) == strs_view(parts@.take(k as int)),
        decreases parts.len() - k,
    {
        let ghost before = out@;
        out.push(owned(parts[k]));
        assert(texts_view(out@) =~= texts_view(before).push(parts@[k as int]@));
        assert(parts@.take(k + 1) =~= parts@.take(k as int).push(parts@[k as int]));
        k += 1;
        assert(texts_view(out@) =~= strs_view(parts@.take(k as int)));
    }
    assert(parts@.take(parts.len() as int) =~= parts@);
    out
}

/// A case with the given fields (see [`case_is`]).
fn case_with(
    id: &str,
    input: &str,
    category: &str,
    contains: Vec<&str>,
    not_contains: Vec<&str>,
    reference: &str,
    tags: Vec<&str>,
) -> (r: EvalCase)
    ensures
        case_is(r, id@, input@, category@, strs_view(contains@), strs_view(not_contains@), reference@, strs_view(tags@)),
{
    let mut c = EvalCase::new(id, input, category);
    c.expected_contains = strings_of(contains);
    c.expected_not_contains = strings_of(not_contains);
    c.reference_answer = Some(owned(reference));
    c.tags = strings_of(tags);
    c
}

/// A suite with the given names and cases, tagged with its domain.
fn domain_suite(id: &str, name: &str, description: &str, cases: Vec<EvalCase>) -> (r: EvalSuite)
    ensures
        suite_is(r, id@, name@, description@),
        r.cases == cases,
{
    let mut s = EvalSuite::new(id, name, description);
    s.metadata = vec![(owned("domain"), owned("xcapit_sff"))];
    s.cases = cases;
    s
}

/// The suite that checks how support tickets are routed.
pub fn ticket_routing_suite() -> (r: EvalSuite)
    ensures
            suite_is(r, "ticket_routing"@, "Ticket Routing Accuracy"@, "Tests classification accuracy for support ticket routing"@),
            r.cases@.len() == 5,
            case_is(
                r.cases@[0],
                "tr-001"@,
                "Mi tarjeta no funciona, no puedo hacer compras"@,
                "routing"@,
                strs_view(seq!["tarjeta", "soporte"]),
                strs_view(seq!["inversiones"]),
                "Redirigir al equipo de soporte de tarjetas para revisión de bloqueo o falla técnica."@,
                strs_view(seq!["card", "urgent"]),
            ),
            case_is(
                r.cases@[1],
                "tr-002"@,
                "Quiero invertir en un fondo de renta fija"@,
                "routing"@,
                strs_view(seq!["inversiones"]),
                strs_view(seq!["tarjeta"]),
                "Redirigir al equipo de inversiones para asesoría en fondos de renta fija."@,
                strs_view(seq!["investment"]),
            ),
            case_is(
                r.cases@[2],
                "tr-003"@,
                "No puedo acceder a mi cuenta, olvidé la contraseña"@,
                "routing"@,
                strs_view(seq!["cuenta"]),
                strs_view(seq!["inversiones"]),
                "Redirigir al equipo de acceso y seguridad para recuperación de contraseña."@,
                strs_view(seq!["access", "security"]),
            ),
            case_is(
                r.cases@[3],
                "tr-004"@,
                "Quiero dar de baja mi cuenta y que me devuelvan el saldo"@,
                "routing"@,
                strs_view(seq!["baja"]),
                strs_view(Seq::<&str>::empty()),
                "Redirigir al equipo de retención y cierre de cuentas para gestionar la baja y devolución."@,
                strs_view(seq!["churn", "refund"]),
            ),
            case_is(
                r.cases@[4],
                "tr-005"@,
                "¿Cuánto me cobran de comisión por transferencia internacional?"@,
                "routing"@,
                strs_view(seq!["comisión"]),
                strs_view(seq!["tarjeta"]),
                "Redirigir al equipo de operaciones internacionales para detalle de comisiones."@,
                strs_view(seq!["fees", "international"]),
            ),
{
    let contains_c0 = vec!["tarjeta", "soporte"];
    assert(contains_c0@ =~= seq!["tarjeta", "soporte"]);
    let avoid_c0 = vec!["inversiones"];
    assert(avoid_c0@ =~= seq!["inversiones"]);
    let tags_c0 = vec!["card", "urgent"];
    assert(tags_c0@ =~= seq!["card", "urgent"]);
    let c0 = case_with(
        "tr-001",
        "Mi tarjeta no funciona, no puedo hacer compras",
        "routing",
        contains_c0,
        avoid_c0,
        "Redirigir al equipo de soporte de tarjetas para revisión de bloqueo o falla técnica.",
        tags_c0,
    );
    let contains_c1 = vec!["inversiones"];
    assert(contains_c1@ =~= seq!["inversiones"]);
    let avoid_c1 = vec!["tarjeta"];
    assert(avoid_c1@ =~= seq!["tarjeta"]);
    let tags_c1 = vec!["investment"];
    assert(tags_c1@ =~= seq!["investment"]);
    let c1 = case_with(
        "tr-002",
        "Quiero invertir en un fondo de renta fija",
        "routing",
        contains_c1,
        avoid_c1,
        "Redirigir al equipo de inversiones para asesoría en fondos de renta fija.",
        tags_c1,
    );
    let contains_c2 = vec!["cuenta"];
    assert(contains_c2@ =~= seq!["cuenta"]);
    let avoid_c2 = vec!["inversiones"];
    assert(avoid_c2@ =~= seq!["inversiones"]);
    let tags_c2 = vec!["access", "security"];
    assert(tags_c2@ =~= seq!["access", "security"]);
    let c2 = case_with(
        "tr-003",
        "No puedo acceder a mi cuenta, olvidé la contraseña",
        "routing",
        contains_c2,
        avoid_c2,
        "Redirigir al equipo de acceso y seguridad para recuperación de contraseña.",
        tags_c2,
    );
    let contains_c3 = vec!["baja"];
    assert(contains_c3@ =~= seq!["baja"]);
    let avoid_c3: Vec<&str> = Vec::new();
    assert(avoid_c3@ =~= Seq::<&str>::empty());
    let tags_c3 = vec!["churn", "refund"];
    assert(tags_c3@ =~= seq!["churn", "refund"]);
    let c3 = case_with(
        "tr-004",
        "Quiero dar de baja mi cuenta y que me devuelvan el saldo",
        "routing",
        contains_c3,
        avoid_c3,
        "Redirigir al equipo de retención y cierre de cuentas para gestionar la baja y devolución.",
        tags_c3,
    );
    let contains_c4 = vec!["comisión"];
    assert(contains_c4@ =~= seq!["comisión"]);
    let avoid_c4 = vec!["tarjeta"];
    assert(avoid_c4@ =~= seq!["tarjeta"]);
    let tags_c4 = vec!["fees", "international"];
    assert(tags_c4@ =~= seq!["fees", "international"]);
    let c4 = case_with(
        "tr-005",
        "¿Cuánto me cobran de comisión por transferencia internacional?",
        "routing",
        contains_c4,
        avoid_c4,
        "Redirigir al equipo de operaciones internacionales para detalle de comisiones.",
        tags_c4,
    );
    let cases = vec![c0, c1, c2, c3, c4];
    domain_suite("ticket_routing", "Ticket Routing Accuracy", "Tests classification accuracy for support ticket routing", cases)
}

/// The suite that checks the quality of support replies: empathy, accuracy and escalation.
pub fn support_quality_suite() -> (r: EvalSuite)
    ensures
            suite_is(r, "support_quality"@, "Support Response Quality"@, "Tests empathy, accuracy, and escalation logic in support responses"@),
            r.cases@.len() == 5,
            case_is(
                r.cases@[0],
                "sq-001"@,
                "Llevo 3 días esperando una transferencia y no llega, estoy muy enojado"@,
                "quality"@,
                strs_view(seq!["disculpa", "transferencia"]),
                strs_view(seq!["no es nuestro problema"]),
                "Lamentamos la demora en su transferencia. Vamos a revisar el estado de inmediato y le daremos una actualización en las próximas horas. Entendemos su frustración."@,
                strs_view(seq!["empathy", "escalation"]),
            ),
            case_is(
                r.cases@[1],
                "sq-002"@,
                "Me cobraron dos veces el mismo monto"@,
                "quality"@,
                strs_view(seq!["cobro", "revisión"]),
                strs_view(seq!["imposible"]),
                "Entendemos la preocupación por el cobro duplicado. Iniciamos la revisión del movimiento y si se confirma, procederemos con el reembolso."@,
                strs_view(seq!["billing", "accuracy"]),
            ),
            case_is(
                r.cases@[2],
                "sq-003"@,
                "Quiero hablar con un supervisor"@,
                "quality"@,
                strs_view(seq!["supervisor"]),
                strs_view(seq!["no es posible"]),
                "Por supuesto, voy a transferir su caso a un supervisor para que pueda asistirle directamente. Disculpe las molestias."@,
                strs_view(seq!["escalation"]),
            ),
            case_is(
                r.cases@[3],
                "sq-004"@,
                "¿Cómo activo las notificaciones push de mi app?"@,
                "quality"@,
                strs_view(seq!["notificaciones", "configuración"]),
                strs_view(Seq::<&str>::empty()),
                "Para activar notificaciones push, vaya a Configuración > Notificaciones dentro de la app y active la opción correspondiente."@,
                strs_view(seq!["self-service", "accuracy"]),
            ),
            case_is(
                r.cases@[4],
                "sq-005"@,
                "Creo que alguien accedió a mi cuenta sin autorización"@,
                "quality"@,
                strs_view(seq!["seguridad"]),
                strs_view(seq!["no se preocupe"]),
                "Tomamos esto con máxima prioridad. Vamos a bloquear el acceso de forma preventiva y el equipo de seguridad revisará la actividad reciente de su cuenta."@,
                strs_view(seq!["security", "urgent", "escalation"]),
            ),
{
    let contains_c0 = vec!["disculpa", "transferencia"];
    assert(contains_c0@ =~= seq!["disculpa", "transferencia"]);
    let avoid_c0 = vec!["no es nuestro problema"];
    assert(avoid_c0@ =~= seq!["no es nuestro problema"]);
    let tags_c0 = vec!["empathy", "escalation"];
    assert(tags_c0@ =~= seq!["empathy", "escalation"]);
    let c0 = case_with(
        "sq-001",
        "Llevo 3 días esperando una transferencia y no llega, estoy muy enojado",
        "quality",
        contains_c0,
        avoid_c0,
        "Lamentamos la demora en su transferencia. Vamos a revisar el estado de inmediato y le daremos una actualización en las próximas horas. Entendemos su frustración.",
        tags_c0,
    );
    let contains_c1 = vec!["cobro", "revisión"];
    assert(contains_c1@ =~= seq!["cobro", "revisión"]);
    let avoid_c1 = vec!["imposible"];
    assert(avoid_c1@ =~= seq!["imposible"]);
    let tags_c1 = vec!["billing", "accuracy"];
    assert(tags_c1@ =~= seq!["billing", "accuracy"]);
    let c1 = case_with(
        "sq-002",
        "Me cobraron dos veces el mismo monto",
        "quality",
        contains_c1,
        avoid_c1,
        "Entendemos la preocupación por el cobro duplicado. Iniciamos la revisión del movimiento y si se confirma, procederemos con el reembolso.",
        tags_c1,
    );
    let contains_c2 = vec!["supervisor"];
    assert(contains_c2@ =~= seq!["supervisor"]);
    let avoid_c2 = vec!["no es posible"];
    assert(avoid_c2@ =~= seq!["no es posible"]);
    let tags_c2 = vec!["escalation"];
    assert(tags_c2@ =~= seq!["escalation"]);
    let c2 = case_with(
        "sq-003",
        "Quiero hablar con un supervisor",
        "quality",
        contains_c2,
        avoid_c2,
        "Por supuesto, voy a transferir su caso a un supervisor para que pueda asistirle directamente. Disculpe las molestias.",
        tags_c2,
    );
    let contains_c3 = vec!["notificaciones", "configuración"];
    assert(contains_c3@ =~= seq!["notificaciones", "configuración"]);
    let avoid_c3: Vec<&str> = Vec::new();
    assert(avoid_c3@ =~= Seq::<&str>::empty());
    let tags_c3 = vec!["self-service", "accuracy"];
    assert(tags_c3@ =~= seq!["self-service", "accuracy"]);
    let c3 = case_with(
        "sq-004",
        "¿Cómo activo las notificaciones push de mi app?",
        "quality",
        contains_c3,
        avoid_c3,
        "Para activar notificaciones push, vaya a Configuración > Notificaciones dentro de la app y active la opción correspondiente.",
        tags_c3,
    );
    let contains_c4 = vec!["seguridad"];
    assert(contains_c4@ =~= seq!["seguridad"]);
    let avoid_c4 = vec!["no se preocupe"];
    assert(avoid_c4@ =~= seq!["no se preocupe"]);
    let tags_c4 = vec!["security", "urgent", "escalation"];
    assert(tags_c4@ =~= seq!["security", "urgent", "escalation"]);
    let c4 = case_with(
        "sq-005",
        "Creo que alguien accedió a mi cuenta sin autorización",
        "quality",
        contains_c4,
        avoid_c4,
        "Tomamos esto con máxima prioridad. Vamos a bloquear el acceso de forma preventiva y el equipo de seguridad revisará la actividad reciente de su cuenta.",
        tags_c4,
    );
    let cases = vec![c0, c1, c2, c3, c4];
    domain_suite("support_quality", "Support Response Quality", "Tests empathy, accuracy, and escalation logic in support responses", cases)
}

/// The suite that checks how consistently inbound leads are scored.
pub fn lead_qualification_suite() -> (r: EvalSuite)
    ensures
            suite_is(r, "lead_qualification"@, "Lead Qualification Scoring"@, "Tests scoring consistency for inbound lead qualification"@),
            r.cases@.len() == 5,
            case_is(
                r.cases@[0],
                "lq-001"@,
                "Empresa con 500 empleados busca solución de pagos corporativos, presupuesto aprobado"@,
                "qualification"@,
                strs_view(seq!["alta"]),
                strs_view(seq!["descalificado"]),
                "Lead calificado como alta prioridad: empresa mediana con presupuesto aprobado y necesidad clara de pagos corporativos."@,
                strs_view(seq!["enterprise", "high-priority"]),
            ),
            case_is(
                r.cases@[1],
                "lq-002"@,
                "Soy estudiante y quiero abrir una cuenta para ahorrar"@,
                "qualification"@,
                strs_view(seq!["cuenta"]),
                strs_view(Seq::<&str>::empty()),
                "Lead de baja prioridad comercial pero potencial a largo plazo: perfil joven, producto básico de ahorro."@,
                strs_view(seq!["individual", "low-priority"]),
            ),
            case_is(
                r.cases@[2],
                "lq-003"@,
                "Startup fintech con 50 empleados, necesitamos API de pagos, decisión en 2 semanas"@,
                "qualification"@,
                strs_view(seq!["api"]),
                strs_view(seq!["descalificado"]),
                "Lead calificado como alta prioridad: startup con urgencia, necesidad técnica específica de API y timeline corto."@,
                strs_view(seq!["startup", "api", "urgent"]),
            ),
            case_is(
                r.cases@[3],
                "lq-004"@,
                "Solo estoy comparando opciones, todavía no tengo presupuesto"@,
                "qualification"@,
                strs_view(seq!["seguimiento"]),
                strs_view(Seq::<&str>::empty()),
                "Lead en etapa temprana de exploración, sin presupuesto definido. Clasificar para seguimiento a mediano plazo con contenido educativo."@,
                strs_view(seq!["exploratory", "nurture"]),
            ),
            case_is(
                r.cases@[4],
                "lq-005"@,
                "Municipalidad de 100k habitantes necesita sistema de recaudación digital, licitación abierta"@,
                "qualification"@,
                strs_view(seq!["licitación"]),
                strs_view(seq!["descalificado"]),
                "Lead institucional de alta prioridad: gobierno local con licitación abierta y necesidad concreta de recaudación digital."@,
                strs_view(seq!["government", "high-priority"]),
            ),
{
    let contains_c0 = vec!["alta"];
    assert(contains_c0@ =~= seq!["alta"]);
    let avoid_c0 = vec!["descalificado"];
    assert(avoid_c0@ =~= seq!["descalificado"]);
    let tags_c0 = vec!["enterprise", "high-priority"];
    assert(tags_c0@ =~= seq!["enterprise", "high-priority"]);
    let c0 = case_with(
        "lq-001",
        "Empresa con 500 empleados busca solución de pagos corporativos, presupuesto aprobado",
        "qualification",
        contains_c0,
        avoid_c0,
        "Lead calificado como alta prioridad: empresa mediana con presupuesto aprobado y necesidad clara de pagos corporativos.",
        tags_c0,
    );
    let contains_c1 = vec!["cuenta"];
    assert(contains_c1@ =~= seq!["cuenta"]);
    let avoid_c1: Vec<&str> = Vec::new();
    assert(avoid_c1@ =~= Seq::<&str>::empty());
    let tags_c1 = vec!["individual", "low-priority"];
    assert(tags_c1@ =~= seq!["individual", "low-priority"]);
    let c1 = case_with(
        "lq-002",
        "Soy estudiante y quiero abrir una cuenta para ahorrar",
        "qualification",
        contains_c1,
        avoid_c1,
        "Lead de baja prioridad comercial pero potencial a largo plazo: perfil joven, producto básico de ahorro.",
        tags_c1,
    );
    let contains_c2 = vec!["api"];
    assert(contains_c2@ =~= seq!["api"]);
    let avoid_c2 = vec!["descalificado"];
    assert(avoid_c2@ =~= seq!["descalificado"]);
    let tags_c2 = vec!["startup", "api", "urgent"];
    assert(tags_c2@ =~= seq!["startup", "api", "urgent"]);
    let c2 = case_with(
        "lq-003",
        "Startup fintech con 50 empleados, necesitamos API de pagos, decisión en 2 semanas",
        "qualification",
        contains_c2,
        avoid_c2,
        "Lead calificado como alta prioridad: startup con urgencia, necesidad técnica específica de API y timeline corto.",
        tags_c2,
    );
    let contains_c3 = vec!["seguimiento"];
    assert(contains_c3@ =~= seq!["seguimiento"]);
    let avoid_c3: Vec<&str> = Vec::new();
    assert(avoid_c3@ =~= Seq::<&str>::empty());
    let tags_c3 = vec!["exploratory", "nurture"];
    assert(tags_c3@ =~= seq!["exploratory", "nurture"]);
    let c3 = case_with(
        "lq-004",
        "Solo estoy comparando opciones, todavía no tengo presupuesto",
        "qualification",
        contains_c3,
        avoid_c3,
        "Lead en etapa temprana de exploración, sin presupuesto definido. Clasificar para seguimiento a mediano plazo con contenido educativo.",
        tags_c3,
    );
    let contains_c4 = vec!["licitación"];
    assert(contains_c4@ =~= seq!["licitación"]);
    let avoid_c4 = vec!["descalificado"];
    assert(avoid_c4@ =~= seq!["descalificado"]);
    let tags_c4 = vec!["government", "high-priority"];
    assert(tags_c4@ =~= seq!["government", "high-priority"]);
    let c4 = case_with(
        "lq-005",
        "Municipalidad de 100k habitantes necesita sistema de recaudación digital, licitación abierta",
        "qualification",
        contains_c4,
        avoid_c4,
        "Lead institucional de alta prioridad: gobierno local con licitación abierta y necesidad concreta de recaudación digital.",
        tags_c4,
    );
    let cases = vec![c0, c1, c2, c3, c4];
    domain_suite("lead_qualification", "Lead Qualification Scoring", "Tests scoring consistency for inbound lead qualification", cases)
}


// ---------------------------------------------------------------------------
// The suite registry
// ---------------------------------------------------------------------------

/// The position of the suite with id `id`, if any.
pub open spec fn suite_index(suites: Seq<EvalSuite>, id: Seq<char>) -> Option<int>
    decreases suites.len(),
{
    if suites.len() == 0 {
        None
    } else if suites.last().id@ == id {
        Some(suites.len() - 1)
    } else {
        suite_index(suites.drop_last(), id)
    }
}

/// The suites after registering `suite`: it replaces the suite with the
/// same id, or else joins the end.
pub open spec fn registered(suites: Seq<EvalSuite>, suite: EvalSuite) -> Seq<EvalSuite> {
    match suite_index(suites, suite.id@) {
        Some(i) => suites.update(i, suite),
        None => suites.push(suite),
    }
}

/// No two suites share an id.
pub open spec fn ids_distinct(suites: Seq<EvalSuite>) -> bool {
    forall|i: int, j: int| 0 <= i < j < suites.len() ==> suites[i].id@ != suites[j].id@
}

/// Registered suites, each id once.
pub struct EvalFramework {
    suites: Vec<EvalSuite>,
}

impl EvalFramework {
    /// The registered suites, in order of first registration.
    pub closed spec fn suites_view(&self) -> Seq<EvalSuite> {
        self.suites@
    }

    /// Each id is registered once.
    pub closed spec fn wf(&self) -> bool {
        ids_distinct(self.suites@)
    }

    /// An empty registry.
    pub fn new() -> (r: Self)
        ensures
            r.wf(),
            r.suites_view().len() == 0,
    {
        EvalFramework { suites: Vec::new() }
    }

    /// Registers a suite, replacing one with the same id.
    pub fn register_suite(&mut self, suite: EvalSuite)
        requires
            old(self).wf(),
        ensures
            final(self).wf(),
            final(self).suites_view() == registered(old(self).suites_view(), suite),
    {
        let ghost before = self.suites@;
        let key = chars_of(suite.id.as_str());
        proof {
            lemma_suite_index(before, key@);
        }
        match self.find(&key) {
            Some(i) => {
                self.suites.set(i, suite);
            },
            None => {
                self.suites.push(suite);
            },
        }
        proof {
            assert forall|i: int, j: int| 0 <= i < j < self.suites@.len() implies self.suites@[i].id@
                != self.suites@[j].id@ by {
                lemma_suite_index_absent(before, key@, i);
                lemma_suite_index_absent(before, key@, j);
            }
        }
    }

    /// The position of the suite with the given id.
    fn find(&self, id: &[char]) -> (r: Option<usize>)
        ensures
            r matches Some(j) ==> suite_index(self.suites@, id@) == Some(j as int) && j < self.suites@.len(),
            r is None ==> suite_index(self.suites@, id@) is None,
    {
        proof {
            lemma_suite_index(self.suites@, id@);
        }
        let mut k: usize = self.suites.len();
        assert(self.suites@.take(k as int) =~= self.suites@);
        while k > 0
            invariant
                k <= self.suites.len(),
                suite_index(self.suites@, id@) == suite_index(self.suites@.take(k as int), id@),
            decreases k,
        {
            assert(self.suites@.take(k as int).drop_last() =~= self.suites@.take(k - 1));
            if crate::text::chars_eq(&chars_of(self.suites[k - 1].id.as_str()), id) {
                return Some(k - 1);
            }
            k -= 1;
        }
        None
    }

    /// The suite with the given id, if registered.
    pub fn get_suite(&self, suite_id: &str) -> (r: Option<&EvalSuite>)
        ensures
            match suite_index(self.suites_view(), suite_id@) {
                Some(i) => r == Some(&self.suites_view()[i]),
                None => r is None,
            },
    {
        let key = chars_of(suite_id);
        match self.find(&key) {
            Some(i) => Some(&self.suites[i]),
            None => None,
        }
    }

    /// The number of registered suites.
    pub fn suite_count(&self) -> (r: usize)
        ensures
            r == self.suites_view().len(),
    {
        self.suites.len()
    }
}

/// What [`suite_index`] finds is in range and has that id; when it finds
/// nothing, no suite has that id.
pub proof fn lemma_suite_index(suites: Seq<EvalSuite>, id: Seq<char>)
    ensures
        suite_index(suites, id) matches Some(i) ==> 0 <= i < suites.len() && suites[i].id@ == id,
        suite_index(suites, id) is None ==> forall|k: int| 0 <= k < suites.len() ==> suites[k].id@ != id,
    decreases suites.len(),
{
    if suites.len() > 0 {
        let d = suites.drop_last();
        lemma_suite_index(d, id);
        assert forall|k: int| 0 <= k < d.len() implies d[k] == suites[k] by {}
    }
}

/// Registering keeps the ids of the other suites; the registered one is at
/// the found position or the end.
proof fn lemma_suite_index_absent(suites: Seq<EvalSuite>, id: Seq<char>, i: int)
    requires
        ids_distinct(suites),
    ensures
        suite_index(suites, id) is None && 0 <= i < suites.len() ==> suites[i].id@ != id,
        suite_index(suites, id) matches Some(k) ==> (0 <= i < suites.len() && i != k ==> suites[i].id@ != id),
{
    lemma_suite_index(suites, id);
}

/// Reading back a registered suite: after registering `suite`, looking up
/// its id gives that suite, and every other id gives what it gave before.
pub proof fn law_register_then_get(suites: Seq<EvalSuite>, suite: EvalSuite, other: Seq<char>)
    requires
        ids_distinct(suites),
    ensures
        ({
            let after = registered(suites, suite);
            &&& suite_index(after, suite.id@) matches Some(i) && after[i] == suite
            &&& other != suite.id@ ==> match suite_index(suites, other) {
                Some(j) => suite_index(after, other) matches Some(k) && after[k] == suites[j],
                None => suite_index(after, other) is None,
            }
            &&& after.len() == suites.len() + if suite_index(suites, suite.id@) is Some {
                0int
            } else {
                1int
            }
        }),
{
    let after = registered(suites, suite);
    lemma_suite_index(suites, suite.id@);
    lemma_suite_index(suites, other);
    lemma_suite_index(after, suite.id@);
    lemma_suite_index(after, other);
    lemma_index_unique(after, suite.id@);
    if other != suite.id@ {
        lemma_index_unique(after, other);
        match suite_index(suites, other) {
            Some(j) => {
                assert(after[j] == suites[j]);
                assert(after[j].id@ == other);
            },
            None => {},
        }
    }
    match suite_index(suites, suite.id@) {
        Some(k) => assert(after[k] == suite),
        None => assert(after[suites.len() as int] == suite),
    }
}

/// When a position holds `id`, [`suite_index`] finds some position (the
/// last one holding it).
proof fn lemma_index_unique(suites: Seq<EvalSuite>, id: Seq<char>)
    ensures
        forall|k: int| 0 <= k < suites.len() && suites[k].id@ == id ==> (suite_index(suites, id) matches Some(
            i,
        ) && k <= i),
    decreases suites.len(),
{
    if suites.len() > 0 {
        let d = suites.drop_last();
        lemma_index_unique(d, id);
        assert forall|k: int| 0 <= k < suites.len() && suites[k].id@ == id implies (suite_index(
            suites,
            id,
        ) matches Some(i) && k <= i) by {
            if k < d.len() {
                assert(d[k] == suites[k]);
            }
        }
    }
}


// ---------------------------------------------------------------------------
// Counting results
// ---------------------------------------------------------------------------

/// How many results passed.
pub open spec fn count_passed(results: Seq<CaseResult>) -> nat
    decreases results.len(),
{
    if results.len() == 0 {
        0
    } else {
        count_passed(results.drop_last()) + if results.last().passed {
            1nat
        } else {
            0nat
        }
    }
}

/// The position of category `c` in a tally, if any.
pub open spec fn category_index(t: Seq<(Seq<char>, nat, nat)>, c: Seq<char>) -> Option<int>
    decreases t.len(),
{
    if t.len() == 0 {
        None
    } else if t.last().0 == c {
        Some(t.len() - 1)
    } else {
        category_index(t.drop_last(), c)
    }
}

/// Per category, in order of first appearance, the number of cases and
/// of passing cases, over the pairs of a case's category and whether its
/// result passed.
pub open spec fn category_tally(pairs: Seq<(Seq<char>, bool)>) -> Seq<(Seq<char>, nat, nat)>
    decreases pairs.len(),
{
    if pairs.len() == 0 {
        Seq::empty()
    } else {
        let t = category_tally(pairs.drop_last());
        let (c, p) = pairs.last();
        let inc: nat = if p {
            1
        } else {
            0
        };
        match category_index(t, c) {
            Some(i) => t.update(i, (c, t[i].1 + 1, t[i].2 + inc)),
            None => t.push((c, 1nat, inc)),
        }
    }
}

/// Each case's category beside whether its result passed, for as many
/// cases as there are results.
pub open spec fn category_pairs(cases: Seq<EvalCase>, results: Seq<CaseResult>) -> Seq<(Seq<char>, bool)> {
    let n = if cases.len() < results.len() {
        cases.len()
    } else {
        results.len()
    };
    Seq::new(n, |i: int| (cases[i].category@, results[i].passed))
}

/// Counts for one category.
#[derive(Debug)]
pub struct CategoryCount {
    /// The category.
    pub category: String,
    /// Cases in it.
    pub total: usize,
    /// Passing cases in it.
    pub passed: usize,
}

/// The counts of a suite run.
#[derive(Debug)]
pub struct RunCounts {
    /// Number of results.
    pub total_cases: usize,
    /// Passing results.
    pub passed: usize,
    /// Failing results.
    pub failed: usize,
    /// Per category, in order of first appearance.
    pub by_category: Vec<CategoryCount>,
}

/// Category counts as plain values.
pub open spec fn counts_view(v: Seq<CategoryCount>) -> Seq<(Seq<char>, nat, nat)> {
    v.map_values(|c: CategoryCount| (c.category@, c.total as nat, c.passed as nat))
}

/// The position of `c` among the category counts.
fn find_category(v: &Vec<CategoryCount>, c: &[char]) -> (r: Option<usize>)
    ensures
        r matches Some(j) ==> category_index(counts_view(v@), c@) == Some(j as int) && j < v@.len(),
        r is None ==> category_index(counts_view(v@), c@) is None,
{
    let ghost cv = counts_view(v@);
    let mut k: usize = v.len();
    assert(cv.take(k as int) =~= cv);
    while k > 0
        invariant
            cv == counts_view(v@),
            k <= v.len(),
            category_index(cv, c@) == category_index(cv.take(k as int), c@),
        decreases k,
    {
        assert(cv.take(k as int).drop_last() =~= cv.take(k - 1));
        if crate::text::chars_eq(&chars_of(v[k - 1].category.as_str()), c) {
            return Some(k - 1);
        }
        k -= 1;
    }
    None
}

/// A category index is in range.
proof fn lemma_category_index(t: Seq<(Seq<char>, nat, nat)>, c: Seq<char>)
    ensures
        category_index(t, c) matches Some(i) ==> 0 <= i < t.len() && t[i].0 == c,
    decreases t.len(),
{
    if t.len() > 0 {
        lemma_category_index(t.drop_last(), c);
    }
}

/// A tally has at most as many entries as pairs, each counting at most
/// as many cases as there are pairs.
proof fn lemma_tally_bounds(pairs: Seq<(Seq<char>, bool)>)
    ensures
        category_tally(pairs).len() <= pairs.len(),
        forall|i: int| 0 <= i < category_tally(pairs).len() ==> #[trigger] category_tally(pairs)[i].1 <= pairs.len()
            && category_tally(pairs)[i].2 <= category_tally(pairs)[i].1,
    decreases pairs.len(),
{
    if pairs.len() > 0 {
        lemma_tally_bounds(pairs.drop_last());
        lemma_category_index(category_tally(pairs.drop_last()), pairs.last().0);
    }
}

/// The counts of a suite run: results, passes, failures, and per category
/// (over as many cases as there are results) cases and passes.
pub fn count_results(cases: &[EvalCase], results: &[CaseResult]) -> (r: RunCounts)
    ensures
        r.total_cases == results@.len(),
        r.passed == count_passed(results@),
        r.failed == results@.len() - count_passed(results@),
        counts_view(r.by_category@) == category_tally(category_pairs(cases@, results@)),
{
    let mut passed: usize = 0;
    let mut i: usize = 0;
    while i < results.len()
        invariant
            i <= results.len(),
            passed <= i,
            passed == count_passed(results@.take(i as int)),
        decreases results.len() - i,
    {
        assert(results@.take(i + 1).drop_last() =~= results@.take(i as int));
        if results[i].passed {
            passed += 1;
        }
        i += 1;
    }
    assert(results@.take(results.len() as int) =~= results@);
    let n = if cases.len() < results.len() {
        cases.len()
    } else {
        results.len()
    };
    let ghost pairs = category_pairs(cases@, results@);
    let mut cats: Vec<CategoryCount> = Vec::new();
    let mut k: usize = 0;
    assert(counts_view(cats@) =~= category_tally(pairs.take(0)));
    while k < n
        invariant
            n <= cases.len(),
            n <= results.len(),
            pairs == category_pairs(cases@, results@),
            pairs.len() == n,
            k <= n,
            counts_view(cats@) == category_tally(pairs.take(k as int)),
        decreases n - k,
    {
        let ghost pk = pairs.take(k as int);
        let ghost t = category_tally(pk);
        assert(pairs.take(k + 1).drop_last() =~= pk);
        assert(pairs.take(k + 1).last() == (cases@[k as int].category@, results@[k as int].passed));
        proof {
            lemma_tally_bounds(pk);
            lemma_category_index(t, cases@[k as int].category@);
        }
        let c = chars_of(cases[k].category.as_str());
        let inc: usize = if results[k].passed {
            1
        } else {
            0
        };
        match find_category(&cats, &c) {
            Some(j) => {
                let total = cats[j].total + 1;
                let p = cats[j].passed + inc;
                let entry = CategoryCount { category: copy_text(&cats[j].category), total, passed: p };
                let ghost before = cats@;
                cats.set(j, entry);
                assert(counts_view(cats@) =~= counts_view(before).update(
                    j as int,
                    (cases@[k as int].category@, t[j as int].1 + 1, t[j as int].2 + inc as nat),
                ));
            },
            None => {
                let entry = CategoryCount { category: copy_text(&cases[k].category), total: 1, passed: inc };
                let ghost before = cats@;
                cats.push(entry);
                assert(counts_view(cats@) =~= counts_view(before).push((cases@[k as int].category@, 1nat, inc as nat)));
            },
        }
        k += 1;
    }
    assert(pairs.take(n as int) =~= pairs);
    RunCounts { total_cases: results.len(), passed, failed: results.len() - passed, by_category: cats }
}

} // verus!
