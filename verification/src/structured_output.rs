//! Structured output: a schema of typed fields, JSON values as plain data,
//! and the checks that a value meets a schema, filling in defaults.
//!
//! JSON text is parsed by `serde_json`; a parsed value is held here as a
//! [`JsonValue`], whose objects keep their members in ascending key order,
//! as `serde_json`'s default map does.
use vstd::prelude::*;
use crate::text::{
    chars_of, string_of, chars_eq, push_str, first_occurrence, occurs_at, trim, is_prefix, is_digit,
    spec_to_lowercase, find_from, slice_chars, trim_chars, to_lowercase, starts_with_str,
};
use crate::cost_complexity::utf8_len;
use crate::diff_lines::{str_lines, lines_view, lines_of_str, lemma_lines_view_push};

verus! {

/// A JSON value as plain data.
#[derive(Debug, PartialEq)]
pub enum JsonValue {
    /// `null`.
    Null,
    /// `true` or `false`.
    Bool(bool),
    /// A number: its text as `serde_json` writes it, and whether it is an
    /// integer that fits `i64` or `u64`.
    Number {
        /// The number's text.
        text: String,
        /// Whether it is an integer in the `i64` or `u64` range.
        integer: bool,
    },
    /// A string.
    Str(String),
    /// An array.
    Array(Vec<JsonValue>),
    /// An object: its members in ascending key order, each key once.
    Object(Vec<(String, JsonValue)>),
}

/// The expected type of a field.
#[derive(Debug, Clone, Copy, PartialEq, Eq, Structural)]
pub enum FieldType {
    /// A string.
    String,
    /// An integer.
    Integer,
    /// Any number.
    Number,
    /// A boolean.
    Boolean,
    /// An array.
    Array,
    /// An object.
    Object,
    /// Anything.
    Any,
}

/// A field of a schema.
#[derive(Debug)]
pub struct FieldDefinition {
    /// Field name.
    pub name: String,
    /// Expected type.
    pub field_type: FieldType,
    /// Whether the field must be present (or have a default).
    pub required: bool,
    /// Human-readable description.
    pub description: Option<String>,
    /// Value used when the field is absent.
    pub default: Option<JsonValue>,
}

/// A schema: a name and fields.
#[derive(Debug)]
pub struct OutputSchema {
    /// Schema name.
    pub name: String,
    /// Fields, in order.
    pub fields: Vec<FieldDefinition>,
}

/// How to look for structured content in text.
#[derive(Debug, Clone, Copy, PartialEq, Eq, Structural)]
pub enum ExtractionPattern {
    /// The first balanced `{...}` object.
    JsonBlock,
    /// A fenced code block.
    MarkdownCodeBlock,
    /// `key: value` lines.
    KeyValuePairs,
    /// Bulleted or numbered list items.
    List,
    /// Each of the above in turn until one gives a valid result.
    Auto,
}

/// A problem found while validating.
#[derive(Debug, Clone)]
pub struct ValidationError {
    /// The field concerned (`_root` for the whole output).
    pub field: String,
    /// What is wrong.
    pub message: String,
}

/// What the parser extracted.
#[derive(Debug)]
pub struct ExtractedOutput {
    /// The extracted value, with defaults filled in.
    pub data: JsonValue,
    /// Whether no errors were found.
    pub is_valid: bool,
    /// The errors found.
    pub errors: Vec<ValidationError>,
    /// The pattern that produced the data.
    pub pattern_used: String,
    /// The fields whose defaults were filled in.
    pub defaulted_fields: Vec<String>,
}

/// A JSON value as a mathematical value.
pub enum JsonView {
    Null,
    Bool(bool),
    Number(Seq<char>, bool),
    Str(Seq<char>),
    Array(Seq<JsonView>),
    Object(Seq<(Seq<char>, JsonView)>),
}

/// The mathematical value of a JSON value.
pub open spec fn json_view(v: JsonValue) -> JsonView
    decreases v,
{
    match v {
        JsonValue::Null => JsonView::Null,
        JsonValue::Bool(b) => JsonView::Bool(b),
        JsonValue::Number { text, integer } => JsonView::Number(text@, integer),
        JsonValue::Str(s) => JsonView::Str(s@),
        JsonValue::Array(vs) => JsonView::Array(
            Seq::new(
                vs@.len(),
                |i: int|
                    if 0 <= i < vs@.len() {
                        json_view(vs@[i])
                    } else {
                        JsonView::Null
                    },
            ),
        ),
        JsonValue::Object(ms) => JsonView::Object(
            Seq::new(
                ms@.len(),
                |i: int|
                    if 0 <= i < ms@.len() {
                        (ms@[i].0@, json_view(ms@[i].1))
                    } else {
                        (Seq::empty(), JsonView::Null)
                    },
            ),
        ),
    }
}

/// A value has the type a field expects.
pub open spec fn type_matches(v: JsonView, t: FieldType) -> bool {
    match t {
        FieldType::String => v is Str,
        FieldType::Integer => v matches JsonView::Number(_, integer) && integer,
        FieldType::Number => v is Number,
        FieldType::Boolean => v is Bool,
        FieldType::Array => v is Array,
        FieldType::Object => v is Object,
        FieldType::Any => true,
    }
}

/// The JSON type name of a value.
pub open spec fn value_type_name(v: JsonView) -> Seq<char> {
    match v {
        JsonView::Null => "null"@,
        JsonView::Bool(_) => "boolean"@,
        JsonView::Number(..) => "number"@,
        JsonView::Str(_) => "string"@,
        JsonView::Array(_) => "array"@,
        JsonView::Object(_) => "object"@,
    }
}

/// The name of a field type as `Debug` writes it.
pub open spec fn type_debug_name(t: FieldType) -> Seq<char> {
    match t {
        FieldType::String => "String"@,
        FieldType::Integer => "Integer"@,
        FieldType::Number => "Number"@,
        FieldType::Boolean => "Boolean"@,
        FieldType::Array => "Array"@,
        FieldType::Object => "Object"@,
        FieldType::Any => "Any"@,
    }
}

/// `a` comes before `b` in the order of their characters' code points
/// (the byte order of their UTF-8 texts).
pub open spec fn key_less(a: Seq<char>, b: Seq<char>) -> bool
    decreases a.len(),
{
    if a.len() == 0 {
        b.len() > 0
    } else if b.len() == 0 {
        false
    } else if a[0] != b[0] {
        (a[0] as u32) < (b[0] as u32)
    } else {
        key_less(a.drop_first(), b.drop_first())
    }
}

/// Object members as mathematical values.
pub open spec fn members_view(m: Seq<(String, JsonValue)>) -> Seq<(Seq<char>, JsonView)> {
    m.map_values(|p: (String, JsonValue)| (p.0@, json_view(p.1)))
}

/// The first member from index `i` on with key `k`.
pub open spec fn member_from(m: Seq<(Seq<char>, JsonView)>, k: Seq<char>, i: int) -> Option<int>
    decreases m.len() - i,
{
    if i < 0 || i >= m.len() {
        None
    } else if m[i].0 == k {
        Some(i)
    } else {
        member_from(m, k, i + 1)
    }
}

/// Where a new key goes: before the first member whose key does not come
/// before it.
pub open spec fn insert_pos(m: Seq<(Seq<char>, JsonView)>, k: Seq<char>, i: int) -> int
    decreases m.len() - i,
{
    if i < 0 || i >= m.len() {
        m.len() as int
    } else if !key_less(m[i].0, k) {
        i
    } else {
        insert_pos(m, k, i + 1)
    }
}

/// A member with key `k` and value `v` put into an object: the value
/// replaced when the key is there, else the member inserted in key order.
pub open spec fn put_member(m: Seq<(Seq<char>, JsonView)>, k: Seq<char>, v: JsonView) -> Seq<(Seq<char>, JsonView)> {
    match member_from(m, k, 0) {
        Some(i) => m.update(i, (k, v)),
        None => m.insert(insert_pos(m, k, 0), (k, v)),
    }
}

/// The members, errors and defaulted fields after validation.
pub struct Checked {
    pub members: Seq<(Seq<char>, JsonView)>,
    pub errors: Seq<(Seq<char>, Seq<char>)>,
    pub defaulted: Seq<Seq<char>>,
}

/// Checking the first fields of a schema against an object's members: a
/// present field of the wrong type is an error; an absent field takes its
/// default when it has one, and is an error when required without one.
pub open spec fn check_fields(fields: Seq<FieldDefinition>, m: Seq<(Seq<char>, JsonView)>) -> Checked
    decreases fields.len(),
{
    if fields.len() == 0 {
        Checked { members: m, errors: Seq::empty(), defaulted: Seq::empty() }
    } else {
        let c = check_fields(fields.drop_last(), m);
        let f = fields.last();
        match member_from(c.members, f.name@, 0) {
            Some(i) => if type_matches(c.members[i].1, f.field_type) {
                c
            } else {
                Checked {
                    errors: c.errors.push(
                        (
                            f.name@,
                            "Expected type "@ + type_debug_name(f.field_type) + ", got "@ + value_type_name(
                                c.members[i].1,
                            ),
                        ),
                    ),
                    ..c
                }
            },
            None => match f.default {
                Some(d) => Checked {
                    members: put_member(c.members, f.name@, json_view(d)),
                    defaulted: c.defaulted.push(f.name@),
                    ..c
                },
                None => if f.required {
                    Checked { errors: c.errors.push((f.name@, "Required field missing"@)), ..c }
                } else {
                    c
                },
            },
        }
    }
}

/// The errors as plain values.
pub open spec fn errors_view(v: Seq<ValidationError>) -> Seq<(Seq<char>, Seq<char>)> {
    v.map_values(|e: ValidationError| (e.field@, e.message@))
}

/// Texts as plain values.
pub open spec fn texts_view(v: Seq<String>) -> Seq<Seq<char>> {
    v.map_values(|s: String| s@)
}

/// The outcome of validating `data` against a schema's fields: for an
/// object, its members after checking (see [`check_fields`]); any other
/// value is kept and passes.
pub open spec fn validated(fields: Seq<FieldDefinition>, data: JsonView, pattern: Seq<char>, r: ExtractedOutput) -> bool {
    &&& r.pattern_used@ == pattern
    &&& match data {
        JsonView::Object(m) => {
            let c = check_fields(fields, m);
            &&& json_view(r.data) == JsonView::Object(c.members)
            &&& errors_view(r.errors@) == c.errors
            &&& texts_view(r.defaulted_fields@) == c.defaulted
            &&& r.is_valid == (c.errors.len() == 0)
        },
        _ => {
            &&& json_view(r.data) == data
            &&& r.errors@.len() == 0
            &&& r.defaulted_fields@.len() == 0
            &&& r.is_valid
        },
    }
}

/// The result when no content was found with a pattern.
pub open spec fn empty_result(pattern: Seq<char>, r: ExtractedOutput) -> bool {
    &&& json_view(r.data) == JsonView::Null
    &&& !r.is_valid
    &&& errors_view(r.errors@) == seq![("_root"@, "No structured content found using "@ + pattern + " pattern"@)]
    &&& r.pattern_used@ == pattern
    &&& r.defaulted_fields@.len() == 0
}

pub(crate) fn owned(s: &str) -> (r: String)
    ensures
        r@ == s@,
{
    string_of(&chars_of(s))
}

pub(crate) fn copy_text(s: &String) -> (r: String)
    ensures
        r@ == s@,
{
    string_of(&chars_of(s.as_str()))
}

fn key_less_exec(a: &[char], b: &[char]) -> (r: bool)
    ensures
        r == key_less(a@, b@),
{
    let mut i: usize = 0;
    assert(a@.skip(0) =~= a@ && b@.skip(0) =~= b@);
    while i < a.len() && i < b.len() && a[i] == b[i]
        invariant
            i <= a.len(),
            i <= b.len(),
            key_less(a@, b@) == key_less(a@.skip(i as int), b@.skip(i as int)),
        decreases a.len() - i,
    {
        assert(a@.skip(i as int).drop_first() =~= a@.skip(i + 1));
        assert(b@.skip(i as int).drop_first() =~= b@.skip(i + 1));
        i += 1;
    }
    if i == a.len() {
        assert(a@.skip(i as int) =~= Seq::<char>::empty());
        i < b.len()
    } else if i == b.len() {
        assert(b@.skip(i as int) =~= Seq::<char>::empty());
        false
    } else {
        assert(a@.skip(i as int)[0] == a@[i as int] && b@.skip(i as int)[0] == b@[i as int]);
        (a[i] as u32) < (b[i] as u32)
    }
}

/// A copy of a JSON value.
#[verifier::loop_isolation(false)]
pub fn copy_json(v: &JsonValue) -> (r: JsonValue)
    ensures
        json_view(r) == json_view(*v),
    decreases v,
{
    match v {
        JsonValue::Null => JsonValue::Null,
        JsonValue::Bool(b) => JsonValue::Bool(*b),
        JsonValue::Number { text, integer } => JsonValue::Number { text: text.clone(), integer: *integer },
        JsonValue::Str(s) => JsonValue::Str(s.clone()),
        JsonValue::Array(vs) => {
            let mut out: Vec<JsonValue> = Vec::new();
            let mut i: usize = 0;
            while i < vs.len()
                invariant
                    i <= vs.len(),
                    out.len() == i,
                    forall|j: int| 0 <= j < i ==> json_view(#[trigger] out@[j]) == json_view(vs@[j]),
                decreases vs.len() - i,
            {
                proof {
                    assert(decreases_to!(*v => (*v)->Array_0));
                    assert(decreases_to!(*vs => vs@));
                    assert(decreases_to!(vs@ => vs@[i as int]));
                }
                out.push(copy_json(&vs[i]));
                i += 1;
            }
            let r = JsonValue::Array(out);
            assert(json_view(r) == json_view(*v)) by {
                assert(json_view(r)->Array_0 =~= json_view(*v)->Array_0);
            }
            r
        },
        JsonValue::Object(ms) => {
            let mut out: Vec<(String, JsonValue)> = Vec::new();
            let mut i: usize = 0;
            while i < ms.len()
                invariant
                    i <= ms.len(),
                    out.len() == i,
                    forall|j: int| 0 <= j < i ==> (#[trigger] out@[j]).0@ == ms@[j].0@ && json_view(out@[j].1) == json_view(ms@[j].1),
                decreases ms.len() - i,
            {
                proof {
                    assert(decreases_to!(*v => (*v)->Object_0));
                    assert(decreases_to!(*ms => ms@));
                    assert(decreases_to!(ms@ => ms@[i as int]));
                    assert(decreases_to!(ms@[i as int] => ms@[i as int].1));
                }
                out.push((ms[i].0.clone(), copy_json(&ms[i].1)));
                i += 1;
            }
            let r = JsonValue::Object(out);
            assert(json_view(r) == json_view(*v)) by {
                assert(json_view(r)->Object_0 =~= json_view(*v)->Object_0);
            }
            r
        },
    }
}

/// Put a member into an object's members (see [`put_member`]).
fn put_member_exec(m: &mut Vec<(String, JsonValue)>, key: String, v: JsonValue)
    ensures
        members_view(final(m)@) == put_member(members_view(old(m)@), key@, json_view(v)),
{
    let k = chars_of(key.as_str());
    let ghost mm = members_view(m@);
    let ghost kv = key@;
    let ghost vv = json_view(v);
    let mut i: usize = 0;
    while i < m.len()
        invariant
            m@ == old(m)@,
            mm == members_view(m@),
            i <= m.len(),
            k@ == kv,
            key@ == kv,
            json_view(v) == vv,
            member_from(mm, kv, 0) == member_from(mm, kv, i as int),
        decreases m.len() - i,
    {
        if chars_eq(&chars_of(m[i].0.as_str()), &k) {
            assert(mm[i as int].0 == kv);
            m.set(i, (key, v));
            assert(members_view(m@) =~= mm.update(i as int, (kv, vv)));
            return;
        }
        i += 1;
    }
    let mut p: usize = 0;
    while p < m.len() && key_less_exec(&chars_of(m[p].0.as_str()), &k)
        invariant
            m@ == old(m)@,
            mm == members_view(m@),
            p <= m.len(),
            k@ == kv,
            key@ == kv,
            json_view(v) == vv,
            insert_pos(mm, kv, 0) == insert_pos(mm, kv, p as int),
        decreases m.len() - p,
    {
        p += 1;
    }
    m.insert(p, (key, v));
    assert(members_view(m@) =~= mm.insert(p as int, (kv, vv)));
}


// ---------------------------------------------------------------------------
// JSON text
// ---------------------------------------------------------------------------

/// What `serde_json::from_str::<serde_json::Value>` gives for a text: the
/// value, or `None` when the text is not JSON.
pub uninterp spec fn json_parse(text: Seq<char>) -> Option<JsonView>;

/// What `serde_json::to_string_pretty` writes for a value.
pub uninterp spec fn json_pretty(v: JsonView) -> Seq<char>;

/// A JSON value, if any, as a mathematical value.
pub open spec fn opt_json_view(v: Option<JsonValue>) -> Option<JsonView> {
    match v {
        Some(j) => Some(json_view(j)),
        None => None,
    }
}

/// `serde_json::Value` taken apart into a [`JsonValue`], member by member
/// and item by item; numbers keep the text `serde_json::Number` writes and
/// whether `is_i64` or `is_u64` holds. Only the wrappers below call it.
#[verifier::external_body]
fn from_serde(v: serde_json::Value) -> JsonValue {
    match v {
        serde_json::Value::Null => JsonValue::Null,
        serde_json::Value::Bool(b) => JsonValue::Bool(b),
        serde_json::Value::Number(n) => JsonValue::Number { integer: n.is_i64() || n.is_u64(), text: n.to_string() },
        serde_json::Value::String(t) => JsonValue::Str(t),
        serde_json::Value::Array(a) => JsonValue::Array(a.into_iter().map(from_serde).collect()),
        serde_json::Value::Object(m) => JsonValue::Object(m.into_iter().map(|(k, x)| (k, from_serde(x))).collect()),
    }
}

/// A [`JsonValue`] put together as a `serde_json::Value`, the inverse of
/// `from_serde`; a number whose text `serde_json::Number` does not parse
/// becomes `null`. Only the wrappers below call it.
#[verifier::external_body]
fn to_serde(v: &JsonValue) -> serde_json::Value {
    match v {
        JsonValue::Null => serde_json::Value::Null,
        JsonValue::Bool(b) => serde_json::Value::Bool(*b),
        JsonValue::Number { text, .. } => text.parse::<serde_json::Number>().map(serde_json::Value::Number).unwrap_or(serde_json::Value::Null),
        JsonValue::Str(t) => serde_json::Value::String(t.clone()),
        JsonValue::Array(a) => serde_json::Value::Array(a.iter().map(to_serde).collect()),
        JsonValue::Object(m) => serde_json::Value::Object(m.iter().map(|(k, x)| (k.clone(), to_serde(x))).collect()),
    }
}

/// `serde_json::from_str::<serde_json::Value>`: the contract names the
/// result by [`json_parse`]; which texts are JSON is not stated.
#[verifier::external_body]
pub(crate) fn parse_json(text: &str) -> (r: Option<JsonValue>)
    ensures
        opt_json_view(r) == json_parse(text@),
{
    serde_json::from_str::<serde_json::Value>(text).ok().map(from_serde)
}

/// `serde_json::to_string_pretty` of a value (it cannot fail on a
/// `serde_json::Value`): the contract names the text by [`json_pretty`].
#[verifier::external_body]
fn pretty_json(v: &JsonValue) -> (r: String)
    ensures
        r@ == json_pretty(json_view(*v)),
{
    serde_json::to_string_pretty(&to_serde(v)).unwrap_or_default()
}

// ---------------------------------------------------------------------------
// Finding structured content in text
// ---------------------------------------------------------------------------

/// The content between the first occurrence of `marker` and the next
/// three backticks after it, trimmed.
pub open spec fn block_after(s: Seq<char>, marker: Seq<char>) -> Option<Seq<char>> {
    match first_occurrence(s, marker, 0) {
        Some(st) => match first_occurrence(s, "```"@, st + marker.len()) {
            Some(e) => Some(trim(s.subrange(st + marker.len(), e))),
            None => None,
        },
        None => None,
    }
}

/// The content of the first fenced code block found, trying the fences
/// `` ```json `` and `` ``` `` in turn, each followed by `\n` or `\r\n`.
pub open spec fn code_block(s: Seq<char>) -> Option<Seq<char>> {
    match block_after(s, "```json\n"@) {
        Some(b) => Some(b),
        None => match block_after(s, "```json\r\n"@) {
            Some(b) => Some(b),
            None => match block_after(s, "```\n"@) {
                Some(b) => Some(b),
                None => block_after(s, "```\r\n"@),
            },
        },
    }
}

/// The first position at or after `i` holding `c`.
pub open spec fn char_from(s: Seq<char>, c: char, i: int) -> Option<int>
    decreases s.len() - i,
{
    if i < 0 || i >= s.len() {
        None
    } else if s[i] == c {
        Some(i)
    } else {
        char_from(s, c, i + 1)
    }
}

/// Scanning from position `i` with the given nesting depth and string
/// state: the position of the brace that closes the outermost object.
/// Inside a string a backslash escapes the next character; braces count
/// only outside strings.
pub open spec fn object_end(s: Seq<char>, i: int, depth: int, in_str: bool, esc: bool) -> Option<int>
    decreases s.len() - i,
{
    if i < 0 || i >= s.len() {
        None
    } else if esc {
        object_end(s, i + 1, depth, in_str, false)
    } else if s[i] == '\\' && in_str {
        object_end(s, i + 1, depth, in_str, true)
    } else if s[i] == '"' {
        object_end(s, i + 1, depth, !in_str, false)
    } else if s[i] == '{' && !in_str {
        object_end(s, i + 1, depth + 1, in_str, false)
    } else if s[i] == '}' && !in_str {
        if depth - 1 == 0 {
            Some(i)
        } else {
            object_end(s, i + 1, depth - 1, in_str, false)
        }
    } else {
        object_end(s, i + 1, depth, in_str, false)
    }
}

/// The text of the first balanced JSON object: from the first `{` to the
/// brace that closes it.
pub open spec fn first_object(s: Seq<char>) -> Option<Seq<char>> {
    match char_from(s, '{', 0) {
        Some(st) => match object_end(s, st, 0, false, false) {
            Some(e) => Some(s.subrange(st, e + 1)),
            None => None,
        },
        None => None,
    }
}

/// Spaces replaced by underscores.
pub open spec fn underscored(s: Seq<char>) -> Seq<char> {
    s.map_values(|c: char| if c == ' ' { '_' } else { c })
}

/// The value of a `key: value` line: the text parsed as JSON, or the text
/// itself as a string when it is not JSON.
pub open spec fn kv_json(v: Seq<char>) -> JsonView {
    match json_parse(v) {
        Some(j) => j,
        None => JsonView::Str(v),
    }
}

/// The members gathered from lines of `key: value`: each trimmed line
/// with a colon gives a key (the trimmed text before the first colon,
/// lower-cased, spaces made underscores) and a value (see [`kv_json`]);
/// a later line with the same key replaces the value.
pub open spec fn kv_members(lines: Seq<Seq<char>>) -> Seq<(Seq<char>, JsonView)>
    decreases lines.len(),
{
    if lines.len() == 0 {
        Seq::empty()
    } else {
        let m = kv_members(lines.drop_last());
        let l = trim(lines.last());
        match first_occurrence(l, seq![':'], 0) {
            Some(p) => put_member(
                m,
                underscored(spec_to_lowercase(trim(l.take(p)))),
                kv_json(trim(l.skip(p + 1))),
            ),
            None => m,
        }
    }
}

/// The item of a trimmed list line: after `- ` or `* `, or, for a line of
/// more than two UTF-8 bytes starting with a digit, after the first `. `
/// or else the first `) `.
pub open spec fn list_item(l: Seq<char>) -> Option<Seq<char>> {
    if is_prefix("- "@, l) || is_prefix("* "@, l) {
        Some(l.skip(2))
    } else if utf8_len(l) > 2 && is_digit(l[0]) {
        match first_occurrence(l, ". "@, 0) {
            Some(i) => Some(l.skip(i + 2)),
            None => match first_occurrence(l, ") "@, 0) {
                Some(i) => Some(l.skip(i + 2)),
                None => None,
            },
        }
    } else {
        None
    }
}

/// The trimmed items of the list lines, in order.
pub open spec fn list_items(lines: Seq<Seq<char>>) -> Seq<Seq<char>>
    decreases lines.len(),
{
    if lines.len() == 0 {
        Seq::empty()
    } else {
        let items = list_items(lines.drop_last());
        match list_item(trim(lines.last())) {
            Some(it) => items.push(trim(it)),
            None => items,
        }
    }
}

/// Strings as JSON values.
pub open spec fn string_values(items: Seq<Seq<char>>) -> Seq<JsonView> {
    items.map_values(|t: Seq<char>| JsonView::Str(t))
}

/// The name a pattern reports itself by.
pub open spec fn pattern_name(p: ExtractionPattern) -> Seq<char> {
    match p {
        ExtractionPattern::JsonBlock => "json_block"@,
        ExtractionPattern::MarkdownCodeBlock => "markdown_code_block"@,
        ExtractionPattern::KeyValuePairs => "key_value_pairs"@,
        ExtractionPattern::List => "list"@,
        ExtractionPattern::Auto => "auto"@,
    }
}

/// The data that a single pattern finds in `text`, before validation;
/// `None` when it finds nothing (or finds text that is not JSON).
pub open spec fn candidate(p: ExtractionPattern, text: Seq<char>) -> Option<JsonView> {
    match p {
        ExtractionPattern::JsonBlock => match first_object(text) {
            Some(j) => json_parse(j),
            None => None,
        },
        ExtractionPattern::MarkdownCodeBlock => match code_block(text) {
            Some(j) => json_parse(j),
            None => None,
        },
        ExtractionPattern::KeyValuePairs => {
            let m = kv_members(str_lines(text));
            if m.len() == 0 {
                None
            } else {
                Some(JsonView::Object(m))
            }
        },
        ExtractionPattern::List => {
            let items = list_items(str_lines(text));
            if items.len() == 0 {
                None
            } else {
                Some(JsonView::Object(seq![("items"@, JsonView::Array(string_values(items)))]))
            }
        },
        ExtractionPattern::Auto => None,
    }
}

/// Whether the data found passes the schema's fields.
pub open spec fn passes(fields: Seq<FieldDefinition>, d: Option<JsonView>) -> bool {
    match d {
        Some(JsonView::Object(m)) => check_fields(fields, m).errors.len() == 0,
        Some(_) => true,
        None => false,
    }
}

/// The pattern that `Auto` settles on: the first of markdown code block,
/// JSON block and key-value pairs whose result is valid, else list.
pub open spec fn auto_choice(fields: Seq<FieldDefinition>, text: Seq<char>) -> ExtractionPattern {
    if passes(fields, candidate(ExtractionPattern::MarkdownCodeBlock, text)) {
        ExtractionPattern::MarkdownCodeBlock
    } else if passes(fields, candidate(ExtractionPattern::JsonBlock, text)) {
        ExtractionPattern::JsonBlock
    } else if passes(fields, candidate(ExtractionPattern::KeyValuePairs, text)) {
        ExtractionPattern::KeyValuePairs
    } else {
        ExtractionPattern::List
    }
}

/// `r` is what a single (not `Auto`) pattern gives for `text`.
pub open spec fn extracted_with(fields: Seq<FieldDefinition>, p: ExtractionPattern, text: Seq<char>, r: ExtractedOutput) -> bool {
    match candidate(p, text) {
        Some(d) => validated(fields, d, pattern_name(p), r),
        None => empty_result(pattern_name(p), r),
    }
}

/// `r` is what parsing `text` with pattern `p` gives.
pub open spec fn extracted(fields: Seq<FieldDefinition>, p: ExtractionPattern, text: Seq<char>, r: ExtractedOutput) -> bool {
    match p {
        ExtractionPattern::Auto => extracted_with(fields, auto_choice(fields, text), text, r),
        _ => extracted_with(fields, p, text, r),
    }
}


/// Characters, if any, as a mathematical value.
pub open spec fn opt_chars(v: Option<Vec<char>>) -> Option<Seq<char>> {
    match v {
        Some(c) => Some(c@),
        None => None,
    }
}

/// The block after `marker` (see [`block_after`]).
fn block_after_exec(s: &[char], marker: &str) -> (r: Option<Vec<char>>)
    ensures
        opt_chars(r) == block_after(s@, marker@),
{
    let m = chars_of(marker);
    match find_from(s, &m, 0) {
        Some(st) => {
            assert(occurs_at(s@, m@, st as int));
            assert(st + m@.len() <= s@.len());
            assert(s@.len() == s.len());
            let ml = m.len();
            let cs = st + ml;
            let fence = chars_of("```");
            match find_from(s, &fence, cs) {
                Some(e) => {
                    let inner = slice_chars(s, cs, e);
                    Some(trim_chars(&inner))
                },
                None => None,
            }
        },
        None => None,
    }
}

/// The content of the first fenced code block (see [`code_block`]).
fn code_block_exec(s: &[char]) -> (r: Option<Vec<char>>)
    ensures
        opt_chars(r) == code_block(s@),
{
    match block_after_exec(s, "```json\n") {
        Some(b) => Some(b),
        None => match block_after_exec(s, "```json\r\n") {
            Some(b) => Some(b),
            None => match block_after_exec(s, "```\n") {
                Some(b) => Some(b),
                None => block_after_exec(s, "```\r\n"),
            },
        },
    }
}

/// The text of the first balanced JSON object (see [`first_object`]).
fn first_object_exec(s: &[char]) -> (r: Option<Vec<char>>)
    ensures
        opt_chars(r) == first_object(s@),
{
    let mut st: usize = 0;
    while st < s.len() && s[st] != '{'
        invariant
            st <= s.len(),
            char_from(s@, '{', 0) == char_from(s@, '{', st as int),
        decreases s.len() - st,
    {
        st += 1;
    }
    if st == s.len() {
        return None;
    }
    let mut i: usize = st;
    let mut depth: usize = 0;
    let mut in_str = false;
    let mut esc = false;
    while i < s.len()
        invariant
            st < s.len(),
            s@[st as int] == '{',
            char_from(s@, '{', 0) == Some(st as int),
            st <= i <= s.len(),
            object_end(s@, st as int, 0, false, false) == object_end(s@, i as int, depth as int, in_str, esc),
            i == st ==> (depth == 0 && !in_str && !esc),
            i > st ==> depth >= 1,
            depth <= i - st,
        decreases s.len() - i,
    {
        let c = s[i];
        if esc {
            esc = false;
        } else if c == '\\' && in_str {
            esc = true;
        } else if c == '"' {
            in_str = !in_str;
        } else if c == '{' && !in_str {
            depth += 1;
        } else if c == '}' && !in_str {
            if depth == 1 {
                return Some(slice_chars(s, st, i + 1));
            }
            depth -= 1;
        }
        i += 1;
    }
    None
}

/// A text with its spaces made underscores (`str::replace(' ', "_")`).
fn underscored_exec(s: &[char]) -> (r: Vec<char>)
    ensures
        r@ == underscored(s@),
{
    let mut out: Vec<char> = Vec::new();
    let mut i: usize = 0;
    while i < s.len()
        invariant
            i <= s.len(),
            out@ == underscored(s@.take(i as int)),
        decreases s.len() - i,
    {
        out.push(if s[i] == ' ' { '_' } else { s[i] });
        i += 1;
        assert(out@ =~= underscored(s@.take(i as int)));
    }
    assert(s@.take(s.len() as int) =~= s@);
    out
}

/// One line of `key: value` put into the members (see [`kv_members`]).
fn kv_step(line: &[char], m: &mut Vec<(String, JsonValue)>)
    ensures
        members_view(final(m)@) == (match first_occurrence(trim(line@), seq![':'], 0) {
            Some(p) => put_member(
                members_view(old(m)@),
                underscored(spec_to_lowercase(trim(trim(line@).take(p)))),
                kv_json(trim(trim(line@).skip(p + 1))),
            ),
            None => members_view(old(m)@),
        }),
{
    let l = trim_chars(line);
    let colon: Vec<char> = vec![':'];
    assert(colon@ =~= seq![':']);
    match find_from(&l, &colon, 0) {
        Some(p) => {
            let head = slice_chars(&l, 0, p);
            assert(head@ =~= l@.take(p as int));
            let key0 = trim_chars(&head);
            let low = to_lowercase(&key0);
            let key = underscored_exec(&low);
            assert(occurs_at(l@, colon@, p as int));
            assert(p + 1 <= l@.len() && l@.len() == l.len());
            let tail = slice_chars(&l, p + 1, l.len());
            assert(tail@ =~= l@.skip(p + 1));
            let val = trim_chars(&tail);
            let vs = string_of(&val);
            let jv = match parse_json(vs.as_str()) {
                Some(j) => j,
                None => JsonValue::Str(vs),
            };
            put_member_exec(m, string_of(&key), jv);
        },
        None => {},
    }
}

/// The members of the `key: value` lines of a text (see [`kv_members`]).
fn kv_members_exec(text: &str) -> (r: Vec<(String, JsonValue)>)
    ensures
        members_view(r@) == kv_members(str_lines(text@)),
{
    let lines = lines_of_str(text);
    let ghost ls = lines_view(lines@);
    let mut m: Vec<(String, JsonValue)> = Vec::new();
    let mut k: usize = 0;
    assert(members_view(m@) =~= kv_members(ls.take(0)));
    while k < lines.len()
        invariant
            ls == lines_view(lines@),
            ls == str_lines(text@),
            k <= lines.len(),
            members_view(m@) == kv_members(ls.take(k as int)),
        decreases lines.len() - k,
    {
        assert(ls.take(k + 1).drop_last() =~= ls.take(k as int));
        assert(ls.take(k + 1).last() == lines@[k as int]@);
        kv_step(&lines[k], &mut m);
        k += 1;
    }
    assert(ls.take(lines.len() as int) =~= ls);
    m
}

/// `utf8_len` is at least the number of characters.
proof fn lemma_utf8_len_at_least(s: Seq<char>)
    ensures
        utf8_len(s) >= s.len(),
    decreases s.len(),
{
    if s.len() > 0 {
        lemma_utf8_len_at_least(s.drop_last());
    }
}

/// Whether a text is longer than two bytes in UTF-8.
pub(crate) fn more_than_two_bytes(l: &[char]) -> (r: bool)
    ensures
        r == (utf8_len(l@) > 2),
{
    proof {
        lemma_utf8_len_at_least(l@);
        reveal_with_fuel(utf8_len, 3);
    }
    if l.len() >= 3 {
        true
    } else if l.len() == 0 {
        false
    } else if l.len() == 1 {
        assert(l@.drop_last().len() == 0);
        (l[0] as u32) >= 0x800
    } else {
        assert(l@.drop_last().drop_last().len() == 0);
        assert(l@.drop_last().last() == l@[0]);
        (l[0] as u32) >= 0x80 || (l[1] as u32) >= 0x80
    }
}

/// The item of a trimmed list line (see [`list_item`]).
fn list_item_exec(l: &[char]) -> (r: Option<Vec<char>>)
    ensures
        opt_chars(r) == list_item(l@),
{
    if starts_with_str(l, "- ") || starts_with_str(l, "* ") {
        proof {
            reveal_strlit("- ");
            reveal_strlit("* ");
        }
        let r = slice_chars(l, 2, l.len());
        assert(r@ =~= l@.skip(2));
        Some(r)
    } else if more_than_two_bytes(l) && '0' <= l[0] && l[0] <= '9' {
        let dot = chars_of(". ");
        let paren = chars_of(") ");
        proof {
            reveal_strlit(". ");
            reveal_strlit(") ");
        }
        match find_from(l, &dot, 0) {
            Some(i) => {
                let r = slice_chars(l, i + 2, l.len());
                assert(r@ =~= l@.skip(i + 2));
                Some(r)
            },
            None => match find_from(l, &paren, 0) {
                Some(i) => {
                    let r = slice_chars(l, i + 2, l.len());
                    assert(r@ =~= l@.skip(i + 2));
                    Some(r)
                },
                None => None,
            },
        }
    } else {
        None
    }
}

/// The items of the list lines of a text (see [`list_items`]).
#[verifier::rlimit(30)]
fn list_items_exec(text: &str) -> (r: Vec<Vec<char>>)
    ensures
        lines_view(r@) == list_items(str_lines(text@)),
{
    let lines = lines_of_str(text);
    let ghost ls = lines_view(lines@);
    let mut items: Vec<Vec<char>> = Vec::new();
    let mut k: usize = 0;
    assert(lines_view(items@) =~= list_items(ls.take(0)));
    while k < lines.len()
        invariant
            ls == lines_view(lines@),
            ls == str_lines(text@),
            k <= lines.len(),
            lines_view(items@) == list_items(ls.take(k as int)),
        decreases lines.len() - k,
    {
        assert(ls.take(k + 1).drop_last() =~= ls.take(k as int));
        assert(ls.take(k + 1).last() == lines@[k as int]@);
        let l = trim_chars(&lines[k]);
        match list_item_exec(&l) {
            Some(it) => {
                let t = trim_chars(&it);
                proof {
                    lemma_lines_view_push(items@, t);
                }
                items.push(t);
            },
            None => {},
        }
        k += 1;
    }
    assert(ls.take(lines.len() as int) =~= ls);
    items
}


// ---------------------------------------------------------------------------
// Validation
// ---------------------------------------------------------------------------

/// The view of an object is its members' view.
pub proof fn lemma_object_view(ms: Vec<(String, JsonValue)>)
    ensures
        json_view(JsonValue::Object(ms)) == JsonView::Object(members_view(ms@)),
{
    assert(json_view(JsonValue::Object(ms))->Object_0 =~= members_view(ms@));
}

/// What [`member_from`] finds is a member with that key, at or after
/// the starting position.
pub proof fn lemma_member_from(m: Seq<(Seq<char>, JsonView)>, k: Seq<char>, j: int)
    ensures
        member_from(m, k, j) matches Some(i) ==> j <= i < m.len() && m[i].0 == k,
    decreases m.len() - j,
{
    if 0 <= j < m.len() && m[j].0 != k {
        lemma_member_from(m, k, j + 1);
    }
}

/// The index of the first member with key `key`.
pub(crate) fn find_member(m: &Vec<(String, JsonValue)>, key: &[char]) -> (r: Option<usize>)
    ensures
        r matches Some(j) ==> member_from(members_view(m@), key@, 0) == Some(j as int),
        r is None ==> member_from(members_view(m@), key@, 0) is None,
{
    let ghost mm = members_view(m@);
    let mut i: usize = 0;
    while i < m.len()
        invariant
            mm == members_view(m@),
            i <= m.len(),
            member_from(mm, key@, 0) == member_from(mm, key@, i as int),
        decreases m.len() - i,
    {
        if chars_eq(&chars_of(m[i].0.as_str()), key) {
            return Some(i);
        }
        i += 1;
    }
    None
}

/// Whether a value has the type a field expects (see [`type_matches`]).
fn value_matches(v: &JsonValue, t: FieldType) -> (r: bool)
    ensures
        r == type_matches(json_view(*v), t),
{
    match t {
        FieldType::String => matches!(v, JsonValue::Str(_)),
        FieldType::Integer => match v {
            JsonValue::Number { integer, .. } => *integer,
            _ => false,
        },
        FieldType::Number => matches!(v, JsonValue::Number { .. }),
        FieldType::Boolean => matches!(v, JsonValue::Bool(_)),
        FieldType::Array => matches!(v, JsonValue::Array(_)),
        FieldType::Object => matches!(v, JsonValue::Object(_)),
        FieldType::Any => true,
    }
}

/// The JSON type name of a value (see [`value_type_name`]).
fn value_type_text(v: &JsonValue) -> (r: &'static str)
    ensures
        r@ == value_type_name(json_view(*v)),
{
    match v {
        JsonValue::Null => "null",
        JsonValue::Bool(_) => "boolean",
        JsonValue::Number { .. } => "number",
        JsonValue::Str(_) => "string",
        JsonValue::Array(_) => "array",
        JsonValue::Object(_) => "object",
    }
}

/// The name of a field type as `Debug` writes it.
fn type_debug_text(t: FieldType) -> (r: &'static str)
    ensures
        r@ == type_debug_name(t),
{
    match t {
        FieldType::String => "String",
        FieldType::Integer => "Integer",
        FieldType::Number => "Number",
        FieldType::Boolean => "Boolean",
        FieldType::Array => "Array",
        FieldType::Object => "Object",
        FieldType::Any => "Any",
    }
}

/// The name a single pattern reports itself by.
fn pattern_text(p: ExtractionPattern) -> (r: &'static str)
    ensures
        r@ == pattern_name(p),
{
    match p {
        ExtractionPattern::JsonBlock => "json_block",
        ExtractionPattern::MarkdownCodeBlock => "markdown_code_block",
        ExtractionPattern::KeyValuePairs => "key_value_pairs",
        ExtractionPattern::List => "list",
        ExtractionPattern::Auto => "auto",
    }
}

/// Validates `data` against the fields, filling in defaults (see
/// [`validated`]).
pub fn validate(fields: &Vec<FieldDefinition>, data: JsonValue, pattern: &str) -> (r: ExtractedOutput)
    ensures
        validated(fields@, json_view(data), pattern@, r),
{
    match data {
        JsonValue::Object(mut ms) => {
            proof {
                lemma_object_view(ms);
            }
            let ghost m0 = members_view(ms@);
            let mut errors: Vec<ValidationError> = Vec::new();
            let mut defaulted: Vec<String> = Vec::new();
            let mut k: usize = 0;
            assert(errors_view(errors@) =~= Seq::<(Seq<char>, Seq<char>)>::empty());
            assert(texts_view(defaulted@) =~= Seq::<Seq<char>>::empty());
            assert(fields@.take(0) =~= Seq::<FieldDefinition>::empty());
            while k < fields.len()
                invariant
                    k <= fields.len(),
                    check_fields(fields@.take(k as int), m0).members == members_view(ms@),
                    check_fields(fields@.take(k as int), m0).errors == errors_view(errors@),
                    check_fields(fields@.take(k as int), m0).defaulted == texts_view(defaulted@),
                decreases fields.len() - k,
            {
                let f = &fields[k];
                assert(fields@.take(k + 1).drop_last() =~= fields@.take(k as int));
                assert(fields@.take(k + 1).last() == *f);
                let name = chars_of(f.name.as_str());
                proof {
                    lemma_member_from(members_view(ms@), name@, 0);
                }
                match find_member(&ms, &name) {
                    Some(i) => {
                        assert(members_view(ms@)[i as int].1 == json_view(ms@[i as int].1));
                        if !value_matches(&ms[i].1, f.field_type) {
                            let mut msg: Vec<char> = Vec::new();
                            push_str(&mut msg, "Expected type ");
                            push_str(&mut msg, type_debug_text(f.field_type));
                            push_str(&mut msg, ", got ");
                            push_str(&mut msg, value_type_text(&ms[i].1));
                            assert(msg@ =~= "Expected type "@ + type_debug_name(f.field_type) + ", got "@
                                + value_type_name(json_view(ms@[i as int].1)));
                            let e = ValidationError { field: copy_text(&f.name), message: string_of(&msg) };
                            let ghost before = errors@;
                            errors.push(e);
                            assert(errors_view(errors@) =~= errors_view(before).push((f.name@, msg@)));

                            assert(errors_view(errors@) =~= check_fields(fields@.take(k + 1), m0).errors);
                        }
                    },
                    None => match &f.default {
                        Some(d) => {
                            put_member_exec(&mut ms, copy_text(&f.name), copy_json(d));
                            defaulted.push(copy_text(&f.name));
                            assert(texts_view(defaulted@) =~= check_fields(fields@.take(k + 1), m0).defaulted);
                        },
                        None => {
                            if f.required {
                                let e = ValidationError {
                                    field: copy_text(&f.name),
                                    message: owned("Required field missing"),
                                };
                                let ghost before = errors@;
                                errors.push(e);
                                assert(errors_view(errors@) =~= errors_view(before).push((f.name@, "Required field missing"@)));
                            }
                        },
                    },
                }
                k += 1;
            }
            assert(fields@.take(fields.len() as int) =~= fields@);
            proof {
                lemma_object_view(ms);
            }
            let ok = errors.len() == 0;
            ExtractedOutput {
                data: JsonValue::Object(ms),
                is_valid: ok,
                errors,
                pattern_used: owned(pattern),
                defaulted_fields: defaulted,
            }
        },
        other => ExtractedOutput {
            data: other,
            is_valid: true,
            errors: Vec::new(),
            pattern_used: owned(pattern),
            defaulted_fields: Vec::new(),
        },
    }
}

/// The result when nothing was found with a pattern (see [`empty_result`]).
fn empty_result_exec(pattern: &str) -> (r: ExtractedOutput)
    ensures
        empty_result(pattern@, r),
{
    let mut msg: Vec<char> = Vec::new();
    push_str(&mut msg, "No structured content found using ");
    push_str(&mut msg, pattern);
    push_str(&mut msg, " pattern");
    let e = ValidationError { field: owned("_root"), message: string_of(&msg) };
    let errors = vec![e];
    assert(errors_view(errors@) =~= seq![("_root"@, "No structured content found using "@ + pattern@ + " pattern"@)]);
    ExtractedOutput {
        data: JsonValue::Null,
        is_valid: false,
        errors,
        pattern_used: owned(pattern),
        defaulted_fields: Vec::new(),
    }
}


// ---------------------------------------------------------------------------
// The parser
// ---------------------------------------------------------------------------

/// The data a single pattern finds (see [`candidate`]).
fn candidate_exec(p: ExtractionPattern, text: &str) -> (r: Option<JsonValue>)
    ensures
        opt_json_view(r) == candidate(p, text@),
{
    match p {
        ExtractionPattern::JsonBlock => {
            let c = chars_of(text);
            match first_object_exec(&c) {
                Some(j) => parse_json(string_of(&j).as_str()),
                None => None,
            }
        },
        ExtractionPattern::MarkdownCodeBlock => {
            let c = chars_of(text);
            match code_block_exec(&c) {
                Some(j) => parse_json(string_of(&j).as_str()),
                None => None,
            }
        },
        ExtractionPattern::KeyValuePairs => {
            let m = kv_members_exec(text);
            if m.len() == 0 {
                None
            } else {
                proof {
                    lemma_object_view(m);
                }
                Some(JsonValue::Object(m))
            }
        },
        ExtractionPattern::List => {
            let items = list_items_exec(text);
            if items.len() == 0 {
                return None;
            }
            let ghost iv = lines_view(items@);
            let mut arr: Vec<JsonValue> = Vec::new();
            let mut k: usize = 0;
            while k < items.len()
                invariant
                    iv == lines_view(items@),
                    k <= items.len(),
                    arr.len() == k,
                    forall|j: int| 0 <= j < k ==> json_view(#[trigger] arr@[j]) == JsonView::Str(iv[j]),
                decreases items.len() - k,
            {
                arr.push(JsonValue::Str(string_of(&items[k])));
                k += 1;
            }
            let a = JsonValue::Array(arr);
            assert(json_view(a)->Array_0 =~= string_values(iv));
            let ms = vec![(owned("items"), a)];
            proof {
                lemma_object_view(ms);
            }
            assert(members_view(ms@) =~= seq![("items"@, JsonView::Array(string_values(iv)))]);
            Some(JsonValue::Object(ms))
        },
        ExtractionPattern::Auto => None,
    }
}

/// What a single pattern gives for `text` (see [`extracted_with`]).
fn extract_with(fields: &Vec<FieldDefinition>, p: ExtractionPattern, text: &str) -> (r: ExtractedOutput)
    ensures
        extracted_with(fields@, p, text@, r),
        r.is_valid == passes(fields@, candidate(p, text@)),
{
    match candidate_exec(p, text) {
        Some(d) => validate(fields, d, pattern_text(p)),
        None => empty_result_exec(pattern_text(p)),
    }
}

/// Extracts and validates structured data from text.
pub struct StructuredOutputParser {
    schema: OutputSchema,
    pattern: ExtractionPattern,
}

impl StructuredOutputParser {
    /// The fields of the parser's schema.
    pub closed spec fn schema_fields(&self) -> Seq<FieldDefinition> {
        self.schema.fields@
    }

    /// The parser's extraction pattern.
    pub closed spec fn pattern_kind(&self) -> ExtractionPattern {
        self.pattern
    }

    /// A parser with the given schema and pattern.
    pub fn new(schema: OutputSchema, pattern: ExtractionPattern) -> (r: Self)
        ensures
            r.schema_fields() == schema.fields@,
            r.pattern_kind() == pattern,
    {
        StructuredOutputParser { schema, pattern }
    }

    /// Finds structured data in `text` with the parser's pattern and
    /// validates it against the schema (see [`extracted`]).
    pub fn parse(&self, text: &str) -> (r: ExtractedOutput)
        ensures
            extracted(self.schema_fields(), self.pattern_kind(), text@, r),
    {
        let fields = &self.schema.fields;
        match self.pattern {
            ExtractionPattern::Auto => {
                let r = extract_with(fields, ExtractionPattern::MarkdownCodeBlock, text);
                if r.is_valid {
                    return r;
                }
                let r = extract_with(fields, ExtractionPattern::JsonBlock, text);
                if r.is_valid {
                    return r;
                }
                let r = extract_with(fields, ExtractionPattern::KeyValuePairs, text);
                if r.is_valid {
                    return r;
                }
                extract_with(fields, ExtractionPattern::List, text)
            },
            p => extract_with(fields, p, text),
        }
    }
}


// ---------------------------------------------------------------------------
// Building schemas and reading values
// ---------------------------------------------------------------------------

impl FieldDefinition {
    /// A required field with no description and no default.
    pub fn required(name: &str, field_type: FieldType) -> (r: Self)
        ensures
            r.name@ == name@,
            r.field_type == field_type,
            r.required,
            r.description is None,
            r.default is None,
    {
        FieldDefinition { name: owned(name), field_type, required: true, description: None, default: None }
    }

    /// An optional field with a default value.
    pub fn optional(name: &str, field_type: FieldType, default: JsonValue) -> (r: Self)
        ensures
            r.name@ == name@,
            r.field_type == field_type,
            !r.required,
            r.description is None,
            r.default == Some(default),
    {
        FieldDefinition { name: owned(name), field_type, required: false, description: None, default: Some(default) }
    }

    /// The field with a description.
    pub fn with_description(self, desc: &str) -> (r: Self)
        ensures
            r.name == self.name,
            r.field_type == self.field_type,
            r.required == self.required,
            r.description matches Some(d) && d@ == desc@,
            r.default == self.default,
    {
        FieldDefinition { description: Some(owned(desc)), ..self }
    }
}

/// The JSON schema keyword of a field type.
pub open spec fn type_keyword(t: FieldType) -> Seq<char> {
    match t {
        FieldType::String => "string"@,
        FieldType::Integer => "integer"@,
        FieldType::Number => "number"@,
        FieldType::Boolean => "boolean"@,
        FieldType::Array => "array"@,
        FieldType::Object => "object"@,
        FieldType::Any => "any"@,
    }
}

/// The schema property of a field: its type keyword and, when it has
/// one, its description.
pub open spec fn property_view(f: FieldDefinition) -> JsonView {
    match f.description {
        Some(d) => JsonView::Object(
            seq![("description"@, JsonView::Str(d@)), ("type"@, JsonView::Str(type_keyword(f.field_type)))],
        ),
        None => JsonView::Object(seq![("type"@, JsonView::Str(type_keyword(f.field_type)))]),
    }
}

/// The properties of the fields, keyed by field name (a later field of
/// the same name replaces an earlier one).
pub open spec fn schema_properties(fields: Seq<FieldDefinition>) -> Seq<(Seq<char>, JsonView)>
    decreases fields.len(),
{
    if fields.len() == 0 {
        Seq::empty()
    } else {
        put_member(schema_properties(fields.drop_last()), fields.last().name@, property_view(fields.last()))
    }
}

/// The names of the required fields, in order.
pub open spec fn required_names(fields: Seq<FieldDefinition>) -> Seq<Seq<char>>
    decreases fields.len(),
{
    if fields.len() == 0 {
        Seq::empty()
    } else if fields.last().required {
        required_names(fields.drop_last()).push(fields.last().name@)
    } else {
        required_names(fields.drop_last())
    }
}

/// The JSON schema of a list of fields: an object type with the fields'
/// properties and the required names.
pub open spec fn schema_view(fields: Seq<FieldDefinition>) -> JsonView {
    JsonView::Object(
        seq![
            ("properties"@, JsonView::Object(schema_properties(fields))),
            ("required"@, JsonView::Array(string_values(required_names(fields)))),
            ("type"@, JsonView::Str("object"@)),
        ],
    )
}

/// The schema keyword of a field type.
fn type_keyword_text(t: FieldType) -> (r: &'static str)
    ensures
        r@ == type_keyword(t),
{
    match t {
        FieldType::String => "string",
        FieldType::Integer => "integer",
        FieldType::Number => "number",
        FieldType::Boolean => "boolean",
        FieldType::Array => "array",
        FieldType::Object => "object",
        FieldType::Any => "any",
    }
}

/// A JSON string value.
fn string_value(s: &str) -> (r: JsonValue)
    ensures
        json_view(r) == JsonView::Str(s@),
{
    JsonValue::Str(owned(s))
}

/// The schema property of a field (see [`property_view`]).
fn property_exec(f: &FieldDefinition) -> (r: JsonValue)
    ensures
        json_view(r) == property_view(*f),
{
    let ty = (owned("type"), string_value(type_keyword_text(f.field_type)));
    let ms = match &f.description {
        Some(d) => vec![(owned("description"), string_value(d.as_str())), ty],
        None => vec![ty],
    };
    proof {
        lemma_object_view(ms);
    }
    assert(members_view(ms@) =~= property_view(*f)->Object_0);
    JsonValue::Object(ms)
}

impl OutputSchema {
    /// An empty schema with the given name.
    pub fn new(name: &str) -> (r: Self)
        ensures
            r.name@ == name@,
            r.fields@.len() == 0,
    {
        OutputSchema { name: owned(name), fields: Vec::new() }
    }

    /// The schema with one more field at the end.
    pub fn with_field(self, field: FieldDefinition) -> (r: Self)
        ensures
            r.name == self.name,
            r.fields@ == self.fields@.push(field),
    {
        let mut s = self;
        s.fields.push(field);
        s
    }

    /// The schema as a JSON value (see [`schema_view`]).
    pub fn schema_value(&self) -> (r: JsonValue)
        ensures
            json_view(r) == schema_view(self.fields@),
    {
        let fields = &self.fields;
        let mut props: Vec<(String, JsonValue)> = Vec::new();
        let mut req: Vec<JsonValue> = Vec::new();
        let mut k: usize = 0;
        assert(fields@.take(0) =~= Seq::<FieldDefinition>::empty());
        assert(members_view(props@) =~= Seq::<(Seq<char>, JsonView)>::empty());
        while k < fields.len()
            invariant
                k <= fields.len(),
                members_view(props@) == schema_properties(fields@.take(k as int)),
                req@.len() == required_names(fields@.take(k as int)).len(),
                forall|j: int| 0 <= j < req@.len() ==> json_view(#[trigger] req@[j]) == JsonView::Str(required_names(fields@.take(k as int))[j]),
            decreases fields.len() - k,
        {
            let f = &fields[k];
            assert(fields@.take(k + 1).drop_last() =~= fields@.take(k as int));
            assert(fields@.take(k + 1).last() == *f);
            put_member_exec(&mut props, copy_text(&f.name), property_exec(f));
            if f.required {
                req.push(string_value(f.name.as_str()));
            }
            k += 1;
        }
        assert(fields@.take(fields.len() as int) =~= fields@);
        let p = JsonValue::Object(props);
        proof {
            lemma_object_view(props);
        }
        let a = JsonValue::Array(req);
        assert(json_view(a)->Array_0 =~= string_values(required_names(fields@)));
        let ms = vec![(owned("properties"), p), (owned("required"), a), (owned("type"), string_value("object"))];
        proof {
            lemma_object_view(ms);
        }
        assert(members_view(ms@) =~= schema_view(fields@)->Object_0);
        JsonValue::Object(ms)
    }

    /// The schema as pretty-printed JSON text.
    pub fn to_json_schema(&self) -> (r: String)
        ensures
            r@ == json_pretty(schema_view(self.fields@)),
    {
        pretty_json(&self.schema_value())
    }

    /// An instruction asking for a JSON object that matches the schema.
    pub fn to_prompt_instruction(&self) -> (r: String)
        ensures
            r@ == "Respond with a JSON object matching this schema:\n```json\n"@ + json_pretty(
                schema_view(self.fields@),
            ) + "\n```\nDo not include any text outside the JSON object."@,
    {
        let schema = self.to_json_schema();
        let mut out: Vec<char> = Vec::new();
        push_str(&mut out, "Respond with a JSON object matching this schema:\n```json\n");
        push_str(&mut out, schema.as_str());
        push_str(&mut out, "\n```\nDo not include any text outside the JSON object.");
        assert(out@ =~= "Respond with a JSON object matching this schema:\n```json\n"@ + schema@
            + "\n```\nDo not include any text outside the JSON object."@);
        string_of(&out)
    }
}

impl JsonValue {
    /// The value of member `key` of an object; `None` for a missing key or
    /// a value that is not an object.
    pub fn get(&self, key: &str) -> (r: Option<&JsonValue>)
        ensures
            match *self {
                JsonValue::Object(ms) => match member_from(members_view(ms@), key@, 0) {
                    Some(i) => r == Some(&ms@[i].1),
                    None => r is None,
                },
                _ => r is None,
            },
    {
        match self {
            JsonValue::Object(ms) => {
                let k = chars_of(key);
                proof {
                    lemma_member_from(members_view(ms@), key@, 0);
                }
                match find_member(ms, &k) {
                    Some(i) => Some(&ms[i].1),
                    None => None,
                }
            },
            _ => None,
        }
    }

    /// The items of an array.
    pub fn as_array(&self) -> (r: Option<&Vec<JsonValue>>)
        ensures
            match *self {
                JsonValue::Array(vs) => r == Some(&vs),
                _ => r is None,
            },
    {
        match self {
            JsonValue::Array(vs) => Some(vs),
            _ => None,
        }
    }

    /// The value of a boolean.
    pub fn as_bool(&self) -> (r: Option<bool>)
        ensures
            match *self {
                JsonValue::Bool(b) => r == Some(b),
                _ => r is None,
            },
    {
        match self {
            JsonValue::Bool(b) => Some(*b),
            _ => None,
        }
    }
}


// ---------------------------------------------------------------------------
// Laws
// ---------------------------------------------------------------------------

/// [`member_from`] from `j` finds a member exactly when some member at or
/// after `j` has the key.
proof fn lemma_member_from_exists(m: Seq<(Seq<char>, JsonView)>, k: Seq<char>, j: int)
    requires
        0 <= j,
    ensures
        member_from(m, k, j) is Some <==> exists|i: int| j <= i < m.len() && #[trigger] m[i].0 == k,
    decreases m.len() - j,
{
    if j < m.len() && m[j].0 != k {
        lemma_member_from_exists(m, k, j + 1);
        if exists|i: int| j <= i < m.len() && #[trigger] m[i].0 == k {
            let i = choose|i: int| j <= i < m.len() && #[trigger] m[i].0 == k;
            assert(i != j);
            assert(j + 1 <= i);
        }
    }
}

/// Putting a member keeps every key that was there and adds its own.
proof fn lemma_put_member_keys(m: Seq<(Seq<char>, JsonView)>, k: Seq<char>, v: JsonView, k2: Seq<char>)
    requires
        member_from(m, k2, 0) is Some || k2 == k,
    ensures
        member_from(put_member(m, k, v), k2, 0) is Some,
{
    let r = put_member(m, k, v);
    lemma_member_from_exists(m, k2, 0);
    lemma_member_from_exists(r, k2, 0);
    lemma_member_from_exists(m, k, 0);
    lemma_member_from(m, k, 0);
    match member_from(m, k, 0) {
        Some(i) => {
            if k2 == k {
                assert(r[i].0 == k2);
            } else {
                let w = choose|w: int| 0 <= w < m.len() && #[trigger] m[w].0 == k2;
                assert(r[w].0 == k2);
            }
        },
        None => {
            let p = insert_pos(m, k, 0);
            lemma_insert_pos_range(m, k, 0);
            if k2 == k {
                assert(r[p].0 == k2);
            } else {
                let w = choose|w: int| 0 <= w < m.len() && #[trigger] m[w].0 == k2;
                if w < p {
                    assert(r[w].0 == k2);
                } else {
                    assert(r[w + 1].0 == k2);
                }
            }
        },
    }
}

/// The insertion position lies within the members, ends included.
proof fn lemma_insert_pos_range(m: Seq<(Seq<char>, JsonView)>, k: Seq<char>, i: int)
    requires
        0 <= i,
    ensures
        0 <= insert_pos(m, k, i) <= m.len(),
    decreases m.len() - i,
{
    if i < m.len() && key_less(m[i].0, k) {
        lemma_insert_pos_range(m, k, i + 1);
    }
}

/// Validation keeps what was there: every key of the checked object is
/// still present after checking.
pub proof fn law_validation_keeps_members(fields: Seq<FieldDefinition>, m: Seq<(Seq<char>, JsonView)>, k: Seq<char>)
    requires
        member_from(m, k, 0) is Some,
    ensures
        member_from(check_fields(fields, m).members, k, 0) is Some,
    decreases fields.len(),
{
    if fields.len() > 0 {
        law_validation_keeps_members(fields.drop_last(), m, k);
        let c = check_fields(fields.drop_last(), m);
        let f = fields.last();
        if member_from(c.members, f.name@, 0) is None && f.default is Some {
            lemma_put_member_keys(c.members, f.name@, json_view(f.default->0), k);
        }
    }
}

/// Validation applies defaults: after checking, every field that has a
/// default value is present in the object.
pub proof fn law_defaults_are_present(fields: Seq<FieldDefinition>, m: Seq<(Seq<char>, JsonView)>, i: int)
    requires
        0 <= i < fields.len(),
        fields[i].default is Some,
    ensures
        member_from(check_fields(fields, m).members, fields[i].name@, 0) is Some,
    decreases fields.len(),
{
    let c = check_fields(fields.drop_last(), m);
    let f = fields.last();
    if i < fields.len() - 1 {
        assert(fields.drop_last()[i] == fields[i]);
        law_defaults_are_present(fields.drop_last(), m, i);
        if member_from(c.members, f.name@, 0) is None && f.default is Some {
            lemma_put_member_keys(c.members, f.name@, json_view(f.default->0), fields[i].name@);
        }
    } else {
        if member_from(c.members, f.name@, 0) is None {
            lemma_put_member_keys(c.members, f.name@, json_view(f.default->0), f.name@);
        }
    }
}

} // verus!
