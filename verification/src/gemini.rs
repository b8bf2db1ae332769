//! Reading a reply of Google's `generateContent` API: the text of its
//! first candidate, the function calls it asks for, and whether it stopped.
use vstd::prelude::*;
use crate::text::{chars_of, string_of, push_str, push_chars, decimal, decimal_chars_u64, join};
use crate::structured_output::{JsonValue, JsonView, json_view, copy_json, owned};
use crate::react::{get_member, as_text, text_or};
use crate::diff_lines::{join_with, lines_view};

verus! {

/// A call of a tool that the model asks for.
#[derive(Debug)]
pub struct ToolCall {
    /// Identifier of the call.
    pub id: String,
    /// Name of the tool.
    pub name: String,
    /// Arguments for the tool.
    pub arguments: JsonValue,
}

/// What the model answered.
#[derive(Debug)]
pub enum LlmResponse {
    /// It finished with this text.
    Done(String),
    /// It stopped for another reason, with this text.
    Text(String),
    /// It asks for tool calls, with its text if there was any.
    ToolUse {
        /// The text, if any.
        content: Option<String>,
        /// The calls.
        tool_calls: Vec<ToolCall>,
    },
}

/// A tool call as plain values: id, name and arguments.
pub open spec fn call_view(c: ToolCall) -> (Seq<char>, Seq<char>, JsonView) {
    (c.id@, c.name@, json_view(c.arguments))
}

/// A response as plain values: the variant's number (0 done, 1 text, 2
/// tool use), its text (none only for a tool use without text) and its
/// calls.
pub open spec fn response_view(r: LlmResponse) -> (nat, Option<Seq<char>>, Seq<(Seq<char>, Seq<char>, JsonView)>) {
    match r {
        LlmResponse::Done(t) => (0, Some(t@), Seq::empty()),
        LlmResponse::Text(t) => (1, Some(t@), Seq::empty()),
        LlmResponse::ToolUse { content, tool_calls } => (
            2,
            match content {
                Some(c) => Some(c@),
                None => None,
            },
            tool_calls@.map_values(|c: ToolCall| call_view(c)),
        ),
    }
}

/// Member `k` of a value, or `null` (indexing a JSON value).
pub open spec fn at(v: JsonView, k: Seq<char>) -> JsonView {
    match get_member(v, k) {
        Some(x) => x,
        None => JsonView::Null,
    }
}

/// The texts of the parts that have a string `"text"`, in order.
pub open spec fn part_texts(parts: Seq<JsonView>) -> Seq<Seq<char>>
    decreases parts.len(),
{
    if parts.len() == 0 {
        Seq::empty()
    } else {
        let r = part_texts(parts.drop_last());
        match as_text(Some(at(parts.last(), "text"@))) {
            Some(t) => r.push(t),
            None => r,
        }
    }
}

/// The function calls of the parts that have a `"functionCall"`, in
/// order, numbered from `gemini-tc-0`: each with its string `"name"`
/// (default empty) and its `"args"` (default an empty object).
pub open spec fn part_calls(parts: Seq<JsonView>) -> Seq<(Seq<char>, Seq<char>, JsonView)>
    decreases parts.len(),
{
    if parts.len() == 0 {
        Seq::empty()
    } else {
        let r = part_calls(parts.drop_last());
        match get_member(parts.last(), "functionCall"@) {
            Some(fc) => r.push(
                (
                    "gemini-tc-"@ + decimal(r.len()),
                    text_or(as_text(Some(at(fc, "name"@))), Seq::empty()),
                    match get_member(fc, "args"@) {
                        Some(a) => a,
                        None => JsonView::Object(Seq::empty()),
                    },
                ),
            ),
            None => r,
        }
    }
}

/// What a reply body gives: its first candidate's parts read into text and
/// calls; calls make a tool use (with the joined text, if any); otherwise
/// the joined text, done when the finish reason is `"STOP"` (the default).
/// A body without a candidates array, with no candidate, or whose first
/// candidate has no parts array is an error saying so.
pub open spec fn gemini_reply(body: JsonView) -> Result<(nat, Option<Seq<char>>, Seq<(Seq<char>, Seq<char>, JsonView)>), Seq<char>> {
    match at(body, "candidates"@) {
        JsonView::Array(cands) => if cands.len() == 0 {
            Err("Empty candidates in Gemini response"@)
        } else {
            let cand = cands[0];
            match at(at(cand, "content"@), "parts"@) {
                JsonView::Array(parts) => {
                    let texts = part_texts(parts);
                    let calls = part_calls(parts);
                    let text = join(texts, Seq::empty());
                    if calls.len() > 0 {
                        Ok((2, if texts.len() == 0 { None } else { Some(text) }, calls))
                    } else if text_or(as_text(Some(at(cand, "finishReason"@))), "STOP"@) == "STOP"@ {
                        Ok((0, Some(text), Seq::empty()))
                    } else {
                        Ok((1, Some(text), Seq::empty()))
                    }
                },
                _ => Err("Missing parts in Gemini response"@),
            }
        },
        _ => Err("Missing candidates in Gemini response"@),
    }
}

/// Member `key` of a value, or `null`.
pub(crate) fn at_exec(v: &JsonValue, key: &str) -> (r: JsonValue)
    ensures
        json_view(r) == at(json_view(*v), key@),
{
    proof {
        if let JsonValue::Object(ms) = v {
            crate::structured_output::lemma_object_view(*ms);
            crate::structured_output::lemma_member_from(crate::structured_output::members_view(ms@), key@, 0);
        }
    }
    match v.get(key) {
        Some(x) => copy_json(x),
        None => JsonValue::Null,
    }
}

/// The string value of member `key`, if it is a string.
pub(crate) fn text_at(v: &JsonValue, key: &str) -> (r: Option<String>)
    ensures
        match as_text(Some(at(json_view(*v), key@))) {
            Some(t) => r matches Some(s) && s@ == t,
            None => r is None,
        },
{
    match at_exec(v, key) {
        JsonValue::Str(t) => Some(t),
        _ => None,
    }
}

/// Reads a reply body of the `generateContent` API (see [`gemini_reply`]).
pub fn parse_gemini_response(body: &JsonValue) -> (r: Result<LlmResponse, String>)
    ensures
        match gemini_reply(json_view(*body)) {
            Ok(v) => r matches Ok(x) && response_view(x) == v,
            Err(e) => r matches Err(s) && s@ == e,
        },
{
    let cands = match at_exec(body, "candidates") {
        JsonValue::Array(c) => c,
        _ => return Err(owned("Missing candidates in Gemini response")),
    };
    assert(json_view(JsonValue::Array(cands))->Array_0 =~= cands@.map_values(|x: JsonValue| json_view(x)));
    if cands.len() == 0 {
        return Err(owned("Empty candidates in Gemini response"));
    }
    let cand = &cands[0];
    let content = at_exec(cand, "content");
    let parts = match at_exec(&content, "parts") {
        JsonValue::Array(p) => p,
        _ => return Err(owned("Missing parts in Gemini response")),
    };
    let ghost pv = parts@.map_values(|x: JsonValue| json_view(x));
    assert(json_view(JsonValue::Array(parts))->Array_0 =~= pv);
    let mut texts: Vec<Vec<char>> = Vec::new();
    let mut calls: Vec<ToolCall> = Vec::new();
    let mut k: usize = 0;
    assert(pv.take(0) =~= Seq::<JsonView>::empty());
    assert(lines_view(texts@) =~= part_texts(pv.take(0)));
    assert(calls@.map_values(|c: ToolCall| call_view(c)) =~= part_calls(pv.take(0)));
    while k < parts.len()
        invariant
            pv == parts@.map_values(|x: JsonValue| json_view(x)),
            k <= parts.len(),
            lines_view(texts@) == part_texts(pv.take(k as int)),
            calls@.map_values(|c: ToolCall| call_view(c)) == part_calls(pv.take(k as int)),
            calls@.len() <= k,
        decreases parts.len() - k,
    {
        assert(pv.take(k + 1).drop_last() =~= pv.take(k as int));
        assert(pv.take(k + 1).last() == json_view(parts@[k as int]));
        let part = &parts[k];
        match text_at(part, "text") {
            Some(t) => {
                let ghost before = texts@;
                let tc = chars_of(t.as_str());
                proof {
                    crate::diff_lines::lemma_lines_view_push(before, tc);
                }
                texts.push(tc);
            },
            None => {},
        }
        match crate::react::member(part, "functionCall") {
            Some(fc) => {
                let name = match text_at(fc, "name") {
                    Some(n) => n,
                    None => String::new(),
                };
                let arguments = match crate::react::member(fc, "args") {
                    Some(a) => copy_json(a),
                    None => {
                        let e = JsonValue::Object(Vec::new());
                        assert(json_view(e)->Object_0 =~= Seq::<(Seq<char>, JsonView)>::empty());
                        e
                    },
                };
                let mut id: Vec<char> = Vec::new();
                push_str(&mut id, "gemini-tc-");
                push_chars(&mut id, &decimal_chars_u64(calls.len() as u64));
                let call = ToolCall { id: string_of(&id), name, arguments };
                let ghost before = calls@;
                calls.push(call);
                assert(calls@.map_values(|c: ToolCall| call_view(c)) =~= before.map_values(
                    |c: ToolCall| call_view(c),
                ).push(call_view(call)));
            },
            None => {},
        }
        k += 1;
    }
    assert(pv.take(parts.len() as int) =~= pv);
    let none: Vec<char> = Vec::new();
    let joined = join_with(&texts, &none);
    let text = string_of(&joined);
    if calls.len() > 0 {
        let content = if texts.len() == 0 {
            None
        } else {
            Some(text)
        };
        let r = LlmResponse::ToolUse { content, tool_calls: calls };
        return Ok(r);
    }
    let stop = match text_at(cand, "finishReason") {
        Some(f) => crate::text::eq_str(&chars_of(f.as_str()), "STOP"),
        None => true,
    };
    if stop {
        Ok(LlmResponse::Done(text))
    } else {
        Ok(LlmResponse::Text(text))
    }
}

// ---------------------------------------------------------------------------
// What a function call of a reply becomes
// ---------------------------------------------------------------------------

/// How many parts ask for a function call.
pub open spec fn calling_parts(parts: Seq<JsonView>) -> nat
    decreases parts.len(),
{
    if parts.len() == 0 {
        0
    } else {
        calling_parts(parts.drop_last()) + if get_member(parts.last(), "functionCall"@) is Some {
            1nat
        } else {
            0nat
        }
    }
}

/// The tool call that a `"functionCall"` value asks for, numbered `n`: id
/// `gemini-tc-<n>`, its string `"name"` (empty when it has none), and its
/// `"args"` exactly as given (an empty object only when `"args"` is
/// missing).
pub open spec fn asked_call(fc: JsonView, n: nat) -> (Seq<char>, Seq<char>, JsonView) {
    (
        "gemini-tc-"@ + decimal(n),
        match at(fc, "name"@) {
            JsonView::Str(t) => t,
            _ => Seq::empty(),
        },
        match get_member(fc, "args"@) {
            Some(a) => a,
            None => JsonView::Object(Seq::empty()),
        },
    )
}

proof fn lemma_part_calls_shape(parts: Seq<JsonView>)
    ensures
        part_calls(parts).len() == calling_parts(parts),
        forall|k: int|
            0 <= k < parts.len() ==> (#[trigger] get_member(parts[k], "functionCall"@) is Some ==> part_calls(parts)[calling_parts(parts.take(k)) as int] == asked_call(
                get_member(parts[k], "functionCall"@)->0,
                calling_parts(parts.take(k)),
            )),
    decreases parts.len(),
{
    if parts.len() > 0 {
        let d = parts.drop_last();
        lemma_part_calls_shape(d);
        assert forall|k: int|
            0 <= k < parts.len() implies (#[trigger] get_member(parts[k], "functionCall"@) is Some ==> part_calls(parts)[calling_parts(parts.take(k)) as int] == asked_call(
                get_member(parts[k], "functionCall"@)->0,
                calling_parts(parts.take(k)),
            )) by {
            if k < d.len() {
                assert(parts.take(k) =~= d.take(k));
                assert(d[k] == parts[k]);
                if get_member(parts[k], "functionCall"@) is Some {
                    lemma_calling_prefix(d, k);
                }
            } else {
                assert(parts.take(k) =~= d);
                assert(parts[k] == parts.last());
            }
        }
    }
}

proof fn lemma_calling_prefix(parts: Seq<JsonView>, k: int)
    requires
        0 <= k < parts.len(),
        get_member(parts[k], "functionCall"@) is Some,
    ensures
        calling_parts(parts.take(k)) < calling_parts(parts),
    decreases parts.len(),
{
    let d = parts.drop_last();
    if k < d.len() {
        assert(parts.take(k) =~= d.take(k));
        assert(d[k] == parts[k]);
        lemma_calling_prefix(d, k);
    } else {
        assert(parts.take(k) =~= d);
    }
}

/// A reply whose first candidate asks for function calls is a tool use
/// with one call per calling part, in order: the `k`-th part, if it asks
/// for a call, gives the call numbered by the calling parts before it, with
/// its `"args"` exactly as given.
pub proof fn law_reply_calls(body: JsonView, cands: Seq<JsonView>, parts: Seq<JsonView>, k: int)
    requires
        at(body, "candidates"@) == JsonView::Array(cands),
        cands.len() > 0,
        at(at(cands[0], "content"@), "parts"@) == JsonView::Array(parts),
        0 <= k < parts.len(),
        get_member(parts[k], "functionCall"@) is Some,
    ensures
        gemini_reply(body) matches Ok(r) && r.0 == 2 && r.2.len() == calling_parts(parts)
            && r.2[calling_parts(parts.take(k)) as int] == asked_call(
            get_member(parts[k], "functionCall"@)->0,
            calling_parts(parts.take(k)),
        ),
{
    lemma_part_calls_shape(parts);
    lemma_calling_prefix(parts, k);
    assert(part_calls(parts)[calling_parts(parts.take(k)) as int] == asked_call(
        get_member(parts[k], "functionCall"@)->0,
        calling_parts(parts.take(k)),
    ));
}

} // verus!
