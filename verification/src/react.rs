//! The text side of Reason-Act reasoning: actions and outcomes, finding the
//! JSON block in a model's reply, reading a step out of it, and the prompts
//! and summaries built from steps.
//!
//! Confidence values are floating-point numbers; they are carried here as
//! the text the model wrote (when reading a step) or as text already
//! formatted by the caller (when writing prompts and summaries).
use vstd::prelude::*;
use crate::text::{join, chars_of, string_of, push_str, push_chars, first_occurrence, occurs_at, contains, trim, find_from, slice_chars, trim_chars, decimal, decimal_chars, decimal_chars_u64};
use crate::diff_lines::{join_with, lines_view, lemma_lines_view_push};
use crate::structured_output::{JsonValue, JsonView, json_view, json_parse, parse_json, member_from, members_view, copy_json, char_from, owned, copy_text, texts_view, lemma_member_from, lemma_object_view};

verus! {

/// An action taken in a reasoning step.
#[derive(Debug)]
pub enum ReActAction {
    /// Invoke a tool with JSON arguments.
    ToolUse {
        /// Name of the tool.
        tool_name: String,
        /// Arguments for the tool.
        arguments: JsonValue,
    },
    /// Answer the user (ends the reasoning).
    Respond {
        /// The answer.
        content: String,
    },
    /// Ask the user a question (ends the reasoning).
    Clarify {
        /// The question.
        question: String,
    },
    /// Split the task into sub-tasks.
    Decompose {
        /// The sub-tasks.
        subtasks: Vec<String>,
    },
    /// Reason without acting.
    Think,
}

/// An action as a mathematical value.
pub enum ActionView {
    ToolUse(Seq<char>, JsonView),
    Respond(Seq<char>),
    Clarify(Seq<char>),
    Decompose(Seq<Seq<char>>),
    Think,
}

/// The mathematical value of an action.
pub open spec fn action_view(a: ReActAction) -> ActionView {
    match a {
        ReActAction::ToolUse { tool_name, arguments } => ActionView::ToolUse(tool_name@, json_view(arguments)),
        ReActAction::Respond { content } => ActionView::Respond(content@),
        ReActAction::Clarify { question } => ActionView::Clarify(question@),
        ReActAction::Decompose { subtasks } => ActionView::Decompose(texts_view(subtasks@)),
        ReActAction::Think => ActionView::Think,
    }
}

/// How an action is written in prompts and summaries.
pub open spec fn action_text(a: ActionView) -> Seq<char> {
    match a {
        ActionView::ToolUse(name, _) => "ToolUse("@ + name + ")"@,
        ActionView::Respond(_) => "Respond"@,
        ActionView::Clarify(_) => "Clarify"@,
        ActionView::Decompose(s) => "Decompose("@ + decimal(s.len()) + " subtasks)"@,
        ActionView::Think => "Think"@,
    }
}

impl ReActAction {
    /// Whether the action ends the reasoning: an answer or a question to
    /// the user.
    pub fn is_terminal(&self) -> (r: bool)
        ensures
            r == (*self is Respond || *self is Clarify),
    {
        matches!(self, ReActAction::Respond { .. } | ReActAction::Clarify { .. })
    }

    /// The action as text (see [`action_text`]).
    pub fn to_string(&self) -> (r: String)
        ensures
            r@ == action_text(action_view(*self)),
    {
        match self {
            ReActAction::ToolUse { tool_name, .. } => {
                let mut v: Vec<char> = Vec::new();
                push_str(&mut v, "ToolUse(");
                push_str(&mut v, tool_name.as_str());
                push_str(&mut v, ")");
                assert(v@ =~= "ToolUse("@ + tool_name@ + ")"@);
                string_of(&v)
            },
            ReActAction::Respond { .. } => owned("Respond"),
            ReActAction::Clarify { .. } => owned("Clarify"),
            ReActAction::Decompose { subtasks } => {
                let mut v: Vec<char> = Vec::new();
                push_str(&mut v, "Decompose(");
                let n = decimal_chars(subtasks.len());
                push_chars(&mut v, &n);
                push_str(&mut v, " subtasks)");
                assert(v@ =~= "Decompose("@ + decimal(texts_view(subtasks@).len()) + " subtasks)"@);
                string_of(&v)
            },
            ReActAction::Think => owned("Think"),
        }
    }
}

/// How a reasoning process ended.
#[derive(Debug)]
pub enum ReActOutcome {
    /// It produced an answer.
    Success {
        /// The answer.
        response: String,
    },
    /// It needs more information from the user.
    NeedsClarification {
        /// The question.
        question: String,
    },
    /// It ran out of steps.
    MaxStepsReached {
        /// What it had so far.
        partial: String,
    },
    /// It failed.
    Error {
        /// What went wrong.
        message: String,
    },
}

// ---------------------------------------------------------------------------
// Finding the JSON block
// ---------------------------------------------------------------------------

/// The last position holding `c`, if any.
pub open spec fn last_char(s: Seq<char>, c: char) -> Option<int>
    decreases s.len(),
{
    if s.len() == 0 {
        None
    } else if s.last() == c {
        Some(s.len() - 1)
    } else {
        last_char(s.drop_last(), c)
    }
}

/// The text between the first `open` fence and the next three backticks,
/// trimmed, if both are there.
pub open spec fn fenced(t: Seq<char>, open: Seq<char>) -> Option<Seq<char>> {
    match first_occurrence(t, open, 0) {
        Some(st) => match first_occurrence(t, "```"@, st + open.len()) {
            Some(e) => Some(trim(t.subrange(st + open.len(), e))),
            None => None,
        },
        None => None,
    }
}

/// The JSON block of a reply, looked for in the trimmed reply: inside a
/// `` ```json `` fence; else inside a plain fence when it starts with `{`;
/// else from the first `{` to the last `}` when that comes later; else the
/// whole trimmed reply.
pub open spec fn json_block(output: Seq<char>) -> Seq<char> {
    let t = trim(output);
    match fenced(t, "```json"@) {
        Some(b) => b,
        None => match fenced(t, "```"@) {
            Some(c) if c.len() > 0 && c[0] == '{' => c,
            _ => match (char_from(t, '{', 0), last_char(t, '}')) {
                (Some(st), Some(e)) if e > st => t.subrange(st, e + 1),
                _ => t,
            },
        },
    }
}

/// A reply that is already a bare JSON object, with no surrounding space
/// and no code fence, is its own JSON block.
pub proof fn law_bare_object_is_its_own_block(s: Seq<char>)
    requires
        trim(s) == s,
        s.len() >= 2,
        s[0] == '{',
        s.last() == '}',
        !contains(s, "```"@),
    ensures
        json_block(s) == s,
{
    reveal_strlit("```json");
    reveal_strlit("```");
    assert forall|i: int| !occurs_at(s, "```json"@, i) by {
        if occurs_at(s, "```json"@, i) {
            assert(s.subrange(i, i + 3) =~= "```"@);
            assert(occurs_at(s, "```"@, i));
        }
    }
    assert(fenced(s, "```json"@) is None);
    assert forall|i: int| !occurs_at(s, "```"@, i) by {}
    assert(fenced(s, "```"@) is None);
    assert(char_from(s, '{', 0) == Some(0int));
    assert(last_char(s, '}') == Some(s.len() - 1));
    assert(s.subrange(0, s.len() as int) =~= s);
}

/// The fenced text after `open` (see [`fenced`]).
fn fenced_exec(t: &[char], open: &str) -> (r: Option<Vec<char>>)
    ensures
        match fenced(t@, open@) {
            Some(b) => r matches Some(v) && v@ == b,
            None => r is None,
        },
{
    let o = chars_of(open);
    match find_from(t, &o, 0) {
        Some(st) => {
            assert(occurs_at(t@, o@, st as int));
            assert(st + o@.len() <= t@.len() && t@.len() == t.len());
            let ol = o.len();
            let js = st + ol;
            let fence = chars_of("```");
            match find_from(t, &fence, js) {
                Some(e) => {
                    let inner = slice_chars(t, js, e);
                    Some(trim_chars(&inner))
                },
                None => None,
            }
        },
        None => None,
    }
}

/// The first position holding `c` (see [`char_from`]).
fn char_from_exec(s: &[char], c: char) -> (r: Option<usize>)
    ensures
        match char_from(s@, c, 0) {
            Some(i) => r == Some(i as usize) && 0 <= i < s.len(),
            None => r is None,
        },
{
    let mut i: usize = 0;
    while i < s.len()
        invariant
            i <= s.len(),
            char_from(s@, c, 0) == char_from(s@, c, i as int),
        decreases s.len() - i,
    {
        if s[i] == c {
            return Some(i);
        }
        i += 1;
    }
    None
}

/// The last position holding `c` (see [`last_char`]).
fn last_char_exec(s: &[char], c: char) -> (r: Option<usize>)
    ensures
        match last_char(s@, c) {
            Some(i) => r == Some(i as usize) && 0 <= i < s.len(),
            None => r is None,
        },
{
    let mut j: usize = s.len();
    assert(s@.take(j as int) =~= s@);
    while j > 0
        invariant
            j <= s.len(),
            last_char(s@, c) == last_char(s@.take(j as int), c),
        decreases j,
    {
        assert(s@.take(j as int).last() == s@[j - 1]);
        assert(s@.take(j as int).drop_last() =~= s@.take(j - 1));
        if s[j - 1] == c {
            return Some(j - 1);
        }
        j -= 1;
    }
    None
}

/// The JSON block of a reply (see [`json_block`]).
pub fn extract_json_block(output: &str) -> (r: String)
    ensures
        r@ == json_block(output@),
{
    let t = trim_chars(&chars_of(output));
    match fenced_exec(&t, "```json") {
        Some(b) => return string_of(&b),
        None => {},
    }
    match fenced_exec(&t, "```") {
        Some(c) => {
            if c.len() > 0 && c[0] == '{' {
                return string_of(&c);
            }
        },
        None => {},
    }
    match (char_from_exec(&t, '{'), last_char_exec(&t, '}')) {
        (Some(st), Some(e)) => {
            if e > st {
                return string_of(&slice_chars(&t, st, e + 1));
            }
        },
        _ => {},
    }
    string_of(&t)
}


// ---------------------------------------------------------------------------
// Reading a step
// ---------------------------------------------------------------------------

/// Member `k` of an object value; `None` for a missing key or a value that
/// is not an object.
pub open spec fn get_member(v: JsonView, k: Seq<char>) -> Option<JsonView> {
    match v {
        JsonView::Object(m) => match member_from(m, k, 0) {
            Some(i) => Some(m[i].1),
            None => None,
        },
        _ => None,
    }
}

/// The text of a string value.
pub open spec fn as_text(o: Option<JsonView>) -> Option<Seq<char>> {
    match o {
        Some(JsonView::Str(t)) => Some(t),
        _ => None,
    }
}

/// A text, or `d` when there is none.
pub open spec fn text_or(o: Option<Seq<char>>, d: Seq<char>) -> Seq<char> {
    match o {
        Some(t) => t,
        None => d,
    }
}

/// The texts of the string values among `items`, in order.
pub open spec fn string_items(items: Seq<JsonView>) -> Seq<Seq<char>>
    decreases items.len(),
{
    if items.len() == 0 {
        Seq::empty()
    } else {
        let r = string_items(items.drop_last());
        match items.last() {
            JsonView::Str(t) => r.push(t),
            _ => r,
        }
    }
}

/// The action of a parsed step: none given is `Think`; otherwise its
/// `"type"` (default `"think"`) picks the variant and its fields are read
/// with defaults, except that a tool use needs a `"tool_name"`; an unknown
/// type is an error.
pub open spec fn action_of(parsed: JsonView) -> Result<ActionView, Seq<char>> {
    match get_member(parsed, "action"@) {
        None => Ok(ActionView::Think),
        Some(a) => {
            let ty = text_or(as_text(get_member(a, "type"@)), "think"@);
            if ty == "tool_use"@ {
                match as_text(get_member(a, "tool_name"@)) {
                    Some(n) => Ok(
                        ActionView::ToolUse(
                            n,
                            match get_member(a, "arguments"@) {
                                Some(x) => x,
                                None => JsonView::Object(Seq::empty()),
                            },
                        ),
                    ),
                    None => Err("tool_use action missing 'tool_name' field"@),
                }
            } else if ty == "respond"@ {
                Ok(ActionView::Respond(text_or(as_text(get_member(a, "content"@)), Seq::empty())))
            } else if ty == "clarify"@ {
                Ok(ActionView::Clarify(text_or(as_text(get_member(a, "question"@)), Seq::empty())))
            } else if ty == "decompose"@ {
                Ok(
                    ActionView::Decompose(
                        match get_member(a, "subtasks"@) {
                            Some(JsonView::Array(items)) => string_items(items),
                            _ => Seq::empty(),
                        },
                    ),
                )
            } else if ty == "think"@ {
                Ok(ActionView::Think)
            } else {
                Err("Unknown action type: '"@ + ty + "'"@)
            }
        },
    }
}

/// Member `key` of a value (see [`get_member`]).
pub(crate) fn member<'a>(v: &'a JsonValue, key: &str) -> (r: Option<&'a JsonValue>)
    ensures
        match r {
            Some(x) => get_member(json_view(*v), key@) == Some(json_view(*x)),
            None => get_member(json_view(*v), key@) is None,
        },
{
    proof {
        if let JsonValue::Object(ms) = v {
            lemma_object_view(*ms);
            lemma_member_from(members_view(ms@), key@, 0);
        }
    }
    v.get(key)
}

/// The text of member `key`, if it is a string.
fn member_text(v: &JsonValue, key: &str) -> (r: Option<String>)
    ensures
        match as_text(get_member(json_view(*v), key@)) {
            Some(t) => r matches Some(s) && s@ == t,
            None => r is None,
        },
{
    match member(v, key) {
        Some(JsonValue::Str(t)) => Some(copy_text(t)),
        _ => None,
    }
}

/// Whether a text equals a literal.
fn text_is(t: &[char], lit: &str) -> (r: bool)
    ensures
        r == (t@ == lit@),
{
    crate::text::eq_str(t, lit)
}

/// The texts of the string values among `items` (see [`string_items`]).
fn string_items_exec(items: &Vec<JsonValue>) -> (r: Vec<String>)
    ensures
        texts_view(r@) == string_items(items@.map_values(|x: JsonValue| json_view(x))),
{
    let ghost iv = items@.map_values(|x: JsonValue| json_view(x));
    let mut out: Vec<String> = Vec::new();
    let mut k: usize = 0;
    assert(iv.take(0) =~= Seq::<JsonView>::empty());
    assert(texts_view(out@) =~= Seq::<Seq<char>>::empty());
    while k < items.len()
        invariant
            iv == items@.map_values(|x: JsonValue| json_view(x)),
            k <= items.len(),
            texts_view(out@) == string_items(iv.take(k as int)),
        decreases items.len() - k,
    {
        assert(iv.take(k + 1).drop_last() =~= iv.take(k as int));
        assert(iv.take(k + 1).last() == json_view(items@[k as int]));
        match &items[k] {
            JsonValue::Str(t) => {
                let ghost before = out@;
                out.push(copy_text(t));
                assert(texts_view(out@) =~= texts_view(before).push(t@));
            },
            _ => {},
        }
        k += 1;
    }
    assert(iv.take(items.len() as int) =~= iv);
    out
}

/// The action of a parsed step (see [`action_of`]).
pub fn parse_action(parsed: &JsonValue) -> (r: Result<ReActAction, String>)
    ensures
        match action_of(json_view(*parsed)) {
            Ok(a) => r matches Ok(x) && action_view(x) == a,
            Err(e) => r matches Err(s) && s@ == e,
        },
{
    let a = match member(parsed, "action") {
        Some(a) => a,
        None => return Ok(ReActAction::Think),
    };
    let ty: Vec<char> = match member_text(a, "type") {
        Some(t) => chars_of(t.as_str()),
        None => chars_of("think"),
    };
    if text_is(&ty, "tool_use") {
        match member_text(a, "tool_name") {
            Some(n) => {
                let arguments = match member(a, "arguments") {
                    Some(x) => copy_json(x),
                    None => {
                        let e = JsonValue::Object(Vec::new());
                        assert(json_view(e)->Object_0 =~= Seq::<(Seq<char>, JsonView)>::empty());
                        e
                    },
                };
                Ok(ReActAction::ToolUse { tool_name: n, arguments })
            },
            None => Err(owned("tool_use action missing 'tool_name' field")),
        }
    } else if text_is(&ty, "respond") {
        let content = match member_text(a, "content") {
            Some(t) => t,
            None => String::new(),
        };
        Ok(ReActAction::Respond { content })
    } else if text_is(&ty, "clarify") {
        let question = match member_text(a, "question") {
            Some(t) => t,
            None => String::new(),
        };
        Ok(ReActAction::Clarify { question })
    } else if text_is(&ty, "decompose") {
        let subtasks = match member(a, "subtasks") {
            Some(JsonValue::Array(items)) => {
                assert(json_view(JsonValue::Array(*items))->Array_0 =~= items@.map_values(
                    |x: JsonValue| json_view(x),
                ));
                string_items_exec(items)
            },
            _ => {
                let v: Vec<String> = Vec::new();
                assert(texts_view(v@) =~= Seq::<Seq<char>>::empty());
                v
            },
        };
        Ok(ReActAction::Decompose { subtasks })
    } else if text_is(&ty, "think") {
        Ok(ReActAction::Think)
    } else {
        let mut v: Vec<char> = Vec::new();
        push_str(&mut v, "Unknown action type: '");
        push_chars(&mut v, &ty);
        push_str(&mut v, "'");
        assert(v@ =~= "Unknown action type: '"@ + ty@ + "'"@);
        Err(string_of(&v))
    }
}

/// What a step's reply says, before the caller turns the confidence text
/// into a number.
#[derive(Debug)]
pub struct StepParts {
    /// What the model was thinking.
    pub thought: String,
    /// The action it chose.
    pub action: ReActAction,
    /// Its reflection, if it gave one.
    pub reflection: Option<String>,
    /// The text of its `"confidence"` number, if it gave one.
    pub confidence: Option<String>,
}

/// The text of a number value.
pub open spec fn number_text(o: Option<JsonView>) -> Option<Seq<char>> {
    match o {
        Some(JsonView::Number(t, _)) => Some(t),
        _ => None,
    }
}

/// Optional text as a mathematical value.
pub open spec fn opt_text(o: Option<String>) -> Option<Seq<char>> {
    match o {
        Some(s) => Some(s@),
        None => None,
    }
}

/// `r` is what reading a step out of `output` gives: when its JSON block
/// is not JSON, the trimmed reply as the thought of a `Think` step;
/// otherwise the block's `"thought"` (default empty), its action (or the
/// action's error), its `"reflection"` and its `"confidence"` number.
pub open spec fn step_read(output: Seq<char>, r: Result<StepParts, String>) -> bool {
    match json_parse(json_block(output)) {
        None => r matches Ok(p) && p.thought@ == trim(output) && p.action is Think && p.reflection is None
            && p.confidence is None,
        Some(parsed) => match action_of(parsed) {
            Ok(a) => r matches Ok(p) && p.thought@ == text_or(as_text(get_member(parsed, "thought"@)), Seq::empty())
                && action_view(p.action) == a && opt_text(p.reflection) == as_text(get_member(parsed, "reflection"@))
                && opt_text(p.confidence) == number_text(get_member(parsed, "confidence"@)),
            Err(e) => r matches Err(s) && s@ == e,
        },
    }
}

/// Reads a step out of a model's reply (see [`step_read`]).
pub fn parse_step_parts(llm_output: &str) -> (r: Result<StepParts, String>)
    ensures
        step_read(llm_output@, r),
{
    let block = extract_json_block(llm_output);
    let parsed = match parse_json(block.as_str()) {
        Some(p) => p,
        None => {
            let t = trim_chars(&chars_of(llm_output));
            return Ok(
                StepParts { thought: string_of(&t), action: ReActAction::Think, reflection: None, confidence: None },
            );
        },
    };
    let thought = match member_text(&parsed, "thought") {
        Some(t) => t,
        None => String::new(),
    };
    let confidence = match member(&parsed, "confidence") {
        Some(JsonValue::Number { text, .. }) => Some(copy_text(text)),
        _ => None,
    };
    let reflection = member_text(&parsed, "reflection");
    match parse_action(&parsed) {
        Ok(action) => Ok(StepParts { thought, action, reflection, confidence }),
        Err(e) => Err(e),
    }
}


// ---------------------------------------------------------------------------
// Prompts and summaries
// ---------------------------------------------------------------------------

/// The protocol that follows the base prompt.
pub const PROTOCOL_TEXT: &'static str = "\n\n## ReAct Reasoning Protocol\n\nYou must reason step by step. For each step, output a single JSON block (and nothing else) with this structure:\n\n```json\n{\n  \"thought\": \"What you are thinking and why\",\n  \"action\": {\"type\": \"tool_use\", \"tool_name\": \"name\", \"arguments\": {}},\n  \"confidence\": 0.8\n}\n```\n\n### Action types:\n- `{\"type\": \"tool_use\", \"tool_name\": \"...\", \"arguments\": {...}}` \u{2014} invoke a tool\n- `{\"type\": \"respond\", \"content\": \"...\"}` \u{2014} final response to the user\n- `{\"type\": \"clarify\", \"question\": \"...\"}` \u{2014} ask the user for more information\n- `{\"type\": \"decompose\", \"subtasks\": [\"...\", \"...\"]}` \u{2014} break into sub-tasks\n- `{\"type\": \"think\"}` \u{2014} pure reasoning, no external action\n\n";

/// The text before the confidence threshold.
pub const CONFIDENCE_HEAD: &'static str = "\n\nConfidence is a float between 0.0 and 1.0 indicating how confident you are in this step. If confidence drops below ";

/// The text after the confidence threshold.
pub const CONFIDENCE_TAIL: &'static str = ", stop and report what you have.";

/// The instruction to reflect, when reflection is on.
pub const REFLECTION_TEXT: &'static str = "\n\nAfter each observation, reflect on whether your approach is working and whether you should adjust your strategy. Include a \"reflection\" field in your JSON output.";

/// The sentence naming the available tools.
pub open spec fn tools_list(tools: Seq<Seq<char>>) -> Seq<char> {
    if tools.len() == 0 {
        "No tools are currently available."@
    } else {
        "Available tools: "@ + join(tools, ", "@)
    }
}

/// The system prompt for step-by-step reasoning: the base prompt, the
/// protocol, the tools, the confidence threshold (as the caller wrote it)
/// and, when reflection is on, the instruction to reflect.
pub open spec fn system_prompt(base: Seq<char>, tools: Seq<Seq<char>>, min_conf: Seq<char>, reflect: bool) -> Seq<char> {
    base + PROTOCOL_TEXT@ + tools_list(tools) + CONFIDENCE_HEAD@ + min_conf + CONFIDENCE_TAIL@ + if reflect {
        REFLECTION_TEXT@
    } else {
        Seq::empty()
    }
}

/// Characters of each string.
fn chars_of_all(v: &[String]) -> (r: Vec<Vec<char>>)
    ensures
        lines_view(r@) == texts_view(v@),
{
    let mut out: Vec<Vec<char>> = Vec::new();
    let mut k: usize = 0;
    while k < v.len()
        invariant
            k <= v.len(),
            lines_view(out@) == texts_view(v@.take(k as int)),
        decreases v.len() - k,
    {
        let ghost before = out@;
        let c = chars_of(v[k].as_str());
        proof {
            lemma_lines_view_push(before, c);
            assert(v@.take(k + 1) =~= v@.take(k as int).push(v@[k as int]));
            assert(texts_view(v@.take(k + 1)) =~= texts_view(v@.take(k as int)).push(v@[k as int]@));
        }
        out.push(c);
        k += 1;
    }
    assert(v@.take(v.len() as int) =~= v@);
    out
}

/// The system prompt (see [`system_prompt`]); `min_confidence` is the
/// threshold as text.
pub fn system_prompt_text(base: &str, tools: &[String], min_confidence: &str, enable_reflection: bool) -> (r: String)
    ensures
        r@ == system_prompt(base@, texts_view(tools@), min_confidence@, enable_reflection),
{
    let mut v: Vec<char> = Vec::new();
    push_str(&mut v, base);
    push_str(&mut v, PROTOCOL_TEXT);
    let ghost head = v@;
    if tools.len() == 0 {
        push_str(&mut v, "No tools are currently available.");
    } else {
        push_str(&mut v, "Available tools: ");
        let parts = chars_of_all(tools);
        let sep = chars_of(", ");
        let joined = join_with(&parts, &sep);
        push_chars(&mut v, &joined);
    }
    assert(v@ =~= head + tools_list(texts_view(tools@)));
    push_str(&mut v, CONFIDENCE_HEAD);
    push_str(&mut v, min_confidence);
    push_str(&mut v, CONFIDENCE_TAIL);
    if enable_reflection {
        push_str(&mut v, REFLECTION_TEXT);
    }
    assert(v@ =~= system_prompt(base@, texts_view(tools@), min_confidence@, enable_reflection));
    string_of(&v)
}

/// The prompt asking the model to reflect on a step.
pub open spec fn reflection_prompt(n: nat, thought: Seq<char>, action: ActionView, observation: Seq<char>) -> Seq<char> {
    "Reflect on step "@ + decimal(n) + ": You thought '"@ + thought + "', acted with "@ + action_text(action)
        + ", and observed '"@ + observation + "'. Was this the right approach? Should you adjust your strategy?"@
}

/// The prompt asking the model to reflect on a step (see
/// [`reflection_prompt`]).
pub fn reflection_prompt_text(step_number: u32, thought: &str, action: &ReActAction, observation: &str) -> (r: String)
    ensures
        r@ == reflection_prompt(step_number as nat, thought@, action_view(*action), observation@),
{
    let mut v: Vec<char> = Vec::new();
    push_str(&mut v, "Reflect on step ");
    push_chars(&mut v, &decimal_chars(step_number as usize));
    push_str(&mut v, ": You thought '");
    push_str(&mut v, thought);
    push_str(&mut v, "', acted with ");
    push_str(&mut v, action.to_string().as_str());
    push_str(&mut v, ", and observed '");
    push_str(&mut v, observation);
    push_str(&mut v, "'. Was this the right approach? Should you adjust your strategy?");
    assert(v@ =~= reflection_prompt(step_number as nat, thought@, action_view(*action), observation@));
    string_of(&v)
}

/// The summary line of an outcome.
pub open spec fn outcome_text(o: ReActOutcome) -> Seq<char> {
    match o {
        ReActOutcome::Success { response } => "Outcome: Success \u{2014} "@ + response@,
        ReActOutcome::NeedsClarification { question } => "Outcome: Needs clarification \u{2014} "@ + question@,
        ReActOutcome::MaxStepsReached { partial } => "Outcome: Max steps reached \u{2014} "@ + partial@,
        ReActOutcome::Error { message } => "Outcome: Error \u{2014} "@ + message@,
    }
}

/// Text after a literal.
fn after(lit: &str, x: &str) -> (r: String)
    ensures
        r@ == lit@ + x@,
{
    let mut v: Vec<char> = Vec::new();
    push_str(&mut v, lit);
    push_str(&mut v, x);
    string_of(&v)
}

impl ReActOutcome {
    /// The outcome's summary line (see [`outcome_text`]).
    pub fn summary_line(&self) -> (r: String)
        ensures
            r@ == outcome_text(*self),
    {
        match self {
            ReActOutcome::Success { response } => after("Outcome: Success \u{2014} ", response.as_str()),
            ReActOutcome::NeedsClarification { question } => after(
                "Outcome: Needs clarification \u{2014} ",
                question.as_str(),
            ),
            ReActOutcome::MaxStepsReached { partial } => after("Outcome: Max steps reached \u{2014} ", partial.as_str()),
            ReActOutcome::Error { message } => after("Outcome: Error \u{2014} ", message.as_str()),
        }
    }
}

/// The summary line of a step; `confidence` is the confidence as the
/// caller formatted it.
pub open spec fn step_line(
    n: nat,
    thought: Seq<char>,
    action: ActionView,
    observation: Seq<char>,
    reflection: Option<Seq<char>>,
    confidence: Seq<char>,
    duration_ms: nat,
) -> Seq<char> {
    "Step "@ + decimal(n) + ": Thought: '"@ + thought + "', Action: "@ + action_text(action) + ", Observation: '"@
        + observation + "'"@ + match reflection {
        Some(r) => ", Reflection: '"@ + r + "'"@,
        None => Seq::empty(),
    } + " [confidence="@ + confidence + ", "@ + decimal(duration_ms) + "ms]"@
}

/// The summary line of a step (see [`step_line`]).
pub fn step_line_text(
    step_number: u32,
    thought: &str,
    action: &ReActAction,
    observation: &str,
    reflection: Option<&str>,
    confidence: &str,
    duration_ms: u64,
) -> (r: String)
    ensures
        r@ == step_line(
            step_number as nat,
            thought@,
            action_view(*action),
            observation@,
            match reflection {
                Some(t) => Some(t@),
                None => None,
            },
            confidence@,
            duration_ms as nat,
        ),
{
    let mut v: Vec<char> = Vec::new();
    push_str(&mut v, "Step ");
    push_chars(&mut v, &decimal_chars(step_number as usize));
    push_str(&mut v, ": Thought: '");
    push_str(&mut v, thought);
    push_str(&mut v, "', Action: ");
    push_str(&mut v, action.to_string().as_str());
    push_str(&mut v, ", Observation: '");
    push_str(&mut v, observation);
    push_str(&mut v, "'");
    let ghost head = v@;
    match reflection {
        Some(t) => {
            push_str(&mut v, ", Reflection: '");
            push_str(&mut v, t);
            push_str(&mut v, "'");
        },
        None => {},
    }
    let ghost mid = v@;
    push_str(&mut v, " [confidence=");
    push_str(&mut v, confidence);
    push_str(&mut v, ", ");
    push_chars(&mut v, &decimal_chars_u64(duration_ms));
    push_str(&mut v, "ms]");
    assert(v@ =~= step_line(
        step_number as nat,
        thought@,
        action_view(*action),
        observation@,
        match reflection {
            Some(t) => Some(t@),
            None => None,
        },
        confidence@,
        duration_ms as nat,
    ));
    string_of(&v)
}

/// The summary of a reasoning trace: the task, a blank line, the step
/// lines, a blank line, the outcome and the total time, one per line.
pub open spec fn trace_summary(task: Seq<char>, steps: Seq<Seq<char>>, outcome: ReActOutcome, total_ms: nat) -> Seq<char> {
    join(
        seq!["Task: "@ + task, Seq::empty()] + steps + seq![
            Seq::empty(),
            outcome_text(outcome),
            "Total time: "@ + decimal(total_ms) + "ms"@,
        ],
        "\n"@,
    )
}

/// The summary of a reasoning trace (see [`trace_summary`]); each step
/// line is one [`step_line_text`] gave.
pub fn trace_summary_text(task: &str, step_lines: &[String], outcome: &ReActOutcome, total_duration_ms: u64) -> (r: String)
    ensures
        r@ == trace_summary(task@, texts_view(step_lines@), *outcome, total_duration_ms as nat),
{
    let mut lines: Vec<Vec<char>> = Vec::new();
    let mut first: Vec<char> = Vec::new();
    push_str(&mut first, "Task: ");
    push_str(&mut first, task);
    lines.push(first);
    lines.push(Vec::new());
    let mid = chars_of_all(step_lines);
    let mut k: usize = 0;
    while k < mid.len()
        invariant
            k <= mid.len(),
            lines_view(lines@) == seq!["Task: "@ + task@, Seq::<char>::empty()] + lines_view(mid@).take(k as int),
        decreases mid.len() - k,
    {
        let ghost before = lines@;
        let c = mid[k].clone();
        proof {
            lemma_lines_view_push(before, c);
            assert(lines_view(mid@).take(k + 1) =~= lines_view(mid@).take(k as int).push(mid@[k as int]@));
        }
        lines.push(c);
        k += 1;
        assert(lines_view(lines@) =~= seq!["Task: "@ + task@, Seq::<char>::empty()] + lines_view(mid@).take(k as int));
    }
    assert(lines_view(mid@).take(mid.len() as int) =~= lines_view(mid@));
    lines.push(Vec::new());
    lines.push(chars_of(outcome.summary_line().as_str()));
    let mut last: Vec<char> = Vec::new();
    push_str(&mut last, "Total time: ");
    push_chars(&mut last, &decimal_chars_u64(total_duration_ms));
    push_str(&mut last, "ms");
    lines.push(last);
    let sep = chars_of("\n");
    let joined = join_with(&lines, &sep);
    assert(lines_view(lines@) =~= seq!["Task: "@ + task@, Seq::empty()] + texts_view(step_lines@) + seq![
        Seq::empty(),
        outcome_text(*outcome),
        "Total time: "@ + decimal(total_duration_ms as nat) + "ms"@,
    ]);
    string_of(&joined)
}

/// Whether to take another step: not when the steps (counted as `u32`)
/// have reached the maximum, nor when the last step's action ends the
/// reasoning or its confidence was below the minimum.
pub fn should_continue_with(
    step_count: usize,
    max_steps: u32,
    last_action: Option<&ReActAction>,
    last_below_minimum: bool,
) -> (r: bool)
    ensures
        r == !((step_count as u32) >= max_steps || (last_action matches Some(a) && (*a is Respond || *a is Clarify
            || last_below_minimum))),
{
    #[verifier::truncate]
    let n = step_count as u32;
    if n >= max_steps {
        return false;
    }
    match last_action {
        Some(a) => !(a.is_terminal() || last_below_minimum),
        None => true,
    }
}

} // verus!
