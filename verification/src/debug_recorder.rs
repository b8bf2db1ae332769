//! Step-by-step recording of an agent's reasoning: each step gets the next
//! sequence number, the buffer keeps at most the configured number of the
//! latest steps, and token usage adds up across steps.
use vstd::prelude::*;
use std::collections::VecDeque;
use std::sync::{Arc, RwLock};
use crate::text::{chars_of, string_of, chars_eq, push_str};
use crate::prompt_store::utc_now_millis;
use crate::circuit_breaker::{guard_mut, lock_write, shared_lock};

verus! {

#[verifier::external_type_specification]
#[verifier::external_body]
pub struct ExJsonValue(serde_json::Value);

/// The derived `Clone` of `serde_json::Value`, which steps' own derived
/// `Clone` calls. Nothing is stated of the copy.
pub assume_specification [<serde_json::Value as Clone>::clone](v: &serde_json::Value) -> (r: serde_json::Value);

/// `serde_json::Value::Object(serde_json::Map::new())`: an empty JSON
/// object. Nothing is stated of it here.
#[verifier::external_body]
fn json_empty_object() -> (r: serde_json::Value) {
    serde_json::Value::Object(serde_json::Map::new())
}

/// `serde_json::Value::Null`. Nothing is stated of it here.
#[verifier::external_body]
fn json_null() -> (r: serde_json::Value) {
    serde_json::Value::Null
}

/// `serde_json::Value::as_object_mut`, then `Map::insert` of the key and
/// value when the target is an object; anything else is left as it is.
/// Nothing is stated of the target's contents.
#[verifier::external_body]
fn json_object_insert(target: &mut serde_json::Value, key: &str, value: serde_json::Value) {
    if let Some(obj) = target.as_object_mut() {
        obj.insert(key.to_string(), value);
    }
}

/// A hexadecimal digit in lower case.
pub open spec fn hex_digit(n: nat) -> char {
    if n < 10 {
        ((48 + n) as u32) as char
    } else {
        ((87 + n) as u32) as char
    }
}

/// How `serde_json` writes one character inside a string literal: a quote,
/// a backslash, backspace, form feed, line feed, carriage return and tab
/// by their two-character escapes; any other character below `0x20` as
/// `\u00` and two lower-case hexadecimal digits; everything else as is.
pub open spec fn json_escape_char(c: char) -> Seq<char> {
    if c == '"' {
        seq!['\\', '"']
    } else if c == '\\' {
        seq!['\\', '\\']
    } else if c == '\x08' {
        seq!['\\', 'b']
    } else if c == '\x0C' {
        seq!['\\', 'f']
    } else if c == '\n' {
        seq!['\\', 'n']
    } else if c == '\r' {
        seq!['\\', 'r']
    } else if c == '\t' {
        seq!['\\', 't']
    } else if (c as u32) < 0x20 {
        seq!['\\', 'u', '0', '0', hex_digit(((c as u32) / 16) as nat), hex_digit(((c as u32) % 16) as nat)]
    } else {
        seq![c]
    }
}

/// The characters of a string, each written as [`json_escape_char`] does.
pub open spec fn json_escape(s: Seq<char>) -> Seq<char>
    decreases s.len(),
{
    if s.len() == 0 {
        Seq::empty()
    } else {
        json_escape(s.drop_last()) + json_escape_char(s.last())
    }
}

/// What `serde_json::to_string` gives for a string: the string as a JSON
/// string literal, in double quotes with its characters escaped.
pub open spec fn json_quoted(s: Seq<char>) -> Seq<char> {
    seq!['"'] + json_escape(s) + seq!['"']
}

/// `serde_json::to_string` of a string (it cannot fail for a string): the
/// quoted and escaped string, as `format_escaped_str` writes it.
#[verifier::external_body]
fn json_string(s: &str) -> (r: String)
    ensures
        r@ == json_quoted(s@),
{
    serde_json::to_string(s).unwrap_or_default()
}

/// The kind of a recorded step.
#[derive(Debug, Clone, PartialEq, Eq)]
pub enum StepType {
    /// User input received.
    Input,
    /// Internal reasoning.
    Thinking,
    /// A decision point.
    Decision,
    /// A tool was called.
    ToolCall,
    /// A tool returned.
    ToolResult,
    /// A call to the language model.
    LlmCall,
    /// The language model's response.
    LlmResponse,
    /// A cached result was used.
    CacheHit,
    /// An error happened.
    Error,
    /// Final output.
    Output,
    /// A step of another kind.
    Custom(String),
}

/// Token usage of one step or of a whole trace.
#[derive(Debug, Clone, Copy)]
pub struct TokenUsage {
    /// Input tokens.
    pub input: u64,
    /// Output tokens.
    pub output: u64,
}

/// One recorded step.
#[derive(Debug, Clone)]
pub struct DebugStep {
    /// Sequence number (from 1, in recording order).
    pub seq: u64,
    /// Kind of step.
    pub step_type: StepType,
    /// What happened.
    pub description: String,
    /// Extra data.
    pub data: Option<serde_json::Value>,
    /// When it was recorded, in milliseconds since the Unix epoch (UTC).
    pub timestamp: i64,
    /// How long it took, if measured.
    pub duration_ms: Option<u64>,
    /// Tokens it used, if measured.
    pub tokens: Option<TokenUsage>,
}

/// A finished trace.
#[derive(Debug, Clone)]
pub struct DebugTrace {
    /// Trace id.
    pub trace_id: String,
    /// When recording started, in milliseconds since the Unix epoch (UTC).
    pub started_at: i64,
    /// When the trace was finalized, in milliseconds since the Unix epoch.
    pub ended_at: Option<i64>,
    /// The steps kept, oldest first.
    pub steps: Vec<DebugStep>,
    /// Time from start to finalization, in milliseconds.
    pub total_duration_ms: Option<u64>,
    /// Total token usage.
    pub total_tokens: TokenUsage,
    /// Free-form metadata.
    pub metadata: serde_json::Value,
}

/// Aggregate figures of a trace.
#[derive(Debug, Clone)]
pub struct TraceSummary {
    /// Trace id.
    pub trace_id: String,
    /// Number of steps.
    pub total_steps: usize,
    /// Total duration in milliseconds (0 when unknown).
    pub total_duration_ms: u64,
    /// Input plus output tokens.
    pub total_tokens: u64,
    /// Number of steps of each kind, keyed by the kind's JSON text, kinds in
    /// the order they first occur.
    pub step_counts: Vec<(String, usize)>,
    /// Whether some step is an error.
    pub has_errors: bool,
}

/// The JSON text of a step kind, as its serde form writes it.
pub open spec fn step_type_key(t: StepType) -> Seq<char> {
    match t {
        StepType::Input => "\"input\""@,
        StepType::Thinking => "\"thinking\""@,
        StepType::Decision => "\"decision\""@,
        StepType::ToolCall => "\"tool_call\""@,
        StepType::ToolResult => "\"tool_result\""@,
        StepType::LlmCall => "\"llm_call\""@,
        StepType::LlmResponse => "\"llm_response\""@,
        StepType::CacheHit => "\"cache_hit\""@,
        StepType::Error => "\"error\""@,
        StepType::Output => "\"output\""@,
        StepType::Custom(s) => "{\"custom\":"@ + json_quoted(s@) + "}"@,
    }
}

fn step_type_key_exec(t: &StepType) -> (r: String)
    ensures
        r@ == step_type_key(*t),
{
    match t {
        StepType::Input => string_of(&chars_of("\"input\"")),
        StepType::Thinking => string_of(&chars_of("\"thinking\"")),
        StepType::Decision => string_of(&chars_of("\"decision\"")),
        StepType::ToolCall => string_of(&chars_of("\"tool_call\"")),
        StepType::ToolResult => string_of(&chars_of("\"tool_result\"")),
        StepType::LlmCall => string_of(&chars_of("\"llm_call\"")),
        StepType::LlmResponse => string_of(&chars_of("\"llm_response\"")),
        StepType::CacheHit => string_of(&chars_of("\"cache_hit\"")),
        StepType::Error => string_of(&chars_of("\"error\"")),
        StepType::Output => string_of(&chars_of("\"output\"")),
        StepType::Custom(s) => {
            let mut v = chars_of("{\"custom\":");
            push_str(&mut v, json_string(s.as_str()).as_str());
            push_str(&mut v, "}");
            string_of(&v)
        },
    }
}

/// The number of steps of each kind, kinds in first-occurrence order.
pub open spec fn step_counts(st: Seq<DebugStep>) -> Seq<(Seq<char>, nat)>
    decreases st.len(),
{
    if st.len() == 0 {
        Seq::empty()
    } else {
        let prev = step_counts(st.drop_last());
        let k = step_type_key(st.last().step_type);
        match count_index(prev, k, 0) {
            Some(i) => prev.update(i, (k, prev[i].1 + 1)),
            None => prev.push((k, 1)),
        }
    }
}

/// The first entry from index `i` on counting kind `k`.
pub open spec fn count_index(c: Seq<(Seq<char>, nat)>, k: Seq<char>, i: int) -> Option<int>
    decreases c.len() - i,
{
    if i < 0 || i >= c.len() {
        None
    } else if c[i].0 == k {
        Some(i)
    } else {
        count_index(c, k, i + 1)
    }
}

/// The counts as plain values.
pub open spec fn counts_view(v: Seq<(String, usize)>) -> Seq<(Seq<char>, nat)> {
    v.map_values(|p: (String, usize)| (p.0@, p.1 as nat))
}

/// Some step is an error.
pub open spec fn has_error(st: Seq<DebugStep>) -> bool {
    exists|i: int| 0 <= i < st.len() && #[trigger] st[i].step_type == StepType::Error
}

proof fn lemma_count_index(c: Seq<(Seq<char>, nat)>, k: Seq<char>, i: int)
    requires
        0 <= i,
    ensures
        count_index(c, k, i) matches Some(j) ==> i <= j < c.len(),
    decreases c.len() - i,
{
    if i < c.len() && c[i].0 != k {
        lemma_count_index(c, k, i + 1);
    }
}

proof fn lemma_counts_bounded(st: Seq<DebugStep>)
    ensures
        forall|i: int| 0 <= i < step_counts(st).len() ==> #[trigger] step_counts(st)[i].1 <= st.len(),
        step_counts(st).len() <= st.len(),
    decreases st.len(),
{
    if st.len() > 0 {
        lemma_counts_bounded(st.drop_last());
        let prev = step_counts(st.drop_last());
        lemma_count_index(prev, step_type_key(st.last().step_type), 0);
    }
}

fn find_count(counts: &Vec<(String, usize)>, k: &Vec<char>) -> (r: Option<usize>)
    ensures
        match count_index(counts_view(counts@), k@, 0) {
            Some(i) => (r matches Some(j) && j as int == i) && 0 <= i < counts.len(),
            None => r is None,
        },
{
    let ghost cv = counts_view(counts@);
    let mut j: usize = 0;
    while j < counts.len()
        invariant
            j <= counts.len(),
            cv == counts_view(counts@),
            count_index(cv, k@, 0) == count_index(cv, k@, j as int),
        decreases counts.len() - j,
    {
        if chars_eq(&chars_of(counts[j].0.as_str()), k) {
            return Some(j);
        }
        j += 1;
    }
    None
}

impl DebugTrace {
    /// The trace's aggregate figures.
    pub fn summary(&self) -> (r: TraceSummary)
        requires
            self.total_tokens.input + self.total_tokens.output <= u64::MAX,
        ensures
            r.trace_id@ == self.trace_id@,
            r.total_steps == self.steps.len(),
            r.total_duration_ms == match self.total_duration_ms {
                Some(d) => d,
                None => 0,
            },
            r.total_tokens == self.total_tokens.input + self.total_tokens.output,
            counts_view(r.step_counts@) == step_counts(self.steps@),
            r.has_errors == has_error(self.steps@),
    {
        let ghost st = self.steps@;
        let mut counts: Vec<(String, usize)> = Vec::new();
        let mut errors = false;
        let mut i: usize = 0;
        while i < self.steps.len()
            invariant
                st == self.steps@,
                i <= st.len(),
                counts_view(counts@) == step_counts(st.take(i as int)),
                errors == has_error(st.take(i as int)),
            decreases st.len() - i,
        {
            let ghost prev = st.take(i as int);
            assert(st.take(i + 1).drop_last() =~= prev);
            proof {
                lemma_counts_bounded(prev);
                lemma_count_index(step_counts(prev), step_type_key(st[i as int].step_type), 0);
            }
            let key = step_type_key_exec(&self.steps[i].step_type);
            let kc = chars_of(key.as_str());
            let ghost cv = counts_view(counts@);
            let found = find_count(&counts, &kc);
            match found {
                Some(j) => {
                    let n = counts[j].1;
                    assert(n <= i);
                    counts.set(j, (key, n + 1));
                    assert(counts_view(counts@) =~= cv.update(j as int, (key@, cv[j as int].1 + 1)));
                },
                None => {
                    counts.push((key, 1));
                    assert(counts_view(counts@) =~= cv.push((key@, 1nat)));
                },
            }
            proof {
                if st[i as int].step_type == StepType::Error {
                    assert(st.take(i + 1)[i as int].step_type == StepType::Error);
                }
            }
            proof {
                if !errors && has_error(st.take(i + 1)) {
                    let k = choose|k: int| 0 <= k < i + 1 && #[trigger] st.take(i + 1)[k].step_type == StepType::Error;
                    if k < i {
                        assert(prev[k].step_type == StepType::Error);
                    }
                }
            }
            errors = errors || is_error(&self.steps[i].step_type);
            i += 1;
        }
        assert(st.take(st.len() as int) =~= st);
        TraceSummary {
            trace_id: string_of(&chars_of(self.trace_id.as_str())),
            total_steps: self.steps.len(),
            total_duration_ms: match self.total_duration_ms {
                Some(d) => d,
                None => 0,
            },
            total_tokens: self.total_tokens.input + self.total_tokens.output,
            step_counts: counts,
            has_errors: errors,
        }
    }
}

fn is_error(t: &StepType) -> (r: bool)
    ensures
        r == (*t == StepType::Error),
{
    match t {
        StepType::Error => true,
        _ => false,
    }
}

/// The recorder's state: the kept steps, how many were ever recorded, the
/// next sequence number, when recording started, the token totals and the
/// metadata.
#[derive(Debug)]
pub struct RecorderState {
    /// The kept steps, oldest first.
    pub steps: VecDeque<DebugStep>,
    /// How many steps were ever recorded.
    pub total_recorded: u64,
    /// The sequence number of the next step.
    pub next_seq: u64,
    /// When recording started, in milliseconds since the Unix epoch (UTC).
    pub started_at: i64,
    /// Total input tokens.
    pub total_input_tokens: u64,
    /// Total output tokens.
    pub total_output_tokens: u64,
    /// Free-form metadata (a JSON object when recording is enabled).
    pub metadata: serde_json::Value,
}

/// How many recorded steps a state has evicted: recorded minus kept, at
/// least 0.
pub open spec fn evicted_of(st: RecorderState) -> u64 {
    if st.total_recorded >= st.steps@.len() {
        (st.total_recorded - st.steps@.len()) as u64
    } else {
        0u64
    }
}

/// A trace taken from state `st`: its start, its duration up to the end,
/// copies of its kept steps and its token totals.
pub open spec fn finalized_from(st: RecorderState, r: DebugTrace) -> bool {
    &&& r.started_at == st.started_at
    &&& r.ended_at is Some
    &&& r.total_duration_ms == Some(abs_diff(r.ended_at->0, st.started_at))
    &&& r.steps@.len() == st.steps@.len()
    &&& forall|i: int| 0 <= i < r.steps@.len() ==> same_step(#[trigger] r.steps@[i], st.steps@[i])
    &&& r.total_tokens.input == st.total_input_tokens
    &&& r.total_tokens.output == st.total_output_tokens
}

/// One more, wrapping as `u64` addition does in release builds.
pub open spec fn next_u64(v: u64) -> u64 {
    if v == u64::MAX {
        0
    } else {
        (v + 1) as u64
    }
}

/// A sum wrapping as `u64` addition does in release builds.
pub open spec fn sum_u64(a: u64, b: u64) -> u64 {
    if a + b > u64::MAX {
        (a + b - u64::MAX - 1) as u64
    } else {
        (a + b) as u64
    }
}

/// The steps kept when one more is recorded: with a positive maximum and a
/// full buffer the oldest step goes first.
pub open spec fn kept_before_push(steps: Seq<DebugStep>, max_steps: usize) -> Seq<DebugStep> {
    if max_steps > 0 && steps.len() >= max_steps {
        steps.drop_first()
    } else {
        steps
    }
}

/// The state after recording `step` with sequence number `old.next_seq`.
pub open spec fn recorded(old: RecorderState, new: RecorderState, max_steps: usize, step: DebugStep) -> bool {
    &&& step.seq == old.next_seq
    &&& new.steps@ == kept_before_push(old.steps@, max_steps).push(step)
    &&& new.next_seq == next_u64(old.next_seq)
    &&& new.total_recorded == next_u64(old.total_recorded)
    &&& new.started_at == old.started_at
}

impl RecorderState {
    /// A fresh state started now, with the given metadata.
    pub fn new(metadata: serde_json::Value) -> (r: Self)
        ensures
            r.steps@.len() == 0,
            r.total_recorded == 0,
            r.next_seq == 1,
            r.total_input_tokens == 0,
            r.total_output_tokens == 0,
    {
        RecorderState {
            steps: VecDeque::new(),
            total_recorded: 0,
            next_seq: 1,
            started_at: utc_now_millis(),
            total_input_tokens: 0,
            total_output_tokens: 0,
            metadata,
        }
    }

    fn push_step(&mut self, max_steps: usize, step: DebugStep)
        ensures
            final(self).steps@ == kept_before_push(old(self).steps@, max_steps).push(step),
            final(self).next_seq == old(self).next_seq,
            final(self).total_recorded == old(self).total_recorded,
            final(self).started_at == old(self).started_at,
            final(self).total_input_tokens == old(self).total_input_tokens,
            final(self).total_output_tokens == old(self).total_output_tokens,
    {
        if max_steps > 0 && self.steps.len() >= max_steps {
            self.steps.pop_front();
        }
        self.steps.push_back(step);
    }

    /// Record a step without metrics (see [`recorded`]); token totals stay.
    pub fn record(&mut self, max_steps: usize, step_type: StepType, description: String, data: Option<serde_json::Value>)
        ensures
            recorded(
                *old(self),
                *final(self),
                max_steps,
                DebugStep {
                    seq: old(self).next_seq,
                    step_type,
                    description,
                    data,
                    timestamp: final(self).steps@.last().timestamp,
                    duration_ms: None,
                    tokens: None,
                },
            ),
            final(self).total_input_tokens == old(self).total_input_tokens,
            final(self).total_output_tokens == old(self).total_output_tokens,
    {
        let seq = self.next_seq;
        self.next_seq = self.next_seq.wrapping_add(1);
        self.total_recorded = self.total_recorded.wrapping_add(1);
        let step = DebugStep {
            seq,
            step_type,
            description,
            data,
            timestamp: utc_now_millis(),
            duration_ms: None,
            tokens: None,
        };
        self.push_step(max_steps, step);
    }

    /// Record a step with its duration and token usage (see [`recorded`]);
    /// the token totals grow by the step's tokens.
    pub fn record_with_metrics(
        &mut self,
        max_steps: usize,
        step_type: StepType,
        description: String,
        duration_ms: u64,
        input_tokens: u64,
        output_tokens: u64,
    )
        ensures
            recorded(
                *old(self),
                *final(self),
                max_steps,
                DebugStep {
                    seq: old(self).next_seq,
                    step_type,
                    description,
                    data: None,
                    timestamp: final(self).steps@.last().timestamp,
                    duration_ms: Some(duration_ms),
                    tokens: Some(TokenUsage { input: input_tokens, output: output_tokens }),
                },
            ),
            final(self).total_input_tokens == sum_u64(old(self).total_input_tokens, input_tokens),
            final(self).total_output_tokens == sum_u64(old(self).total_output_tokens, output_tokens),
    {
        let seq = self.next_seq;
        self.next_seq = self.next_seq.wrapping_add(1);
        self.total_recorded = self.total_recorded.wrapping_add(1);
        self.total_input_tokens = self.total_input_tokens.wrapping_add(input_tokens);
        self.total_output_tokens = self.total_output_tokens.wrapping_add(output_tokens);
        let step = DebugStep {
            seq,
            step_type,
            description,
            data: None,
            timestamp: utc_now_millis(),
            duration_ms: Some(duration_ms),
            tokens: Some(TokenUsage { input: input_tokens, output: output_tokens }),
        };
        self.push_step(max_steps, step);
    }

    /// How many recorded steps were evicted: recorded minus kept, at least 0.
    pub fn evicted_count(&self) -> (r: u64)
        ensures
            r == evicted_of(*self),
    {
        let kept = self.steps.len() as u64;
        if self.total_recorded >= kept {
            self.total_recorded - kept
        } else {
            0
        }
    }

    /// The trace so far: the kept steps (their data cloned), the totals, the
    /// time from start to now, and the metadata (cloned).
    pub fn finalize(&self, trace_id: &str) -> (r: DebugTrace)
        ensures
            r.trace_id@ == trace_id@,
            r.started_at == self.started_at,
            r.ended_at is Some,
            r.total_duration_ms == Some(abs_diff(r.ended_at->0, self.started_at)),
            r.steps@.len() == self.steps@.len(),
            forall|i: int| 0 <= i < r.steps@.len() ==> same_step(#[trigger] r.steps@[i], self.steps@[i]),
            r.total_tokens.input == self.total_input_tokens,
            r.total_tokens.output == self.total_output_tokens,
    {
        let now = utc_now_millis();
        let mut steps: Vec<DebugStep> = Vec::new();
        let mut i: usize = 0;
        while i < self.steps.len()
            invariant
                i <= self.steps@.len(),
                steps@.len() == i,
                forall|j: int| 0 <= j < i ==> same_step(#[trigger] steps@[j], self.steps@[j]),
            decreases self.steps@.len() - i,
        {
            steps.push(copy_step(&self.steps[i]));
            i += 1;
        }
        let d = (now as i128) - (self.started_at as i128);
        let duration: u64 = if d >= 0 {
            d as u64
        } else {
            (-d) as u64
        };
        DebugTrace {
            trace_id: string_of(&chars_of(trace_id)),
            started_at: self.started_at,
            ended_at: Some(now),
            steps,
            total_duration_ms: Some(duration),
            total_tokens: TokenUsage { input: self.total_input_tokens, output: self.total_output_tokens },
            metadata: self.metadata.clone(),
        }
    }
}

/// The distance between two instants.
pub open spec fn abs_diff(a: i64, b: i64) -> u64 {
    if a >= b {
        (a - b) as u64
    } else {
        (b - a) as u64
    }
}

/// Two step kinds agree: the same kind, with the same text for custom
/// kinds.
pub open spec fn same_type(a: StepType, b: StepType) -> bool {
    match (a, b) {
        (StepType::Custom(x), StepType::Custom(y)) => x@ == y@,
        _ => a == b,
    }
}

/// A step and its copy agree on everything but the data, which is cloned.
pub open spec fn same_step(a: DebugStep, b: DebugStep) -> bool {
    &&& a.seq == b.seq
    &&& same_type(a.step_type, b.step_type)
    &&& a.description@ == b.description@
    &&& a.data is Some == b.data is Some
    &&& a.timestamp == b.timestamp
    &&& a.duration_ms == b.duration_ms
    &&& a.tokens == b.tokens
}

fn copy_step_type(t: &StepType) -> (r: StepType)
    ensures
        same_type(r, *t),
{
    match t {
        StepType::Input => StepType::Input,
        StepType::Thinking => StepType::Thinking,
        StepType::Decision => StepType::Decision,
        StepType::ToolCall => StepType::ToolCall,
        StepType::ToolResult => StepType::ToolResult,
        StepType::LlmCall => StepType::LlmCall,
        StepType::LlmResponse => StepType::LlmResponse,
        StepType::CacheHit => StepType::CacheHit,
        StepType::Error => StepType::Error,
        StepType::Output => StepType::Output,
        StepType::Custom(s) => {
            StepType::Custom(string_of(&chars_of(s.as_str())))
        },
    }
}

fn copy_step(s: &DebugStep) -> (r: DebugStep)
    ensures
        same_step(r, *s),
{
    DebugStep {
        seq: s.seq,
        step_type: copy_step_type(&s.step_type),
        description: string_of(&chars_of(s.description.as_str())),
        data: match &s.data {
            Some(v) => Some(v.clone()),
            None => None,
        },
        timestamp: s.timestamp,
        duration_ms: s.duration_ms,
        tokens: s.tokens,
    }
}

/// Sequence numbers increase along the steps and stay below `next`.
pub open spec fn seq_ordered(steps: Seq<DebugStep>, next: u64) -> bool {
    &&& forall|i: int, j: int| 0 <= i < j < steps.len() ==> steps[i].seq < steps[j].seq
    &&& forall|i: int| 0 <= i < steps.len() ==> #[trigger] steps[i].seq < next
}

/// Law: recording keeps a buffer with a positive maximum within that
/// maximum.
pub proof fn law_buffer_stays_bounded(old: RecorderState, new: RecorderState, max_steps: usize, step: DebugStep)
    requires
        recorded(old, new, max_steps, step),
        max_steps > 0,
        old.steps@.len() <= max_steps,
    ensures
        new.steps@.len() <= max_steps,
{
}

/// Law: recording keeps sequence numbers increasing along the kept steps
/// and below the next sequence number (while that number does not wrap).
pub proof fn law_sequence_numbers_increase(old: RecorderState, new: RecorderState, max_steps: usize, step: DebugStep)
    requires
        recorded(old, new, max_steps, step),
        seq_ordered(old.steps@, old.next_seq),
        old.next_seq < u64::MAX,
    ensures
        seq_ordered(new.steps@, new.next_seq),
{
    let base = kept_before_push(old.steps@, max_steps);
    assert(seq_ordered(base, old.next_seq)) by {
        if max_steps > 0 && old.steps@.len() >= max_steps {
            assert forall|i: int, j: int| 0 <= i < j < base.len() implies base[i].seq < base[j].seq by {
                assert(base[i] == old.steps@[i + 1] && base[j] == old.steps@[j + 1]);
            }
            assert forall|i: int| 0 <= i < base.len() implies #[trigger] base[i].seq < old.next_seq by {
                assert(base[i] == old.steps@[i + 1]);
            }
        }
    }
    assert forall|i: int, j: int| 0 <= i < j < new.steps@.len() implies new.steps@[i].seq < new.steps@[j].seq by {
        if j == new.steps@.len() - 1 {
            assert(new.steps@[i] == base[i]);
        } else {
            assert(new.steps@[i] == base[i] && new.steps@[j] == base[j]);
        }
    }
    assert forall|i: int| 0 <= i < new.steps@.len() implies #[trigger] new.steps@[i].seq < new.next_seq by {
        if i < new.steps@.len() - 1 {
            assert(new.steps@[i] == base[i]);
        }
    }
}

/// The default maximum number of steps kept.
pub const DEFAULT_MAX_STEPS: usize = 1000;

/// Records the steps of one trace.
///
/// Clones share the same state (it lives behind `Arc<RwLock<..>>`). What a
/// shared state holds is not known in advance, so each method hands its
/// arguments to the state, whose own methods carry the exact contracts. A
/// disabled recorder records nothing.
#[derive(Debug, Clone)]
pub struct DebugRecorder {
    trace_id: String,
    inner: Arc<RwLock<RecorderState>>,
    enabled: bool,
    max_steps: usize,
}

impl DebugRecorder {
    /// The trace id.
    pub closed spec fn spec_trace_id(&self) -> Seq<char> {
        self.trace_id@
    }

    /// Whether the recorder records.
    pub closed spec fn spec_enabled(&self) -> bool {
        self.enabled
    }

    /// The maximum number of steps kept (0 for no limit).
    pub closed spec fn spec_max_steps(&self) -> usize {
        self.max_steps
    }

    /// A recorder keeping up to [`DEFAULT_MAX_STEPS`] steps.
    pub fn new(trace_id: &str) -> (r: Self)
        ensures
            r.spec_trace_id() == trace_id@,
            r.spec_enabled(),
            r.spec_max_steps() == DEFAULT_MAX_STEPS,
    {
        Self::with_capacity(trace_id, DEFAULT_MAX_STEPS)
    }

    /// A recorder keeping up to `max_steps` steps (0 for no limit).
    pub fn with_capacity(trace_id: &str, max_steps: usize) -> (r: Self)
        ensures
            r.spec_trace_id() == trace_id@,
            r.spec_enabled(),
            r.spec_max_steps() == max_steps,
    {
        DebugRecorder {
            trace_id: string_of(&chars_of(trace_id)),
            inner: shared_lock(RecorderState::new(json_empty_object())),
            enabled: true,
            max_steps,
        }
    }

    /// A recorder that records nothing.
    pub fn disabled() -> (r: Self)
        ensures
            r.spec_trace_id() == Seq::<char>::empty(),
            !r.spec_enabled(),
            r.spec_max_steps() == 0,
    {
        DebugRecorder {
            trace_id: String::new(),
            inner: shared_lock(RecorderState::new(json_null())),
            enabled: false,
            max_steps: 0,
        }
    }

    /// The maximum number of steps kept.
    pub fn max_steps(&self) -> (r: usize)
        ensures
            r == self.spec_max_steps(),
    {
        self.max_steps
    }

    /// Whether the recorder records.
    pub fn is_enabled(&self) -> (r: bool)
        ensures
            r == self.spec_enabled(),
    {
        self.enabled
    }

    /// How many steps were ever recorded, as the state held by the lock at
    /// the call counts them.
    pub fn total_recorded(&self) -> (r: u64)
        ensures
            exists|st: RecorderState| #[trigger] st.total_recorded == r,
    {
        let mut g = lock_write(&*self.inner);
        let st = guard_mut(&mut g);
        let r = st.total_recorded;
        assert(st.total_recorded == r);
        r
    }

    /// How many recorded steps were evicted (see
    /// [`RecorderState::evicted_count`]) in the state held by the lock at the
    /// call.
    pub fn evicted_count(&self) -> (r: u64)
        ensures
            exists|st: RecorderState| #[trigger] evicted_of(st) == r,
    {
        let mut g = lock_write(&*self.inner);
        let st = guard_mut(&mut g);
        let r = st.evicted_count();
        assert(evicted_of(*st) == r);
        r
    }

    /// Record a step (see [`RecorderState::record`]); nothing when disabled.
    pub fn record(&self, step_type: StepType, description: &str, data: Option<serde_json::Value>) {
        if !self.enabled {
            return;
        }
        let mut g = lock_write(&*self.inner);
        let st = guard_mut(&mut g);
        st.record(self.max_steps, step_type, string_of(&chars_of(description)), data);
    }

    /// Record a step with metrics (see [`RecorderState::record_with_metrics`]);
    /// nothing when disabled.
    pub fn record_with_metrics(
        &self,
        step_type: StepType,
        description: &str,
        duration_ms: u64,
        input_tokens: u64,
        output_tokens: u64,
    ) {
        if !self.enabled {
            return;
        }
        let mut g = lock_write(&*self.inner);
        let st = guard_mut(&mut g);
        st.record_with_metrics(
            self.max_steps,
            step_type,
            string_of(&chars_of(description)),
            duration_ms,
            input_tokens,
            output_tokens,
        );
    }

    /// Set a metadata entry; nothing when disabled.
    pub fn set_metadata(&self, key: &str, value: serde_json::Value) {
        if !self.enabled {
            return;
        }
        let mut g = lock_write(&*self.inner);
        let st = guard_mut(&mut g);
        json_object_insert(&mut st.metadata, key, value);
    }

    /// How many steps the state held by the lock at the call keeps.
    pub fn step_count(&self) -> (r: usize)
        ensures
            exists|st: RecorderState| #[trigger] st.steps@.len() == r,
    {
        let mut g = lock_write(&*self.inner);
        let st = guard_mut(&mut g);
        let r = st.steps.len();
        assert(st.steps@.len() == r);
        r
    }

    /// The trace so far (see [`RecorderState::finalize`]).
    pub fn finalize(&self) -> (r: DebugTrace)
        ensures
            r.trace_id@ == self.spec_trace_id(),
            r.ended_at is Some,
            exists|st: RecorderState| #[trigger] finalized_from(st, r),
    {
        let mut g = lock_write(&*self.inner);
        let st = guard_mut(&mut g);
        let r = st.finalize(self.trace_id.as_str());
        assert(finalized_from(*st, r));
        r
    }
}

} // verus!
