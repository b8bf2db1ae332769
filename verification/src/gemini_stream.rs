//! Reading a streamed reply of Google's `streamGenerateContent` API: the
//! bytes come in chunks of server-sent events; each complete `data: ` line
//! is a JSON event whose parts add text and tool calls. The caller moves
//! the bytes and sends the events; what they mean is decided here.
use vstd::prelude::*;
use crate::text::{chars_of, string_of, push_str, push_chars, decimal, decimal_chars, trim, trim_chars, is_prefix,
    starts_with_str, slice_chars};
use crate::structured_output::{JsonValue, JsonView, json_view, copy_json, copy_text, parse_json, json_parse};
use crate::react::{get_member, as_text, text_or};
use crate::gemini::{LlmResponse, ToolCall, call_view, response_view, at, at_exec, text_at, asked_call};
use crate::agent_loop::{CallView, StreamEvent, StreamView, events_view};

verus! {

/// The text and tool calls read so far.
pub type StreamAcc = (Seq<char>, Seq<CallView>);

/// What one part of an event adds: its string `"text"`, if any (a text
/// event), then its `"functionCall"`, if any, numbered after the calls so
/// far as `gemini-tc-<n>` with its string `"name"` (default empty) and its
/// `"args"` (default an empty object) (a start and an end event).
pub open spec fn part_step(acc: StreamAcc, part: JsonView) -> (StreamAcc, Seq<StreamView>) {
    let with_text: (StreamAcc, Seq<StreamView>) = match as_text(Some(at(part, "text"@))) {
        Some(t) => ((acc.0 + t, acc.1), seq![StreamView::TextDelta(t)]),
        None => (acc, Seq::empty()),
    };
    match get_member(part, "functionCall"@) {
        Some(fc) => {
            let id = "gemini-tc-"@ + decimal(with_text.0.1.len());
            let name = text_or(as_text(Some(at(fc, "name"@))), Seq::empty());
            let args = match get_member(fc, "args"@) {
                Some(a) => a,
                None => JsonView::Object(Seq::empty()),
            };
            (
                (with_text.0.0, with_text.0.1.push((id, name, args))),
                with_text.1 + seq![StreamView::ToolCallStart(id, name), StreamView::ToolCallEnd(id)],
            )
        },
        None => with_text,
    }
}

/// The parts of a candidate, one after another.
pub open spec fn parts_fold(acc: StreamAcc, parts: Seq<JsonView>) -> (StreamAcc, Seq<StreamView>)
    decreases parts.len(),
{
    if parts.len() == 0 {
        (acc, Seq::empty())
    } else {
        let p = parts_fold(acc, parts.drop_last());
        let q = part_step(p.0, parts.last());
        (q.0, p.1 + q.1)
    }
}

/// A candidate: the parts of its content, if it has a parts array.
pub open spec fn cand_step(acc: StreamAcc, cand: JsonView) -> (StreamAcc, Seq<StreamView>) {
    match at(at(cand, "content"@), "parts"@) {
        JsonView::Array(ps) => parts_fold(acc, ps),
        _ => (acc, Seq::empty()),
    }
}

/// The candidates of an event, one after another.
pub open spec fn cands_fold(acc: StreamAcc, cands: Seq<JsonView>) -> (StreamAcc, Seq<StreamView>)
    decreases cands.len(),
{
    if cands.len() == 0 {
        (acc, Seq::empty())
    } else {
        let p = cands_fold(acc, cands.drop_last());
        let q = cand_step(p.0, cands.last());
        (q.0, p.1 + q.1)
    }
}

/// A complete line: empty lines and `:` comments are skipped; a `data: `
/// line whose rest is JSON adds the parts of its candidates; any other
/// line is skipped.
pub open spec fn line_step(acc: StreamAcc, line: Seq<char>) -> (StreamAcc, Seq<StreamView>) {
    if line.len() == 0 || line[0] == ':' {
        (acc, Seq::empty())
    } else if is_prefix("data: "@, line) {
        match json_parse(line.skip(6)) {
            Some(v) => match at(v, "candidates"@) {
                JsonView::Array(cs) => cands_fold(acc, cs),
                _ => (acc, Seq::empty()),
            },
            None => (acc, Seq::empty()),
        }
    } else {
        (acc, Seq::empty())
    }
}

/// Scanning the buffer from `i`, the current line starting at `start`:
/// each newline ends a line, which is trimmed and read; what follows the
/// last newline stays in the buffer.
pub open spec fn drain_at(buf: Seq<char>, i: int, start: int, acc: StreamAcc) -> (Seq<char>, StreamAcc, Seq<StreamView>)
    decreases buf.len() - i,
{
    if i < 0 || i >= buf.len() {
        (buf.skip(start), acc, Seq::empty())
    } else if buf[i] == '\n' {
        let l = line_step(acc, trim(buf.subrange(start, i)));
        let r = drain_at(buf, i + 1, i + 1, l.0);
        (r.0, r.1, l.1 + r.2)
    } else {
        drain_at(buf, i + 1, start, acc)
    }
}

/// What has been read of a stream: the incomplete last line, the text and
/// the tool calls.
pub struct GeminiStreamView {
    pub buffer: Seq<char>,
    pub text: Seq<char>,
    pub calls: Seq<CallView>,
}

/// A chunk arrives: it is added to the buffer, and the complete lines are
/// read.
pub open spec fn gemini_chunk(st: GeminiStreamView, chunk: Seq<char>) -> (GeminiStreamView, Seq<StreamView>) {
    let r = drain_at(st.buffer + chunk, 0, 0, (st.text, st.calls));
    (GeminiStreamView { buffer: r.0, text: r.1.0, calls: r.1.1 }, r.2)
}

/// The stream ends: a done event, and the reply: a tool use (with the
/// text, if any) when there are calls, otherwise a finished text.
pub open spec fn gemini_final(st: GeminiStreamView) -> (Seq<StreamView>, (nat, Option<Seq<char>>, Seq<CallView>)) {
    (
        seq![StreamView::Done],
        if st.calls.len() > 0 {
            (2, if st.text.len() == 0 { None } else { Some(st.text) }, st.calls)
        } else {
            (0, Some(st.text), Seq::empty())
        },
    )
}

/// The state of reading a streamed reply.
#[derive(Debug)]
pub struct GeminiStreamState {
    /// The incomplete last line.
    pub buffer: String,
    /// The text read so far.
    pub full_text: String,
    /// The tool calls read so far.
    pub tool_calls: Vec<ToolCall>,
}

impl View for GeminiStreamState {
    type V = GeminiStreamView;

    open spec fn view(&self) -> GeminiStreamView {
        GeminiStreamView {
            buffer: self.buffer@,
            text: self.full_text@,
            calls: self.tool_calls@.map_values(|c: ToolCall| call_view(c)),
        }
    }
}

impl GeminiStreamState {
    /// Nothing read yet.
    pub fn new() -> (r: Self)
        ensures
            r@.buffer.len() == 0,
            r@.text.len() == 0,
            r@.calls.len() == 0,
    {
        GeminiStreamState { buffer: String::new(), full_text: String::new(), tool_calls: Vec::new() }
    }
}

/// The views of tool calls.
pub open spec fn calls_view(v: Seq<ToolCall>) -> Seq<CallView> {
    v.map_values(|c: ToolCall| call_view(c))
}

/// A copy of tool calls.
fn copy_calls(v: &Vec<ToolCall>) -> (r: Vec<ToolCall>)
    ensures
        calls_view(r@) == calls_view(v@),
{
    let mut out: Vec<ToolCall> = Vec::new();
    let mut i: usize = 0;
    while i < v.len()
        invariant
            i <= v.len(),
            calls_view(out@) == calls_view(v@).take(i as int),
        decreases v.len() - i,
    {
        let c = ToolCall { id: copy_text(&v[i].id), name: copy_text(&v[i].name), arguments: copy_json(&v[i].arguments) };
        let ghost before = out@;
        out.push(c);
        assert(calls_view(out@) =~= calls_view(before).push(call_view(c)));
        assert(calls_view(v@).take(i + 1) =~= calls_view(v@).take(i as int).push(call_view(v@[i as int])));
        i += 1;
    }
    assert(calls_view(v@).take(v.len() as int) =~= calls_view(v@));
    out
}

/// One part of an event (see [`part_step`]).
fn part_exec(part: &JsonValue, text: &mut Vec<char>, calls: &mut Vec<ToolCall>, events: &mut Vec<StreamEvent>)
    ensures
        ((final(text)@, calls_view(final(calls)@)), events_view(final(events)@)) == ({
            let q = part_step((old(text)@, calls_view(old(calls)@)), json_view(*part));
            (q.0, events_view(old(events)@) + q.1)
        }),
{
    let ghost e0 = events_view(events@);
    match text_at(part, "text") {
        Some(t) => {
            push_chars(text, &chars_of(t.as_str()));
            let ghost before = events@;
            events.push(StreamEvent::TextDelta { text: t });
            assert(events_view(events@) =~= events_view(before).push(StreamView::TextDelta(t@)));
        },
        None => {},
    }
    let ghost e1 = events_view(events@);
    match crate::react::member(part, "functionCall") {
        Some(fc) => {
            let name = match text_at(fc, "name") {
                Some(n) => n,
                None => String::new(),
            };
            let arguments = match crate::react::member(fc, "args") {
                Some(a) => copy_json(a),
                None => {
                    let e = JsonValue::Object(Vec::new());
                    assert(json_view(e)->Object_0 =~= Seq::<(Seq<char>, JsonView)>::empty());
                    e
                },
            };
            let mut id: Vec<char> = Vec::new();
            push_str(&mut id, "gemini-tc-");
            push_chars(&mut id, &decimal_chars(calls.len()));
            let ghost before = events@;
            events.push(StreamEvent::ToolCallStart { id: string_of(&id), name: copy_text(&name) });
            events.push(StreamEvent::ToolCallEnd { id: string_of(&id) });
            assert(events_view(events@) =~= events_view(before) + seq![
                StreamView::ToolCallStart(id@, name@),
                StreamView::ToolCallEnd(id@),
            ]);
            let call = ToolCall { id: string_of(&id), name, arguments };
            let ghost cb = calls@;
            calls.push(call);
            assert(calls_view(calls@) =~= calls_view(cb).push(call_view(call)));
        },
        None => {},
    }
}

/// The parts of a candidate (see [`cand_step`]).
fn cand_exec(cand: &JsonValue, text: &mut Vec<char>, calls: &mut Vec<ToolCall>, events: &mut Vec<StreamEvent>)
    ensures
        ((final(text)@, calls_view(final(calls)@)), events_view(final(events)@)) == ({
            let q = cand_step((old(text)@, calls_view(old(calls)@)), json_view(*cand));
            (q.0, events_view(old(events)@) + q.1)
        }),
{
    let content = at_exec(cand, "content");
    let parts = match at_exec(&content, "parts") {
        JsonValue::Array(p) => p,
        _ => {
            assert(events_view(events@) =~= events_view(events@) + Seq::<StreamView>::empty());
            return;
        },
    };
    let ghost pv = parts@.map_values(|x: JsonValue| json_view(x));
    assert(json_view(JsonValue::Array(parts))->Array_0 =~= pv);
    let ghost acc0 = (text@, calls_view(calls@));
    let ghost ev0 = events_view(events@);
    let mut k: usize = 0;
    assert(pv.take(0) =~= Seq::<JsonView>::empty());
    assert(ev0 + Seq::<StreamView>::empty() =~= ev0);
    while k < parts.len()
        invariant
            pv == parts@.map_values(|x: JsonValue| json_view(x)),
            k <= parts.len(),
            (text@, calls_view(calls@)) == parts_fold(acc0, pv.take(k as int)).0,
            events_view(events@) == ev0 + parts_fold(acc0, pv.take(k as int)).1,
        decreases parts.len() - k,
    {
        assert(pv.take(k + 1).drop_last() =~= pv.take(k as int));
        assert(pv.take(k + 1).last() == json_view(parts@[k as int]));
        let ghost eb = events_view(events@);
        part_exec(&parts[k], text, calls, events);
        proof {
            let p = parts_fold(acc0, pv.take(k as int));
            let q = part_step(p.0, json_view(parts@[k as int]));
            assert(events_view(events@) =~= ev0 + (p.1 + q.1));
        }
        k += 1;
    }
    assert(pv.take(parts.len() as int) =~= pv);
}

/// The candidates of an event (see [`line_step`]).
fn event_exec(v: &JsonValue, text: &mut Vec<char>, calls: &mut Vec<ToolCall>, events: &mut Vec<StreamEvent>)
    ensures
        ((final(text)@, calls_view(final(calls)@)), events_view(final(events)@)) == ({
            let q = match at(json_view(*v), "candidates"@) {
                JsonView::Array(cs) => cands_fold((old(text)@, calls_view(old(calls)@)), cs),
                _ => ((old(text)@, calls_view(old(calls)@)), Seq::<StreamView>::empty()),
            };
            (q.0, events_view(old(events)@) + q.1)
        }),
{
    let cands = match at_exec(v, "candidates") {
        JsonValue::Array(c) => c,
        _ => {
            assert(events_view(events@) =~= events_view(events@) + Seq::<StreamView>::empty());
            return;
        },
    };
    let ghost cv = cands@.map_values(|x: JsonValue| json_view(x));
    assert(json_view(JsonValue::Array(cands))->Array_0 =~= cv);
    let ghost acc0 = (text@, calls_view(calls@));
    let ghost ev0 = events_view(events@);
    let mut k: usize = 0;
    assert(cv.take(0) =~= Seq::<JsonView>::empty());
    assert(ev0 + Seq::<StreamView>::empty() =~= ev0);
    while k < cands.len()
        invariant
            cv == cands@.map_values(|x: JsonValue| json_view(x)),
            k <= cands.len(),
            (text@, calls_view(calls@)) == cands_fold(acc0, cv.take(k as int)).0,
            events_view(events@) == ev0 + cands_fold(acc0, cv.take(k as int)).1,
        decreases cands.len() - k,
    {
        assert(cv.take(k + 1).drop_last() =~= cv.take(k as int));
        assert(cv.take(k + 1).last() == json_view(cands@[k as int]));
        cand_exec(&cands[k], text, calls, events);
        proof {
            let p = cands_fold(acc0, cv.take(k as int));
            let q = cand_step(p.0, json_view(cands@[k as int]));
            assert(events_view(events@) =~= ev0 + (p.1 + q.1));
        }
        k += 1;
    }
    assert(cv.take(cands.len() as int) =~= cv);
}

/// A complete line (see [`line_step`]).
fn line_exec(line: &[char], text: &mut Vec<char>, calls: &mut Vec<ToolCall>, events: &mut Vec<StreamEvent>)
    ensures
        ((final(text)@, calls_view(final(calls)@)), events_view(final(events)@)) == ({
            let q = line_step((old(text)@, calls_view(old(calls)@)), line@);
            (q.0, events_view(old(events)@) + q.1)
        }),
{
    assert(events_view(events@) =~= events_view(events@) + Seq::<StreamView>::empty());
    if line.len() == 0 || line[0] == ':' {
        return;
    }
    proof {
        reveal_strlit("data: ");
    }
    if !starts_with_str(line, "data: ") {
        return;
    }
    let data = slice_chars(line, 6, line.len());
    assert(data@ =~= line@.skip(6));
    match parse_json(string_of(&data).as_str()) {
        Some(v) => event_exec(&v, text, calls, events),
        None => {},
    }
}

/// A chunk of a streamed reply arrives (see [`gemini_chunk`]): the new
/// state and the events to send.
pub fn gemini_stream_step(state: &GeminiStreamState, chunk: &str) -> (r: (GeminiStreamState, Vec<StreamEvent>))
    ensures
        (r.0@, events_view(r.1@)) == gemini_chunk(state@, chunk@),
{
    let mut buf = chars_of(state.buffer.as_str());
    push_chars(&mut buf, &chars_of(chunk));
    let mut text = chars_of(state.full_text.as_str());
    let mut calls = copy_calls(&state.tool_calls);
    let mut events: Vec<StreamEvent> = Vec::new();
    let ghost goal = drain_at(buf@, 0, 0, (text@, calls_view(calls@)));
    let mut i: usize = 0;
    let mut start: usize = 0;
    assert(events_view(events@) + goal.2 =~= goal.2);
    while i < buf.len()
        invariant
            start <= i <= buf.len(),
            ({
                let d = drain_at(buf@, i as int, start as int, (text@, calls_view(calls@)));
                d.0 == goal.0 && d.1 == goal.1 && events_view(events@) + d.2 == goal.2
            }),
        decreases buf.len() - i,
    {
        if buf[i] == '\n' {
            let raw = slice_chars(&buf, start, i);
            let line = trim_chars(&raw);
            let ghost acc = (text@, calls_view(calls@));
            let ghost eb = events_view(events@);
            line_exec(&line, &mut text, &mut calls, &mut events);
            proof {
                let l = line_step(acc, trim(buf@.subrange(start as int, i as int)));
                let r = drain_at(buf@, i + 1, i + 1, l.0);
                assert(events_view(events@) + r.2 =~= eb + (l.1 + r.2));
            }
            start = i + 1;
        }
        i += 1;
    }
    let rest = slice_chars(&buf, start, buf.len());
    assert(rest@ =~= buf@.skip(start as int));
    assert(events_view(events@) =~= goal.2);
    (GeminiStreamState { buffer: string_of(&rest), full_text: string_of(&text), tool_calls: calls }, events)
}

/// The stream has ended (see [`gemini_final`]): the events to send and the
/// reply.
pub fn gemini_stream_finish(state: GeminiStreamState) -> (r: (Vec<StreamEvent>, LlmResponse))
    ensures
        (events_view(r.0@), response_view(r.1)) == gemini_final(state@),
{
    let mut events: Vec<StreamEvent> = Vec::new();
    events.push(StreamEvent::Done);
    assert(events_view(events@) =~= seq![StreamView::Done]);
    let GeminiStreamState { buffer: _, full_text, tool_calls } = state;
    if tool_calls.len() > 0 {
        let content = if chars_of(full_text.as_str()).len() == 0 {
            None
        } else {
            Some(full_text)
        };
        (events, LlmResponse::ToolUse { content, tool_calls })
    } else {
        (events, LlmResponse::Done(full_text))
    }
}

/// A streamed part adds its string `"text"` to the text (with a text
/// event), and its `"functionCall"`, if any, as one more call, numbered
/// after the calls so far, with its `"args"` exactly as given (announced by
/// a start and an end event); nothing else changes.
pub proof fn law_stream_part(acc: StreamAcc, part: JsonView)
    ensures
        ({
            let r = part_step(acc, part);
            let text = match at(part, "text"@) {
                JsonView::Str(t) => acc.0 + t,
                _ => acc.0,
            };
            &&& r.0.0 == text
            &&& match get_member(part, "functionCall"@) {
                Some(fc) => r.0.1 == acc.1.push(asked_call(fc, acc.1.len())) && r.1.len() >= 2
                    && r.1[r.1.len() - 2] == StreamView::ToolCallStart(asked_call(fc, acc.1.len()).0, asked_call(fc, acc.1.len()).1)
                    && r.1.last() == StreamView::ToolCallEnd(asked_call(fc, acc.1.len()).0),
                None => r.0.1 == acc.1,
            }
        }),
{
}

} // verus!
