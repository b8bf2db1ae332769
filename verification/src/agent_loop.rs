//! The decisions of the agentic loop (prompt, model call, tool calls,
//! repeat), as a state machine: each step takes what the outside world
//! answered and says what to do next. Running the breaker, the cache, the
//! model and the tools is left to the caller, which hands back their
//! answers as events.
use vstd::prelude::*;
use crate::text::{chars_of, string_of, push_str, decimal, decimal_chars_u64};
use crate::gemini::{LlmResponse, ToolCall, call_view, response_view};
use crate::structured_output::{copy_text, JsonView};

verus! {

/// Where the loop stands.
#[derive(Debug, Clone, Copy, PartialEq, Eq, Structural)]
pub enum LoopPhase {
    /// Not started.
    Ready,
    /// Waiting for the circuit breaker's answer.
    AwaitBreaker,
    /// Waiting for the response cache's answer.
    AwaitCache,
    /// Waiting for the model's reply.
    AwaitReply,
    /// Waiting for the tool calls to be run.
    AwaitTools,
    /// Done: the result has been given.
    Finished,
}

/// What to record on the provider's circuit breaker before acting.
#[derive(Debug, Clone, Copy, PartialEq, Eq, Structural)]
pub enum BreakerNote {
    /// Nothing.
    Nothing,
    /// A success.
    Success,
    /// A failure.
    Failure,
}

/// The state of one run of the loop.
#[derive(Debug)]
pub struct RunState {
    /// The most turns the loop may take.
    pub max_turns: u32,
    /// The turns begun so far.
    pub turn: u32,
    /// The name of the model's provider.
    pub provider: String,
    /// Where the loop stands.
    pub phase: LoopPhase,
}

/// The view of a run state.
pub struct RunView {
    pub max_turns: nat,
    pub turn: nat,
    pub provider: Seq<char>,
    pub phase: LoopPhase,
}

impl View for RunState {
    type V = RunView;

    open spec fn view(&self) -> RunView {
        RunView {
            max_turns: self.max_turns as nat,
            turn: self.turn as nat,
            provider: self.provider@,
            phase: self.phase,
        }
    }
}

/// What the outside world answered.
#[derive(Debug)]
pub enum LoopEvent {
    /// The run begins.
    Start,
    /// The circuit breaker let the request through, or not.
    Breaker(bool),
    /// The response cache held a reply, or not.
    Cache(Option<String>),
    /// The model replied, or its call failed with this message.
    Reply(Result<LlmResponse, String>),
    /// The tool calls were run and their results added to the context.
    ToolsDone,
}

/// A tool call as plain values.
pub type CallView = (Seq<char>, Seq<char>, JsonView);

/// The view of an event.
pub enum EventView {
    Start,
    Breaker(bool),
    Cache(Option<Seq<char>>),
    Reply(Result<(nat, Option<Seq<char>>, Seq<CallView>), Seq<char>>),
    ToolsDone,
}

/// The view of an event.
pub open spec fn event_view(e: LoopEvent) -> EventView {
    match e {
        LoopEvent::Start => EventView::Start,
        LoopEvent::Breaker(b) => EventView::Breaker(b),
        LoopEvent::Cache(c) => EventView::Cache(
            match c {
                Some(t) => Some(t@),
                None => None,
            },
        ),
        LoopEvent::Reply(r) => EventView::Reply(
            match r {
                Ok(x) => Ok(response_view(x)),
                Err(m) => Err(m@),
            },
        ),
        LoopEvent::ToolsDone => EventView::ToolsDone,
    }
}

/// What to do next.
#[derive(Debug)]
pub enum LoopAction {
    /// Ask the provider's circuit breaker whether a request may go through.
    CheckBreaker,
    /// Look the conversation up in the response cache.
    LookupCache,
    /// Call the model.
    CallLlm,
    /// Run these tool calls, in order, adding each result to the context.
    RunTools(Vec<ToolCall>),
    /// Stop with this result.
    Finish(Result<String, String>),
    /// The event did not fit the phase; nothing to do.
    Wait,
}

/// The view of an action.
pub enum ActionView {
    CheckBreaker,
    LookupCache,
    CallLlm,
    RunTools(Seq<CallView>),
    Finish(Result<Seq<char>, Seq<char>>),
    Wait,
}

/// The view of an action.
pub open spec fn action_view(a: LoopAction) -> ActionView {
    match a {
        LoopAction::CheckBreaker => ActionView::CheckBreaker,
        LoopAction::LookupCache => ActionView::LookupCache,
        LoopAction::CallLlm => ActionView::CallLlm,
        LoopAction::RunTools(v) => ActionView::RunTools(v@.map_values(|c: ToolCall| call_view(c))),
        LoopAction::Finish(r) => ActionView::Finish(
            match r {
                Ok(t) => Ok(t@),
                Err(m) => Err(m@),
            },
        ),
        LoopAction::Wait => ActionView::Wait,
    }
}

/// An event of a streamed reply.
#[derive(Debug)]
pub enum StreamEvent {
    /// A piece of the reply's text.
    TextDelta { text: String },
    /// A tool call begins.
    ToolCallStart { id: String, name: String },
    /// A tool call ends.
    ToolCallEnd { id: String },
    /// The reply is complete.
    Done,
    /// Something went wrong.
    Error { message: String },
}

/// The view of a stream event.
pub enum StreamView {
    TextDelta(Seq<char>),
    ToolCallStart(Seq<char>, Seq<char>),
    ToolCallEnd(Seq<char>),
    Done,
    Error(Seq<char>),
}

/// The view of a stream event.
pub open spec fn stream_view(e: StreamEvent) -> StreamView {
    match e {
        StreamEvent::TextDelta { text } => StreamView::TextDelta(text@),
        StreamEvent::ToolCallStart { id, name } => StreamView::ToolCallStart(id@, name@),
        StreamEvent::ToolCallEnd { id } => StreamView::ToolCallEnd(id@),
        StreamEvent::Done => StreamView::Done,
        StreamEvent::Error { message } => StreamView::Error(message@),
    }
}

/// The views of stream events.
pub open spec fn events_view(v: Seq<StreamEvent>) -> Seq<StreamView> {
    v.map_values(|e: StreamEvent| stream_view(e))
}

/// The error when the loop runs out of turns.
pub open spec fn exceeded_message(max_turns: nat) -> Seq<char> {
    "Agentic loop exceeded maximum of "@ + decimal(max_turns) + " turns"@
}

/// The error when the provider's circuit is open.
pub open spec fn breaker_message(provider: Seq<char>) -> Seq<char> {
    "Circuit breaker open for provider: "@ + provider
}

/// Beginning the next turn: out of turns the loop stops with an error;
/// otherwise the turn is counted and the loop waits in `next`, asking first
/// for `first`.
pub open spec fn begin_turn(st: RunView, next: LoopPhase, first: ActionView, note: BreakerNote) -> (
    RunView,
    BreakerNote,
    ActionView,
) {
    if st.turn >= st.max_turns {
        (RunView { phase: LoopPhase::Finished, ..st }, note, ActionView::Finish(Err(exceeded_message(st.max_turns))))
    } else {
        (RunView { turn: st.turn + 1, phase: next, ..st }, note, first)
    }
}

/// One step of the loop: each turn asks the circuit breaker, then the
/// cache, then the model. An open circuit stops the run; a cached reply
/// ends it (a success for the breaker); a failed call ends it with the
/// call's error (a failure for the breaker); a finished reply ends it with
/// its text; another text starts the next turn; tool calls are run and then
/// the next turn starts. Every reply is a success for the breaker. An event
/// that does not fit the phase changes nothing.
pub open spec fn run_transition(st: RunView, ev: EventView) -> (RunView, BreakerNote, ActionView) {
    let unchanged = (st, BreakerNote::Nothing, ActionView::Wait);
    match st.phase {
        LoopPhase::Ready => match ev {
            EventView::Start => begin_turn(st, LoopPhase::AwaitBreaker, ActionView::CheckBreaker, BreakerNote::Nothing),
            _ => unchanged,
        },
        LoopPhase::AwaitBreaker => match ev {
            EventView::Breaker(true) => (
                RunView { phase: LoopPhase::AwaitCache, ..st },
                BreakerNote::Nothing,
                ActionView::LookupCache,
            ),
            EventView::Breaker(false) => (
                RunView { phase: LoopPhase::Finished, ..st },
                BreakerNote::Nothing,
                ActionView::Finish(Err(breaker_message(st.provider))),
            ),
            _ => unchanged,
        },
        LoopPhase::AwaitCache => match ev {
            EventView::Cache(Some(t)) => (
                RunView { phase: LoopPhase::Finished, ..st },
                BreakerNote::Success,
                ActionView::Finish(Ok(t)),
            ),
            EventView::Cache(None) => (
                RunView { phase: LoopPhase::AwaitReply, ..st },
                BreakerNote::Nothing,
                ActionView::CallLlm,
            ),
            _ => unchanged,
        },
        LoopPhase::AwaitReply => match ev {
            EventView::Reply(Err(e)) => (
                RunView { phase: LoopPhase::Finished, ..st },
                BreakerNote::Failure,
                ActionView::Finish(Err(e)),
            ),
            EventView::Reply(Ok(r)) => if r.0 == 0 {
                (
                    RunView { phase: LoopPhase::Finished, ..st },
                    BreakerNote::Success,
                    ActionView::Finish(Ok(r.1->0)),
                )
            } else if r.0 == 1 {
                begin_turn(st, LoopPhase::AwaitBreaker, ActionView::CheckBreaker, BreakerNote::Success)
            } else {
                (RunView { phase: LoopPhase::AwaitTools, ..st }, BreakerNote::Success, ActionView::RunTools(r.2))
            },
            _ => unchanged,
        },
        LoopPhase::AwaitTools => match ev {
            EventView::ToolsDone => begin_turn(st, LoopPhase::AwaitBreaker, ActionView::CheckBreaker, BreakerNote::Nothing),
            _ => unchanged,
        },
        LoopPhase::Finished => unchanged,
    }
}

/// One step of the streamed loop: like [`run_transition`] without breaker
/// and cache, each turn calls the model at once (its stream is forwarded by
/// the caller). Running out of turns also sends an error event with the
/// same message as the result; a failed call ends the run with its error.
pub open spec fn stream_transition(st: RunView, ev: EventView) -> (RunView, ActionView, Seq<StreamView>) {
    let unchanged = (st, ActionView::Wait, Seq::<StreamView>::empty());
    let next = if st.turn >= st.max_turns {
        (
            RunView { phase: LoopPhase::Finished, ..st },
            ActionView::Finish(Err(exceeded_message(st.max_turns))),
            seq![StreamView::Error(exceeded_message(st.max_turns))],
        )
    } else {
        (RunView { turn: st.turn + 1, phase: LoopPhase::AwaitReply, ..st }, ActionView::CallLlm, Seq::<StreamView>::empty())
    };
    match st.phase {
        LoopPhase::Ready => match ev {
            EventView::Start => next,
            _ => unchanged,
        },
        LoopPhase::AwaitReply => match ev {
            EventView::Reply(Err(e)) => (
                RunView { phase: LoopPhase::Finished, ..st },
                ActionView::Finish(Err(e)),
                Seq::empty(),
            ),
            EventView::Reply(Ok(r)) => if r.0 == 0 {
                (RunView { phase: LoopPhase::Finished, ..st }, ActionView::Finish(Ok(r.1->0)), Seq::empty())
            } else if r.0 == 1 {
                next
            } else {
                (RunView { phase: LoopPhase::AwaitTools, ..st }, ActionView::RunTools(r.2), Seq::empty())
            },
            _ => unchanged,
        },
        LoopPhase::AwaitTools => match ev {
            EventView::ToolsDone => next,
            _ => unchanged,
        },
        _ => unchanged,
    }
}

impl RunState {
    /// A run that has not started, for `provider`, of at most `max_turns` turns.
    pub fn new(provider: &str, max_turns: u32) -> (r: Self)
        ensures
            r@ == (RunView { max_turns: max_turns as nat, turn: 0, provider: provider@, phase: LoopPhase::Ready }),
    {
        RunState { max_turns, turn: 0, provider: string_of(&chars_of(provider)), phase: LoopPhase::Ready }
    }

    /// The same state in another phase.
    fn with_phase(&self, phase: LoopPhase) -> (r: Self)
        ensures
            r@ == (RunView { phase, ..self@ }),
    {
        RunState { max_turns: self.max_turns, turn: self.turn, provider: copy_text(&self.provider), phase }
    }

    /// The same state with one turn more, in another phase.
    fn next_turn(&self, phase: LoopPhase) -> (r: Self)
        requires
            self.turn < self.max_turns,
        ensures
            r@ == (RunView { turn: self@.turn + 1, phase, ..self@ }),
    {
        RunState { max_turns: self.max_turns, turn: self.turn + 1, provider: copy_text(&self.provider), phase }
    }
}

/// The error when the loop runs out of turns (see [`exceeded_message`]).
fn exceeded_text(max_turns: u32) -> (r: String)
    ensures
        r@ == exceeded_message(max_turns as nat),
{
    let mut m = chars_of("Agentic loop exceeded maximum of ");
    let d = decimal_chars_u64(max_turns as u64);
    crate::text::push_chars(&mut m, &d);
    push_str(&mut m, " turns");
    string_of(&m)
}

/// Beginning the next turn (see [`begin_turn`]).
fn begin_turn_exec(st: &RunState, note: BreakerNote) -> (r: (RunState, BreakerNote, LoopAction))
    ensures
        (r.0@, r.1, action_view(r.2)) == begin_turn(st@, LoopPhase::AwaitBreaker, ActionView::CheckBreaker, note),
{
    if st.turn >= st.max_turns {
        (st.with_phase(LoopPhase::Finished), note, LoopAction::Finish(Err(exceeded_text(st.max_turns))))
    } else {
        (st.next_turn(LoopPhase::AwaitBreaker), note, LoopAction::CheckBreaker)
    }
}

/// One step of the agentic loop (see [`run_transition`]).
pub fn run_step(state: &RunState, event: LoopEvent) -> (r: (RunState, BreakerNote, LoopAction))
    ensures
        (r.0@, r.1, action_view(r.2)) == run_transition(state@, event_view(event)),
{
    let ghost ev = event_view(event);
    match (state.phase, event) {
        (LoopPhase::Ready, LoopEvent::Start) => begin_turn_exec(state, BreakerNote::Nothing),
        (LoopPhase::AwaitBreaker, LoopEvent::Breaker(true)) => (
            state.with_phase(LoopPhase::AwaitCache),
            BreakerNote::Nothing,
            LoopAction::LookupCache,
        ),
        (LoopPhase::AwaitBreaker, LoopEvent::Breaker(false)) => {
            let mut m = chars_of("Circuit breaker open for provider: ");
            crate::text::push_chars(&mut m, &chars_of(state.provider.as_str()));
            (state.with_phase(LoopPhase::Finished), BreakerNote::Nothing, LoopAction::Finish(Err(string_of(&m))))
        },
        (LoopPhase::AwaitCache, LoopEvent::Cache(Some(t))) => (
            state.with_phase(LoopPhase::Finished),
            BreakerNote::Success,
            LoopAction::Finish(Ok(t)),
        ),
        (LoopPhase::AwaitCache, LoopEvent::Cache(None)) => (
            state.with_phase(LoopPhase::AwaitReply),
            BreakerNote::Nothing,
            LoopAction::CallLlm,
        ),
        (LoopPhase::AwaitReply, LoopEvent::Reply(Err(e))) => (
            state.with_phase(LoopPhase::Finished),
            BreakerNote::Failure,
            LoopAction::Finish(Err(e)),
        ),
        (LoopPhase::AwaitReply, LoopEvent::Reply(Ok(LlmResponse::Done(t)))) => (
            state.with_phase(LoopPhase::Finished),
            BreakerNote::Success,
            LoopAction::Finish(Ok(t)),
        ),
        (LoopPhase::AwaitReply, LoopEvent::Reply(Ok(LlmResponse::Text(_)))) => begin_turn_exec(state, BreakerNote::Success),
        (LoopPhase::AwaitReply, LoopEvent::Reply(Ok(LlmResponse::ToolUse { content: _, tool_calls }))) => (
            state.with_phase(LoopPhase::AwaitTools),
            BreakerNote::Success,
            LoopAction::RunTools(tool_calls),
        ),
        (LoopPhase::AwaitTools, LoopEvent::ToolsDone) => begin_turn_exec(state, BreakerNote::Nothing),
        _ => (state.with_phase(state.phase), BreakerNote::Nothing, LoopAction::Wait),
    }
}

/// Beginning the next turn of the streamed loop (see [`stream_transition`]).
fn stream_turn_exec(st: &RunState) -> (r: (RunState, LoopAction, Vec<StreamEvent>))
    ensures
        st@.turn >= st@.max_turns ==> (r.0@, action_view(r.1), events_view(r.2@)) == (
            RunView { phase: LoopPhase::Finished, ..st@ },
            ActionView::Finish(Err(exceeded_message(st@.max_turns))),
            seq![StreamView::Error(exceeded_message(st@.max_turns))],
        ),
        st@.turn < st@.max_turns ==> (r.0@, action_view(r.1), events_view(r.2@)) == (
            RunView { turn: st@.turn + 1, phase: LoopPhase::AwaitReply, ..st@ },
            ActionView::CallLlm,
            Seq::<StreamView>::empty(),
        ),
{
    let mut events: Vec<StreamEvent> = Vec::new();
    if st.turn >= st.max_turns {
        let m = exceeded_text(st.max_turns);
        let m2 = copy_text(&m);
        events.push(StreamEvent::Error { message: m2 });
        assert(events_view(events@) =~= seq![StreamView::Error(exceeded_message(st@.max_turns))]);
        (st.with_phase(LoopPhase::Finished), LoopAction::Finish(Err(m)), events)
    } else {
        assert(events_view(events@) =~= Seq::<StreamView>::empty());
        (st.next_turn(LoopPhase::AwaitReply), LoopAction::CallLlm, events)
    }
}

/// One step of the streamed agentic loop (see [`stream_transition`]): the
/// next state, what to do, and the events to send.
pub fn stream_step(state: &RunState, event: LoopEvent) -> (r: (RunState, LoopAction, Vec<StreamEvent>))
    ensures
        (r.0@, action_view(r.1), events_view(r.2@)) == stream_transition(state@, event_view(event)),
{
    let none: Vec<StreamEvent> = Vec::new();
    assert(events_view(none@) =~= Seq::<StreamView>::empty());
    match (state.phase, event) {
        (LoopPhase::Ready, LoopEvent::Start) => stream_turn_exec(state),
        (LoopPhase::AwaitReply, LoopEvent::Reply(Err(e))) => (
            state.with_phase(LoopPhase::Finished),
            LoopAction::Finish(Err(e)),
            none,
        ),
        (LoopPhase::AwaitReply, LoopEvent::Reply(Ok(LlmResponse::Done(t)))) => (
            state.with_phase(LoopPhase::Finished),
            LoopAction::Finish(Ok(t)),
            none,
        ),
        (LoopPhase::AwaitReply, LoopEvent::Reply(Ok(LlmResponse::Text(_)))) => stream_turn_exec(state),
        (LoopPhase::AwaitReply, LoopEvent::Reply(Ok(LlmResponse::ToolUse { content: _, tool_calls }))) => (
            state.with_phase(LoopPhase::AwaitTools),
            LoopAction::RunTools(tool_calls),
            none,
        ),
        (LoopPhase::AwaitTools, LoopEvent::ToolsDone) => stream_turn_exec(state),
        _ => (state.with_phase(state.phase), LoopAction::Wait, none),
    }
}

// ---------------------------------------------------------------------------
// Laws
// ---------------------------------------------------------------------------

/// Whether an action calls the model.
pub open spec fn calls_model(a: ActionView) -> nat {
    match a {
        ActionView::CallLlm => 1,
        _ => 0,
    }
}

/// The state after a sequence of events, and how many model calls the
/// steps asked for.
pub open spec fn run_events(st: RunView, evs: Seq<EventView>) -> (RunView, nat)
    decreases evs.len(),
{
    if evs.len() == 0 {
        (st, 0)
    } else {
        let step = run_transition(st, evs[0]);
        let rest = run_events(step.0, evs.drop_first());
        (rest.0, rest.1 + calls_model(step.2))
    }
}

/// The same for the streamed loop.
pub open spec fn stream_events(st: RunView, evs: Seq<EventView>) -> (RunView, nat)
    decreases evs.len(),
{
    if evs.len() == 0 {
        (st, 0)
    } else {
        let step = stream_transition(st, evs[0]);
        let rest = stream_events(step.0, evs.drop_first());
        (rest.0, rest.1 + calls_model(step.1))
    }
}

/// The turns whose model call has been made or skipped: a turn still
/// waiting for the breaker or the cache has not used its call yet.
pub open spec fn used_turns(st: RunView) -> int {
    if st.phase == LoopPhase::AwaitBreaker || st.phase == LoopPhase::AwaitCache {
        st.turn - 1
    } else {
        st.turn as int
    }
}

/// A reachable state: no more turns than allowed, and a turn begun when
/// waiting for the breaker or the cache.
pub open spec fn run_wf(st: RunView) -> bool {
    &&& st.turn <= st.max_turns
    &&& (st.phase == LoopPhase::AwaitBreaker || st.phase == LoopPhase::AwaitCache) ==> st.turn >= 1
}

proof fn lemma_run_step_budget(st: RunView, ev: EventView)
    requires
        run_wf(st),
    ensures
        run_wf(run_transition(st, ev).0),
        run_transition(st, ev).0.max_turns == st.max_turns,
        used_turns(run_transition(st, ev).0) >= used_turns(st) + calls_model(run_transition(st, ev).2),
{
}

/// The agentic loop calls the model at most `max_turns` times: from a
/// reachable state, whatever the events, the model calls asked for and the
/// turns already used together stay within the limit (from a fresh run,
/// at most `max_turns` calls).
pub proof fn law_model_calls_bounded(st: RunView, evs: Seq<EventView>)
    requires
        run_wf(st),
    ensures
        run_events(st, evs).1 + used_turns(st) <= st.max_turns,
    decreases evs.len(),
{
    if evs.len() > 0 {
        lemma_run_step_budget(st, evs[0]);
        law_model_calls_bounded(run_transition(st, evs[0]).0, evs.drop_first());
    }
}

/// The streamed loop calls the model at most `max_turns` times: the calls
/// asked for and the turns already begun stay within the limit.
pub proof fn law_stream_calls_bounded(st: RunView, evs: Seq<EventView>)
    requires
        st.turn <= st.max_turns,
    ensures
        stream_events(st, evs).1 + st.turn <= st.max_turns,
    decreases evs.len(),
{
    if evs.len() > 0 {
        let step = stream_transition(st, evs[0]);
        assert(step.0.turn <= step.0.max_turns && step.0.max_turns == st.max_turns);
        assert(step.0.turn == st.turn + calls_model(step.1));
        law_stream_calls_bounded(step.0, evs.drop_first());
    }
}

/// How a run ends: a finished reply gives its text (a success for the
/// breaker); an open circuit stops with its error before any model call; a
/// failed call stops with the call's error (a failure for the breaker);
/// running out of turns stops with the turn-limit error.
pub proof fn law_loop_outcomes(st: RunView, t: Seq<char>, e: Seq<char>, calls: Seq<CallView>, kind: nat, text: Option<Seq<char>>)
    ensures
        st.phase == LoopPhase::AwaitReply ==> run_transition(st, EventView::Reply(Ok((0, Some(t), calls)))) == (
            RunView { phase: LoopPhase::Finished, ..st },
            BreakerNote::Success,
            ActionView::Finish(Ok(t)),
        ),
        st.phase == LoopPhase::AwaitBreaker ==> run_transition(st, EventView::Breaker(false)) == (
            RunView { phase: LoopPhase::Finished, ..st },
            BreakerNote::Nothing,
            ActionView::Finish(Err(breaker_message(st.provider))),
        ),
        st.phase == LoopPhase::AwaitReply ==> run_transition(st, EventView::Reply(Err(e))) == (
            RunView { phase: LoopPhase::Finished, ..st },
            BreakerNote::Failure,
            ActionView::Finish(Err(e)),
        ),
        st.turn >= st.max_turns && (st.phase == LoopPhase::Ready || st.phase == LoopPhase::AwaitTools) ==> run_transition(
            st,
            if st.phase == LoopPhase::Ready { EventView::Start } else { EventView::ToolsDone },
        ).2 == ActionView::Finish(Err(exceeded_message(st.max_turns))),
        st.turn >= st.max_turns && st.phase == LoopPhase::AwaitReply ==> run_transition(
            st,
            EventView::Reply(Ok((1, text, calls))),
        ).2 == ActionView::Finish(Err(exceeded_message(st.max_turns))),
{
}

/// When the streamed loop runs out of turns, the last event it sends is an
/// error whose message is that of the run's error result.
pub proof fn law_stream_out_of_turns(st: RunView, ev: EventView)
    requires
        st.turn >= st.max_turns,
        (st.phase == LoopPhase::Ready && ev == EventView::Start) || (st.phase == LoopPhase::AwaitTools && ev
            == EventView::ToolsDone) || (st.phase == LoopPhase::AwaitReply && (ev matches EventView::Reply(Ok(r))
            && r.0 == 1)),
    ensures
        stream_transition(st, ev).1 == ActionView::Finish(Err(exceeded_message(st.max_turns))),
        stream_transition(st, ev).2.len() > 0,
        stream_transition(st, ev).2.last() == StreamView::Error(exceeded_message(st.max_turns)),
{
}

} // verus!
