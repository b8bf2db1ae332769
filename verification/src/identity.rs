//! Agent identity: the personality that becomes the system prompt, and the
//! slash commands a user can type into a session.
use vstd::prelude::*;
use crate::text::{
    chars_of, string_of, push_str, push_chars, eq_str, join, trim, trim_chars, first_occurrence,
    find_from, slice_chars, spec_to_lowercase, to_lowercase, occurs_at, decimal, decimal_chars,
};
use crate::diff_lines::{lines_view, join_with, lemma_lines_view_push};

verus! {

/// Thinking level for chain-of-thought reasoning.
#[derive(Debug, Clone, Copy, PartialEq, Eq, Structural)]
pub enum ThinkingLevel {
    /// No explicit thinking — respond directly.
    Off,
    /// Brief internal check before responding.
    Low,
    /// Step-by-step reasoning shown concisely.
    Medium,
    /// Deep, thorough reasoning with multiple approaches explored.
    High,
}

impl Default for ThinkingLevel {
    fn default() -> (r: Self)
        ensures
            r == ThinkingLevel::Off,
    {
        ThinkingLevel::Off
    }
}

/// Communication style preferences.
#[derive(Debug, Clone)]
pub struct CommunicationStyle {
    /// Tone descriptor (e.g., "professional", "casual", "technical").
    pub tone: String,
    /// Preferred response language. `None` = auto-detect.
    pub language: Option<String>,
    /// Whether to use markdown formatting.
    pub use_markdown: bool,
    /// Maximum response length hint (soft limit).
    pub max_response_length: Option<usize>,
}

impl Default for CommunicationStyle {
    fn default() -> (r: Self)
        ensures
            r.tone@ == "professional and concise"@,
            r.language is None,
            r.use_markdown,
            r.max_response_length is None,
    {
        CommunicationStyle {
            tone: string_of(&chars_of("professional and concise")),
            language: None,
            use_markdown: true,
            max_response_length: None,
        }
    }
}

/// Agent personality: identity, communication style and behavioral
/// constraints.
#[derive(Debug, Clone)]
pub struct AgentPersonality {
    /// Display name for the agent.
    pub name: String,
    /// Short tagline or role description.
    pub role: String,
    /// Detailed personality/behavior instructions injected as system prompt.
    pub instructions: String,
    /// Communication style preferences.
    pub style: CommunicationStyle,
    /// Hard constraints the agent must never violate.
    pub constraints: Vec<String>,
    /// Knowledge domains the agent specializes in.
    pub expertise: Vec<String>,
    /// Thinking level for chain-of-thought reasoning.
    pub thinking_level: ThinkingLevel,
}

/// The texts of a list of strings.
pub open spec fn strings_view(v: Seq<String>) -> Seq<Seq<char>> {
    v.map_values(|s: String| s@)
}

/// The instruction that a thinking level adds, if any.
pub open spec fn thinking_part(t: ThinkingLevel) -> Seq<Seq<char>> {
    match t {
        ThinkingLevel::Off => Seq::empty(),
        ThinkingLevel::Low => seq!["Think briefly before responding."@],
        ThinkingLevel::Medium => seq!["Think step-by-step before responding. Show your reasoning concisely."@],
        ThinkingLevel::High => seq![
            "Think deeply and methodically before responding. Explore multiple approaches, consider edge cases, and show your full reasoning process."@,
        ],
    }
}

/// The paragraphs of the system prompt: who the agent is, its
/// instructions, its tone and language when set, its constraints and
/// expertise when any, and what its thinking level asks.
pub open spec fn prompt_parts(p: AgentPersonality) -> Seq<Seq<char>> {
    seq!["You are "@ + p.name@ + ", "@ + p.role@ + "."@, p.instructions@] + (if p.style.tone@.len() > 0 {
        seq!["Communication style: "@ + p.style.tone@ + "."@]
    } else {
        Seq::empty()
    }) + (match p.style.language {
        Some(l) => seq!["Respond in "@ + l@ + "."@],
        None => Seq::empty(),
    }) + (if p.constraints@.len() > 0 {
        seq!["CONSTRAINTS (never violate these):"@] + strings_view(p.constraints@).map_values(
            |c: Seq<char>| "- "@ + c,
        )
    } else {
        Seq::empty()
    }) + (if p.expertise@.len() > 0 {
        seq!["Your areas of expertise: "@ + join(strings_view(p.expertise@), ", "@) + "."@]
    } else {
        Seq::empty()
    }) + thinking_part(p.thinking_level)
}

/// The system prompt: the paragraphs separated by blank lines.
pub open spec fn system_prompt(p: AgentPersonality) -> Seq<char> {
    join(prompt_parts(p), "\n\n"@)
}

/// Owned strings for a list of texts.
fn strings_of(v: &Vec<String>) -> (r: Vec<Vec<char>>)
    ensures
        lines_view(r@) == strings_view(v@),
{
    let mut out: Vec<Vec<char>> = Vec::new();
    let mut i: usize = 0;
    while i < v.len()
        invariant
            i <= v@.len(),
            lines_view(out@) == strings_view(v@).take(i as int),
        decreases v.len() - i,
    {
        let ghost before = out@;
        let c = chars_of(v[i].as_str());
        out.push(c);
        proof {
            lemma_lines_view_push(before, c);
        }
        i = i + 1;
        assert(lines_view(out@) =~= strings_view(v@).take(i as int));
    }
    assert(strings_view(v@).take(i as int) =~= strings_view(v@));
    out
}

impl AgentPersonality {
    /// Build the system prompt from this personality (see [`system_prompt`]).
    pub fn to_system_prompt(&self) -> (r: String)
        ensures
            r@ == system_prompt(*self),
    {
        let mut parts: Vec<Vec<char>> = Vec::new();
        let mut first = chars_of("You are ");
        push_str(&mut first, self.name.as_str());
        push_str(&mut first, ", ");
        push_str(&mut first, self.role.as_str());
        push_str(&mut first, ".");
        parts.push(first);
        parts.push(chars_of(self.instructions.as_str()));
        let ghost p0 = lines_view(parts@);
        assert(p0 =~= seq!["You are "@ + self.name@ + ", "@ + self.role@ + "."@, self.instructions@]);
        if !self.style.tone.as_str().is_empty() {
            let mut t = chars_of("Communication style: ");
            push_str(&mut t, self.style.tone.as_str());
            push_str(&mut t, ".");
            parts.push(t);
        }
        let ghost p1 = lines_view(parts@);
        assert(p1 =~= p0 + (if self.style.tone@.len() > 0 {
            seq!["Communication style: "@ + self.style.tone@ + "."@]
        } else {
            Seq::<Seq<char>>::empty()
        }));
        match &self.style.language {
            Some(l) => {
                let mut t = chars_of("Respond in ");
                push_str(&mut t, l.as_str());
                push_str(&mut t, ".");
                parts.push(t);
            },
            None => {},
        }
        let ghost p2 = lines_view(parts@);
        assert(p2 =~= p1 + (match self.style.language {
            Some(l) => seq!["Respond in "@ + l@ + "."@],
            None => Seq::<Seq<char>>::empty(),
        }));
        if self.constraints.len() > 0 {
            parts.push(chars_of("CONSTRAINTS (never violate these):"));
            let ghost base = lines_view(parts@);
            let mut i: usize = 0;
            while i < self.constraints.len()
                invariant
                    i <= self.constraints@.len(),
                    lines_view(parts@) == base + strings_view(self.constraints@).map_values(
                        |c: Seq<char>| "- "@ + c,
                    ).take(i as int),
                decreases self.constraints.len() - i,
            {
                let mut t = chars_of("- ");
                push_str(&mut t, self.constraints[i].as_str());
                let ghost before = parts@;
                parts.push(t);
                proof {
                    lemma_lines_view_push(before, t);
                }
                i = i + 1;
                assert(lines_view(parts@) =~= base + strings_view(self.constraints@).map_values(
                    |c: Seq<char>| "- "@ + c,
                ).take(i as int));
            }
            assert(strings_view(self.constraints@).map_values(|c: Seq<char>| "- "@ + c).take(i as int)
                =~= strings_view(self.constraints@).map_values(|c: Seq<char>| "- "@ + c));
        }
        let ghost p3 = lines_view(parts@);
        assert(p3 =~= p2 + (if self.constraints@.len() > 0 {
            seq!["CONSTRAINTS (never violate these):"@] + strings_view(self.constraints@).map_values(
                |c: Seq<char>| "- "@ + c,
            )
        } else {
            Seq::<Seq<char>>::empty()
        }));
        if self.expertise.len() > 0 {
            let ex = strings_of(&self.expertise);
            let mut t = chars_of("Your areas of expertise: ");
            push_chars(&mut t, &join_with(&ex, &chars_of(", ")));
            push_str(&mut t, ".");
            parts.push(t);
        }
        let ghost p4 = lines_view(parts@);
        assert(p4 =~= p3 + (if self.expertise@.len() > 0 {
            seq!["Your areas of expertise: "@ + join(strings_view(self.expertise@), ", "@) + "."@]
        } else {
            Seq::<Seq<char>>::empty()
        }));
        match self.thinking_level {
            ThinkingLevel::Off => {},
            ThinkingLevel::Low => {
                parts.push(chars_of("Think briefly before responding."));
            },
            ThinkingLevel::Medium => {
                parts.push(chars_of("Think step-by-step before responding. Show your reasoning concisely."));
            },
            ThinkingLevel::High => {
                parts.push(
                    chars_of(
                        "Think deeply and methodically before responding. Explore multiple approaches, consider edge cases, and show your full reasoning process.",
                    ),
                );
            },
        }
        assert(lines_view(parts@) =~= prompt_parts(*self));
        string_of(&join_with(&parts, &chars_of("\n\n")))
    }
}

impl Default for AgentPersonality {
    fn default() -> (r: Self)
        ensures
            r.name@ == "Argentor"@,
            r.role@ == "a secure AI assistant"@,
            r.instructions@
                == "Help users accomplish tasks using the available tools. Each tool runs in a sandboxed environment with specific permissions. Always explain what you're doing before using a tool."@,
            r.style.tone@ == "professional and concise"@,
            r.style.language is None,
            r.style.use_markdown,
            r.style.max_response_length is None,
            strings_view(r.constraints@) == seq![
                "Never execute destructive operations without explicit user confirmation"@,
                "Never expose API keys, passwords, or sensitive credentials"@,
            ],
            r.expertise@.len() == 0,
            r.thinking_level == ThinkingLevel::Off,
    {
        let mut constraints: Vec<String> = Vec::new();
        constraints.push(string_of(&chars_of("Never execute destructive operations without explicit user confirmation")));
        constraints.push(string_of(&chars_of("Never expose API keys, passwords, or sensitive credentials")));
        let r = AgentPersonality {
            name: string_of(&chars_of("Argentor")),
            role: string_of(&chars_of("a secure AI assistant")),
            instructions: string_of(
                &chars_of(
                    "Help users accomplish tasks using the available tools. Each tool runs in a sandboxed environment with specific permissions. Always explain what you're doing before using a tool.",
                ),
            ),
            style: CommunicationStyle::default(),
            constraints,
            expertise: Vec::new(),
            thinking_level: ThinkingLevel::Off,
        };
        assert(strings_view(r.constraints@) =~= seq![
            "Never execute destructive operations without explicit user confirmation"@,
            "Never expose API keys, passwords, or sensitive credentials"@,
        ]);
        r
    }
}

/// Session command parsed from user input (e.g., "/status", "/compact").
#[derive(Debug, Clone, PartialEq, Eq, Structural)]
pub enum SessionCommand {
    /// Show current session status (messages, turns, active skills).
    Status,
    /// Start a new session, clearing history.
    New,
    /// Reset the current session (keep config, clear messages).
    Reset,
    /// Compact the context window (summarize old messages).
    Compact,
    /// Set thinking level.
    Think(ThinkingLevel),
    /// Show token/cost usage estimate.
    Usage,
    /// List available skills.
    Skills,
    /// Show audit log for current session.
    Audit,
    /// Show help for available commands.
    Help,
    /// Not a command — regular user message.
    NotACommand,
}

/// The thinking level an argument of `/think` names; a missing or unknown
/// argument means `Off`.
pub open spec fn level_for(arg: Option<Seq<char>>) -> ThinkingLevel {
    match arg {
        None => ThinkingLevel::Off,
        Some(a) => if a == "low"@ || a == "1"@ {
            ThinkingLevel::Low
        } else if a == "medium"@ || a == "med"@ || a == "2"@ {
            ThinkingLevel::Medium
        } else if a == "high"@ || a == "3"@ {
            ThinkingLevel::High
        } else {
            ThinkingLevel::Off
        },
    }
}

/// The command a lower-cased command word and argument name.
pub open spec fn command_for(cmd: Seq<char>, arg: Option<Seq<char>>) -> SessionCommand {
    if cmd == "/status"@ {
        SessionCommand::Status
    } else if cmd == "/new"@ {
        SessionCommand::New
    } else if cmd == "/reset"@ {
        SessionCommand::Reset
    } else if cmd == "/compact"@ {
        SessionCommand::Compact
    } else if cmd == "/think"@ {
        SessionCommand::Think(level_for(arg))
    } else if cmd == "/usage"@ {
        SessionCommand::Usage
    } else if cmd == "/skills"@ {
        SessionCommand::Skills
    } else if cmd == "/audit"@ {
        SessionCommand::Audit
    } else if cmd == "/help"@ {
        SessionCommand::Help
    } else {
        SessionCommand::NotACommand
    }
}

/// The text before the first space (all of it when there is none).
pub open spec fn head_word(t: Seq<char>) -> Seq<char> {
    match first_occurrence(t, seq![' '], 0) {
        Some(p) => t.take(p),
        None => t,
    }
}

/// The text after the first space, if there is one.
pub open spec fn tail_text(t: Seq<char>) -> Option<Seq<char>> {
    match first_occurrence(t, seq![' '], 0) {
        Some(p) => Some(t.skip(p + 1)),
        None => None,
    }
}

/// Parsing user input: after trimming, input that does not start with `/`
/// is no command; otherwise the word before the first space, lower-cased,
/// names the command, and the rest, trimmed and lower-cased, is its
/// argument.
pub open spec fn parse_command(input: Seq<char>) -> SessionCommand {
    let t = trim(input);
    if t.len() == 0 || t[0] != '/' {
        SessionCommand::NotACommand
    } else {
        command_for(
            spec_to_lowercase(head_word(t)),
            match tail_text(t) {
                Some(r) => Some(spec_to_lowercase(trim(r))),
                None => None,
            },
        )
    }
}

/// The help text listing all available commands.
pub open spec fn help_spec() -> Seq<char> {
    "/status   — Show session status (messages, turns, skills)\n/new      — Start a new session\n/reset    — Reset current session (keep config)\n/compact  — Summarize old messages to save context\n/think    — Set thinking level: off, low, medium, high\n/usage    — Show estimated token usage\n/skills   — List available skills\n/audit    — Show audit log for this session\n/help     — Show this help message"@
}

impl SessionCommand {
    /// The command for a lower-cased command word and argument (see
    /// [`command_for`]).
    pub fn from_words(cmd: &str, arg: Option<&str>) -> (r: Self)
        ensures
            r == command_for(
                cmd@,
                match arg {
                    Some(a) => Some(a@),
                    None => None,
                },
            ),
    {
        let c = chars_of(cmd);
        if eq_str(&c, "/status") {
            SessionCommand::Status
        } else if eq_str(&c, "/new") {
            SessionCommand::New
        } else if eq_str(&c, "/reset") {
            SessionCommand::Reset
        } else if eq_str(&c, "/compact") {
            SessionCommand::Compact
        } else if eq_str(&c, "/think") {
            let level = match arg {
                None => ThinkingLevel::Off,
                Some(a) => {
                    let ac = chars_of(a);
                    if eq_str(&ac, "low") || eq_str(&ac, "1") {
                        ThinkingLevel::Low
                    } else if eq_str(&ac, "medium") || eq_str(&ac, "med") || eq_str(&ac, "2") {
                        ThinkingLevel::Medium
                    } else if eq_str(&ac, "high") || eq_str(&ac, "3") {
                        ThinkingLevel::High
                    } else {
                        ThinkingLevel::Off
                    }
                },
            };
            SessionCommand::Think(level)
        } else if eq_str(&c, "/usage") {
            SessionCommand::Usage
        } else if eq_str(&c, "/skills") {
            SessionCommand::Skills
        } else if eq_str(&c, "/audit") {
            SessionCommand::Audit
        } else if eq_str(&c, "/help") {
            SessionCommand::Help
        } else {
            SessionCommand::NotACommand
        }
    }

    /// Parse a user input string into a session command (see
    /// [`parse_command`]).
    pub fn parse(input: &str) -> (r: Self)
        ensures
            r == parse_command(input@),
    {
        let t = trim_chars(&chars_of(input));
        if t.len() == 0 || t[0] != '/' {
            return SessionCommand::NotACommand;
        }
        let space = vec![' '];
        assert(space@ =~= seq![' ']);
        let (head, tail) = match find_from(&t, &space, 0) {
            Some(p) => {
                assert(occurs_at(t@, space@, p as int));
                let n = t.len();
                let h = slice_chars(&t, 0, p);
                let r = slice_chars(&t, p + 1, n);
                assert(h@ =~= t@.take(p as int));
                assert(r@ =~= t@.skip(p + 1));
                (h, Some(r))
            },
            None => (t, None),
        };
        let cmd = string_of(&to_lowercase(&head));
        match tail {
            Some(r) => {
                let a = string_of(&to_lowercase(&trim_chars(&r)));
                Self::from_words(cmd.as_str(), Some(a.as_str()))
            },
            None => Self::from_words(cmd.as_str(), None),
        }
    }

    /// Help text listing all available commands.
    pub fn help_text() -> (r: &'static str)
        ensures
            r@ == help_spec(),
    {
        "/status   — Show session status (messages, turns, skills)\n/new      — Start a new session\n/reset    — Reset current session (keep config)\n/compact  — Summarize old messages to save context\n/think    — Set thinking level: off, low, medium, high\n/usage    — Show estimated token usage\n/skills   — List available skills\n/audit    — Show audit log for this session\n/help     — Show this help message"
    }
}


// ---------------------------------------------------------------------------
// Context compaction
// ---------------------------------------------------------------------------

/// Splits messages for compaction: all but the `keep_recent` most recent
/// are to be summarized, the rest kept; with no more than `keep_recent`
/// messages, nothing is summarized. Each message is a clone.
pub fn split_for_compaction<T: Clone>(keep_recent: usize, messages: &[T]) -> (r: (Vec<T>, Vec<T>))
    ensures
        ({
            let split = if messages@.len() <= keep_recent {
                0
            } else {
                messages@.len() - keep_recent
            };
            &&& r.0@.len() == split
            &&& r.1@.len() == messages@.len() - split
            &&& forall|i: int| 0 <= i < split ==> cloned(messages@[i], #[trigger] r.0@[i])
            &&& forall|i: int| 0 <= i < r.1@.len() ==> cloned(messages@[split + i], #[trigger] r.1@[i])
        }),
{
    let split: usize = if messages.len() <= keep_recent {
        0
    } else {
        messages.len() - keep_recent
    };
    let mut head: Vec<T> = Vec::new();
    let mut i: usize = 0;
    while i < split
        invariant
            split <= messages.len(),
            i <= split,
            head@.len() == i,
            forall|j: int| 0 <= j < i ==> cloned(messages@[j], #[trigger] head@[j]),
        decreases split - i,
    {
        head.push(messages[i].clone());
        i += 1;
    }
    let mut tail: Vec<T> = Vec::new();
    let mut k: usize = split;
    while k < messages.len()
        invariant
            split <= k <= messages.len(),
            tail@.len() == k - split,
            forall|j: int| 0 <= j < k - split ==> cloned(messages@[split + j], #[trigger] tail@[j]),
        decreases messages.len() - k,
    {
        tail.push(messages[k].clone());
        k += 1;
    }
    (head, tail)
}

/// The request to summarize messages: an instruction, then one line
/// `[Message n]: text` per message, numbered from one.
pub open spec fn summary_prompt(texts: Seq<Seq<char>>) -> Seq<char>
    decreases texts.len(),
{
    if texts.len() == 0 {
        "Summarize the following conversation history into a concise summary. Preserve key decisions, important context, and any pending tasks. Be thorough but concise:\n\n"@
    } else {
        summary_prompt(texts.drop_last()) + "[Message "@ + decimal(texts.len()) + "]: "@ + texts.last() + "\n"@
    }
}

/// The request to summarize messages (see [`summary_prompt`]).
pub fn build_summary_prompt(message_texts: &[String]) -> (r: String)
    ensures
        r@ == summary_prompt(message_texts@.map_values(|t: String| t@)),
{
    let ghost tv = message_texts@.map_values(|t: String| t@);
    let mut v: Vec<char> = Vec::new();
    push_str(
        &mut v,
        "Summarize the following conversation history into a concise summary. Preserve key decisions, important context, and any pending tasks. Be thorough but concise:\n\n",
    );
    let mut i: usize = 0;
    assert(tv.take(0) =~= Seq::<Seq<char>>::empty());
    while i < message_texts.len()
        invariant
            tv == message_texts@.map_values(|t: String| t@),
            i <= message_texts.len(),
            v@ == summary_prompt(tv.take(i as int)),
        decreases message_texts.len() - i,
    {
        assert(tv.take(i + 1).drop_last() =~= tv.take(i as int));
        assert(tv.take(i + 1).last() == message_texts@[i as int]@);
        push_str(&mut v, "[Message ");
        push_chars(&mut v, &decimal_chars(i + 1));
        push_str(&mut v, "]: ");
        push_str(&mut v, message_texts[i].as_str());
        push_str(&mut v, "\n");
        i += 1;
    }
    assert(tv.take(message_texts.len() as int) =~= tv);
    string_of(&v)
}

} // verus!
