//! Cost-aware model routing: the strategies and tiers it works with, and
//! how complex a task looks from its text, its tools and its history.
use vstd::prelude::*;
use crate::text::{chars_of, contains, contains_str, spec_to_lowercase, to_lowercase};

verus! {

/// How the optimizer chooses among models.
#[derive(Debug, Clone, Copy, PartialEq, Eq, Structural)]
pub enum OptimizationStrategy {
    /// Always the cheapest model that meets the quality threshold.
    CostMinimize,
    /// Always the highest-quality model.
    QualityMaximize,
    /// Trade cost against quality.
    Balanced,
    /// Pick a tier from the task's complexity.
    TieredByComplexity,
    /// Spread the budget evenly over a period.
    BudgetPacing {
        /// Length of the budgeting period, in hours.
        period_hours: u32,
    },
}

/// The capability tier of a model.
#[derive(Debug, Clone, Copy, PartialEq, Eq, Hash, Structural)]
pub enum CostModelTier {
    /// Fast and cheap.
    Fast,
    /// Middle ground.
    Balanced,
    /// Most capable.
    Powerful,
}

/// How complex a task looks.
#[derive(Debug, Clone, Copy, PartialEq, Eq, Hash, Structural)]
pub enum TaskComplexity {
    /// A simple question or command.
    Simple,
    /// Some analysis or tool use.
    Moderate,
    /// Multi-step reasoning, many tools or heavy analysis.
    Complex,
    /// Critical or urgent work.
    Critical,
}

/// The number of bytes of a character in UTF-8 (`char::len_utf8`).
pub open spec fn utf8_width(c: char) -> nat {
    if (c as u32) < 0x80 {
        1
    } else if (c as u32) < 0x800 {
        2
    } else if (c as u32) < 0x10000 {
        3
    } else {
        4
    }
}

/// The number of bytes of a text in UTF-8 (`str::len`).
pub open spec fn utf8_len(s: Seq<char>) -> nat
    decreases s.len(),
{
    if s.len() == 0 {
        0
    } else {
        utf8_len(s.drop_last()) + utf8_width(s.last())
    }
}

/// A lower-cased text names critical work.
pub open spec fn critical_text(l: Seq<char>) -> bool {
    contains(l, "critical"@) || contains(l, "urgent"@) || contains(l, "production"@) || contains(
        l,
        "security audit"@,
    ) || contains(l, "emergency"@) || contains(l, "incident"@) || contains(l, "outage"@)
}

/// A lower-cased text describes several steps.
pub open spec fn multistep_text(l: Seq<char>) -> bool {
    contains(l, "first"@) || contains(l, "then"@) || contains(l, "finally"@) || contains(l, "step 1"@)
        || contains(l, "step 2"@) || contains(l, "multi-step"@) || contains(l, "afterward"@) || contains(
        l,
        "subsequently"@,
    )
}

/// One when the text contains the word, else zero.
pub open spec fn hit(l: Seq<char>, w: Seq<char>) -> nat {
    if contains(l, w) {
        1
    } else {
        0
    }
}

/// How many analysis words a lower-cased text contains.
pub open spec fn analysis_words(l: Seq<char>) -> nat {
    hit(l, "analyze"@) + hit(l, "compare"@) + hit(l, "design"@) + hit(l, "optimize"@) + hit(l, "refactor"@)
        + hit(l, "architecture"@) + hit(l, "algorithm"@) + hit(l, "evaluate"@) + hit(l, "synthesize"@)
}

/// The complexity of a task: critical by its words; complex when long
/// (over 500 bytes), multi-step, with more than three tools, more than ten
/// turns of history or two analysis words; moderate from 100 bytes, one
/// tool, one analysis word or three turns; else simple.
pub open spec fn complexity_of(input: Seq<char>, tool_count: nat, history_turns: nat) -> TaskComplexity {
    let l = spec_to_lowercase(input);
    let len = utf8_len(input);
    let k = analysis_words(l);
    if critical_text(l) {
        TaskComplexity::Critical
    } else if len > 500 || multistep_text(l) || tool_count > 3 || history_turns > 10 || k >= 2 {
        TaskComplexity::Complex
    } else if len >= 100 || tool_count >= 1 || k >= 1 || history_turns >= 3 {
        TaskComplexity::Moderate
    } else {
        TaskComplexity::Simple
    }
}

/// The UTF-8 length of a text (see [`utf8_len`]).
fn utf8_len_exec(s: &[char]) -> (r: usize)
    requires
        s.len() <= usize::MAX / 4,
    ensures
        r == utf8_len(s@),
{
    let mut n: usize = 0;
    let mut i: usize = 0;
    while i < s.len()
        invariant
            i <= s.len(),
            s.len() <= usize::MAX / 4,
            n == utf8_len(s@.take(i as int)),
            n <= 4 * i,
        decreases s.len() - i,
    {
        assert(s@.take(i + 1).drop_last() =~= s@.take(i as int));
        let c = s[i] as u32;
        let w: usize = if c < 0x80 {
            1
        } else if c < 0x800 {
            2
        } else if c < 0x10000 {
            3
        } else {
            4
        };
        n = n + w;
        i += 1;
    }
    assert(s@.take(s.len() as int) =~= s@);
    n
}

/// Estimate how complex a task is (see [`complexity_of`]).
pub fn estimate_complexity(input: &str, tool_count: usize, history_turns: usize) -> (r: TaskComplexity)
    requires
        input@.len() <= usize::MAX / 4,
    ensures
        r == complexity_of(input@, tool_count as nat, history_turns as nat),
{
    let chars = chars_of(input);
    let l = to_lowercase(&chars);
    if contains_str(&l, "critical") || contains_str(&l, "urgent") || contains_str(&l, "production")
        || contains_str(&l, "security audit") || contains_str(&l, "emergency") || contains_str(&l, "incident")
        || contains_str(&l, "outage") {
        return TaskComplexity::Critical;
    }
    let multistep = contains_str(&l, "first") || contains_str(&l, "then") || contains_str(&l, "finally")
        || contains_str(&l, "step 1") || contains_str(&l, "step 2") || contains_str(&l, "multi-step")
        || contains_str(&l, "afterward") || contains_str(&l, "subsequently");
    let mut k: usize = 0;
    if contains_str(&l, "analyze") {
        k += 1;
    }
    if contains_str(&l, "compare") {
        k += 1;
    }
    if contains_str(&l, "design") {
        k += 1;
    }
    if contains_str(&l, "optimize") {
        k += 1;
    }
    if contains_str(&l, "refactor") {
        k += 1;
    }
    if contains_str(&l, "architecture") {
        k += 1;
    }
    if contains_str(&l, "algorithm") {
        k += 1;
    }
    if contains_str(&l, "evaluate") {
        k += 1;
    }
    if contains_str(&l, "synthesize") {
        k += 1;
    }
    let len = utf8_len_exec(&chars);
    if len > 500 || multistep || tool_count > 3 || history_turns > 10 || k >= 2 {
        return TaskComplexity::Complex;
    }
    if len >= 100 || tool_count >= 1 || k >= 1 || history_turns >= 3 {
        return TaskComplexity::Moderate;
    }
    TaskComplexity::Simple
}


/// The tier a task of this complexity is routed to: simple tasks to fast
/// models, moderate ones to balanced models, and complex or critical ones
/// to powerful models.
pub open spec fn tier_of(c: TaskComplexity) -> CostModelTier {
    match c {
        TaskComplexity::Simple => CostModelTier::Fast,
        TaskComplexity::Moderate => CostModelTier::Balanced,
        TaskComplexity::Complex | TaskComplexity::Critical => CostModelTier::Powerful,
    }
}

/// The tier a task of this complexity is routed to (see [`tier_of`]).
pub fn tier_for(complexity: TaskComplexity) -> (r: CostModelTier)
    ensures
        r == tier_of(complexity),
{
    match complexity {
        TaskComplexity::Simple => CostModelTier::Fast,
        TaskComplexity::Moderate => CostModelTier::Balanced,
        TaskComplexity::Complex | TaskComplexity::Critical => CostModelTier::Powerful,
    }
}

/// The tiers to look in, in order, when routing to `tier`: the tier
/// itself, then its nearest neighbour, then the remaining tier (fast falls
/// back to balanced then powerful, powerful to balanced then fast, and
/// balanced to fast then powerful). Each tier appears once.
pub fn tier_search_order(tier: CostModelTier) -> (r: [CostModelTier; 3])
    ensures
        r[0] == tier,
        r[0] != r[1] && r[1] != r[2] && r[0] != r[2],
        tier == CostModelTier::Fast ==> r[1] == CostModelTier::Balanced,
        tier == CostModelTier::Powerful ==> r[1] == CostModelTier::Balanced,
        tier == CostModelTier::Balanced ==> r[1] == CostModelTier::Fast,
{
    match tier {
        CostModelTier::Fast => [CostModelTier::Fast, CostModelTier::Balanced, CostModelTier::Powerful],
        CostModelTier::Powerful => [CostModelTier::Powerful, CostModelTier::Balanced, CostModelTier::Fast],
        CostModelTier::Balanced => [CostModelTier::Balanced, CostModelTier::Fast, CostModelTier::Powerful],
    }
}

/// A task whose lower-cased text mentions critical work (critical,
/// urgent, production, security audit, emergency, incident, outage) is
/// critical, whatever its length, tools and history.
pub proof fn law_critical_keywords(input: Seq<char>, tool_count: nat, history_turns: nat)
    ensures
        ({
            let l = spec_to_lowercase(input);
            (contains(l, "critical"@) || contains(l, "urgent"@) || contains(l, "production"@) || contains(
                l,
                "security audit"@,
            ) || contains(l, "emergency"@) || contains(l, "incident"@) || contains(l, "outage"@)) ==> complexity_of(
                input,
                tool_count,
                history_turns,
            ) == TaskComplexity::Critical
        }),
        complexity_of(input, tool_count, history_turns) == TaskComplexity::Critical ==> ({
            let l = spec_to_lowercase(input);
            contains(l, "critical"@) || contains(l, "urgent"@) || contains(l, "production"@) || contains(
                l,
                "security audit"@,
            ) || contains(l, "emergency"@) || contains(l, "incident"@) || contains(l, "outage"@)
        }),
{
}

/// A task that is not critical is complex when its text is over 500 bytes,
/// names several steps (first, then, finally, step 1, step 2, multi-step,
/// afterward, subsequently), or it has more than three tools or more than
/// ten turns of history.
pub proof fn law_complex_signals(input: Seq<char>, tool_count: nat, history_turns: nat)
    ensures
        ({
            let l = spec_to_lowercase(input);
            let critical = contains(l, "critical"@) || contains(l, "urgent"@) || contains(l, "production"@)
                || contains(l, "security audit"@) || contains(l, "emergency"@) || contains(l, "incident"@)
                || contains(l, "outage"@);
            let steps = contains(l, "first"@) || contains(l, "then"@) || contains(l, "finally"@) || contains(
                l,
                "step 1"@,
            ) || contains(l, "step 2"@) || contains(l, "multi-step"@) || contains(l, "afterward"@) || contains(
                l,
                "subsequently"@,
            );
            !critical && (utf8_len(input) > 500 || steps || tool_count > 3 || history_turns > 10) ==> complexity_of(
                input,
                tool_count,
                history_turns,
            ) == TaskComplexity::Complex
        }),
{
}

/// A task that is not critical and whose text holds two different analysis
/// words (analyze, compare, design, optimize, refactor, architecture,
/// algorithm, evaluate, synthesize) is complex.
pub proof fn law_two_analysis_words(input: Seq<char>, tool_count: nat, history_turns: nat, w1: Seq<char>, w2: Seq<char>)
    requires
        w1 != w2,
        w1 == "analyze"@ || w1 == "compare"@ || w1 == "design"@ || w1 == "optimize"@ || w1 == "refactor"@ || w1
            == "architecture"@ || w1 == "algorithm"@ || w1 == "evaluate"@ || w1 == "synthesize"@,
        w2 == "analyze"@ || w2 == "compare"@ || w2 == "design"@ || w2 == "optimize"@ || w2 == "refactor"@ || w2
            == "architecture"@ || w2 == "algorithm"@ || w2 == "evaluate"@ || w2 == "synthesize"@,
        contains(spec_to_lowercase(input), w1),
        contains(spec_to_lowercase(input), w2),
    ensures
        complexity_of(input, tool_count, history_turns) == TaskComplexity::Critical || complexity_of(
            input,
            tool_count,
            history_turns,
        ) == TaskComplexity::Complex,
{
}

/// A short task (under 100 bytes) with no tool, fewer than three turns of
/// history, and none of the critical, multi-step or analysis words is
/// simple; a task with one tool and no critical or complex signal is
/// moderate.
pub proof fn law_simple_and_moderate(input: Seq<char>, tool_count: nat, history_turns: nat)
    ensures
        ({
            let l = spec_to_lowercase(input);
            let critical = contains(l, "critical"@) || contains(l, "urgent"@) || contains(l, "production"@)
                || contains(l, "security audit"@) || contains(l, "emergency"@) || contains(l, "incident"@)
                || contains(l, "outage"@);
            let steps = contains(l, "first"@) || contains(l, "then"@) || contains(l, "finally"@) || contains(
                l,
                "step 1"@,
            ) || contains(l, "step 2"@) || contains(l, "multi-step"@) || contains(l, "afterward"@) || contains(
                l,
                "subsequently"@,
            );
            let analysis = contains(l, "analyze"@) || contains(l, "compare"@) || contains(l, "design"@) || contains(
                l,
                "optimize"@,
            ) || contains(l, "refactor"@) || contains(l, "architecture"@) || contains(l, "algorithm"@) || contains(
                l,
                "evaluate"@,
            ) || contains(l, "synthesize"@);
            &&& (!critical && !steps && !analysis && utf8_len(input) < 100 && tool_count == 0 && history_turns < 3)
                ==> complexity_of(input, tool_count, history_turns) == TaskComplexity::Simple
            &&& (!critical && !steps && !analysis && utf8_len(input) <= 500 && tool_count == 1 && history_turns <= 10)
                ==> complexity_of(input, tool_count, history_turns) == TaskComplexity::Moderate
        }),
{
}

/// Routing: simple tasks go to fast models, moderate ones to balanced
/// models, complex and critical ones to powerful models.
pub proof fn law_routing(c: TaskComplexity)
    ensures
        c == TaskComplexity::Simple ==> tier_of(c) == CostModelTier::Fast,
        c == TaskComplexity::Moderate ==> tier_of(c) == CostModelTier::Balanced,
        c == TaskComplexity::Complex ==> tier_of(c) == CostModelTier::Powerful,
        c == TaskComplexity::Critical ==> tier_of(c) == CostModelTier::Powerful,
{
}

} // verus!
