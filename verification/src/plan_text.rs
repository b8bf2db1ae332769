//! Plans as text: the labels of the planning enums, a plan as a Markdown
//! document, and the prompt for carrying out one step.
use vstd::prelude::*;
use crate::code_planner::{
    AgentRole, CodePlanner, Effort, FileOperation, ImplementationPlan, PlanStep, PlannerConfig, RiskFactor,
    RiskLevel, TaskType, TestStrategy, texts,
};
use crate::text::{chars_of, string_of, decimal, decimal_chars, join, push_chars, push_str};

verus! {

/// The display label of a task type.
pub open spec fn task_label(t: TaskType) -> Seq<char> {
    match t {
        TaskType::Feature => "Feature"@,
        TaskType::BugFix => "Bug Fix"@,
        TaskType::Refactor => "Refactor"@,
        TaskType::AddTests => "Add Tests"@,
        TaskType::Optimization => "Optimization"@,
        TaskType::SecurityFix => "Security Fix"@,
        TaskType::Documentation => "Documentation"@,
    }
}

/// The display label of a file operation.
pub open spec fn operation_label(op: FileOperation) -> Seq<char> {
    match op {
        FileOperation::Create => "Create"@,
        FileOperation::Modify => "Modify"@,
        FileOperation::Delete => "Delete"@,
        FileOperation::Rename { new_path } => "Rename → "@ + new_path@,
    }
}

/// The display label of an effort.
pub open spec fn effort_label(e: Effort) -> Seq<char> {
    match e {
        Effort::Small => "Small (<20 lines)"@,
        Effort::Medium => "Medium (20-100 lines)"@,
        Effort::Large => "Large (>100 lines)"@,
    }
}

/// The display label of an agent role.
pub open spec fn role_label(r: AgentRole) -> Seq<char> {
    match r {
        AgentRole::Architect => "Architect"@,
        AgentRole::Implementer => "Implementer"@,
        AgentRole::Tester => "Tester"@,
        AgentRole::Reviewer => "Review"@,
        AgentRole::Debugger => "Debugger"@,
        AgentRole::DevOps => "DevOps"@,
        AgentRole::SecurityAuditor => "Security Auditor"@,
        AgentRole::Documenter => "Documenter"@,
    }
}

/// The display label of a risk level.
pub open spec fn risk_label(r: RiskLevel) -> Seq<char> {
    match r {
        RiskLevel::Low => "Low"@,
        RiskLevel::Medium => "Medium"@,
        RiskLevel::High => "High"@,
        RiskLevel::Critical => "Critical"@,
    }
}

impl TaskType {
    /// The display label (see [`task_label`]).
    pub fn to_string(&self) -> (r: String)
        ensures
            r@ == task_label(*self),
    {
        string_of(&task_label_chars(*self))
    }
}

impl FileOperation {
    /// The display label (see [`operation_label`]).
    pub fn to_string(&self) -> (r: String)
        ensures
            r@ == operation_label(*self),
    {
        string_of(&operation_label_chars(self))
    }
}

impl Effort {
    /// The display label (see [`effort_label`]).
    pub fn to_string(&self) -> (r: String)
        ensures
            r@ == effort_label(*self),
    {
        string_of(&effort_label_chars(*self))
    }
}

impl AgentRole {
    /// The display label (see [`role_label`]).
    pub fn to_string(&self) -> (r: String)
        ensures
            r@ == role_label(*self),
    {
        string_of(&role_label_chars(*self))
    }
}

impl RiskLevel {
    /// The display label (see [`risk_label`]).
    pub fn to_string(&self) -> (r: String)
        ensures
            r@ == risk_label(*self),
    {
        string_of(&risk_label_chars(*self))
    }
}

fn task_label_chars(t: TaskType) -> (r: Vec<char>)
    ensures
        r@ == task_label(t),
{
    match t {
        TaskType::Feature => chars_of("Feature"),
        TaskType::BugFix => chars_of("Bug Fix"),
        TaskType::Refactor => chars_of("Refactor"),
        TaskType::AddTests => chars_of("Add Tests"),
        TaskType::Optimization => chars_of("Optimization"),
        TaskType::SecurityFix => chars_of("Security Fix"),
        TaskType::Documentation => chars_of("Documentation"),
    }
}

fn operation_label_chars(op: &FileOperation) -> (r: Vec<char>)
    ensures
        r@ == operation_label(*op),
{
    match op {
        FileOperation::Create => chars_of("Create"),
        FileOperation::Modify => chars_of("Modify"),
        FileOperation::Delete => chars_of("Delete"),
        FileOperation::Rename { new_path } => {
            let mut v = chars_of("Rename → ");
            push_str(&mut v, new_path.as_str());
            v
        },
    }
}

fn effort_label_chars(e: Effort) -> (r: Vec<char>)
    ensures
        r@ == effort_label(e),
{
    match e {
        Effort::Small => chars_of("Small (<20 lines)"),
        Effort::Medium => chars_of("Medium (20-100 lines)"),
        Effort::Large => chars_of("Large (>100 lines)"),
    }
}

fn role_label_chars(r: AgentRole) -> (out: Vec<char>)
    ensures
        out@ == role_label(r),
{
    match r {
        AgentRole::Architect => chars_of("Architect"),
        AgentRole::Implementer => chars_of("Implementer"),
        AgentRole::Tester => chars_of("Tester"),
        AgentRole::Reviewer => chars_of("Review"),
        AgentRole::Debugger => chars_of("Debugger"),
        AgentRole::DevOps => chars_of("DevOps"),
        AgentRole::SecurityAuditor => chars_of("Security Auditor"),
        AgentRole::Documenter => chars_of("Documenter"),
    }
}

fn risk_label_chars(r: RiskLevel) -> (out: Vec<char>)
    ensures
        out@ == risk_label(r),
{
    match r {
        RiskLevel::Low => chars_of("Low"),
        RiskLevel::Medium => chars_of("Medium"),
        RiskLevel::High => chars_of("High"),
        RiskLevel::Critical => chars_of("Critical"),
    }
}

/// Each item between `pre` and `post`, one after another.
pub open spec fn bullets(items: Seq<Seq<char>>, pre: Seq<char>, post: Seq<char>) -> Seq<char>
    decreases items.len(),
{
    if items.len() == 0 {
        Seq::empty()
    } else {
        bullets(items.drop_last(), pre, post) + pre + items.last() + post
    }
}

/// Numbered lines `1. item` for each item.
pub open spec fn numbered_lines(items: Seq<Seq<char>>) -> Seq<char>
    decreases items.len(),
{
    if items.len() == 0 {
        Seq::empty()
    } else {
        numbered_lines(items.drop_last()) + decimal(items.len()) + ". "@ + items.last() + "\n"@
    }
}

/// The decimal texts of numbers.
pub open spec fn decimals(v: Seq<usize>) -> Seq<Seq<char>> {
    v.map_values(|n: usize| decimal(n as nat))
}

/// A block that is there only when `c` holds.
pub open spec fn when(c: bool, s: Seq<char>) -> Seq<char> {
    if c {
        s
    } else {
        Seq::empty()
    }
}

/// The heading of a step.
pub open spec fn step_heading(s: PlanStep) -> Seq<char> {
    "### Step "@ + decimal(s.order as nat) + " — "@ + operation_label(s.operation) + " (`"@ + s.file@ + "`)\n\n"@
}

/// The role and effort line of a step.
pub open spec fn step_role_line(s: PlanStep) -> Seq<char> {
    "**Role:** "@ + role_label(s.assigned_role) + " | **Effort:** "@ + effort_label(s.effort) + when(
        s.breaks_api,
        " | **BREAKS API**"@,
    ) + "\n"@
}

/// The dependency line of a step, when it has dependencies.
pub open spec fn step_deps_line(s: PlanStep) -> Seq<char> {
    when(s.depends_on@.len() > 0, "**Depends on:** "@ + join(decimals(s.depends_on@), ", "@) + "\n"@)
}

/// The description and instructions of a step.
pub open spec fn step_body(s: PlanStep) -> Seq<char> {
    "\n"@ + s.description@ + "\n\n"@ + bullets(texts(s.instructions@), "- "@, "\n"@) + "\n"@
}

/// The Markdown of one step.
pub open spec fn step_markdown(s: PlanStep) -> Seq<char> {
    step_heading(s) + step_role_line(s) + step_deps_line(s) + step_body(s)
}

/// The Markdown of the steps, one after another.
pub open spec fn steps_markdown(st: Seq<PlanStep>) -> Seq<char>
    decreases st.len(),
{
    if st.len() == 0 {
        Seq::empty()
    } else {
        steps_markdown(st.drop_last()) + step_markdown(st.last())
    }
}

/// The factor lines of a risk assessment.
pub open spec fn factor_lines(f: Seq<RiskFactor>) -> Seq<char>
    decreases f.len(),
{
    if f.len() == 0 {
        Seq::empty()
    } else {
        factor_lines(f.drop_last()) + "- ["@ + risk_label(f.last().level) + "] "@ + f.last().description@ + "\n"@
    }
}

/// The test kinds line of a strategy, when there are any.
pub open spec fn types_part(t: TestStrategy) -> Seq<char> {
    when(t.test_types@.len() > 0, "**Test types:** "@ + join(texts(t.test_types@), ", "@) + "\n\n"@)
}

/// The coverage line of a strategy, when it has a target.
pub open spec fn coverage_part(t: TestStrategy) -> Seq<char> {
    match t.coverage_target {
        Some(c) => "**Coverage target:** "@ + decimal(c as nat) + "%\n\n"@,
        None => Seq::empty(),
    }
}

/// The test files of a strategy, when there are any.
pub open spec fn files_part(t: TestStrategy) -> Seq<char> {
    when(t.test_files@.len() > 0, "**Test files:**\n\n"@ + bullets(texts(t.test_files@), "- `"@, "`\n"@) + "\n"@)
}

/// The manual checks of a strategy, when there are any.
pub open spec fn checks_part(t: TestStrategy) -> Seq<char> {
    when(t.manual_checks@.len() > 0, "**Manual checks:**\n\n"@ + bullets(texts(t.manual_checks@), "- "@, "\n"@) + "\n"@)
}

/// The test strategy section.
pub open spec fn strategy_markdown(p: ImplementationPlan) -> Seq<char> {
    "## Test Strategy\n\n"@ + types_part(p.test_strategy) + coverage_part(p.test_strategy) + files_part(p.test_strategy)
        + checks_part(p.test_strategy)
}

/// The header of a plan's Markdown: title, type, effort, risk and
/// description.
pub open spec fn header_markdown(p: ImplementationPlan) -> Seq<char> {
    "# "@ + p.title@ + "\n\n"@ + "**Type:** "@ + task_label(p.task_type) + "\n\n"@ + "**Total Effort:** "@
        + effort_label(p.total_effort) + "\n\n"@ + "**Risk:** "@ + risk_label(p.risk.level) + "\n\n"@
        + "## Description\n\n"@ + p.description@ + "\n\n"@
}

/// The affected files section.
pub open spec fn files_markdown(p: ImplementationPlan) -> Seq<char> {
    "## Affected Files\n\n"@ + bullets(texts(p.affected_files@), "- `"@, "`\n"@) + "\n"@
}

/// The risk section.
pub open spec fn risk_markdown(p: ImplementationPlan) -> Seq<char> {
    "## Risk Assessment\n\n"@ + "**Overall:** "@ + risk_label(p.risk.level) + "\n\n"@
        + when(p.risk.factors@.len() > 0, "**Factors:**\n\n"@ + factor_lines(p.risk.factors@) + "\n"@)
        + when(p.risk.mitigations@.len() > 0, "**Mitigations:**\n\n"@ + bullets(texts(p.risk.mitigations@), "- "@, "\n"@) + "\n"@)
}

/// A plan as a Markdown document: header, steps, affected files, risk,
/// then the test strategy and the rollback when the configuration includes
/// them.
pub open spec fn plan_markdown(cfg: PlannerConfig, p: ImplementationPlan) -> Seq<char> {
    header_markdown(p) + "## Steps\n\n"@ + steps_markdown(p.steps@) + files_markdown(p) + risk_markdown(p)
        + when(cfg.include_test_strategy, strategy_markdown(p))
        + when(cfg.include_rollback && p.rollback@.len() > 0, "## Rollback\n\n"@ + p.rollback@ + "\n"@)
}

/// The first step with order `o`, if any.
pub open spec fn step_with_order(st: Seq<PlanStep>, o: usize) -> Option<int>
    decreases st.len(),
{
    if st.len() == 0 {
        None
    } else {
        match step_with_order(st.drop_last(), o) {
            Some(i) => Some(i),
            None => if st.last().order == o {
                Some(st.len() - 1)
            } else {
                None
            },
        }
    }
}

/// The prerequisite lines of a step: for each dependency that names a step,
/// that step's description.
pub open spec fn prerequisite_lines(st: Seq<PlanStep>, deps: Seq<usize>) -> Seq<char>
    decreases deps.len(),
{
    if deps.len() == 0 {
        Seq::empty()
    } else {
        prerequisite_lines(st, deps.drop_last()) + match step_with_order(st, deps.last()) {
            Some(i) => "- Step "@ + decimal(deps.last() as nat) + ": "@ + st[i].description@ + "\n"@,
            None => Seq::empty(),
        }
    }
}

/// The prompt for carrying out step `idx` of a plan, or an error text when
/// there is no such step.
pub open spec fn step_prompt_text(p: ImplementationPlan, idx: int) -> Seq<char> {
    let st = p.steps@;
    if idx >= st.len() {
        "Error: step index "@ + decimal(idx as nat) + " is out of range (plan has "@ + decimal(st.len()) + " steps)"@
    } else {
        let s = st[idx];
        "# Task: "@ + p.title@ + " — Step "@ + decimal(s.order as nat) + "/"@ + decimal(st.len()) + "\n\n"@
            + "## Context\n\n"@ + p.description@ + "\n\n"@ + "## Your Role\n\n"@ + role_label(s.assigned_role)
            + "\n\n"@ + "## Operation\n\n**"@ + operation_label(s.operation) + "** `"@ + s.file@ + "`\n\n"@
            + "## Description\n\n"@ + s.description@ + "\n\n"@ + "## Instructions\n\n"@
            + numbered_lines(texts(s.instructions@)) + "\n"@ + "## Constraints\n\n"@
            + "- Do NOT use `.unwrap()` or `.expect()` in production code\n"@
            + "- Add `///` doc comments on all public types and methods\n"@
            + "- Follow Rust 2021 edition conventions\n"@
            + when(s.breaks_api, "- **WARNING:** This step modifies public API — update all downstream consumers\n"@)
            + when(
            s.depends_on@.len() > 0,
            "\n## Prerequisites\n\n"@ + "The following steps must be completed first:\n\n"@ + prerequisite_lines(
                st,
                s.depends_on@,
            ),
        )
    }
}

fn push_string(dst: &mut Vec<char>, s: &String)
    ensures
        final(dst)@ == old(dst)@ + s@,
{
    push_str(dst, s.as_str());
}

fn push_bullets(dst: &mut Vec<char>, items: &Vec<String>, pre: &str, post: &str)
    ensures
        final(dst)@ == old(dst)@ + bullets(texts(items@), pre@, post@),
{
    let ghost base = dst@;
    let mut i: usize = 0;
    while i < items.len()
        invariant
            i <= items.len(),
            dst@ == base + bullets(texts(items@.take(i as int)), pre@, post@),
        decreases items.len() - i,
    {
        assert(texts(items@.take(i + 1)).drop_last() =~= texts(items@.take(i as int)));
        push_str(dst, pre);
        push_string(dst, &items[i]);
        push_str(dst, post);
        i += 1;
    }
    assert(items@.take(items.len() as int) =~= items@);
}

fn push_joined(dst: &mut Vec<char>, items: &Vec<String>, sep: &str)
    ensures
        final(dst)@ == old(dst)@ + join(texts(items@), sep@),
{
    let ghost base = dst@;
    let mut i: usize = 0;
    while i < items.len()
        invariant
            i <= items.len(),
            dst@ == base + join(texts(items@.take(i as int)), sep@),
        decreases items.len() - i,
    {
        assert(texts(items@.take(i + 1)).drop_last() =~= texts(items@.take(i as int)));
        if i > 0 {
            push_str(dst, sep);
        }
        push_string(dst, &items[i]);
        i += 1;
    }
    assert(items@.take(items.len() as int) =~= items@);
}

fn push_deps(dst: &mut Vec<char>, deps: &Vec<usize>)
    ensures
        final(dst)@ == old(dst)@ + join(decimals(deps@), ", "@),
{
    let ghost base = dst@;
    let mut i: usize = 0;
    while i < deps.len()
        invariant
            i <= deps.len(),
            dst@ == base + join(decimals(deps@.take(i as int)), ", "@),
        decreases deps.len() - i,
    {
        assert(decimals(deps@.take(i + 1)).drop_last() =~= decimals(deps@.take(i as int)));
        if i > 0 {
            push_str(dst, ", ");
        }
        push_chars(dst, &decimal_chars(deps[i]));
        i += 1;
    }
    assert(deps@.take(deps.len() as int) =~= deps@);
}

fn step_heading_chars(s: &PlanStep) -> (r: Vec<char>)
    ensures
        r@ == step_heading(*s),
{
    let mut v = chars_of("### Step ");
    push_chars(&mut v, &decimal_chars(s.order));
    push_str(&mut v, " — ");
    push_chars(&mut v, &operation_label_chars(&s.operation));
    push_str(&mut v, " (`");
    push_string(&mut v, &s.file);
    push_str(&mut v, "`)\n\n");
    v
}

fn step_role_chars(s: &PlanStep) -> (r: Vec<char>)
    ensures
        r@ == step_role_line(*s),
{
    let mut v = chars_of("**Role:** ");
    push_chars(&mut v, &role_label_chars(s.assigned_role));
    push_str(&mut v, " | **Effort:** ");
    push_chars(&mut v, &effort_label_chars(s.effort));
    let ghost a = v@;
    if s.breaks_api {
        push_str(&mut v, " | **BREAKS API**");
    }
    assert(v@ =~= a + when(s.breaks_api, " | **BREAKS API**"@));
    push_str(&mut v, "\n");
    v
}

fn step_deps_chars(s: &PlanStep) -> (r: Vec<char>)
    ensures
        r@ == step_deps_line(*s),
{
    let mut v: Vec<char> = Vec::new();
    if s.depends_on.len() > 0 {
        push_str(&mut v, "**Depends on:** ");
        push_deps(&mut v, &s.depends_on);
        push_str(&mut v, "\n");
    }
    v
}

fn step_body_chars(s: &PlanStep) -> (r: Vec<char>)
    ensures
        r@ == step_body(*s),
{
    let mut v = chars_of("\n");
    push_string(&mut v, &s.description);
    push_str(&mut v, "\n\n");
    push_bullets(&mut v, &s.instructions, "- ", "\n");
    push_str(&mut v, "\n");
    v
}

fn push_step(dst: &mut Vec<char>, s: &PlanStep)
    ensures
        final(dst)@ == old(dst)@ + step_markdown(*s),
{
    let ghost base = dst@;
    let h = step_heading_chars(s);
    let r = step_role_chars(s);
    let d = step_deps_chars(s);
    let b = step_body_chars(s);
    push_chars(dst, &h);
    push_chars(dst, &r);
    push_chars(dst, &d);
    push_chars(dst, &b);
    assert(dst@ =~= base + step_markdown(*s));
}

fn push_factors(dst: &mut Vec<char>, f: &Vec<RiskFactor>)
    ensures
        final(dst)@ == old(dst)@ + factor_lines(f@),
{
    let ghost base = dst@;
    let mut i: usize = 0;
    while i < f.len()
        invariant
            i <= f.len(),
            dst@ == base + factor_lines(f@.take(i as int)),
        decreases f.len() - i,
    {
        assert(f@.take(i + 1).drop_last() =~= f@.take(i as int));
        push_str(dst, "- [");
        push_chars(dst, &risk_label_chars(f[i].level));
        push_str(dst, "] ");
        push_string(dst, &f[i].description);
        push_str(dst, "\n");
        i += 1;
    }
    assert(f@.take(f.len() as int) =~= f@);
}

fn types_chars(t: &TestStrategy) -> (r: Vec<char>)
    ensures
        r@ == types_part(*t),
{
    let mut v: Vec<char> = Vec::new();
    if t.test_types.len() > 0 {
        push_str(&mut v, "**Test types:** ");
        push_joined(&mut v, &t.test_types, ", ");
        push_str(&mut v, "\n\n");
    }
    v
}

fn coverage_chars(t: &TestStrategy) -> (r: Vec<char>)
    ensures
        r@ == coverage_part(*t),
{
    let mut v: Vec<char> = Vec::new();
    match t.coverage_target {
        Some(c) => {
            push_str(&mut v, "**Coverage target:** ");
            push_chars(&mut v, &decimal_chars(c as usize));
            push_str(&mut v, "%\n\n");
        },
        None => {},
    }
    v
}

fn files_chars(t: &TestStrategy) -> (r: Vec<char>)
    ensures
        r@ == files_part(*t),
{
    let mut v: Vec<char> = Vec::new();
    if t.test_files.len() > 0 {
        push_str(&mut v, "**Test files:**\n\n");
        push_bullets(&mut v, &t.test_files, "- `", "`\n");
        push_str(&mut v, "\n");
    }
    v
}

fn checks_chars(t: &TestStrategy) -> (r: Vec<char>)
    ensures
        r@ == checks_part(*t),
{
    let mut v: Vec<char> = Vec::new();
    if t.manual_checks.len() > 0 {
        push_str(&mut v, "**Manual checks:**\n\n");
        push_bullets(&mut v, &t.manual_checks, "- ", "\n");
        push_str(&mut v, "\n");
    }
    v
}

fn push_strategy(dst: &mut Vec<char>, p: &ImplementationPlan)
    ensures
        final(dst)@ == old(dst)@ + strategy_markdown(*p),
{
    let ghost base = dst@;
    let t = &p.test_strategy;
    let a = types_chars(t);
    let b = coverage_chars(t);
    let c = files_chars(t);
    let d = checks_chars(t);
    push_str(dst, "## Test Strategy\n\n");
    push_chars(dst, &a);
    push_chars(dst, &b);
    push_chars(dst, &c);
    push_chars(dst, &d);
    assert(dst@ =~= base + strategy_markdown(*p));
}

fn push_prerequisites(dst: &mut Vec<char>, st: &Vec<PlanStep>, deps: &Vec<usize>)
    ensures
        final(dst)@ == old(dst)@ + prerequisite_lines(st@, deps@),
{
    let ghost base = dst@;
    let mut i: usize = 0;
    while i < deps.len()
        invariant
            i <= deps.len(),
            dst@ == base + prerequisite_lines(st@, deps@.take(i as int)),
        decreases deps.len() - i,
    {
        assert(deps@.take(i + 1).drop_last() =~= deps@.take(i as int));
        let d = deps[i];
        let ghost before = dst@;
        let ghost piece: Seq<char> = match step_with_order(st@, d) {
            Some(j) => "- Step "@ + decimal(d as nat) + ": "@ + st@[j].description@ + "\n"@,
            None => Seq::empty(),
        };
        assert(deps@.take(i + 1).last() == d);
        assert(prerequisite_lines(st@, deps@.take(i + 1)) == prerequisite_lines(st@, deps@.take(i as int)) + piece);
        match find_order(st, d) {
            Some(k) => {
                push_str(dst, "- Step ");
                push_chars(dst, &decimal_chars(d));
                push_str(dst, ": ");
                push_string(dst, &st[k].description);
                push_str(dst, "\n");
                assert(dst@ =~= before + ("- Step "@ + decimal(d as nat) + ": "@ + st@[k as int].description@ + "\n"@));
                assert(step_with_order(st@, d) == Some(k as int));
                assert(dst@ =~= before + piece);
            },
            None => {
                assert(dst@ =~= before + piece);
            },
        }
        assert(dst@ =~= base + prerequisite_lines(st@, deps@.take(i as int)) + piece);
        i += 1;
    }
    assert(deps@.take(deps.len() as int) =~= deps@);
}

fn find_order(st: &Vec<PlanStep>, o: usize) -> (r: Option<usize>)
    ensures
        match step_with_order(st@, o) {
            Some(i) => (r matches Some(k) && k as int == i) && 0 <= i < st@.len(),
            None => r is None,
        },
{
    let mut i: usize = 0;
    while i < st.len()
        invariant
            i <= st.len(),
            step_with_order(st@.take(i as int), o) is None,
        decreases st.len() - i,
    {
        assert(st@.take(i + 1).drop_last() =~= st@.take(i as int));
        if st[i].order == o {
            proof {
                lemma_step_with_order_prefix(st@, (i + 1) as int, o);
            }
            return Some(i);
        }
        i += 1;
    }
    assert(st@.take(st.len() as int) =~= st@);
    None
}

proof fn lemma_step_with_order_prefix(st: Seq<PlanStep>, n: int, o: usize)
    requires
        0 <= n <= st.len(),
        step_with_order(st.take(n), o) is Some,
    ensures
        step_with_order(st, o) == step_with_order(st.take(n), o),
    decreases st.len() - n,
{
    if n < st.len() {
        assert(st.take(n + 1).drop_last() =~= st.take(n));
        lemma_step_with_order_prefix(st, n + 1, o);
    } else {
        assert(st.take(n) =~= st);
    }
}

fn header_chars(plan: &ImplementationPlan) -> (r: Vec<char>)
    ensures
        r@ == header_markdown(*plan),
{
    let mut md: Vec<char> = Vec::new();
    push_str(&mut md, "# ");
    push_string(&mut md, &plan.title);
    push_str(&mut md, "\n\n");
    push_str(&mut md, "**Type:** ");
    push_chars(&mut md, &task_label_chars(plan.task_type));
    push_str(&mut md, "\n\n");
    push_str(&mut md, "**Total Effort:** ");
    push_chars(&mut md, &effort_label_chars(plan.total_effort));
    push_str(&mut md, "\n\n");
    push_str(&mut md, "**Risk:** ");
    push_chars(&mut md, &risk_label_chars(plan.risk.level));
    push_str(&mut md, "\n\n");
    push_str(&mut md, "## Description\n\n");
    push_string(&mut md, &plan.description);
    push_str(&mut md, "\n\n");
    md
}

fn steps_chars(plan: &ImplementationPlan) -> (r: Vec<char>)
    ensures
        r@ == steps_markdown(plan.steps@),
{
    let mut md: Vec<char> = Vec::new();
    let mut i: usize = 0;
    while i < plan.steps.len()
        invariant
            i <= plan.steps.len(),
            md@ == steps_markdown(plan.steps@.take(i as int)),
        decreases plan.steps.len() - i,
    {
        assert(plan.steps@.take(i + 1).drop_last() =~= plan.steps@.take(i as int));
        push_step(&mut md, &plan.steps[i]);
        i += 1;
    }
    assert(plan.steps@.take(plan.steps.len() as int) =~= plan.steps@);
    md
}

fn files_chars_md(plan: &ImplementationPlan) -> (r: Vec<char>)
    ensures
        r@ == files_markdown(*plan),
{
    let mut md = chars_of("## Affected Files\n\n");
    push_bullets(&mut md, &plan.affected_files, "- `", "`\n");
    push_str(&mut md, "\n");
    md
}

fn risk_chars(plan: &ImplementationPlan) -> (r: Vec<char>)
    ensures
        r@ == risk_markdown(*plan),
{
    let ghost p = *plan;
    let mut md = chars_of("## Risk Assessment\n\n");
    push_str(&mut md, "**Overall:** ");
    push_chars(&mut md, &risk_label_chars(plan.risk.level));
    push_str(&mut md, "\n\n");
    let ghost a = md@;
    if plan.risk.factors.len() > 0 {
        push_str(&mut md, "**Factors:**\n\n");
        push_factors(&mut md, &plan.risk.factors);
        push_str(&mut md, "\n");
    }
    let ghost b = md@;
    assert(b =~= a + when(p.risk.factors@.len() > 0, "**Factors:**\n\n"@ + factor_lines(p.risk.factors@) + "\n"@));
    if plan.risk.mitigations.len() > 0 {
        push_str(&mut md, "**Mitigations:**\n\n");
        push_bullets(&mut md, &plan.risk.mitigations, "- ", "\n");
        push_str(&mut md, "\n");
    }
    assert(md@ =~= risk_markdown(p));
    md
}

impl CodePlanner {
    /// Format the plan as a Markdown document (see [`plan_markdown`]).
    pub fn format_as_markdown(&self, plan: &ImplementationPlan) -> (r: String)
        ensures
            r@ == plan_markdown(self.config, *plan),
    {
        let ghost p = *plan;
        let h = header_chars(plan);
        let st = steps_chars(plan);
        let f = files_chars_md(plan);
        let rk = risk_chars(plan);
        let mut md: Vec<char> = Vec::new();
        push_chars(&mut md, &h);
        push_str(&mut md, "## Steps\n\n");
        push_chars(&mut md, &st);
        push_chars(&mut md, &f);
        push_chars(&mut md, &rk);
        let ghost c = md@;
        if self.config.include_test_strategy {
            push_strategy(&mut md, plan);
        }
        let ghost d = md@;
        assert(d =~= c + when(self.config.include_test_strategy, strategy_markdown(p)));
        let rollback = chars_of(plan.rollback.as_str());
        if self.config.include_rollback && rollback.len() > 0 {
            push_str(&mut md, "## Rollback\n\n");
            push_chars(&mut md, &rollback);
            push_str(&mut md, "\n");
        }
        assert(md@ =~= plan_markdown(self.config, p));
        string_of(&md)
    }

    /// The prompt for carrying out one step of a plan (see
    /// [`step_prompt_text`]).
    pub fn step_prompt(&self, plan: &ImplementationPlan, step_index: usize) -> (r: String)
        ensures
            r@ == step_prompt_text(*plan, step_index as int),
    {
        let ghost p = *plan;
        let n = plan.steps.len();
        if step_index >= n {
            let mut e = chars_of("Error: step index ");
            push_chars(&mut e, &decimal_chars(step_index));
            push_str(&mut e, " is out of range (plan has ");
            push_chars(&mut e, &decimal_chars(n));
            push_str(&mut e, " steps)");
            return string_of(&e);
        }
        let s = &plan.steps[step_index];
        let mut out: Vec<char> = Vec::new();
        push_str(&mut out, "# Task: ");
        push_string(&mut out, &plan.title);
        push_str(&mut out, " — Step ");
        push_chars(&mut out, &decimal_chars(s.order));
        push_str(&mut out, "/");
        push_chars(&mut out, &decimal_chars(n));
        push_str(&mut out, "\n\n");
        push_str(&mut out, "## Context\n\n");
        push_string(&mut out, &plan.description);
        push_str(&mut out, "\n\n");
        push_str(&mut out, "## Your Role\n\n");
        push_chars(&mut out, &role_label_chars(s.assigned_role));
        push_str(&mut out, "\n\n");
        push_str(&mut out, "## Operation\n\n**");
        push_chars(&mut out, &operation_label_chars(&s.operation));
        push_str(&mut out, "** `");
        push_string(&mut out, &s.file);
        push_str(&mut out, "`\n\n");
        push_str(&mut out, "## Description\n\n");
        push_string(&mut out, &s.description);
        push_str(&mut out, "\n\n");
        push_str(&mut out, "## Instructions\n\n");
        let ghost head = out@;
        let mut i: usize = 0;
        while i < s.instructions.len()
            invariant
                i <= s.instructions.len(),
                out@ == head + numbered_lines(texts(s.instructions@.take(i as int))),
            decreases s.instructions.len() - i,
        {
            assert(texts(s.instructions@.take(i + 1)).drop_last() =~= texts(s.instructions@.take(i as int)));
            push_chars(&mut out, &decimal_chars(i + 1));
            push_str(&mut out, ". ");
            push_string(&mut out, &s.instructions[i]);
            push_str(&mut out, "\n");
            i += 1;
        }
        assert(s.instructions@.take(s.instructions.len() as int) =~= s.instructions@);
        push_str(&mut out, "\n");
        push_str(&mut out, "## Constraints\n\n");
        push_str(&mut out, "- Do NOT use `.unwrap()` or `.expect()` in production code\n");
        push_str(&mut out, "- Add `///` doc comments on all public types and methods\n");
        push_str(&mut out, "- Follow Rust 2021 edition conventions\n");
        let ghost a = out@;
        if s.breaks_api {
            push_str(&mut out, "- **WARNING:** This step modifies public API — update all downstream consumers\n");
        }
        let ghost b = out@;
        assert(b =~= a + when(s.breaks_api, "- **WARNING:** This step modifies public API — update all downstream consumers\n"@));
        if s.depends_on.len() > 0 {
            push_str(&mut out, "\n## Prerequisites\n\n");
            push_str(&mut out, "The following steps must be completed first:\n\n");
            push_prerequisites(&mut out, &plan.steps, &s.depends_on);
        }
        assert(out@ =~= step_prompt_text(p, step_index as int));
        string_of(&out)
    }
}

} // verus!
