//! Implementation planning: the kinds of tasks, file operations, effort,
//! agent roles and risk, and the heuristics that assign them.
use vstd::prelude::*;
use crate::text::{
    chars_of, string_of, contains, contains_str, is_prefix, is_suffix, starts_with_str, ends_with_str,
    spec_to_lowercase, to_lowercase, decimal, decimal_chars, push_chars, push_str,
};
use crate::diff_parse::{words, words_exec};

verus! {

/// The type of implementation task.
#[derive(Debug, Clone, Copy, PartialEq, Eq, Hash, Structural)]
pub enum TaskType {
    /// Implement a new feature.
    Feature,
    /// Fix a bug.
    BugFix,
    /// Refactor existing code.
    Refactor,
    /// Add test coverage.
    AddTests,
    /// Performance optimization.
    Optimization,
    /// Security hardening.
    SecurityFix,
    /// Documentation.
    Documentation,
}

/// File operation in a plan step.
#[derive(Debug, Clone, PartialEq, Eq)]
pub enum FileOperation {
    /// Create a new file.
    Create,
    /// Modify an existing file.
    Modify,
    /// Delete a file.
    Delete,
    /// Rename a file.
    Rename {
        /// The new path after renaming.
        new_path: String,
    },
}

/// Effort estimation for a step.
#[derive(Debug, Clone, Copy, PartialEq, Eq, Structural)]
pub enum Effort {
    /// Less than 20 lines changed.
    Small,
    /// Between 20 and 100 lines changed.
    Medium,
    /// More than 100 lines changed.
    Large,
}

/// Agent role assignment for plan steps.
#[derive(Debug, Clone, Copy, PartialEq, Eq, Hash, Structural)]
pub enum AgentRole {
    /// Designs architecture and makes structural decisions.
    Architect,
    /// Writes implementation code.
    Implementer,
    /// Writes and maintains tests.
    Tester,
    /// Reviews code for quality and correctness.
    Reviewer,
    /// Investigates and fixes bugs.
    Debugger,
    /// Handles infrastructure, CI/CD, and deployment.
    DevOps,
    /// Audits security and hardens code.
    SecurityAuditor,
    /// Writes and updates documentation.
    Documenter,
}

/// Risk level for a plan or individual risk factor.
#[derive(Debug, Clone, Copy, PartialEq, Eq, Structural)]
pub enum RiskLevel {
    /// Minimal risk; unlikely to cause issues.
    Low,
    /// Moderate risk; review carefully.
    Medium,
    /// High risk; requires careful testing and review.
    High,
    /// Critical risk; may break production systems.
    Critical,
}

/// A single step in an implementation plan.
#[derive(Debug, Clone)]
pub struct PlanStep {
    /// Step number (1-based).
    pub order: usize,
    /// File to operate on.
    pub file: String,
    /// What to do with the file.
    pub operation: FileOperation,
    /// Human-readable description of the change.
    pub description: String,
    /// Specific instructions for the agent executing this step.
    pub instructions: Vec<String>,
    /// Dependencies: step numbers that must complete before this one.
    pub depends_on: Vec<usize>,
    /// Estimated effort for this step.
    pub effort: Effort,
    /// Which agent role should handle this step.
    pub assigned_role: AgentRole,
    /// Whether this step modifies public API.
    pub breaks_api: bool,
}

/// A single risk factor within a [`RiskAssessment`].
#[derive(Debug, Clone)]
pub struct RiskFactor {
    /// Description of the risk.
    pub description: String,
    /// Severity level.
    pub level: RiskLevel,
}

/// Risk assessment for an implementation plan.
#[derive(Debug, Clone)]
pub struct RiskAssessment {
    /// Overall risk level (the maximum across all factors).
    pub level: RiskLevel,
    /// Specific risk factors identified.
    pub factors: Vec<RiskFactor>,
    /// Suggested mitigations.
    pub mitigations: Vec<String>,
}

/// Testing strategy for a plan.
#[derive(Debug, Clone)]
pub struct TestStrategy {
    /// Types of tests to write (e.g., "unit", "integration", "security").
    pub test_types: Vec<String>,
    /// Files that need test updates.
    pub test_files: Vec<String>,
    /// Minimum test coverage target, in percent.
    pub coverage_target: Option<u32>,
    /// Manual testing steps a human should perform.
    pub manual_checks: Vec<String>,
}

/// A complete implementation plan.
#[derive(Debug, Clone)]
pub struct ImplementationPlan {
    /// Human-readable title.
    pub title: String,
    /// Type of task.
    pub task_type: TaskType,
    /// Detailed description of what will be done.
    pub description: String,
    /// Ordered steps.
    pub steps: Vec<PlanStep>,
    /// Files that will be affected.
    pub affected_files: Vec<String>,
    /// Risk assessment.
    pub risk: RiskAssessment,
    /// Estimated total effort.
    pub total_effort: Effort,
    /// Suggested testing strategy.
    pub test_strategy: TestStrategy,
    /// Rollback instructions if something goes wrong.
    pub rollback: String,
}

/// Configuration for the [`CodePlanner`].
#[derive(Debug, Clone)]
pub struct PlannerConfig {
    /// Maximum steps in a plan (default: 20).
    pub max_steps: usize,
    /// Whether to include rollback instructions (default: true).
    pub include_rollback: bool,
    /// Whether to include test strategy (default: true).
    pub include_test_strategy: bool,
}

impl Default for PlannerConfig {
    fn default() -> (r: Self)
        ensures
            r.max_steps == 20,
            r.include_rollback,
            r.include_test_strategy,
    {
        PlannerConfig { max_steps: 20, include_rollback: true, include_test_strategy: true }
    }
}

/// The code implementation planner.
pub struct CodePlanner {
    /// The planner's configuration.
    pub config: PlannerConfig,
}

impl Default for CodePlanner {
    fn default() -> (r: Self)
        ensures
            r.config.max_steps == 20,
            r.config.include_rollback,
            r.config.include_test_strategy,
    {
        Self::new()
    }
}

/// The task type a lower-cased description shows, by keywords checked in a
/// fixed order; a feature when none matches.
pub open spec fn task_type_of(l: Seq<char>) -> TaskType {
    if contains(l, "security"@) || contains(l, "vulnerability"@) || contains(l, "cve"@) || contains(l, "harden"@) {
        TaskType::SecurityFix
    } else if contains(l, "fix"@) || contains(l, "bug"@) || contains(l, "error"@) || contains(l, "crash"@)
        || contains(l, "panic"@) {
        TaskType::BugFix
    } else if contains(l, "refactor"@) || contains(l, "rename"@) || contains(l, "extract"@) || contains(
        l,
        "reorganize"@,
    ) || contains(l, "clean up"@) {
        TaskType::Refactor
    } else if contains(l, "test"@) || contains(l, "coverage"@) || contains(l, "spec"@) {
        TaskType::AddTests
    } else if contains(l, "perf"@) || contains(l, "optimize"@) || contains(l, "speed"@) || contains(
        l,
        "benchmark"@,
    ) || contains(l, "slow"@) {
        TaskType::Optimization
    } else if contains(l, "doc"@) || contains(l, "readme"@) || contains(l, "comment"@) {
        TaskType::Documentation
    } else {
        TaskType::Feature
    }
}

/// The role for an operation on a file whose lower-cased name is `l`: test,
/// security, infrastructure and documentation files by their names, then
/// by the operation.
pub open spec fn role_of(op: FileOperation, l: Seq<char>) -> AgentRole {
    if is_suffix("_test.rs"@, l) || is_prefix("test_"@, l) || is_suffix(".spec.ts"@, l) || is_suffix(
        "_test.go"@,
        l,
    ) || contains(l, "/tests/"@) {
        AgentRole::Tester
    } else if contains(l, "security"@) || contains(l, "auth"@) || contains(l, "crypto"@) {
        AgentRole::SecurityAuditor
    } else if contains(l, "dockerfile"@) || contains(l, "helm/"@) || contains(l, "terraform/"@) || is_suffix(
        ".yml"@,
        l,
    ) || is_suffix(".yaml"@, l) || contains(l, "ci/"@) || contains(l, ".github/"@) {
        AgentRole::DevOps
    } else if is_suffix(".md"@, l) || contains(l, "readme"@) || contains(l, "docs/"@) {
        AgentRole::Documenter
    } else {
        match op {
            FileOperation::Create => if contains(l, "mod.rs"@) || contains(l, "lib.rs"@) {
                AgentRole::Architect
            } else {
                AgentRole::Implementer
            },
            FileOperation::Delete => AgentRole::Architect,
            FileOperation::Rename { .. } => AgentRole::Architect,
            FileOperation::Modify => AgentRole::Implementer,
        }
    }
}

/// The effort of a step from its operation and the number of words of its
/// description.
pub open spec fn effort_of(op: FileOperation, word_count: nat) -> Effort {
    match op {
        FileOperation::Delete => Effort::Small,
        FileOperation::Rename { .. } => Effort::Small,
        FileOperation::Create => if word_count > 30 {
            Effort::Large
        } else {
            Effort::Medium
        },
        FileOperation::Modify => if word_count > 40 {
            Effort::Large
        } else if word_count > 15 {
            Effort::Medium
        } else {
            Effort::Small
        },
    }
}

impl CodePlanner {
    /// Create a new planner with default configuration.
    pub fn new() -> (r: Self)
        ensures
            r.config.max_steps == 20,
            r.config.include_rollback,
            r.config.include_test_strategy,
    {
        CodePlanner { config: PlannerConfig::default() }
    }

    /// Create a new planner with the given configuration.
    pub fn with_config(config: PlannerConfig) -> (r: Self)
        ensures
            r.config.max_steps == config.max_steps,
            r.config.include_rollback == config.include_rollback,
            r.config.include_test_strategy == config.include_test_strategy,
    {
        CodePlanner { config }
    }

    /// The task type a lower-cased description shows (see [`task_type_of`]).
    pub fn task_type_of_lowered(lower: &str) -> (r: TaskType)
        ensures
            r == task_type_of(lower@),
    {
        let l = chars_of(lower);
        if contains_str(&l, "security") || contains_str(&l, "vulnerability") || contains_str(&l, "cve")
            || contains_str(&l, "harden") {
            TaskType::SecurityFix
        } else if contains_str(&l, "fix") || contains_str(&l, "bug") || contains_str(&l, "error")
            || contains_str(&l, "crash") || contains_str(&l, "panic") {
            TaskType::BugFix
        } else if contains_str(&l, "refactor") || contains_str(&l, "rename") || contains_str(&l, "extract")
            || contains_str(&l, "reorganize") || contains_str(&l, "clean up") {
            TaskType::Refactor
        } else if contains_str(&l, "test") || contains_str(&l, "coverage") || contains_str(&l, "spec") {
            TaskType::AddTests
        } else if contains_str(&l, "perf") || contains_str(&l, "optimize") || contains_str(&l, "speed")
            || contains_str(&l, "benchmark") || contains_str(&l, "slow") {
            TaskType::Optimization
        } else if contains_str(&l, "doc") || contains_str(&l, "readme") || contains_str(&l, "comment") {
            TaskType::Documentation
        } else {
            TaskType::Feature
        }
    }

    /// Infer the [`TaskType`] of a description from its lower-cased text.
    pub fn infer_task_type(description: &str) -> (r: TaskType)
        ensures
            r == task_type_of(spec_to_lowercase(description@)),
    {
        let lower = string_of(&to_lowercase(&chars_of(description)));
        Self::task_type_of_lowered(lower.as_str())
    }

    /// The role for an operation on a lower-cased file name (see
    /// [`role_of`]).
    pub fn role_of_lowered(operation: &FileOperation, lower: &str) -> (r: AgentRole)
        ensures
            r == role_of(*operation, lower@),
    {
        let l = chars_of(lower);
        if ends_with_str(&l, "_test.rs") || starts_with_str(&l, "test_") || ends_with_str(&l, ".spec.ts")
            || ends_with_str(&l, "_test.go") || contains_str(&l, "/tests/") {
            AgentRole::Tester
        } else if contains_str(&l, "security") || contains_str(&l, "auth") || contains_str(&l, "crypto") {
            AgentRole::SecurityAuditor
        } else if contains_str(&l, "dockerfile") || contains_str(&l, "helm/") || contains_str(&l, "terraform/")
            || ends_with_str(&l, ".yml") || ends_with_str(&l, ".yaml") || contains_str(&l, "ci/")
            || contains_str(&l, ".github/") {
            AgentRole::DevOps
        } else if ends_with_str(&l, ".md") || contains_str(&l, "readme") || contains_str(&l, "docs/") {
            AgentRole::Documenter
        } else {
            match operation {
                FileOperation::Create => if contains_str(&l, "mod.rs") || contains_str(&l, "lib.rs") {
                    AgentRole::Architect
                } else {
                    AgentRole::Implementer
                },
                FileOperation::Delete => AgentRole::Architect,
                FileOperation::Rename { .. } => AgentRole::Architect,
                FileOperation::Modify => AgentRole::Implementer,
            }
        }
    }

    /// Determine the best agent role for a file operation, from the
    /// lower-cased file name (see [`role_of`]).
    pub fn assign_role(operation: &FileOperation, file: &str) -> (r: AgentRole)
        ensures
            r == role_of(*operation, spec_to_lowercase(file@)),
    {
        let lower = string_of(&to_lowercase(&chars_of(file)));
        Self::role_of_lowered(operation, lower.as_str())
    }

    /// Estimate the effort of a step from its operation and the number of
    /// whitespace-separated words of its description (see [`effort_of`]).
    pub fn estimate_step_effort(operation: &FileOperation, description: &str) -> (r: Effort)
        ensures
            r == effort_of(*operation, words(description@).len()),
    {
        let word_count = words_exec(&chars_of(description)).len();
        match operation {
            FileOperation::Delete => Effort::Small,
            FileOperation::Rename { .. } => Effort::Small,
            FileOperation::Create => if word_count > 30 {
                Effort::Large
            } else {
                Effort::Medium
            },
            FileOperation::Modify => if word_count > 40 {
                Effort::Large
            } else if word_count > 15 {
                Effort::Medium
            } else {
                Effort::Small
            },
        }
    }
}

/// Some step deletes a file.
pub open spec fn any_delete(st: Seq<PlanStep>) -> bool
    decreases st.len(),
{
    st.len() > 0 && (any_delete(st.drop_last()) || st.last().operation is Delete)
}

/// The number of steps that modify public API.
pub open spec fn api_breaks(st: Seq<PlanStep>) -> nat
    decreases st.len(),
{
    if st.len() == 0 {
        0
    } else {
        api_breaks(st.drop_last()) + if st.last().breaks_api {
            1nat
        } else {
            0nat
        }
    }
}

/// Whether a non-empty file name occurs among the steps.
pub open spec fn has_file(st: Seq<PlanStep>, f: Seq<char>) -> bool
    decreases st.len(),
{
    st.len() > 0 && (has_file(st.drop_last(), f) || st.last().file@ == f)
}

/// The number of distinct non-empty file names among the steps.
pub open spec fn distinct_files(st: Seq<PlanStep>) -> nat
    decreases st.len(),
{
    if st.len() == 0 {
        0
    } else {
        distinct_files(st.drop_last()) + if st.last().file@.len() > 0 && !has_file(st.drop_last(), st.last().file@) {
            1nat
        } else {
            0nat
        }
    }
}

/// A lower-cased file name marks a security-sensitive file.
pub open spec fn security_name(l: Seq<char>) -> bool {
    contains(l, "auth"@) || contains(l, "security"@) || contains(l, "crypto"@)
}

/// Some step touches a security-sensitive file (by its lower-cased name).
pub open spec fn any_security(st: Seq<PlanStep>) -> bool
    decreases st.len(),
{
    st.len() > 0 && (any_security(st.drop_last()) || security_name(spec_to_lowercase(st.last().file@)))
}

/// The largest number of dependencies of a step (0 without steps).
pub open spec fn max_deps(st: Seq<PlanStep>) -> nat
    decreases st.len(),
{
    if st.len() == 0 {
        0
    } else {
        let m = max_deps(st.drop_last());
        let d = st.last().depends_on@.len();
        if d > m {
            d
        } else {
            m
        }
    }
}

/// The risk factors of a plan's steps, in order: deletions, API changes,
/// more than five files, security-sensitive files, more than five
/// dependencies of one step.
pub open spec fn risk_factors(st: Seq<PlanStep>) -> Seq<(Seq<char>, RiskLevel)> {
    (if any_delete(st) { seq![("Plan includes file deletions"@, RiskLevel::High)] } else { Seq::empty() })
    + (if api_breaks(st) > 0 { seq![(decimal(api_breaks(st)) + " step(s) modify public API"@, RiskLevel::High)] } else { Seq::empty() })
    + (if distinct_files(st) > 5 { seq![("Large blast radius: "@ + decimal(distinct_files(st)) + " files affected"@, RiskLevel::Medium)] } else { Seq::empty() })
    + (if any_security(st) { seq![("Changes touch security-sensitive files"@, RiskLevel::High)] } else { Seq::empty() })
    + (if max_deps(st) > 5 { seq![("High step interdependency (max "@ + decimal(max_deps(st)) + " dependencies)"@, RiskLevel::Medium)] } else { Seq::empty() })
}

/// The mitigations that go with the risk factors.
pub open spec fn risk_mitigations(st: Seq<PlanStep>) -> Seq<Seq<char>> {
    (if any_delete(st) { seq!["Verify deleted files have no remaining references before removal"@] } else { Seq::empty() })
    + (if api_breaks(st) > 0 { seq!["Update all downstream consumers and add migration notes"@] } else { Seq::empty() })
    + (if distinct_files(st) > 5 { seq!["Consider splitting into smaller, incremental changes"@] } else { Seq::empty() })
    + (if any_security(st) { seq!["Require security review before merging"@] } else { Seq::empty() })
    + (if max_deps(st) > 5 { seq!["Verify dependency ordering carefully before executing"@] } else { Seq::empty() })
}

/// The overall risk: the highest level among the factors, `Low` without
/// factors.
pub open spec fn risk_level(st: Seq<PlanStep>) -> RiskLevel {
    if any_delete(st) || api_breaks(st) > 0 || any_security(st) {
        RiskLevel::High
    } else if distinct_files(st) > 5 || max_deps(st) > 5 {
        RiskLevel::Medium
    } else {
        RiskLevel::Low
    }
}

/// The factors reported: the risk factors, or a single low factor saying
/// that there are none.
pub open spec fn reported_factors(st: Seq<PlanStep>) -> Seq<(Seq<char>, RiskLevel)> {
    if risk_factors(st).len() == 0 {
        seq![("No significant risk factors identified"@, RiskLevel::Low)]
    } else {
        risk_factors(st)
    }
}

/// The views of risk factors.
pub open spec fn factors_view(v: Seq<RiskFactor>) -> Seq<(Seq<char>, RiskLevel)> {
    v.map_values(|f: RiskFactor| (f.description@, f.level))
}

/// The texts of a list of strings.
pub open spec fn texts(v: Seq<String>) -> Seq<Seq<char>> {
    v.map_values(|s: String| s@)
}

/// The number of steps of effort `e`.
pub open spec fn effort_count(st: Seq<PlanStep>, e: Effort) -> nat
    decreases st.len(),
{
    if st.len() == 0 {
        0
    } else {
        effort_count(st.drop_last(), e) + if st.last().effort == e {
            1nat
        } else {
            0nat
        }
    }
}

/// The total effort of a plan's steps: large with a large step, more than
/// three medium ones or more than eight steps; else medium with a medium
/// step or more than three steps; else small.
pub open spec fn total_effort(st: Seq<PlanStep>) -> Effort {
    let large = effort_count(st, Effort::Large);
    let medium = effort_count(st, Effort::Medium);
    if large > 0 || medium > 3 || st.len() > 8 {
        Effort::Large
    } else if medium > 0 || st.len() > 3 {
        Effort::Medium
    } else {
        Effort::Small
    }
}

/// Pushes a risk factor.
fn push_factor(v: &mut Vec<RiskFactor>, d: Vec<char>, level: RiskLevel)
    ensures
        factors_view(final(v)@) == factors_view(old(v)@).push((d@, level)),
{
    let ghost before = v@;
    v.push(RiskFactor { description: string_of(&d), level });
    assert(factors_view(v@) =~= factors_view(before).push((d@, level)));
}

/// Pushes a mitigation.
fn push_text(v: &mut Vec<String>, t: &str)
    ensures
        texts(final(v)@) == texts(old(v)@).push(t@),
{
    let ghost before = v@;
    v.push(string_of(&chars_of(t)));
    assert(texts(v@) =~= texts(before).push(t@));
}

/// Text followed by a number and more text.
fn numbered(a: &str, n: usize, b: &str) -> (r: Vec<char>)
    ensures
        r@ == a@ + decimal(n as nat) + b@,
{
    let mut v = chars_of(a);
    push_chars(&mut v, &decimal_chars(n));
    push_str(&mut v, b);
    v
}

impl CodePlanner {
    /// Assess the risk of a plan's steps (see [`risk_level`],
    /// [`reported_factors`] and [`risk_mitigations`]).
    pub fn assess_risk(&self, steps: &[PlanStep]) -> (r: RiskAssessment)
        ensures
            r.level == risk_level(steps@),
            factors_view(r.factors@) == reported_factors(steps@),
            texts(r.mitigations@) == risk_mitigations(steps@),
    {
        let ghost st = steps@;
        let mut has_delete = false;
        let mut breaks: usize = 0;
        let mut files: usize = 0;
        let mut security = false;
        let mut deps: usize = 0;
        let mut i: usize = 0;
        while i < steps.len()
            invariant
                i <= st.len(),
                st == steps@,
                has_delete == any_delete(st.take(i as int)),
                breaks == api_breaks(st.take(i as int)),
                files == distinct_files(st.take(i as int)),
                security == any_security(st.take(i as int)),
                deps == max_deps(st.take(i as int)),
                breaks <= i,
                files <= i,
            decreases steps.len() - i,
        {
            let ghost pre = st.take(i as int);
            proof {
                assert(st.take(i + 1).drop_last() =~= pre);
                assert(st.take(i + 1).last() == st[i as int]);
            }
            let s = &steps[i];
            if matches!(s.operation, FileOperation::Delete) {
                has_delete = true;
            }
            if s.breaks_api {
                breaks = breaks + 1;
            }
            let f = chars_of(s.file.as_str());
            if f.len() > 0 {
                let mut seen = false;
                let mut j: usize = 0;
                while j < i
                    invariant
                        j <= i < st.len(),
                        st == steps@,
                        f@ == st[i as int].file@,
                        seen == has_file(st.take(j as int), f@),
                    decreases i - j,
                {
                    proof {
                        assert(st.take(j + 1).drop_last() =~= st.take(j as int));
                    }
                    if crate::text::eq_str(&f, steps[j].file.as_str()) {
                        seen = true;
                    }
                    j = j + 1;
                }
                if !seen {
                    files = files + 1;
                }
            }
            let lower = to_lowercase(&f);
            if contains_str(&lower, "auth") || contains_str(&lower, "security") || contains_str(&lower, "crypto") {
                security = true;
            }
            if s.depends_on.len() > deps {
                deps = s.depends_on.len();
            }
            i = i + 1;
        }
        assert(st.take(i as int) =~= st);
        let mut factors: Vec<RiskFactor> = Vec::new();
        let mut mitigations: Vec<String> = Vec::new();
        assert(factors_view(factors@) =~= Seq::<(Seq<char>, RiskLevel)>::empty());
        assert(texts(mitigations@) =~= Seq::<Seq<char>>::empty());
        if has_delete {
            push_factor(&mut factors, chars_of("Plan includes file deletions"), RiskLevel::High);
            push_text(&mut mitigations, "Verify deleted files have no remaining references before removal");
        }
        let ghost f1 = factors_view(factors@);
        let ghost m1 = texts(mitigations@);
        if breaks > 0 {
            push_factor(&mut factors, numbered("", breaks, " step(s) modify public API"), RiskLevel::High);
            push_text(&mut mitigations, "Update all downstream consumers and add migration notes");
            proof {
                reveal_strlit("");
                assert(""@ + decimal(breaks as nat) + " step(s) modify public API"@ =~= decimal(breaks as nat) + " step(s) modify public API"@);
            }
        }
        let ghost f2 = factors_view(factors@);
        let ghost m2 = texts(mitigations@);
        if files > 5 {
            push_factor(&mut factors, numbered("Large blast radius: ", files, " files affected"), RiskLevel::Medium);
            push_text(&mut mitigations, "Consider splitting into smaller, incremental changes");
        }
        let ghost f3 = factors_view(factors@);
        let ghost m3 = texts(mitigations@);
        if security {
            push_factor(&mut factors, chars_of("Changes touch security-sensitive files"), RiskLevel::High);
            push_text(&mut mitigations, "Require security review before merging");
        }
        let ghost f4 = factors_view(factors@);
        let ghost m4 = texts(mitigations@);
        if deps > 5 {
            push_factor(&mut factors, numbered("High step interdependency (max ", deps, " dependencies)"), RiskLevel::Medium);
            push_text(&mut mitigations, "Verify dependency ordering carefully before executing");
        }
        proof {
            assert(factors_view(factors@) =~= risk_factors(st));
            assert(texts(mitigations@) =~= risk_mitigations(st));
        }
        let level = if has_delete || breaks > 0 || security {
            RiskLevel::High
        } else if files > 5 || deps > 5 {
            RiskLevel::Medium
        } else {
            RiskLevel::Low
        };
        if factors.len() == 0 {
            push_factor(&mut factors, chars_of("No significant risk factors identified"), RiskLevel::Low);
        }
        RiskAssessment { level, factors, mitigations }
    }

    /// The total effort of a plan's steps (see [`total_effort`]).
    pub fn estimate_total_effort(&self, steps: &[PlanStep]) -> (r: Effort)
        ensures
            r == total_effort(steps@),
    {
        let ghost st = steps@;
        let mut large: usize = 0;
        let mut medium: usize = 0;
        let mut i: usize = 0;
        while i < steps.len()
            invariant
                i <= st.len(),
                st == steps@,
                large == effort_count(st.take(i as int), Effort::Large),
                medium == effort_count(st.take(i as int), Effort::Medium),
                large <= i,
                medium <= i,
            decreases steps.len() - i,
        {
            proof {
                assert(st.take(i + 1).drop_last() =~= st.take(i as int));
            }
            if steps[i].effort == Effort::Large {
                large = large + 1;
            }
            if steps[i].effort == Effort::Medium {
                medium = medium + 1;
            }
            i = i + 1;
        }
        assert(st.take(i as int) =~= st);
        if large > 0 || medium > 3 || steps.len() > 8 {
            Effort::Large
        } else if medium > 0 || steps.len() > 3 {
            Effort::Medium
        } else {
            Effort::Small
        }
    }
}

/// The keyword table of task inference, on a lower-cased description, in
/// order of precedence: security work, a bug fix, a refactoring, tests, an
/// optimization, documentation; a description with none of these keywords
/// is a feature.
#[verifier::spinoff_prover]
#[verifier::rlimit(40)]
pub proof fn law_task_keywords(l: Seq<char>)
    ensures
        ({
            let security = contains(l, "security"@) || contains(l, "vulnerability"@) || contains(l, "cve"@)
                || contains(l, "harden"@);
            let bug = contains(l, "fix"@) || contains(l, "bug"@) || contains(l, "error"@) || contains(l, "crash"@)
                || contains(l, "panic"@);
            let refactor = contains(l, "refactor"@) || contains(l, "rename"@) || contains(l, "extract"@) || contains(
                l,
                "reorganize"@,
            ) || contains(l, "clean up"@);
            let tests = contains(l, "test"@) || contains(l, "coverage"@) || contains(l, "spec"@);
            let perf = contains(l, "perf"@) || contains(l, "optimize"@) || contains(l, "speed"@) || contains(
                l,
                "benchmark"@,
            ) || contains(l, "slow"@);
            let docs = contains(l, "doc"@) || contains(l, "readme"@) || contains(l, "comment"@);
            &&& security ==> task_type_of(l) == TaskType::SecurityFix
            &&& !security && bug ==> task_type_of(l) == TaskType::BugFix
            &&& !security && !bug && refactor ==> task_type_of(l) == TaskType::Refactor
            &&& !security && !bug && !refactor && tests ==> task_type_of(l) == TaskType::AddTests
            &&& !security && !bug && !refactor && !tests && perf ==> task_type_of(l) == TaskType::Optimization
            &&& !security && !bug && !refactor && !tests && !perf && docs ==> task_type_of(l) == TaskType::Documentation
            &&& !security && !bug && !refactor && !tests && !perf && !docs ==> task_type_of(l) == TaskType::Feature
        }),
{
}

/// The role table of a step, on a lower-cased file name, in order of
/// precedence: test files, security files, infrastructure files,
/// documentation files; otherwise an architect for deletions, renames and
/// new module roots, an implementer for other new files and changes.
#[verifier::spinoff_prover]
#[verifier::rlimit(40)]
pub proof fn law_role_table(op: FileOperation, l: Seq<char>)
    ensures
        ({
            let test = is_suffix("_test.rs"@, l) || is_prefix("test_"@, l) || is_suffix(".spec.ts"@, l)
                || is_suffix("_test.go"@, l) || contains(l, "/tests/"@);
            let sec = contains(l, "security"@) || contains(l, "auth"@) || contains(l, "crypto"@);
            let ops = contains(l, "dockerfile"@) || contains(l, "helm/"@) || contains(l, "terraform/"@)
                || is_suffix(".yml"@, l) || is_suffix(".yaml"@, l) || contains(l, "ci/"@) || contains(l, ".github/"@);
            let doc = is_suffix(".md"@, l) || contains(l, "readme"@) || contains(l, "docs/"@);
            let plain = !test && !sec && !ops && !doc;
            &&& test ==> role_of(op, l) == AgentRole::Tester
            &&& !test && sec ==> role_of(op, l) == AgentRole::SecurityAuditor
            &&& !test && !sec && ops ==> role_of(op, l) == AgentRole::DevOps
            &&& !test && !sec && !ops && doc ==> role_of(op, l) == AgentRole::Documenter
            &&& plain && op == FileOperation::Modify ==> role_of(op, l) == AgentRole::Implementer
            &&& plain && op == FileOperation::Delete ==> role_of(op, l) == AgentRole::Architect
            &&& plain && (op matches FileOperation::Rename { .. }) ==> role_of(op, l) == AgentRole::Architect
            &&& plain && op == FileOperation::Create ==> role_of(op, l) == (if contains(l, "mod.rs"@) || contains(
                l,
                "lib.rs"@,
            ) {
                AgentRole::Architect
            } else {
                AgentRole::Implementer
            })
        }),
{
}

/// Deletions and renames are small; a new file is large beyond thirty
/// words of description and medium otherwise; a change is large beyond
/// forty words, medium beyond fifteen and small otherwise.
pub proof fn law_effort_table(op: FileOperation, words: nat)
    ensures
        op == FileOperation::Delete ==> effort_of(op, words) == Effort::Small,
        (op matches FileOperation::Rename { .. }) ==> effort_of(op, words) == Effort::Small,
        op == FileOperation::Create ==> effort_of(op, words) == (if words > 30 { Effort::Large } else { Effort::Medium }),
        op == FileOperation::Modify && words > 40 ==> effort_of(op, words) == Effort::Large,
        op == FileOperation::Modify && 15 < words <= 40 ==> effort_of(op, words) == Effort::Medium,
        op == FileOperation::Modify && words <= 15 ==> effort_of(op, words) == Effort::Small,
{
}

/// A file is security-sensitive exactly when its lower-cased name mentions
/// auth, security or crypto.
pub proof fn law_security_names(l: Seq<char>)
    ensures
        security_name(l) == (contains(l, "auth"@) || contains(l, "security"@) || contains(l, "crypto"@)),
{
}

} // verus!
