//! Building plans: the steps of a feature, a bug fix, a refactoring and a
//! round of tests, each numbered from 1 and cut off at the configured
//! maximum number of steps.
use vstd::prelude::*;
use crate::code_planner::{AgentRole, CodePlanner, Effort, FileOperation, ImplementationPlan, PlanStep, PlannerConfig, TaskType, effort_of, role_of};
use crate::plan_files::{interface_file, strs, test_file_for};
use crate::plan_finish::{StepView, cap, new_step, plan_finished, steps_view};
use crate::text::{chars_of, decimal, decimal_chars, eq_str, push_chars, push_str, spec_to_lowercase};
use crate::diff_lines::lines_view;
use crate::diff_parse::words;

verus! {

/// The number of per-file steps that fit when the first of them gets order
/// `first`: as many files as there are, up to the maximum order.
pub open spec fn fitted(n: int, max: int, first: int) -> int {
    if max - first + 1 <= 0 {
        0
    } else if n <= max - first + 1 {
        n
    } else {
        max - first + 1
    }
}

/// The order numbers from `a` up to, not including, `b`.
pub open spec fn range_seq(a: int, b: int) -> Seq<usize> {
    Seq::new(
        if b > a {
            (b - a) as nat
        } else {
            0
        },
        |k: int| (a + k) as usize,
    )
}

/// The step when `c` holds, else nothing.
pub open spec fn opt_step(c: bool, s: StepView) -> Seq<StepView> {
    if c {
        seq![s]
    } else {
        Seq::empty()
    }
}

/// The steps of a feature plan before the cut-off: define the interfaces,
/// integrate the feature into each existing file that fits, add tests (when
/// test strategies are on) and review.
pub open spec fn feature_steps(cfg: PlannerConfig, title: Seq<char>, description: Seq<char>, files: Seq<Seq<char>>) -> Seq<StepView> {
    let iface = interface_file(description, files);
    let first = StepView {
        order: 1,
        file: iface,
        operation: if files.contains(iface) {
            FileOperation::Modify
        } else {
            FileOperation::Create
        },
        description: "Define interfaces and types for: "@ + title,
        instructions: seq![
            "Define public trait or struct signatures"@,
            "Add doc comments on all public items"@,
            "Keep the API minimal — expose only what is needed"@,
        ],
        depends_on: Seq::empty(),
        effort: Effort::Medium,
        role: AgentRole::Architect,
        breaks_api: false,
    };
    let k = fitted(files.len() as int, cfg.max_steps as int, 2);
    let mids = Seq::new(
        k as nat,
        |j: int|
            StepView {
                order: 2 + j,
                file: files[j],
                operation: FileOperation::Modify,
                description: "Integrate feature '"@ + title + "' into "@ + files[j],
                instructions: seq![
                    "Import new types from "@ + iface,
                    "Wire the feature into existing logic"@,
                    "Maintain backward compatibility"@,
                ],
                depends_on: seq![1usize],
                effort: effort_of(FileOperation::Modify, words(description).len()),
                role: role_of(FileOperation::Modify, spec_to_lowercase(files[j])),
                breaks_api: false,
            },
    );
    let o = 2 + k;
    let tests = opt_step(
        cfg.include_test_strategy && o <= cfg.max_steps,
        StepView {
            order: o,
            file: test_file_for(iface),
            operation: FileOperation::Create,
            description: "Add tests for feature '"@ + title + "'"@,
            instructions: seq!["Cover happy path and error cases"@, "Test edge cases and boundary conditions"@],
            depends_on: range_seq(1, o),
            effort: Effort::Medium,
            role: AgentRole::Tester,
            breaks_api: false,
        },
    );
    let o2 = o + tests.len();
    let review = opt_step(
        o2 <= cfg.max_steps,
        StepView {
            order: o2,
            file: Seq::empty(),
            operation: FileOperation::Modify,
            description: "Code review of all changes"@,
            instructions: seq![
                "Verify public API consistency"@,
                "Check error handling is exhaustive"@,
                "Ensure no unwrap/expect in production code"@,
            ],
            depends_on: range_seq(1, o2),
            effort: Effort::Small,
            role: AgentRole::Reviewer,
            breaks_api: false,
        },
    );
    seq![first] + mids + tests + review
}

/// The file a bug fix starts from: the first affected file, or `unknown`.
pub open spec fn primary_file(files: Seq<Seq<char>>) -> Seq<char> {
    if files.len() > 0 {
        files[0]
    } else {
        "unknown"@
    }
}

/// The description of a bug fix.
pub open spec fn bugfix_description(error: Seq<char>) -> Seq<char> {
    "Fix: "@ + error
}

/// The steps of a bug-fix plan before the cut-off: investigate, fix each
/// affected file that fits, add a regression test (when test strategies are
/// on) and review.
pub open spec fn bugfix_steps(cfg: PlannerConfig, error: Seq<char>, files: Seq<Seq<char>>) -> Seq<StepView> {
    let primary = primary_file(files);
    let description = bugfix_description(error);
    let first = StepView {
        order: 1,
        file: primary,
        operation: FileOperation::Modify,
        description: "Investigate root cause in "@ + primary,
        instructions: seq![
            "Reproduce the error: "@ + error,
            "Add logging or debug prints to narrow down the issue"@,
            "Identify the exact line / condition that triggers the bug"@,
        ],
        depends_on: Seq::empty(),
        effort: Effort::Small,
        role: AgentRole::Debugger,
        breaks_api: false,
    };
    let k = fitted(files.len() as int, cfg.max_steps as int, 2);
    let mids = Seq::new(
        k as nat,
        |j: int|
            StepView {
                order: 2 + j,
                file: files[j],
                operation: FileOperation::Modify,
                description: "Apply fix in "@ + files[j],
                instructions: seq![
                    "Fix the identified root cause"@,
                    "Handle edge cases that were missed"@,
                    "Remove any debug logging added during investigation"@,
                ],
                depends_on: seq![1usize],
                effort: effort_of(FileOperation::Modify, words(description).len()),
                role: AgentRole::Implementer,
                breaks_api: false,
            },
    );
    let o = 2 + k;
    let tests = opt_step(
        cfg.include_test_strategy && o <= cfg.max_steps,
        StepView {
            order: o,
            file: test_file_for(primary),
            operation: FileOperation::Modify,
            description: "Add regression test for the bug"@,
            instructions: seq!["Write a test that reproduces: "@ + error, "Verify the fix resolves the issue"@],
            depends_on: range_seq(2, o),
            effort: Effort::Small,
            role: AgentRole::Tester,
            breaks_api: false,
        },
    );
    let o2 = o + tests.len();
    let review = opt_step(
        o2 <= cfg.max_steps,
        StepView {
            order: o2,
            file: Seq::empty(),
            operation: FileOperation::Modify,
            description: "Review the bug fix"@,
            instructions: seq!["Verify the fix is minimal and correct"@, "Ensure no regressions in adjacent code"@],
            depends_on: range_seq(1, o2),
            effort: Effort::Small,
            role: AgentRole::Reviewer,
            breaks_api: false,
        },
    );
    seq![first] + mids + tests + review
}

/// The description of a refactoring.
pub open spec fn refactor_description(target: Seq<char>, goal: Seq<char>) -> Seq<char> {
    "Refactor "@ + target + ": "@ + goal
}

/// The step of a refactoring for one affected file: the target itself is
/// refactored (which breaks its API), any other file has its references
/// updated.
pub open spec fn refactor_file_step(order: int, f: Seq<char>, target: Seq<char>, goal: Seq<char>, effort: Effort) -> StepView {
    let is_target = f == target;
    StepView {
        order,
        file: f,
        operation: FileOperation::Modify,
        description: if is_target {
            "Apply refactoring to primary target: "@ + f
        } else {
            "Update references in "@ + f
        },
        instructions: if is_target {
            seq!["Refactor according to goal: "@ + goal, "Preserve external behavior"@]
        } else {
            seq!["Update imports and references to match refactored code"@, "Verify compilation after changes"@]
        },
        depends_on: seq![1usize],
        effort,
        role: AgentRole::Implementer,
        breaks_api: is_target,
    }
}

/// The steps of a refactoring plan before the cut-off: identify the scope,
/// refactor each affected file that fits, update the tests (when test
/// strategies are on) and review.
pub open spec fn refactor_steps(cfg: PlannerConfig, target: Seq<char>, goal: Seq<char>, files: Seq<Seq<char>>) -> Seq<StepView> {
    let description = refactor_description(target, goal);
    let first = StepView {
        order: 1,
        file: target,
        operation: FileOperation::Modify,
        description: "Identify refactoring scope in "@ + target,
        instructions: seq![
            "Goal: "@ + goal,
            "Map all usages of the target across the codebase"@,
            "Determine which files will need corresponding updates"@,
        ],
        depends_on: Seq::empty(),
        effort: Effort::Small,
        role: AgentRole::Architect,
        breaks_api: false,
    };
    let k = fitted(files.len() as int, cfg.max_steps as int, 2);
    let mids = Seq::new(
        k as nat,
        |j: int| refactor_file_step(2 + j, files[j], target, goal, effort_of(FileOperation::Modify, words(description).len())),
    );
    let o = 2 + k;
    let tests = opt_step(
        cfg.include_test_strategy && o <= cfg.max_steps,
        StepView {
            order: o,
            file: test_file_for(target),
            operation: FileOperation::Modify,
            description: "Update tests after refactoring"@,
            instructions: seq![
                "Update test imports and assertions to reflect the refactored API"@,
                "Add tests for any new abstractions introduced"@,
            ],
            depends_on: range_seq(2, o),
            effort: Effort::Medium,
            role: AgentRole::Tester,
            breaks_api: false,
        },
    );
    let o2 = o + tests.len();
    let review = opt_step(
        o2 <= cfg.max_steps,
        StepView {
            order: o2,
            file: Seq::empty(),
            operation: FileOperation::Modify,
            description: "Review refactoring changes"@,
            instructions: seq![
                "Verify behavior is preserved"@,
                "Check for dead code left behind"@,
                "Ensure naming consistency"@,
            ],
            depends_on: range_seq(1, o2),
            effort: Effort::Small,
            role: AgentRole::Reviewer,
            breaks_api: false,
        },
    );
    seq![first] + mids + tests + review
}

/// The description of a round of tests.
pub open spec fn tests_description(n: nat) -> Seq<char> {
    "Add test coverage for "@ + decimal(n) + " source file(s)"@
}

/// The steps of a test plan before the cut-off: write tests for each source
/// file that fits, then run the suite.
pub open spec fn tests_steps(cfg: PlannerConfig, files: Seq<Seq<char>>) -> Seq<StepView> {
    let k = fitted(files.len() as int, cfg.max_steps as int, 1);
    let writes = Seq::new(
        k as nat,
        |j: int|
            StepView {
                order: 1 + j,
                file: test_file_for(files[j]),
                operation: FileOperation::Create,
                description: "Write tests for "@ + files[j],
                instructions: seq![
                    "Read and understand the public API of "@ + files[j],
                    "Write unit tests for each public function and method"@,
                    "Cover edge cases: empty inputs, boundary values, error paths"@,
                    "Use descriptive test names that explain the scenario"@,
                ],
                depends_on: Seq::empty(),
                effort: Effort::Medium,
                role: AgentRole::Tester,
                breaks_api: false,
            },
    );
    let o = 1 + k;
    let run = opt_step(
        o <= cfg.max_steps,
        StepView {
            order: o,
            file: Seq::empty(),
            operation: FileOperation::Modify,
            description: "Run test suite and verify coverage"@,
            instructions: seq![
                "Run `cargo test` and verify all tests pass"@,
                "Check coverage report if available"@,
            ],
            depends_on: range_seq(1, o),
            effort: Effort::Small,
            role: AgentRole::Tester,
            breaks_api: false,
        },
    );
    writes + run
}

fn list1(a: Vec<char>) -> (r: Vec<Vec<char>>)
    ensures
        lines_view(r@) == seq![a@],
{
    let mut v: Vec<Vec<char>> = Vec::new();
    v.push(a);
    assert(lines_view(v@) =~= seq![v@[0]@]);
    v
}

fn list2(a: Vec<char>, b: Vec<char>) -> (r: Vec<Vec<char>>)
    ensures
        lines_view(r@) == seq![a@, b@],
{
    let mut v = list1(a);
    let ghost before = v@;
    v.push(b);
    assert(lines_view(v@) =~= lines_view(before).push(b@));
    v
}

fn list3(a: Vec<char>, b: Vec<char>, c: Vec<char>) -> (r: Vec<Vec<char>>)
    ensures
        lines_view(r@) == seq![a@, b@, c@],
{
    let mut v = list2(a, b);
    let ghost before = v@;
    v.push(c);
    assert(lines_view(v@) =~= lines_view(before).push(c@));
    v
}

fn list4(a: Vec<char>, b: Vec<char>, c: Vec<char>, d: Vec<char>) -> (r: Vec<Vec<char>>)
    ensures
        lines_view(r@) == seq![a@, b@, c@, d@],
{
    let mut v = list3(a, b, c);
    let ghost before = v@;
    v.push(d);
    assert(lines_view(v@) =~= lines_view(before).push(d@));
    v
}

fn one(x: usize) -> (r: Vec<usize>)
    ensures
        r@ == seq![x],
{
    let mut v: Vec<usize> = Vec::new();
    v.push(x);
    assert(v@ =~= seq![x]);
    v
}

fn range_vec(a: usize, b: usize) -> (r: Vec<usize>)
    ensures
        r@ == range_seq(a as int, b as int),
{
    let mut v: Vec<usize> = Vec::new();
    let mut x: usize = a;
    while x < b
        invariant
            a <= x <= b || (x == a && a >= b),
            v@ == range_seq(a as int, x as int),
        decreases b - x,
    {
        v.push(x);
        assert(v@ =~= range_seq(a as int, x + 1));
        x += 1;
    }
    assert(v@ =~= range_seq(a as int, b as int));
    v
}

fn cat(a: &str, b: &[char]) -> (r: Vec<char>)
    ensures
        r@ == a@ + b@,
{
    let mut v = chars_of(a);
    push_chars(&mut v, b);
    v
}

fn cat3(a: &str, b: &[char], c: &str) -> (r: Vec<char>)
    ensures
        r@ == a@ + b@ + c@,
{
    let mut v = chars_of(a);
    push_chars(&mut v, b);
    push_str(&mut v, c);
    v
}

fn cat4(a: &str, b: &[char], c: &str, d: &[char]) -> (r: Vec<char>)
    ensures
        r@ == a@ + b@ + c@ + d@,
{
    let mut v = chars_of(a);
    push_chars(&mut v, b);
    push_str(&mut v, c);
    push_chars(&mut v, d);
    v
}

fn slice_has(files: &[&str], t: &Vec<char>) -> (r: bool)
    ensures
        r == strs(files@).contains(t@),
{
    let mut i: usize = 0;
    while i < files.len()
        invariant
            i <= files.len(),
            forall|k: int| 0 <= k < i ==> files@[k]@ != t@,
        decreases files.len() - i,
    {
        if eq_str(t, files[i]) {
            assert(strs(files@)[i as int] == t@);
            return true;
        }
        i += 1;
    }
    false
}

proof fn lemma_views_cap(s: Seq<PlanStep>, m: int)
    requires
        m >= 0,
    ensures
        steps_view(cap(s, m)) == cap(steps_view(s), m),
{
    assert(steps_view(cap(s, m)) =~= cap(steps_view(s), m));
}

impl CodePlanner {
    /// Plan a new feature (see [`feature_steps`] and [`plan_finished`]).
    pub fn plan_feature(&self, title: &str, description: &str, existing_files: &[&str]) -> (r: ImplementationPlan)
        requires
            existing_files.len() <= isize::MAX,
        ensures
            steps_view(r.steps@) == cap(
                feature_steps(self.config, title@, description@, strs(existing_files@)),
                self.config.max_steps as int,
            ),
            plan_finished(self.config, r, title@, TaskType::Feature, description@),
    {
        let ghost files = strs(existing_files@);
        let ghost raw = feature_steps(self.config, title@, description@, files);
        let max = self.config.max_steps;
        let iface_s = Self::infer_interface_file(description, existing_files);
        let iface = chars_of(iface_s.as_str());
        let op = if slice_has(existing_files, &iface) {
            FileOperation::Modify
        } else {
            FileOperation::Create
        };
        let mut steps: Vec<PlanStep> = Vec::new();
        steps.push(
            new_step(
                1,
                chars_of(iface_s.as_str()),
                op,
                cat("Define interfaces and types for: ", &chars_of(title)),
                list3(chars_of("Define public trait or struct signatures"), chars_of("Add doc comments on all public items"), chars_of("Keep the API minimal — expose only what is needed")),
                Vec::new(),
                Effort::Medium,
                AgentRole::Architect,
                false,
            ),
        );
        assert(steps_view(steps@) =~= raw.take(1));
        let effort = Self::estimate_step_effort(&FileOperation::Modify, description);
        let ghost k = fitted(files.len() as int, max as int, 2);
        let mut order: usize = 2;
        let mut j: usize = 0;
        while j < existing_files.len() && order <= max
            invariant
                files == strs(existing_files@),
                raw == feature_steps(self.config, title@, description@, files),
                max == self.config.max_steps,
                existing_files.len() <= isize::MAX,
                iface@ == interface_file(description@, files),
                effort == effort_of(FileOperation::Modify, words(description@).len()),
                k == fitted(files.len() as int, max as int, 2),
                order == j + 2,
                j <= existing_files.len(),
                j <= k,
                steps_view(steps@) == raw.take(1 + j),
            decreases existing_files.len() - j,
        {
            let f = chars_of(existing_files[j]);
            let ghost before = steps@;
            steps.push(
                new_step(
                    order,
                    chars_of(existing_files[j]),
                    FileOperation::Modify,
                    cat4("Integrate feature '", &chars_of(title), "' into ", &f),
                    list3(cat("Import new types from ", &iface), chars_of("Wire the feature into existing logic"), chars_of("Maintain backward compatibility")),
                    one(1),
                    effort,
                    Self::assign_role(&FileOperation::Modify, existing_files[j]),
                    false,
                ),
            );
            assert(steps_view(steps@) =~= steps_view(before).push(raw[1 + j]));
            assert(raw.take(2 + j) =~= raw.take(1 + j).push(raw[1 + j]));
            order += 1;
            j += 1;
        }
        assert(j == k);
        if self.config.include_test_strategy && order <= max {
            let ghost before = steps@;
            steps.push(
                new_step(
                    order,
                    chars_of(Self::infer_test_file(iface_s.as_str()).as_str()),
                    FileOperation::Create,
                    cat3("Add tests for feature '", &chars_of(title), "'"),
                    list2(chars_of("Cover happy path and error cases"), chars_of("Test edge cases and boundary conditions")),
                    range_vec(1, order),
                    Effort::Medium,
                    AgentRole::Tester,
                    false,
                ),
            );
            assert(steps_view(steps@) =~= steps_view(before).push(raw[1 + k]));
            order += 1;
        }
        let ghost with_tests = steps@;
        if order <= max {
            steps.push(
                new_step(
                    order,
                    Vec::new(),
                    FileOperation::Modify,
                    chars_of("Code review of all changes"),
                    list3(chars_of("Verify public API consistency"), chars_of("Check error handling is exhaustive"), chars_of("Ensure no unwrap/expect in production code")),
                    range_vec(1, order),
                    Effort::Small,
                    AgentRole::Reviewer,
                    false,
                ),
            );
            assert(steps_view(steps@) =~= steps_view(with_tests).push(raw.last()));
        }
        assert(steps_view(steps@) =~= raw);
        let r = self.finalize_plan(title, TaskType::Feature, chars_of(description), steps);
        proof {
            lemma_views_cap(steps@, max as int);
        }
        r
    }
    /// Plan a bug fix (see [`bugfix_steps`] and [`plan_finished`]).
    pub fn plan_bugfix(&self, title: &str, error_message: &str, affected_files: &[&str]) -> (r: ImplementationPlan)
        requires
            affected_files.len() <= isize::MAX,
        ensures
            steps_view(r.steps@) == cap(
                bugfix_steps(self.config, error_message@, strs(affected_files@)),
                self.config.max_steps as int,
            ),
            plan_finished(self.config, r, title@, TaskType::BugFix, bugfix_description(error_message@)),
    {
        let ghost files = strs(affected_files@);
        let ghost raw = bugfix_steps(self.config, error_message@, files);
        let max = self.config.max_steps;
        let err = chars_of(error_message);
        let description = cat("Fix: ", &err);
        let primary = if affected_files.len() > 0 {
            chars_of(affected_files[0])
        } else {
            chars_of("unknown")
        };
        let primary_s = crate::text::string_of(&primary);
        let mut steps: Vec<PlanStep> = Vec::new();
        steps.push(
            new_step(
                1,
                chars_of(primary_s.as_str()),
                FileOperation::Modify,
                cat("Investigate root cause in ", &primary),
                list3(cat("Reproduce the error: ", &err), chars_of("Add logging or debug prints to narrow down the issue"), chars_of("Identify the exact line / condition that triggers the bug")),
                Vec::new(),
                Effort::Small,
                AgentRole::Debugger,
                false,
            ),
        );
        assert(steps_view(steps@) =~= raw.take(1));
        let effort = Self::estimate_step_effort(&FileOperation::Modify, crate::text::string_of(&description).as_str());
        let ghost k = fitted(files.len() as int, max as int, 2);
        let mut order: usize = 2;
        let mut j: usize = 0;
        while j < affected_files.len() && order <= max
            invariant
                files == strs(affected_files@),
                raw == bugfix_steps(self.config, error_message@, files),
                max == self.config.max_steps,
                affected_files.len() <= isize::MAX,
                effort == effort_of(FileOperation::Modify, words(bugfix_description(error_message@)).len()),
                k == fitted(files.len() as int, max as int, 2),
                order == j + 2,
                j <= affected_files.len(),
                j <= k,
                steps_view(steps@) == raw.take(1 + j),
            decreases affected_files.len() - j,
        {
            let f = chars_of(affected_files[j]);
            let ghost before = steps@;
            steps.push(
                new_step(
                    order,
                    chars_of(affected_files[j]),
                    FileOperation::Modify,
                    cat("Apply fix in ", &f),
                    list3(chars_of("Fix the identified root cause"), chars_of("Handle edge cases that were missed"), chars_of("Remove any debug logging added during investigation")),
                    one(1),
                    effort,
                    AgentRole::Implementer,
                    false,
                ),
            );
            assert(steps_view(steps@) =~= steps_view(before).push(raw[1 + j]));
            assert(raw.take(2 + j) =~= raw.take(1 + j).push(raw[1 + j]));
            order += 1;
            j += 1;
        }
        assert(j == k);
        if self.config.include_test_strategy && order <= max {
            let ghost before = steps@;
            steps.push(
                new_step(
                    order,
                    chars_of(Self::infer_test_file(primary_s.as_str()).as_str()),
                    FileOperation::Modify,
                    chars_of("Add regression test for the bug"),
                    list2(cat("Write a test that reproduces: ", &err), chars_of("Verify the fix resolves the issue")),
                    range_vec(2, order),
                    Effort::Small,
                    AgentRole::Tester,
                    false,
                ),
            );
            assert(steps_view(steps@) =~= steps_view(before).push(raw[1 + k]));
            order += 1;
        }
        let ghost with_tests = steps@;
        if order <= max {
            steps.push(
                new_step(
                    order,
                    Vec::new(),
                    FileOperation::Modify,
                    chars_of("Review the bug fix"),
                    list2(chars_of("Verify the fix is minimal and correct"), chars_of("Ensure no regressions in adjacent code")),
                    range_vec(1, order),
                    Effort::Small,
                    AgentRole::Reviewer,
                    false,
                ),
            );
            assert(steps_view(steps@) =~= steps_view(with_tests).push(raw.last()));
        }
        assert(steps_view(steps@) =~= raw);
        let r = self.finalize_plan(title, TaskType::BugFix, description, steps);
        proof {
            lemma_views_cap(steps@, max as int);
        }
        r
    }

    /// Plan a refactoring (see [`refactor_steps`] and [`plan_finished`]).
    pub fn plan_refactor(&self, title: &str, target: &str, goal: &str, affected_files: &[&str]) -> (r: ImplementationPlan)
        requires
            affected_files.len() <= isize::MAX,
        ensures
            steps_view(r.steps@) == cap(
                refactor_steps(self.config, target@, goal@, strs(affected_files@)),
                self.config.max_steps as int,
            ),
            plan_finished(self.config, r, title@, TaskType::Refactor, refactor_description(target@, goal@)),
    {
        let ghost files = strs(affected_files@);
        let ghost raw = refactor_steps(self.config, target@, goal@, files);
        let max = self.config.max_steps;
        let tc = chars_of(target);
        let gc = chars_of(goal);
        let mut description = cat3("Refactor ", &tc, ": ");
        push_chars(&mut description, &gc);
        let mut steps: Vec<PlanStep> = Vec::new();
        steps.push(
            new_step(
                1,
                chars_of(target),
                FileOperation::Modify,
                cat("Identify refactoring scope in ", &tc),
                list3(cat("Goal: ", &gc), chars_of("Map all usages of the target across the codebase"), chars_of("Determine which files will need corresponding updates")),
                Vec::new(),
                Effort::Small,
                AgentRole::Architect,
                false,
            ),
        );
        assert(steps_view(steps@) =~= raw.take(1));
        let effort = Self::estimate_step_effort(&FileOperation::Modify, crate::text::string_of(&description).as_str());
        let ghost k = fitted(files.len() as int, max as int, 2);
        let mut order: usize = 2;
        let mut j: usize = 0;
        while j < affected_files.len() && order <= max
            invariant
                files == strs(affected_files@),
                raw == refactor_steps(self.config, target@, goal@, files),
                max == self.config.max_steps,
                affected_files.len() <= isize::MAX,
                tc@ == target@,
                gc@ == goal@,
                effort == effort_of(FileOperation::Modify, words(refactor_description(target@, goal@)).len()),
                k == fitted(files.len() as int, max as int, 2),
                order == j + 2,
                j <= affected_files.len(),
                j <= k,
                steps_view(steps@) == raw.take(1 + j),
            decreases affected_files.len() - j,
        {
            let f = chars_of(affected_files[j]);
            let is_target = crate::text::chars_eq(&f, &tc);
            let ghost before = steps@;
            let step = if is_target {
                new_step(
                    order,
                    chars_of(affected_files[j]),
                    FileOperation::Modify,
                    cat("Apply refactoring to primary target: ", &f),
                    list2(cat("Refactor according to goal: ", &gc), chars_of("Preserve external behavior")),
                    one(1),
                    effort,
                    AgentRole::Implementer,
                    true,
                )
            } else {
                new_step(
                    order,
                    chars_of(affected_files[j]),
                    FileOperation::Modify,
                    cat("Update references in ", &f),
                    list2(chars_of("Update imports and references to match refactored code"), chars_of("Verify compilation after changes")),
                    one(1),
                    effort,
                    AgentRole::Implementer,
                    false,
                )
            };
            steps.push(step);
            assert(steps_view(steps@) =~= steps_view(before).push(raw[1 + j]));
            assert(raw.take(2 + j) =~= raw.take(1 + j).push(raw[1 + j]));
            order += 1;
            j += 1;
        }
        assert(j == k);
        if self.config.include_test_strategy && order <= max {
            let ghost before = steps@;
            steps.push(
                new_step(
                    order,
                    chars_of(Self::infer_test_file(target).as_str()),
                    FileOperation::Modify,
                    chars_of("Update tests after refactoring"),
                    list2(chars_of("Update test imports and assertions to reflect the refactored API"), chars_of("Add tests for any new abstractions introduced")),
                    range_vec(2, order),
                    Effort::Medium,
                    AgentRole::Tester,
                    false,
                ),
            );
            assert(steps_view(steps@) =~= steps_view(before).push(raw[1 + k]));
            order += 1;
        }
        let ghost with_tests = steps@;
        if order <= max {
            steps.push(
                new_step(
                    order,
                    Vec::new(),
                    FileOperation::Modify,
                    chars_of("Review refactoring changes"),
                    list3(chars_of("Verify behavior is preserved"), chars_of("Check for dead code left behind"), chars_of("Ensure naming consistency")),
                    range_vec(1, order),
                    Effort::Small,
                    AgentRole::Reviewer,
                    false,
                ),
            );
            assert(steps_view(steps@) =~= steps_view(with_tests).push(raw.last()));
        }
        assert(steps_view(steps@) =~= raw);
        let r = self.finalize_plan(title, TaskType::Refactor, description, steps);
        proof {
            lemma_views_cap(steps@, max as int);
        }
        r
    }

    /// Plan test coverage for source files (see [`tests_steps`] and
    /// [`plan_finished`]).
    pub fn plan_tests(&self, title: &str, source_files: &[&str]) -> (r: ImplementationPlan)
        requires
            source_files.len() <= isize::MAX,
        ensures
            steps_view(r.steps@) == cap(tests_steps(self.config, strs(source_files@)), self.config.max_steps as int),
            plan_finished(self.config, r, title@, TaskType::AddTests, tests_description(source_files@.len())),
    {
        let ghost files = strs(source_files@);
        let ghost raw = tests_steps(self.config, files);
        let max = self.config.max_steps;
        let mut steps: Vec<PlanStep> = Vec::new();
        let ghost k = fitted(files.len() as int, max as int, 1);
        let mut order: usize = 1;
        let mut j: usize = 0;
        assert(steps_view(steps@) =~= raw.take(0));
        while j < source_files.len() && order <= max
            invariant
                files == strs(source_files@),
                raw == tests_steps(self.config, files),
                max == self.config.max_steps,
                source_files.len() <= isize::MAX,
                k == fitted(files.len() as int, max as int, 1),
                order == j + 1,
                j <= source_files.len(),
                j <= k,
                steps_view(steps@) == raw.take(j as int),
            decreases source_files.len() - j,
        {
            let f = chars_of(source_files[j]);
            let ghost before = steps@;
            steps.push(
                new_step(
                    order,
                    chars_of(Self::infer_test_file(source_files[j]).as_str()),
                    FileOperation::Create,
                    cat("Write tests for ", &f),
                    list4(cat("Read and understand the public API of ", &f), chars_of("Write unit tests for each public function and method"), chars_of("Cover edge cases: empty inputs, boundary values, error paths"), chars_of("Use descriptive test names that explain the scenario")),
                    Vec::new(),
                    Effort::Medium,
                    AgentRole::Tester,
                    false,
                ),
            );
            assert(steps_view(steps@) =~= steps_view(before).push(raw[j as int]));
            assert(raw.take(j + 1) =~= raw.take(j as int).push(raw[j as int]));
            order += 1;
            j += 1;
        }
        assert(j == k);
        let ghost writes = steps@;
        if order <= max {
            steps.push(
                new_step(
                    order,
                    Vec::new(),
                    FileOperation::Modify,
                    chars_of("Run test suite and verify coverage"),
                    list2(chars_of("Run `cargo test` and verify all tests pass"), chars_of("Check coverage report if available")),
                    range_vec(1, order),
                    Effort::Small,
                    AgentRole::Tester,
                    false,
                ),
            );
            assert(steps_view(steps@) =~= steps_view(writes).push(raw.last()));
        }
        assert(steps_view(steps@) =~= raw);
        let description = cat3("Add test coverage for ", &decimal_chars(source_files.len()), " source file(s)");
        let r = self.finalize_plan(title, TaskType::AddTests, description, steps);
        proof {
            lemma_views_cap(steps@, max as int);
        }
        r
    }
}

} // verus!
