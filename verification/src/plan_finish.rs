//! Finishing a plan: the steps as plain values, the test strategy, the
//! rollback instructions and the affected files that a plan's steps imply.
use vstd::prelude::*;
use crate::code_planner::{AgentRole, CodePlanner, Effort, FileOperation, ImplementationPlan, PlanStep, PlannerConfig, TaskType, TestStrategy, factors_view, reported_factors, risk_level, risk_mitigations, texts, total_effort};
use crate::text::{chars_of, string_of, contains, contains_str, spec_to_lowercase, to_lowercase, join, push_chars, push_str, chars_eq};
use crate::diff_lines::lines_view;

verus! {

/// A plan step as plain values.
pub struct StepView {
    pub order: int,
    pub file: Seq<char>,
    pub operation: FileOperation,
    pub description: Seq<char>,
    pub instructions: Seq<Seq<char>>,
    pub depends_on: Seq<usize>,
    pub effort: Effort,
    pub role: AgentRole,
    pub breaks_api: bool,
}

/// The plain values of a step.
pub open spec fn step_view(s: PlanStep) -> StepView {
    StepView {
        order: s.order as int,
        file: s.file@,
        operation: s.operation,
        description: s.description@,
        instructions: texts(s.instructions@),
        depends_on: s.depends_on@,
        effort: s.effort,
        role: s.assigned_role,
        breaks_api: s.breaks_api,
    }
}

/// The plain values of steps.
pub open spec fn steps_view(v: Seq<PlanStep>) -> Seq<StepView> {
    v.map_values(|s: PlanStep| step_view(s))
}

/// At most the first `m` elements.
pub open spec fn cap<A>(s: Seq<A>, m: int) -> Seq<A> {
    if s.len() <= m {
        s
    } else {
        s.take(m)
    }
}

/// A lower-cased file name that calls for security testing.
pub open spec fn audit_name(l: Seq<char>) -> bool {
    contains(l, "auth"@) || contains(l, "security"@)
}

/// Some step touches a file that calls for security testing.
pub open spec fn touches_audit(st: Seq<PlanStep>) -> bool {
    exists|i: int| 0 <= i < st.len() && audit_name(spec_to_lowercase(#[trigger] st[i].file@))
}

/// Some step breaks public API.
pub open spec fn any_api_break(st: Seq<PlanStep>) -> bool {
    exists|i: int| 0 <= i < st.len() && #[trigger] st[i].breaks_api
}

/// A step on a source file: a named file not handled by a tester.
pub open spec fn is_source_step(s: PlanStep) -> bool {
    s.file@.len() > 0 && s.assigned_role != AgentRole::Tester
}

/// The steps name at least two different source files.
pub open spec fn several_sources(st: Seq<PlanStep>) -> bool {
    exists|a: int, b: int|
        0 <= a < st.len() && 0 <= b < st.len() && is_source_step(#[trigger] st[a]) && is_source_step(
            #[trigger] st[b],
        ) && st[a].file@ != st[b].file@
}

/// The files of the tester steps that name one, in order.
pub open spec fn tester_files(st: Seq<PlanStep>) -> Seq<Seq<char>>
    decreases st.len(),
{
    if st.len() == 0 {
        Seq::empty()
    } else if st.last().assigned_role == AgentRole::Tester && st.last().file@.len() > 0 {
        tester_files(st.drop_last()).push(st.last().file@)
    } else {
        tester_files(st.drop_last())
    }
}

/// The kinds of tests: unit, integration with several source files,
/// security when a file calls for it.
pub open spec fn test_types_for(st: Seq<PlanStep>) -> Seq<Seq<char>> {
    seq!["unit"@] + (if several_sources(st) {
        seq!["integration"@]
    } else {
        Seq::empty()
    }) + (if touches_audit(st) {
        seq!["security"@]
    } else {
        Seq::empty()
    })
}

/// The manual checks: API compatibility when API breaks, a security audit
/// when a file calls for it.
pub open spec fn manual_checks_for(st: Seq<PlanStep>) -> Seq<Seq<char>> {
    (if any_api_break(st) {
        seq!["Verify API backward compatibility"@, "Check documentation reflects new API"@]
    } else {
        Seq::empty()
    }) + (if touches_audit(st) {
        seq!["Run security audit tools"@]
    } else {
        Seq::empty()
    })
}

/// The test strategy of a plan under its configuration: empty when test
/// strategies are off; otherwise the test kinds, tester files, an 80%
/// coverage target when there are tester files, and the manual checks.
pub open spec fn strategy_is(cfg: PlannerConfig, t: TestStrategy, st: Seq<PlanStep>) -> bool {
    if cfg.include_test_strategy {
        &&& texts(t.test_types@) == test_types_for(st)
        &&& texts(t.test_files@) == tester_files(st)
        &&& t.coverage_target == (if tester_files(st).len() == 0 {
            None
        } else {
            Some(80u32)
        })
        &&& texts(t.manual_checks@) == manual_checks_for(st)
    } else {
        &&& t.test_types@.len() == 0
        &&& t.test_files@.len() == 0
        &&& t.coverage_target is None
        &&& t.manual_checks@.len() == 0
    }
}

/// The files of the steps with operation `op` (named or not), in order.
pub open spec fn files_with_op(st: Seq<PlanStep>, op: FileOperation) -> Seq<Seq<char>>
    decreases st.len(),
{
    if st.len() == 0 {
        Seq::empty()
    } else if st.last().operation == op {
        files_with_op(st.drop_last(), op).push(st.last().file@)
    } else {
        files_with_op(st.drop_last(), op)
    }
}

/// One rollback line for each renaming step, in order.
pub open spec fn rename_lines(st: Seq<PlanStep>) -> Seq<Seq<char>>
    decreases st.len(),
{
    if st.len() == 0 {
        Seq::empty()
    } else {
        match st.last().operation {
            FileOperation::Rename { new_path } => rename_lines(st.drop_last()).push(
                "3. Rename `"@ + new_path@ + "` back to `"@ + st.last().file@ + "`."@,
            ),
            _ => rename_lines(st.drop_last()),
        }
    }
}

/// The lines of the rollback instructions.
pub open spec fn rollback_lines(st: Seq<PlanStep>) -> Seq<Seq<char>> {
    let created = files_with_op(st, FileOperation::Create);
    let deleted = files_with_op(st, FileOperation::Delete);
    seq!["To rollback this change:"@, Seq::empty(), "1. `git revert <commit-hash>` to revert all changes."@]
        + (if created.len() > 0 {
        seq!["2. Delete newly created files: "@ + join(created, ", "@)]
    } else {
        Seq::empty()
    }) + rename_lines(st) + (if deleted.len() > 0 {
        seq!["4. Restore deleted files from git: `git checkout HEAD -- "@ + join(deleted, " "@) + "`"@]
    } else {
        Seq::empty()
    })
}

/// The rollback instructions: their lines joined by newlines.
pub open spec fn rollback_text(st: Seq<PlanStep>) -> Seq<char> {
    join(rollback_lines(st), "\n"@)
}

/// The named files of the steps, each once, in the order they first occur.
pub open spec fn affected(st: Seq<PlanStep>) -> Seq<Seq<char>>
    decreases st.len(),
{
    if st.len() == 0 {
        Seq::empty()
    } else {
        let prev = affected(st.drop_last());
        let f = st.last().file@;
        if f.len() == 0 || prev.contains(f) {
            prev
        } else {
            prev.push(f)
        }
    }
}

/// A finished plan: its title, task type and description as given, and its
/// risk, effort, test strategy, rollback and affected files as its steps
/// imply under the configuration.
pub open spec fn plan_finished(
    cfg: PlannerConfig,
    r: ImplementationPlan,
    title: Seq<char>,
    task: TaskType,
    description: Seq<char>,
) -> bool {
    &&& r.title@ == title
    &&& r.task_type == task
    &&& r.description@ == description
    &&& r.risk.level == risk_level(r.steps@)
    &&& factors_view(r.risk.factors@) == reported_factors(r.steps@)
    &&& texts(r.risk.mitigations@) == risk_mitigations(r.steps@)
    &&& r.total_effort == total_effort(r.steps@)
    &&& strategy_is(cfg, r.test_strategy, r.steps@)
    &&& r.rollback@ == (if cfg.include_rollback {
        rollback_text(r.steps@)
    } else {
        Seq::<char>::empty()
    })
    &&& texts(r.affected_files@) == affected(r.steps@)
}

/// Strings from character vectors.
pub(crate) fn strings_of(v: &Vec<Vec<char>>) -> (r: Vec<String>)
    ensures
        texts(r@) == lines_view(v@),
{
    let mut out: Vec<String> = Vec::new();
    let mut i: usize = 0;
    while i < v.len()
        invariant
            i <= v.len(),
            texts(out@) == lines_view(v@).take(i as int),
        decreases v.len() - i,
    {
        let ghost before = out@;
        out.push(string_of(&v[i]));
        assert(texts(out@) =~= texts(before).push(v@[i as int]@));
        assert(lines_view(v@).take(i + 1) =~= lines_view(v@).take(i as int).push(v@[i as int]@));
        i += 1;
    }
    assert(lines_view(v@).take(v.len() as int) =~= lines_view(v@));
    out
}

/// A step from plain values.
pub(crate) fn new_step(
    order: usize,
    file: Vec<char>,
    operation: FileOperation,
    description: Vec<char>,
    instructions: Vec<Vec<char>>,
    depends_on: Vec<usize>,
    effort: Effort,
    role: AgentRole,
    breaks_api: bool,
) -> (r: PlanStep)
    ensures
        step_view(r) == (StepView {
            order: order as int,
            file: file@,
            operation,
            description: description@,
            instructions: lines_view(instructions@),
            depends_on: depends_on@,
            effort,
            role,
            breaks_api,
        }),
{
    PlanStep {
        order,
        file: string_of(&file),
        operation,
        description: string_of(&description),
        instructions: strings_of(&instructions),
        depends_on,
        effort,
        assigned_role: role,
        breaks_api,
    }
}

fn push_string(v: &mut Vec<String>, t: &str)
    ensures
        texts(final(v)@) == texts(old(v)@).push(t@),
{
    let ghost before = v@;
    v.push(string_of(&chars_of(t)));
    assert(texts(v@) =~= texts(before).push(t@));
}

/// Join character vectors with a separator.
fn join_texts(parts: &Vec<Vec<char>>, sep: &str) -> (r: Vec<char>)
    ensures
        r@ == join(lines_view(parts@), sep@),
{
    crate::diff_lines::join_with(parts, &chars_of(sep))
}

fn copy_chars(s: &String) -> (r: Vec<char>)
    ensures
        r@ == s@,
{
    chars_of(s.as_str())
}

impl CodePlanner {
    /// The test strategy of the steps (see [`strategy_is`], with test
    /// strategies on).
    fn generate_test_strategy(&self, steps: &[PlanStep]) -> (r: TestStrategy)
        ensures
            texts(r.test_types@) == test_types_for(steps@),
            texts(r.test_files@) == tester_files(steps@),
            r.coverage_target == (if tester_files(steps@).len() == 0 {
                None
            } else {
                Some(80u32)
            }),
            texts(r.manual_checks@) == manual_checks_for(steps@),
    {
        let ghost st = steps@;
        let mut test_files: Vec<String> = Vec::new();
        let mut first_source: Option<Vec<char>> = None;
        let mut several = false;
        let mut api = false;
        let mut audit = false;
        let mut i: usize = 0;
        while i < steps.len()
            invariant
                st == steps@,
                i <= st.len(),
                texts(test_files@) == tester_files(st.take(i as int)),
                api == any_api_break(st.take(i as int)),
                audit == touches_audit(st.take(i as int)),
                several == several_sources(st.take(i as int)),
                match first_source {
                    None => forall|a: int| 0 <= a < i ==> !is_source_step(#[trigger] st[a]),
                    Some(f) => exists|a: int| 0 <= a < i && is_source_step(#[trigger] st[a]) && st[a].file@ == f@,
                },
                !several ==> forall|a: int|
                    0 <= a < i && is_source_step(#[trigger] st[a]) ==> (first_source matches Some(f) && st[a].file@ == f@),
            decreases steps.len() - i,
        {
            let ghost prev = st.take(i as int);
            let ghost cur = st.take(i + 1);
            assert(cur.drop_last() =~= prev);
            let s = &steps[i];
            let fc = copy_chars(&s.file);
            if s.assigned_role == AgentRole::Tester && fc.len() > 0 {
                let ghost before = test_files@;
                test_files.push(string_of(&copy_chars(&s.file)));
                assert(texts(test_files@) =~= texts(before).push(s.file@));
            }
            if s.breaks_api {
                assert(cur[i as int].breaks_api);
            }
            proof {
                if !api && any_api_break(cur) {
                    let a = choose|a: int| 0 <= a < cur.len() && #[trigger] cur[a].breaks_api;
                    if a < i {
                        assert(prev[a].breaks_api);
                    }
                }
            }
            api = api || s.breaks_api;
            let lower = to_lowercase(&copy_chars(&s.file));
            let hit = contains_str(&lower, "auth") || contains_str(&lower, "security");
            if hit {
                assert(audit_name(spec_to_lowercase(cur[i as int].file@)));
            }
            proof {
                if !audit && touches_audit(cur) {
                    let a = choose|a: int| 0 <= a < cur.len() && audit_name(spec_to_lowercase(#[trigger] cur[a].file@));
                    if a < i {
                        assert(audit_name(spec_to_lowercase(prev[a].file@)));
                    }
                }
            }
            audit = audit || hit;
            if fc.len() > 0 && s.assigned_role != AgentRole::Tester {
                let f = copy_chars(&s.file);
                match &first_source {
                    None => {
                        first_source = Some(f);
                    },
                    Some(g) => {
                        if !chars_eq(g, &f) {
                            proof {
                                if !several {
                                    let a = choose|a: int| 0 <= a < i && is_source_step(#[trigger] st[a]) && st[a].file@ == g@;
                                    assert(is_source_step(cur[a]) && is_source_step(cur[i as int]));
                                }
                            }
                            several = true;
                        }
                    },
                }
            }
            proof {
                if !several && several_sources(cur) {
                    let (a, b) = choose|a: int, b: int|
                        0 <= a < cur.len() && 0 <= b < cur.len() && is_source_step(#[trigger] cur[a]) && is_source_step(
                            #[trigger] cur[b],
                        ) && cur[a].file@ != cur[b].file@;
                    assert(is_source_step(st[a]) && is_source_step(st[b]));
                }
            }
            proof {
                if several && !several_sources(cur) {
                    if several_sources(prev) {
                        let (a, b) = choose|a: int, b: int|
                            0 <= a < prev.len() && 0 <= b < prev.len() && is_source_step(#[trigger] prev[a])
                                && is_source_step(#[trigger] prev[b]) && prev[a].file@ != prev[b].file@;
                        assert(is_source_step(cur[a]) && is_source_step(cur[b]));
                    }
                }
            }
            i += 1;
        }
        assert(st.take(st.len() as int) =~= st);
        let mut test_types: Vec<String> = Vec::new();
        push_string(&mut test_types, "unit");
        if several {
            push_string(&mut test_types, "integration");
        }
        if audit {
            push_string(&mut test_types, "security");
        }
        let mut manual_checks: Vec<String> = Vec::new();
        if api {
            push_string(&mut manual_checks, "Verify API backward compatibility");
            push_string(&mut manual_checks, "Check documentation reflects new API");
        }
        if audit {
            push_string(&mut manual_checks, "Run security audit tools");
        }
        assert(texts(test_types@) =~= test_types_for(st));
        assert(texts(manual_checks@) =~= manual_checks_for(st));
        let coverage_target = if test_files.len() == 0 {
            None
        } else {
            Some(80u32)
        };
        TestStrategy { test_types, test_files, coverage_target, manual_checks }
    }

    /// The rollback instructions of the steps (see [`rollback_text`]).
    fn generate_rollback(&self, steps: &[PlanStep]) -> (r: String)
        ensures
            r@ == rollback_text(steps@),
    {
        let ghost st = steps@;
        let mut created: Vec<Vec<char>> = Vec::new();
        let mut deleted: Vec<Vec<char>> = Vec::new();
        let mut renames: Vec<Vec<char>> = Vec::new();
        let mut i: usize = 0;
        while i < steps.len()
            invariant
                st == steps@,
                i <= st.len(),
                lines_view(created@) == files_with_op(st.take(i as int), FileOperation::Create),
                lines_view(deleted@) == files_with_op(st.take(i as int), FileOperation::Delete),
                lines_view(renames@) == rename_lines(st.take(i as int)),
            decreases steps.len() - i,
        {
            let ghost prev = st.take(i as int);
            let ghost cur = st.take(i + 1);
            assert(cur.drop_last() =~= prev);
            let s = &steps[i];
            match &s.operation {
                FileOperation::Create => {
                    let ghost before = created@;
                    created.push(copy_chars(&s.file));
                    assert(lines_view(created@) =~= lines_view(before).push(s.file@));
                },
                FileOperation::Delete => {
                    let ghost before = deleted@;
                    deleted.push(copy_chars(&s.file));
                    assert(lines_view(deleted@) =~= lines_view(before).push(s.file@));
                },
                FileOperation::Rename { new_path } => {
                    let mut line = chars_of("3. Rename `");
                    push_chars(&mut line, &copy_chars(new_path));
                    push_str(&mut line, "` back to `");
                    push_chars(&mut line, &copy_chars(&s.file));
                    push_str(&mut line, "`.");
                    let ghost before = renames@;
                    renames.push(line);
                    assert(lines_view(renames@) =~= lines_view(before).push(
                        "3. Rename `"@ + new_path@ + "` back to `"@ + s.file@ + "`."@,
                    ));
                },
                FileOperation::Modify => {},
            }
            i += 1;
        }
        assert(st.take(st.len() as int) =~= st);
        let mut lines: Vec<Vec<char>> = Vec::new();
        lines.push(chars_of("To rollback this change:"));
        lines.push(Vec::new());
        lines.push(chars_of("1. `git revert <commit-hash>` to revert all changes."));
        let ghost head = lines_view(lines@);
        assert(head =~= seq!["To rollback this change:"@, Seq::<char>::empty(), "1. `git revert <commit-hash>` to revert all changes."@]);
        let ghost created_part: Seq<Seq<char>> = if created.len() > 0 {
            seq!["2. Delete newly created files: "@ + join(files_with_op(st, FileOperation::Create), ", "@)]
        } else {
            Seq::empty()
        };
        if created.len() > 0 {
            let mut line = chars_of("2. Delete newly created files: ");
            push_chars(&mut line, &join_texts(&created, ", "));
            lines.push(line);
        }
        let ghost with_created = lines_view(lines@);
        assert(with_created =~= head + created_part);
        let mut k: usize = 0;
        while k < renames.len()
            invariant
                k <= renames.len(),
                lines_view(lines@) == with_created + lines_view(renames@).take(k as int),
            decreases renames.len() - k,
        {
            let ghost before = lines@;
            let line = copy_vec(&renames[k]);
            lines.push(line);
            assert(lines_view(lines@) =~= lines_view(before).push(renames@[k as int]@));
            assert(lines_view(renames@).take(k + 1) =~= lines_view(renames@).take(k as int).push(renames@[k as int]@));
            k += 1;
        }
        assert(lines_view(renames@).take(renames.len() as int) =~= lines_view(renames@));
        let ghost with_renames = lines_view(lines@);
        let ghost deleted_part: Seq<Seq<char>> = if deleted.len() > 0 {
            seq!["4. Restore deleted files from git: `git checkout HEAD -- "@ + join(files_with_op(st, FileOperation::Delete), " "@) + "`"@]
        } else {
            Seq::empty()
        };
        if deleted.len() > 0 {
            let mut line = chars_of("4. Restore deleted files from git: `git checkout HEAD -- ");
            push_chars(&mut line, &join_texts(&deleted, " "));
            push_str(&mut line, "`");
            lines.push(line);
        }
        assert(lines_view(lines@) =~= with_renames + deleted_part);
        assert(lines_view(lines@) =~= rollback_lines(st));
        string_of(&join_texts(&lines, "\n"))
    }

    /// Finish a plan from its steps (see [`plan_finished`]): keep at most
    /// `max_steps` steps, then assess risk, effort, test strategy, rollback
    /// and affected files.
    pub(crate) fn finalize_plan(
        &self,
        title: &str,
        task_type: TaskType,
        description: Vec<char>,
        steps: Vec<PlanStep>,
    ) -> (r: ImplementationPlan)
        ensures
            r.steps@ == cap(steps@, self.config.max_steps as int),
            plan_finished(self.config, r, title@, task_type, description@),
    {
        let mut steps = steps;
        let ghost before = steps@;
        steps.truncate(self.config.max_steps);
        assert(steps@ =~= cap(before, self.config.max_steps as int));
        let risk = self.assess_risk(steps.as_slice());
        let total_effort = self.estimate_total_effort(steps.as_slice());
        let test_strategy = if self.config.include_test_strategy {
            self.generate_test_strategy(steps.as_slice())
        } else {
            TestStrategy { test_types: Vec::new(), test_files: Vec::new(), coverage_target: None, manual_checks: Vec::new() }
        };
        let rollback = if self.config.include_rollback {
            self.generate_rollback(steps.as_slice())
        } else {
            string_of(&Vec::new())
        };
        let ghost st = steps@;
        let mut affected_files: Vec<String> = Vec::new();
        let mut seen: Vec<Vec<char>> = Vec::new();
        let mut i: usize = 0;
        while i < steps.len()
            invariant
                st == steps@,
                i <= st.len(),
                lines_view(seen@) == affected(st.take(i as int)),
                texts(affected_files@) == affected(st.take(i as int)),
            decreases steps.len() - i,
        {
            let ghost prev = st.take(i as int);
            assert(st.take(i + 1).drop_last() =~= prev);
            let f = copy_chars(&steps[i].file);
            if f.len() > 0 && !has_text(&seen, &f) {
                let ghost b1 = seen@;
                let ghost b2 = affected_files@;
                seen.push(copy_vec(&f));
                affected_files.push(string_of(&f));
                assert(lines_view(seen@) =~= lines_view(b1).push(f@));
                assert(texts(affected_files@) =~= texts(b2).push(f@));
            }
            i += 1;
        }
        assert(st.take(st.len() as int) =~= st);
        ImplementationPlan {
            title: string_of(&chars_of(title)),
            task_type,
            description: string_of(&description),
            steps,
            affected_files,
            risk,
            total_effort,
            test_strategy,
            rollback,
        }
    }
}

fn copy_vec(v: &Vec<char>) -> (r: Vec<char>)
    ensures
        r@ == v@,
{
    let mut out: Vec<char> = Vec::new();
    let mut i: usize = 0;
    while i < v.len()
        invariant
            i <= v.len(),
            out@ == v@.take(i as int),
        decreases v.len() - i,
    {
        out.push(v[i]);
        assert(out@ =~= v@.take(i + 1));
        i += 1;
    }
    assert(v@.take(v.len() as int) =~= v@);
    out
}

fn has_text(v: &Vec<Vec<char>>, t: &Vec<char>) -> (r: bool)
    ensures
        r == lines_view(v@).contains(t@),
{
    let mut i: usize = 0;
    while i < v.len()
        invariant
            i <= v.len(),
            forall|k: int| 0 <= k < i ==> v@[k]@ != t@,
        decreases v.len() - i,
    {
        if chars_eq(&v[i], t) {
            assert(lines_view(v@)[i as int] == t@);
            return true;
        }
        i += 1;
    }
    false
}

} // verus!
