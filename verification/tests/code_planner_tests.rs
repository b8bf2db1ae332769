use argentor_agent::code_planner::{
    AgentRole, CodePlanner, Effort, FileOperation, ImplementationPlan, PlanStep, PlannerConfig, RiskAssessment,
    RiskLevel, TaskType, TestStrategy,
};

fn single_step(file: &str, operation: FileOperation, description: &str, effort: Effort, role: AgentRole, breaks_api: bool) -> PlanStep {
    PlanStep {
        order: 1,
        file: file.into(),
        operation,
        description: description.into(),
        instructions: vec![],
        depends_on: vec![],
        effort,
        assigned_role: role,
        breaks_api,
    }
}

#[test]
fn test_infer_task_type_feature() {
    assert_eq!(CodePlanner::infer_task_type("Add new dashboard widget"), TaskType::Feature);
    assert_eq!(CodePlanner::infer_task_type("Implement user profile page"), TaskType::Feature);
}

#[test]
fn test_infer_task_type_bugfix() {
    assert_eq!(CodePlanner::infer_task_type("Fix login error"), TaskType::BugFix);
    assert_eq!(CodePlanner::infer_task_type("Bug in payment processing"), TaskType::BugFix);
    assert_eq!(CodePlanner::infer_task_type("Application crashes on startup"), TaskType::BugFix);
}

#[test]
fn test_infer_task_type_refactor() {
    assert_eq!(CodePlanner::infer_task_type("Refactor database layer"), TaskType::Refactor);
    assert_eq!(CodePlanner::infer_task_type("Rename UserService to AccountService"), TaskType::Refactor);
    assert_eq!(CodePlanner::infer_task_type("Extract common utilities"), TaskType::Refactor);
}

#[test]
fn test_infer_task_type_security() {
    assert_eq!(CodePlanner::infer_task_type("Fix security vulnerability"), TaskType::SecurityFix);
    assert_eq!(CodePlanner::infer_task_type("Harden authentication"), TaskType::SecurityFix);
    assert_eq!(CodePlanner::infer_task_type("Patch CVE-2024-1234"), TaskType::SecurityFix);
}

#[test]
fn test_assign_role_test_file() {
    assert_eq!(CodePlanner::assign_role(&FileOperation::Modify, "src/auth_test.rs"), AgentRole::Tester);
    assert_eq!(CodePlanner::assign_role(&FileOperation::Modify, "test_utils.rs"), AgentRole::Tester);
    assert_eq!(CodePlanner::assign_role(&FileOperation::Create, "app.spec.ts"), AgentRole::Tester);
}

#[test]
fn test_assign_role_security_file() {
    assert_eq!(CodePlanner::assign_role(&FileOperation::Modify, "src/security/auth.rs"), AgentRole::SecurityAuditor);
    assert_eq!(CodePlanner::assign_role(&FileOperation::Modify, "crypto_utils.rs"), AgentRole::SecurityAuditor);
}

#[test]
fn test_assign_role_devops_file() {
    assert_eq!(CodePlanner::assign_role(&FileOperation::Modify, "Dockerfile"), AgentRole::DevOps);
    assert_eq!(CodePlanner::assign_role(&FileOperation::Modify, "deploy/helm/values.yaml"), AgentRole::DevOps);
    assert_eq!(CodePlanner::assign_role(&FileOperation::Modify, ".github/workflows/ci.yml"), AgentRole::DevOps);
}

#[test]
fn test_assign_role_docs_file() {
    assert_eq!(CodePlanner::assign_role(&FileOperation::Modify, "README.md"), AgentRole::Documenter);
    assert_eq!(CodePlanner::assign_role(&FileOperation::Create, "docs/api.md"), AgentRole::Documenter);
}

#[test]
fn test_assess_risk_low() {
    let planner = CodePlanner::new();
    let steps = vec![single_step("src/new_feature.rs", FileOperation::Create, "Create a new utility file", Effort::Small, AgentRole::Implementer, false)];
    let risk = planner.assess_risk(&steps);
    assert_eq!(risk.level, RiskLevel::Low);
}

#[test]
fn test_assess_risk_high_delete() {
    let planner = CodePlanner::new();
    let steps = vec![single_step("src/old_module.rs", FileOperation::Delete, "Remove deprecated module", Effort::Small, AgentRole::Architect, false)];
    let risk = planner.assess_risk(&steps);
    assert_eq!(risk.level, RiskLevel::High);
}

#[test]
fn test_assess_risk_high_api_change() {
    let planner = CodePlanner::new();
    let steps = vec![single_step("src/api.rs", FileOperation::Modify, "Change public function signature", Effort::Medium, AgentRole::Implementer, true)];
    let risk = planner.assess_risk(&steps);
    assert_eq!(risk.level, RiskLevel::High);
}

#[test]
fn test_estimate_effort() {
    assert_eq!(CodePlanner::estimate_step_effort(&FileOperation::Delete, "Remove unused file"), Effort::Small);
    assert_eq!(
        CodePlanner::estimate_step_effort(&FileOperation::Rename { new_path: "new.rs".into() }, "Rename module"),
        Effort::Small
    );
    assert_eq!(
        CodePlanner::estimate_step_effort(&FileOperation::Create, "Create a new file with some code"),
        Effort::Medium
    );
    let long_desc = "word ".repeat(35);
    assert_eq!(CodePlanner::estimate_step_effort(&FileOperation::Create, &long_desc), Effort::Large);
}

#[test]
fn test_planner_config_defaults() {
    let config = PlannerConfig::default();
    assert_eq!(config.max_steps, 20);
    assert!(config.include_rollback);
    assert!(config.include_test_strategy);
    let planner = CodePlanner::new();
    assert_eq!(planner.config.max_steps, 20);
}

#[test]
fn assign_role_defaults_by_operation() {
    assert_eq!(CodePlanner::assign_role(&FileOperation::Delete, "src/lib.rs"), AgentRole::Architect);
    assert_eq!(CodePlanner::assign_role(&FileOperation::Create, "src/widget.rs"), AgentRole::Implementer);
    assert_eq!(CodePlanner::assign_role(&FileOperation::Create, "src/lib.rs"), AgentRole::Architect);
}

#[test]
fn total_effort_of_no_steps_is_small() {
    let planner = CodePlanner::new();
    assert_eq!(planner.estimate_total_effort(&[]), Effort::Small);
}

fn bare_step(order: usize, file: &str, description: &str, depends_on: Vec<usize>) -> PlanStep {
    PlanStep {
        order,
        file: file.into(),
        operation: FileOperation::Create,
        description: description.into(),
        instructions: vec![],
        depends_on,
        effort: Effort::Small,
        assigned_role: AgentRole::Implementer,
        breaks_api: false,
    }
}

fn bare_plan(title: &str, description: &str, steps: Vec<PlanStep>, affected_files: Vec<String>) -> ImplementationPlan {
    ImplementationPlan {
        title: title.into(),
        task_type: TaskType::Feature,
        description: description.into(),
        steps,
        affected_files,
        risk: RiskAssessment { level: RiskLevel::Low, factors: vec![], mitigations: vec![] },
        total_effort: Effort::Small,
        test_strategy: TestStrategy { test_types: vec![], test_files: vec![], coverage_target: None, manual_checks: vec![] },
        rollback: String::new(),
    }
}

#[test]
fn test_plan_feature_basic() {
    let planner = CodePlanner::new();
    let plan = planner.plan_feature("Add retry logic", "Implement retries for HTTP", &[]);
    assert_eq!(plan.task_type, TaskType::Feature);
    assert!(!plan.steps.is_empty());
    assert_eq!(plan.title, "Add retry logic");
}

#[test]
fn test_plan_feature_with_tests() {
    let planner = CodePlanner::new();
    let plan = planner.plan_feature("Add caching", "Add response caching layer", &["src/http.rs"]);
    assert!(plan.steps.len() >= 3);
    let has_tester = plan.steps.iter().any(|s| s.assigned_role == AgentRole::Tester);
    assert!(has_tester, "Feature plan should include a testing step");
}

#[test]
fn test_plan_bugfix() {
    let planner = CodePlanner::new();
    let plan = planner.plan_bugfix(
        "Fix null pointer",
        "NullPointerException in UserService.getUser()",
        &["src/user_service.rs"],
    );
    assert_eq!(plan.task_type, TaskType::BugFix);
    assert!(plan.steps.len() >= 3, "Bug fix should have investigate, fix, test, and review steps");
    let has_debugger = plan.steps.iter().any(|s| s.assigned_role == AgentRole::Debugger);
    assert!(has_debugger, "Bug fix should include an investigation step");
}

#[test]
fn test_plan_refactor() {
    let planner = CodePlanner::new();
    let plan = planner.plan_refactor(
        "Extract HTTP module",
        "src/main.rs",
        "Move HTTP logic to its own module",
        &["src/main.rs", "src/lib.rs"],
    );
    assert_eq!(plan.task_type, TaskType::Refactor);
    assert!(!plan.steps.is_empty());
    let has_architect = plan.steps.iter().any(|s| s.assigned_role == AgentRole::Architect);
    assert!(has_architect, "Refactor should include architecture analysis");
}

#[test]
fn test_plan_tests() {
    let planner = CodePlanner::new();
    let plan = planner.plan_tests("Add tests for auth module", &["src/auth.rs", "src/session.rs"]);
    assert_eq!(plan.task_type, TaskType::AddTests);
    assert!(plan.steps.len() >= 2);
    assert!(plan.steps.iter().all(|s| s.assigned_role == AgentRole::Tester));
}

#[test]
fn test_validate_plan_valid() {
    let planner = CodePlanner::new();
    let plan = planner.plan_feature("Test feature", "A simple feature", &["src/main.rs"]);
    let result = planner.validate_plan(&plan);
    assert!(result.is_ok(), "Valid plan should pass validation: {result:?}");
}

#[test]
fn test_validate_plan_cycle_detection() {
    let planner = CodePlanner::new();
    let plan = bare_plan(
        "Cyclic plan",
        "A plan with cycles",
        vec![bare_step(1, "a.rs", "Step 1", vec![2]), bare_step(2, "b.rs", "Step 2", vec![1])],
        vec!["a.rs".into(), "b.rs".into()],
    );
    let result = planner.validate_plan(&plan);
    assert!(result.is_err(), "Plan with cycles should fail validation");
    assert!(result.unwrap_err().contains("Cycle"), "Error should mention cycle");
}

#[test]
fn test_validate_plan_missing_dependency() {
    let planner = CodePlanner::new();
    let plan = bare_plan(
        "Missing dep",
        "A plan with missing dependency",
        vec![bare_step(1, "a.rs", "Step 1", vec![99])],
        vec!["a.rs".into()],
    );
    let result = planner.validate_plan(&plan);
    assert!(result.is_err(), "Plan with missing dependency should fail");
    assert!(result.unwrap_err().contains("does not exist"));
}

#[test]
fn test_parallelizable_steps() {
    let planner = CodePlanner::new();
    let plan = bare_plan(
        "Parallel test",
        "Test parallelism",
        vec![
            bare_step(1, "a.rs", "Step 1", vec![]),
            bare_step(2, "b.rs", "Step 2", vec![]),
            bare_step(3, "c.rs", "Step 3 (depends on 1 and 2)", vec![1, 2]),
        ],
        vec!["a.rs".into(), "b.rs".into(), "c.rs".into()],
    );
    let waves = planner.parallelizable_steps(&plan);
    assert_eq!(waves.len(), 2, "Should have 2 waves: [1,2] then [3]");
    assert_eq!(waves[0], vec![1, 2]);
    assert_eq!(waves[1], vec![3]);
}

#[test]
fn test_format_as_markdown() {
    let planner = CodePlanner::new();
    let plan = planner.plan_feature("Markdown test", "Test markdown generation", &[]);
    let md = planner.format_as_markdown(&plan);
    assert!(md.contains("# Markdown test"), "Should contain title");
    assert!(md.contains("**Type:** Feature"), "Should contain task type");
    assert!(md.contains("## Steps"), "Should contain steps section");
    assert!(md.contains("## Risk Assessment"), "Should contain risk section");
}

#[test]
fn test_step_prompt() {
    let planner = CodePlanner::new();
    let plan = planner.plan_feature("Prompt test", "Test prompt generation", &[]);
    let prompt = planner.step_prompt(&plan, 0);
    assert!(prompt.contains("Prompt test"), "Should contain plan title");
    assert!(prompt.contains("## Instructions"), "Should contain instructions");
    assert!(prompt.contains("## Constraints"), "Should contain constraints");
    assert!(prompt.contains(".unwrap()"), "Should mention unwrap constraint");
    let error_prompt = planner.step_prompt(&plan, 999);
    assert!(error_prompt.contains("Error"), "Should return error for invalid index");
}

#[test]
fn feature_plan_has_expected_steps() {
    let planner = CodePlanner::new();
    let plan = planner.plan_feature("Add caching", "Add response caching layer", &["src/http.rs"]);
    assert_eq!(plan.steps.len(), 4);
    assert_eq!(plan.steps[0].file, "src/add_response_caching.rs");
    assert_eq!(plan.steps[0].operation, FileOperation::Create);
    assert_eq!(plan.steps[1].file, "src/http.rs");
    assert_eq!(plan.steps[1].depends_on, vec![1]);
    assert_eq!(plan.steps[2].file, "tests/add_response_caching_test.rs");
    assert_eq!(plan.steps[2].depends_on, vec![1, 2]);
    assert_eq!(plan.steps[3].assigned_role, AgentRole::Reviewer);
    assert_eq!(plan.steps[3].depends_on, vec![1, 2, 3]);
    assert_eq!(plan.affected_files, vec!["src/add_response_caching.rs", "src/http.rs", "tests/add_response_caching_test.rs"]);
    assert_eq!(plan.test_strategy.coverage_target, Some(80));
    assert_eq!(plan.test_strategy.test_types, vec!["unit", "integration"]);
}

#[test]
fn max_steps_cuts_plans_off() {
    let planner = CodePlanner::with_config(PlannerConfig { max_steps: 2, include_rollback: false, include_test_strategy: true });
    let plan = planner.plan_bugfix("Fix", "boom", &["a.rs", "b.rs", "c.rs"]);
    assert_eq!(plan.steps.len(), 2);
    assert_eq!(plan.description, "Fix: boom");
    assert_eq!(plan.rollback, "");
    let none = CodePlanner::with_config(PlannerConfig { max_steps: 0, include_rollback: true, include_test_strategy: true });
    assert!(none.plan_feature("x", "y", &[]).steps.is_empty());
}

#[test]
fn validation_messages_are_exact() {
    let planner = CodePlanner::new();
    let missing = bare_plan("m", "d", vec![bare_step(1, "a.rs", "Step 1", vec![99])], vec![]);
    assert_eq!(planner.validate_plan(&missing).unwrap_err(), "Step 1 depends on step 99, which does not exist");
    let own = bare_plan("m", "d", vec![bare_step(4, "a.rs", "Step 4", vec![4])], vec![]);
    assert_eq!(planner.validate_plan(&own).unwrap_err(), "Step 4 depends on itself");
    let twice = bare_plan("m", "d", vec![bare_step(1, "a.rs", "A", vec![]), bare_step(1, "b.rs", "B", vec![])], vec![]);
    assert_eq!(planner.validate_plan(&twice).unwrap_err(), "Cycle detected in step dependencies");
}

#[test]
fn waves_skip_blocked_steps() {
    let planner = CodePlanner::new();
    let plan = bare_plan(
        "w",
        "d",
        vec![
            bare_step(3, "a.rs", "A", vec![]),
            bare_step(1, "b.rs", "B", vec![3]),
            bare_step(2, "c.rs", "C", vec![9]),
        ],
        vec![],
    );
    let waves = planner.parallelizable_steps(&plan);
    assert_eq!(waves, vec![vec![3], vec![1]]);
}

#[test]
fn test_files_and_prompts() {
    assert_eq!(CodePlanner::infer_test_file(""), "tests/test.rs");
    assert_eq!(CodePlanner::infer_test_file("src/net/http.rs"), "tests/net/http_test.rs");
    assert_eq!(CodePlanner::infer_test_file("lib/tests_util.py"), "lib/tests_util.py");
    assert_eq!(CodePlanner::infer_test_file("pkg/main.rs.rs"), "tests/main_test.rs");
    let planner = CodePlanner::new();
    let plan = planner.plan_feature("Prompt test", "Test prompt generation", &[]);
    assert_eq!(planner.step_prompt(&plan, 7), "Error: step index 7 is out of range (plan has 3 steps)");
    let prompt = planner.step_prompt(&plan, 1);
    assert!(prompt.contains("## Prerequisites"));
    assert!(prompt.contains("- Step 1: Define interfaces and types for: Prompt test\n"));
}

#[test]
fn markdown_and_labels() {
    let planner = CodePlanner::new();
    let plan = planner.plan_feature("Cache", "Add response caching layer", &["src/http.rs"]);
    let md = planner.format_as_markdown(&plan);
    assert!(md.contains("**Coverage target:** 80%"));
    assert!(md.contains("## Rollback\n\nTo rollback this change:\n\n1. `git revert <commit-hash>` to revert all changes.\n2. Delete newly created files: src/add_response_caching.rs, tests/add_response_caching_test.rs\n"));
    assert_eq!(TaskType::BugFix.to_string(), "Bug Fix");
    assert_eq!(FileOperation::Rename { new_path: "b.rs".into() }.to_string(), "Rename → b.rs");
    assert_eq!(Effort::Medium.to_string(), "Medium (20-100 lines)");
    assert_eq!(AgentRole::SecurityAuditor.to_string(), "Security Auditor");
    assert_eq!(RiskLevel::Critical.to_string(), "Critical");
}
