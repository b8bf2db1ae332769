use argentor_agent::diff_engine::{DiffConfig, DiffEngine};
use argentor_agent::diff_model::{DiffHunk, DiffLine, DiffOperation, FileDiff};
use argentor_agent::diff_plan::DiffPlan;

fn engine() -> DiffEngine {
    DiffEngine::new()
}

// ── 1. No changes ────────────────────────────────────────────────────

#[test]
fn test_generate_diff_no_changes() {
    let e = engine();
    let content = "fn main() {\n    println!(\"hello\");\n}\n";
    let diff = e.generate_diff("src/main.rs", content, content);
    assert!(diff.hunks.is_empty());
    assert_eq!(diff.additions, 0);
    assert_eq!(diff.deletions, 0);
}

// ── 2. Single line change ────────────────────────────────────────────

#[test]
fn test_generate_diff_single_line_change() {
    let e = engine();
    let old = "fn main() {\n    println!(\"hello\");\n}\n";
    let new = "fn main() {\n    println!(\"hello world\");\n}\n";
    let diff = e.generate_diff("src/main.rs", old, new);

    assert_eq!(diff.additions, 1);
    assert_eq!(diff.deletions, 1);
    assert_eq!(diff.hunks.len(), 1);
}

// ── 3. Add lines ────────────────────────────────────────────────────

#[test]
fn test_generate_diff_add_lines() {
    let e = engine();
    let old = "fn main() {\n    println!(\"hello\");\n}\n";
    let new = "fn main() {\n    println!(\"hello\");\n    eprintln!(\"debug\");\n}\n";
    let diff = e.generate_diff("src/main.rs", old, new);

    assert_eq!(diff.additions, 1);
    assert_eq!(diff.deletions, 0);
}

// ── 4. Remove lines ─────────────────────────────────────────────────

#[test]
fn test_generate_diff_remove_lines() {
    let e = engine();
    let old = "line1\nline2\nline3\nline4\n";
    let new = "line1\nline4\n";
    let diff = e.generate_diff("file.txt", old, new);

    assert_eq!(diff.deletions, 2);
    assert_eq!(diff.additions, 0);
}

// ── 5. Mixed changes ────────────────────────────────────────────────

#[test]
fn test_generate_diff_mixed_changes() {
    let e = engine();
    let old = "fn main() {\n    println!(\"hello\");\n}\n";
    let new = "fn main() {\n    println!(\"hello world\");\n    eprintln!(\"debug\");\n}\n";
    let diff = e.generate_diff("src/main.rs", old, new);

    assert!(diff.additions >= 1);
    assert!(diff.deletions >= 1 || diff.additions >= 2);
    assert!(!diff.hunks.is_empty());
}

// ── 6. Context lines ────────────────────────────────────────────────

#[test]
fn test_generate_diff_context_lines() {
    let e = engine();
    let old = "a\nb\nc\nd\ne\nf\ng\nh\n";
    let new = "a\nb\nc\nX\ne\nf\ng\nh\n";
    let diff = e.generate_diff("file.txt", old, new);

    assert_eq!(diff.hunks.len(), 1);
    // Context lines should be present around the change.
    let ctx_count = diff.hunks[0]
        .lines
        .iter()
        .filter(|l| matches!(l, DiffLine::Context(_)))
        .count();
    assert!(ctx_count > 0, "Expected context lines around the change");
}

// ── 7. Apply single change ──────────────────────────────────────────

#[test]
fn test_apply_diff_single_change() {
    let e = engine();
    let old = "fn main() {\n    println!(\"hello\");\n}\n";
    let new = "fn main() {\n    println!(\"hello world\");\n}\n";

    let diff = e.generate_diff("src/main.rs", old, new);
    let result = e.apply_diff(old, &diff);

    assert!(result.success, "Apply failed: {:?}", result.error);
    assert_eq!(result.new_content.unwrap(), new);
}

// ── 8. Apply multiple hunks ─────────────────────────────────────────

#[test]
fn test_apply_diff_multiple_hunks() {
    let e = DiffEngine::with_config(DiffConfig {
        context_lines: 1,
        minimize: true,
    });
    // Create content with changes far apart so they produce separate hunks.
    let mut old_lines = Vec::new();
    for i in 0..20 {
        old_lines.push(format!("line {i}"));
    }
    let old = old_lines.join("\n") + "\n";

    let mut new_lines = old_lines.clone();
    new_lines[2] = "CHANGED line 2".to_string();
    new_lines[17] = "CHANGED line 17".to_string();
    let new = new_lines.join("\n") + "\n";

    let diff = e.generate_diff("file.txt", &old, &new);
    assert!(
        diff.hunks.len() >= 2,
        "Expected at least 2 hunks, got {}",
        diff.hunks.len()
    );

    let result = e.apply_diff(&old, &diff);
    assert!(result.success, "Apply failed: {:?}", result.error);
    assert_eq!(result.new_content.unwrap(), new);
}

// ── 9. Apply add to empty ───────────────────────────────────────────

#[test]
fn test_apply_diff_add_to_empty() {
    let e = engine();
    let old = "";
    let new = "fn main() {\n    println!(\"hello\");\n}\n";

    let diff = e.generate_diff("new_file.rs", old, new);
    assert_eq!(diff.operation, DiffOperation::Create);

    let result = e.apply_diff(old, &diff);
    assert!(result.success);
    assert_eq!(result.new_content.unwrap(), new);
}

// ── 10. Apply delete all ────────────────────────────────────────────

#[test]
fn test_apply_diff_delete_all() {
    let e = engine();
    let old = "fn main() {\n    println!(\"hello\");\n}\n";
    let new = "";

    let diff = e.generate_diff("old_file.rs", old, new);
    assert_eq!(diff.operation, DiffOperation::Delete);

    let result = e.apply_diff(old, &diff);
    assert!(result.success);
    assert_eq!(result.new_content.unwrap(), "");
}

// ── 11. Validate clean diff ─────────────────────────────────────────

#[test]
fn test_validate_diff_clean() {
    let e = engine();
    let old = "fn main() {\n    println!(\"hello\");\n}\n";
    let new = "fn main() {\n    println!(\"hello world\");\n}\n";

    let diff = e.generate_diff("src/main.rs", old, new);
    let validation = e.validate_diff(old, &diff);

    assert!(validation.valid);
    assert!(validation.issues.is_empty());
}

// ── 12. Validate context mismatch ───────────────────────────────────

#[test]
fn test_validate_diff_context_mismatch() {
    let e = engine();
    let old = "fn main() {\n    println!(\"hello\");\n}\n";
    let new = "fn main() {\n    println!(\"hello world\");\n}\n";

    let diff = e.generate_diff("src/main.rs", old, new);

    // Validate against different content.
    let wrong = "fn other() {\n    eprintln!(\"nope\");\n}\n";
    let validation = e.validate_diff(wrong, &diff);

    assert!(!validation.valid);
    assert!(!validation.issues.is_empty());
}

// ── 13. Format unified ──────────────────────────────────────────────

#[test]
fn test_format_unified() {
    let e = engine();
    let old = "fn main() {\n    println!(\"hello\");\n}\n";
    let new = "fn main() {\n    println!(\"hello world\");\n}\n";

    let diff = e.generate_diff("src/main.rs", old, new);
    let formatted = e.format_unified(&diff);

    assert!(formatted.contains("--- a/src/main.rs"));
    assert!(formatted.contains("+++ b/src/main.rs"));
    assert!(formatted.contains("@@ "));
    assert!(formatted.contains("-    println!(\"hello\");"));
    assert!(formatted.contains("+    println!(\"hello world\");"));
}

// ── 14. Parse unified ───────────────────────────────────────────────

#[test]
fn test_parse_unified() {
    let text = "\
--- a/src/main.rs
+++ b/src/main.rs
@@ -1,3 +1,3 @@
 fn main() {
-    println!(\"hello\");
+    println!(\"hello world\");
 }
";
    let e = engine();
    let diff = e.parse_unified(text).unwrap();

    assert_eq!(diff.path, "src/main.rs");
    assert_eq!(diff.operation, DiffOperation::Modify);
    assert_eq!(diff.hunks.len(), 1);
    assert_eq!(diff.additions, 1);
    assert_eq!(diff.deletions, 1);
}

// ── 15. Roundtrip format→parse ──────────────────────────────────────

#[test]
fn test_roundtrip_format_parse() {
    let e = engine();
    let old = "line1\nline2\nline3\nline4\nline5\n";
    let new = "line1\nline2\nmodified\nline4\nline5\nextra\n";

    let diff = e.generate_diff("file.txt", old, new);
    let formatted = e.format_unified(&diff);
    let parsed = e.parse_unified(&formatted).unwrap();

    assert_eq!(parsed.path, diff.path);
    assert_eq!(parsed.additions, diff.additions);
    assert_eq!(parsed.deletions, diff.deletions);
    assert_eq!(parsed.hunks.len(), diff.hunks.len());

    // The parsed diff should also apply correctly.
    let result = e.apply_diff(old, &parsed);
    assert!(result.success, "Roundtrip apply failed: {:?}", result.error);
    assert_eq!(result.new_content.unwrap(), new);
}

// ── 16. Minimize diff ───────────────────────────────────────────────

#[test]
fn test_minimize_diff() {
    let e = engine();
    let old = "a\nb\nc\nd\ne\nf\ng\nh\n";
    let new = "a\nb\nc\nX\ne\nf\ng\nh\n";

    let normal = e.generate_diff("file.txt", old, new);
    let minimal = e.minimize_diff("file.txt", old, new);

    // The minimized diff should have fewer or equal context lines.
    let normal_ctx: usize = normal
        .hunks
        .iter()
        .flat_map(|h| h.lines.iter())
        .filter(|l| matches!(l, DiffLine::Context(_)))
        .count();
    let minimal_ctx: usize = minimal
        .hunks
        .iter()
        .flat_map(|h| h.lines.iter())
        .filter(|l| matches!(l, DiffLine::Context(_)))
        .count();

    assert!(minimal_ctx <= normal_ctx);
    // Both should still have the same actual changes.
    assert_eq!(normal.additions, minimal.additions);
    assert_eq!(normal.deletions, minimal.deletions);
}

// ── 17. Create plan with multiple files ─────────────────────────────

#[test]
fn test_create_plan_multiple_files() {
    let e = engine();
    let changes: Vec<(&str, &str, &str)> = vec![
        ("src/lib.rs", "pub mod a;\n", "pub mod a;\npub mod b;\n"),
        (
            "src/b.rs",
            "",
            "pub fn hello() {\n    println!(\"hello\");\n}\n",
        ),
    ];

    let plan = e.create_plan("Add module b", &changes);

    assert_eq!(plan.description, "Add module b");
    assert_eq!(plan.diffs.len(), 2);
    assert!(plan.total_additions >= 2);
    assert!(plan.estimated_tokens > 0);
}

// ── 18. Apply plan ──────────────────────────────────────────────────

#[test]
fn test_apply_plan() {
    let e = engine();
    let old_lib = "pub mod a;\n";
    let new_lib = "pub mod a;\npub mod b;\n";
    let old_b = "";
    let new_b = "pub fn hello() {\n    println!(\"hello\");\n}\n";

    let changes: Vec<(&str, &str, &str)> = vec![
        ("src/lib.rs", old_lib, new_lib),
        ("src/b.rs", old_b, new_b),
    ];
    let plan = e.create_plan("Add module b", &changes);

    let contents = vec![("src/lib.rs", old_lib), ("src/b.rs", old_b)];
    let results = e.apply_plan(&contents, &plan);

    assert_eq!(results.len(), 2);
    for r in &results {
        assert!(r.success, "Failed for {}: {:?}", r.path, r.error);
    }
    assert_eq!(results[0].new_content.as_deref().unwrap(), new_lib);
    assert_eq!(results[1].new_content.as_deref().unwrap(), new_b);
}

// ── 19. Estimate tokens ─────────────────────────────────────────────

#[test]
fn test_estimate_tokens() {
    let e = engine();
    let old = "fn main() {\n    println!(\"hello\");\n}\n";
    let new = "fn main() {\n    println!(\"hello world\");\n    eprintln!(\"debug\");\n}\n";

    let diff = e.generate_diff("src/main.rs", old, new);
    let tokens = e.estimate_tokens(&diff);

    assert!(tokens > 0, "Token estimate should be positive");
    // Sanity: a small diff should not be thousands of tokens.
    assert!(tokens < 500, "Token estimate too high for small diff: {tokens}");
}

// ── 20. Create operation ────────────────────────────────────────────

#[test]
fn test_diff_operation_create() {
    let e = engine();
    let diff = e.generate_diff(
        "new.rs",
        "",
        "fn new() {}\n",
    );
    assert_eq!(diff.operation, DiffOperation::Create);
    assert_eq!(diff.additions, 1);
    assert_eq!(diff.deletions, 0);
}

// ── 21. Delete operation ────────────────────────────────────────────

#[test]
fn test_diff_operation_delete() {
    let e = engine();
    let diff = e.generate_diff("old.rs", "fn old() {}\n", "");
    assert_eq!(diff.operation, DiffOperation::Delete);
    assert_eq!(diff.deletions, 1);
    assert_eq!(diff.additions, 0);
}

// ── 22. DiffLine equality ───────────────────────────────────────────

#[test]
fn test_diff_line_equality() {
    let ctx1 = DiffLine::Context("hello".to_string());
    let ctx2 = DiffLine::Context("hello".to_string());
    let add = DiffLine::Added("hello".to_string());
    let rem = DiffLine::Removed("hello".to_string());

    assert_eq!(ctx1, ctx2);
    assert_ne!(ctx1, add);
    assert_ne!(add, rem);
    assert_ne!(ctx1, rem);

    // Same variant, different content.
    let ctx3 = DiffLine::Context("world".to_string());
    assert_ne!(ctx1, ctx3);
}

#[test]
fn roundtrip_law_example_without_final_newline() {
    let e = engine();
    let old = "a\n";
    let new = "a";
    let diff = e.generate_diff("f.txt", old, new);
    let result = e.apply_diff(old, &diff);
    assert!(result.success);
    assert_eq!(result.new_content.unwrap(), "a\n");
}

#[test]
fn apply_reports_context_mismatch_message() {
    let e = engine();
    let old = "one\ntwo\nthree\n";
    let new = "one\nTWO\nthree\n";
    let diff = e.generate_diff("f.txt", old, new);
    let result = e.apply_diff("uno\ndos\ntres\n", &diff);
    assert!(!result.success);
    assert_eq!(result.error.unwrap(), "Context mismatch at hunk 0, line 0");
}

#[test]
fn hunk_header_and_line_rendering() {
    let e = engine();
    let diff = e.generate_diff("f.txt", "a\nb\n", "a\nc\n");
    let text = e.format_unified(&diff);
    assert_eq!(text, "--- a/f.txt\n+++ b/f.txt\n@@ -1,2 +1,2 @@\n a\n-b\n+c\n");
    assert_eq!(DiffLine::Added("x".to_string()).to_string(), "+x");
    assert_eq!(DiffLine::Removed("x".to_string()).to_string(), "-x");
    assert_eq!(DiffLine::Context("x".to_string()).to_string(), " x");
}

#[test]
fn parse_errors_are_reported() {
    let e = engine();
    assert_eq!(e.parse_unified("x").unwrap_err(), "Diff text too short: expected at least --- and +++ lines");
    assert_eq!(e.parse_unified("x\n+++ b/f").unwrap_err(), "Expected '--- ' prefix, got: x");
    assert_eq!(e.parse_unified("--- a/f\ny").unwrap_err(), "Expected '+++ ' prefix, got: y");
    assert_eq!(
        e.parse_unified("--- a/f\n+++ b/f\n@@ -x,1 +1,1 @@\n").unwrap_err(),
        "Bad start in @@ -x,1 +1,1 @@: invalid digit found in string"
    );
    assert_eq!(
        e.parse_unified("--- a/f\n+++ b/f\n@@ -1 @@\n").unwrap_err(),
        "Expected 2 parts in hunk header, got 1: @@ -1 @@"
    );
    assert_eq!(
        e.parse_unified("--- a/f\n+++ b/f\n@@ -1,1 +1,1 @@\n*bad\n").unwrap_err(),
        "Unexpected line prefix at line 3: \"*bad\""
    );
}

#[test]
fn parse_operations_from_paths() {
    let e = engine();
    let d = e.parse_unified("--- /dev/null\n+++ b/new.rs\n").unwrap();
    assert_eq!(d.operation, DiffOperation::Create);
    let d = e.parse_unified("--- a/old.rs\n+++ /dev/null\n").unwrap();
    assert_eq!(d.operation, DiffOperation::Delete);
    let d = e.parse_unified("--- a/x.rs\n+++ b/y.rs\n").unwrap();
    assert_eq!(d.operation, DiffOperation::Rename { from: "x.rs".to_string() });
    let d = e.parse_unified("--- a/x.rs\n+++ b/x.rs\n@@ -3 +3 @@\n-a\n+b\n").unwrap();
    assert_eq!(d.hunks[0].old_count, 1);
    assert_eq!(d.hunks[0].old_start, 3);
}

#[test]
fn validate_reports_beyond_end() {
    let e = engine();
    let diff = e.generate_diff("f.txt", "a\nb\nc\n", "a\nB\nc\n");
    let v = e.validate_diff("a\n", &diff);
    assert!(!v.valid);
    assert_eq!(v.issues.len(), 1);
    assert_eq!(v.issues[0].message, "Hunk extends beyond file end (start=0, old_count=3, file_lines=1)");
}

#[test]
fn validate_mismatch_message_quotes_lines() {
    let e = engine();
    let diff = e.generate_diff("f.txt", "a\nb\n", "a\nc\n");
    let v = e.validate_diff("a\nz\n", &diff);
    assert!(!v.valid);
    assert_eq!(v.issues[0].message, "Remove mismatch at line 1: expected \"b\", got \"z\"");
}

#[test]
fn estimate_tokens_exact_value() {
    let e = engine();
    let diff = e.generate_diff("ab", "x\n", "y\n");
    // path 2 bytes * 2 + 20 + header 30 + ("x" 1+2) + ("y" 1+2) = 60; (60 + 3) / 4 = 15
    assert_eq!(e.estimate_tokens(&diff), 15);
}

#[test]
fn minimize_has_no_context() {
    let e = engine();
    let d = e.minimize_diff("f", "a\nb\nc\n", "a\nX\nc\n");
    assert_eq!(d.hunks.len(), 1);
    assert_eq!(d.hunks[0].lines.len(), 2);
    assert_eq!(d.hunks[0].old_start, 2);
}

#[test]
fn plan_later_diffs_see_earlier_results() {
    let e = engine();
    let changes: Vec<(&str, &str, &str)> = vec![("f", "a\n", "b\n"), ("f", "b\n", "c\n")];
    let plan: DiffPlan = e.create_plan("two steps", &changes);
    let results = e.apply_plan(&[("f", "a\n")], &plan);
    assert!(results[0].success && results[1].success);
    assert_eq!(results[1].new_content.as_deref(), Some("c\n"));
}

// ── Format, then parse: a rename with two hunks ─────────────────────

#[test]
fn test_format_parse_gives_back_rename_and_hunks() {
    let e = engine();
    let diff = FileDiff {
        path: "new/name.rs".to_string(),
        operation: DiffOperation::Rename { from: "old/name.rs".to_string() },
        hunks: vec![
            DiffHunk {
                old_start: 1,
                old_count: 2,
                new_start: 1,
                new_count: 2,
                lines: vec![
                    DiffLine::Context(String::new()),
                    DiffLine::Removed("a".to_string()),
                    DiffLine::Added("b".to_string()),
                ],
            },
            DiffHunk {
                old_start: 120,
                old_count: 1,
                new_start: 121,
                new_count: 0,
                lines: vec![DiffLine::Removed("@@ not a header".to_string())],
            },
        ],
        additions: 1,
        deletions: 2,
    };
    let text = e.format_unified(&diff);
    let parsed = e.parse_unified(&text).unwrap();
    assert_eq!(parsed.path, "new/name.rs");
    assert_eq!(parsed.operation, DiffOperation::Rename { from: "old/name.rs".to_string() });
    assert_eq!(parsed.hunks.len(), 2);
    for (p, d) in parsed.hunks.iter().zip(diff.hunks.iter()) {
        assert_eq!(
            (p.old_start, p.old_count, p.new_start, p.new_count),
            (d.old_start, d.old_count, d.new_start, d.new_count)
        );
        assert_eq!(p.lines, d.lines);
    }
    assert_eq!(parsed.additions, 1);
    assert_eq!(parsed.deletions, 2);
}

#[test]
fn test_validate_two_hunk_minimal_diff() {
    let e = engine();
    let old = "a\nb\nc\nd\n";
    let new = "a\nN\nb\nc\nD\n";
    let d = e.minimize_diff("f.txt", old, new);
    assert!(d.hunks.len() >= 2);
    let applied = e.apply_diff(old, &d);
    assert!(applied.success);
    let v = e.validate_diff(old, &d);
    assert!(v.valid, "{:?}", v.issues);
    assert!(v.issues.is_empty());
}

#[test]
fn test_generated_diff_is_minimal() {
    let e = engine();
    let old = "a\nb\nc\nd\n";
    let new = "b\nc\nd\ne\n";
    let d = e.generate_diff("f.txt", old, new);
    assert_eq!(d.deletions, 1);
    assert_eq!(d.additions, 1);
    let m = e.minimize_diff("f.txt", "x\ny\nz\n", "y\nx\nz\n");
    assert_eq!(m.deletions, 1);
    assert_eq!(m.additions, 1);
}
