use argentor_agent::prompt_manager::{
    register_xcapit_templates, PromptChain, PromptError, PromptManager, PromptStore, TemplateSummary,
};
use argentor_agent::prompt_store::{PromptTemplate, TemplateVariable};
use argentor_agent::template_render::render_template;

fn vars(pairs: &[(&str, &str)]) -> Vec<(String, String)> {
    pairs.iter().map(|(k, v)| (k.to_string(), v.to_string())).collect()
}

fn basic_template() -> PromptTemplate {
    PromptTemplate::new("test1", "Test Template", "Hello {{name}}, welcome to {{place}}!")
        .with_variable(TemplateVariable::required("name"))
        .with_variable(TemplateVariable::required("place"))
}

#[test]
fn test_simple_substitution() {
    let mgr = PromptManager::new();
    mgr.register_template(basic_template());
    let result = mgr.render("test1", &vars(&[("name", "Alice"), ("place", "Wonderland")])).unwrap();
    assert_eq!(result, "Hello Alice, welcome to Wonderland!");
}

#[test]
fn test_missing_required_variable() {
    let mgr = PromptManager::new();
    mgr.register_template(basic_template());
    let err = mgr.render("test1", &vars(&[("name", "Alice")])).unwrap_err();
    assert_eq!(err, PromptError::MissingVariable("place".to_string()));
}

#[test]
fn test_default_filter() {
    let tmpl = PromptTemplate::new("d1", "Default", "Hello {{name|default:World}}!");
    let mgr = PromptManager::new();
    mgr.register_template(tmpl);
    let result = mgr.render("d1", &[]).unwrap();
    assert_eq!(result, "Hello World!");
}

#[test]
fn test_upper_filter() {
    let tmpl = PromptTemplate::new("u1", "Upper", "Region: {{region|upper}}");
    let mgr = PromptManager::new();
    mgr.register_template(tmpl);
    let result = mgr.render("u1", &vars(&[("region", "latam")])).unwrap();
    assert_eq!(result, "Region: LATAM");
}

#[test]
fn test_lower_filter() {
    let tmpl = PromptTemplate::new("l1", "Lower", "Channel: {{channel|lower}}");
    let mgr = PromptManager::new();
    mgr.register_template(tmpl);
    let result = mgr.render("l1", &vars(&[("channel", "EMAIL")])).unwrap();
    assert_eq!(result, "Channel: email");
}

#[test]
fn test_if_block_truthy() {
    let tmpl = PromptTemplate::new("if1", "IfTest", "Start{{#if flag}} VISIBLE{{/if}} End");
    let mgr = PromptManager::new();
    mgr.register_template(tmpl);
    let result = mgr.render("if1", &vars(&[("flag", "yes")])).unwrap();
    assert_eq!(result, "Start VISIBLE End");
}

#[test]
fn test_if_block_missing() {
    let tmpl = PromptTemplate::new("if2", "IfTest2", "Start{{#if flag}} HIDDEN{{/if}} End");
    let mgr = PromptManager::new();
    mgr.register_template(tmpl);
    let result = mgr.render("if2", &[]).unwrap();
    assert_eq!(result, "Start End");
}

#[test]
fn test_if_block_false_string() {
    let tmpl = PromptTemplate::new("if3", "IfTest3", "A{{#if x}} B{{/if}} C");
    let mgr = PromptManager::new();
    mgr.register_template(tmpl);
    let result = mgr.render("if3", &vars(&[("x", "false")])).unwrap();
    assert_eq!(result, "A C");
}

#[test]
fn test_each_block() {
    let tmpl = PromptTemplate::new("each1", "EachTest", "Items:{{#each items}} [{{item}}]{{/each}}");
    let mgr = PromptManager::new();
    mgr.register_template(tmpl);
    let result = mgr.render("each1", &vars(&[("items", "a,b,c")])).unwrap();
    assert_eq!(result, "Items: [a] [b] [c]");
}

#[test]
fn test_each_block_missing() {
    let tmpl = PromptTemplate::new("each2", "EachTest2", "Items:{{#each items}} [{{item}}]{{/each}} done");
    let mgr = PromptManager::new();
    mgr.register_template(tmpl);
    let result = mgr.render("each2", &[]).unwrap();
    assert_eq!(result, "Items: done");
}

#[test]
fn test_template_not_found() {
    let mgr = PromptManager::new();
    let err = mgr.render("nonexistent", &[]).unwrap_err();
    assert_eq!(err, PromptError::TemplateNotFound("nonexistent".to_string()));
}

#[test]
fn test_versioning() {
    let mgr = PromptManager::new();
    mgr.register_template(basic_template());
    let v1 = mgr.get_template("test1").unwrap();
    assert_eq!(v1.version, 1);
    let updated = PromptTemplate::new("test1", "Test v2", "Hi {{name}} at {{place}}!")
        .with_variable(TemplateVariable::required("name"))
        .with_variable(TemplateVariable::required("place"));
    mgr.register_template(updated);
    let v2 = mgr.get_template("test1").unwrap();
    assert_eq!(v2.version, 2);
    assert_eq!(v2.name, "Test v2");
}

#[test]
fn test_history() {
    let mgr = PromptManager::new();
    mgr.register_template(basic_template());
    let updated = PromptTemplate::new("test1", "Test v2", "v2 {{name}} {{place}}")
        .with_variable(TemplateVariable::required("name"))
        .with_variable(TemplateVariable::required("place"));
    mgr.register_template(updated);
    let history = mgr.get_history("test1");
    assert_eq!(history.len(), 1);
    assert_eq!(history[0].version, 1);
}

#[test]
fn test_render_version() {
    let mgr = PromptManager::new();
    mgr.register_template(PromptTemplate::new("rv", "RV", "v1: {{x}}").with_variable(TemplateVariable::required("x")));
    mgr.register_template(PromptTemplate::new("rv", "RV", "v2: {{x}}").with_variable(TemplateVariable::required("x")));
    let r1 = mgr.render_version("rv", 1, &vars(&[("x", "hello")])).unwrap();
    assert_eq!(r1, "v1: hello");
    let r2 = mgr.render_version("rv", 2, &vars(&[("x", "hello")])).unwrap();
    assert_eq!(r2, "v2: hello");
}

#[test]
fn test_render_version_not_found() {
    let mgr = PromptManager::new();
    mgr.register_template(basic_template());
    let err = mgr.render_version("test1", 99, &[]).unwrap_err();
    assert!(matches!(err, PromptError::VersionNotFound(_, 99)));
}

#[test]
fn test_list_templates() {
    let mgr = PromptManager::new();
    mgr.register_template(basic_template());
    mgr.register_template(PromptTemplate::new("t2", "T2", "content"));
    let list = mgr.list_templates();
    assert_eq!(list.len(), 2);
}

#[test]
fn test_get_template_none() {
    let mgr = PromptManager::new();
    assert!(mgr.get_template("missing").is_none());
}

#[test]
fn test_ab_variant() {
    let tmpl = PromptTemplate::new("ab", "AB", "base: {{x}}")
        .with_variant("formal", "Dear {{x}}")
        .with_variant("casual", "Hey {{x}}!")
        .with_variable(TemplateVariable::required("x"));
    let mgr = PromptManager::new();
    mgr.register_template(tmpl);
    let r = mgr.render("ab", &vars(&[("x", "Bob")])).unwrap();
    assert_eq!(r, "base: Bob");
    mgr.set_active_variant("ab", Some("formal")).unwrap();
    let r = mgr.render("ab", &vars(&[("x", "Bob")])).unwrap();
    assert_eq!(r, "Dear Bob");
    mgr.set_active_variant("ab", Some("casual")).unwrap();
    let r = mgr.render("ab", &vars(&[("x", "Bob")])).unwrap();
    assert_eq!(r, "Hey Bob!");
    mgr.set_active_variant("ab", None).unwrap();
    let r = mgr.render("ab", &vars(&[("x", "Bob")])).unwrap();
    assert_eq!(r, "base: Bob");
}

#[test]
fn test_variant_not_found() {
    let tmpl = PromptTemplate::new("vn", "VN", "content");
    let mgr = PromptManager::new();
    mgr.register_template(tmpl);
    let err = mgr.set_active_variant("vn", Some("nope")).unwrap_err();
    assert!(matches!(err, PromptError::VariantNotFound(_, _)));
}

#[test]
fn test_variable_default() {
    let tmpl = PromptTemplate::new("vd", "VD", "Hello {{name}}").with_variable(TemplateVariable::optional("name", "World"));
    let mgr = PromptManager::new();
    mgr.register_template(tmpl);
    let result = mgr.render("vd", &[]).unwrap();
    assert_eq!(result, "Hello World");
}

#[test]
fn test_chain_basic() {
    let mgr = PromptManager::new();
    mgr.register_template(
        PromptTemplate::new("step_a", "A", "Classified: {{message}}").with_variable(TemplateVariable::required("message")),
    );
    mgr.register_template(
        PromptTemplate::new("step_b", "B", "Response to: {{input}}").with_variable(TemplateVariable::required("input")),
    );
    let mut chain = PromptChain::new("test_chain");
    chain.add_step("step_a", vars(&[("message", "message")]));
    chain.add_step("step_b", vars(&[("input", "step_0_output")]));
    let outputs = chain.render(&mgr, &vars(&[("message", "help me")])).unwrap();
    assert_eq!(outputs.len(), 2);
    assert_eq!(outputs[0], "Classified: help me");
    assert_eq!(outputs[1], "Response to: Classified: help me");
}

#[test]
fn test_chain_literal() {
    let mgr = PromptManager::new();
    mgr.register_template(PromptTemplate::new("lit", "Lit", "Value: {{x}}").with_variable(TemplateVariable::required("x")));
    let mut chain = PromptChain::new("lit_chain");
    chain.add_step("lit", vars(&[("x", "literal:42")]));
    let outputs = chain.render(&mgr, &[]).unwrap();
    assert_eq!(outputs[0], "Value: 42");
}

#[test]
fn test_chain_error_propagation() {
    let mgr = PromptManager::new();
    let mut chain = PromptChain::new("bad");
    chain.add_step("missing_template", Vec::new());
    let err = chain.render(&mgr, &[]).unwrap_err();
    assert!(matches!(err, PromptError::TemplateNotFound(_)));
}

#[test]
fn test_prebuilt_sales_qualifier() {
    let mgr = PromptManager::new();
    register_xcapit_templates(&mgr);
    let result = mgr
        .render(
            "sales_qualifier_v1",
            &vars(&[("company", "Acme Corp"), ("region", "latam"), ("title", "CTO"), ("score", "85"), ("affinity", "0.92")]),
        )
        .unwrap();
    assert!(result.contains("LATAM"));
    assert!(result.contains("Acme Corp"));
    assert!(result.contains("85"));
}

#[test]
fn test_prebuilt_outreach_composer() {
    let mgr = PromptManager::new();
    register_xcapit_templates(&mgr);
    let result = mgr
        .render(
            "outreach_composer_v1",
            &vars(&[("company", "FinCo"), ("contact", "Jane"), ("channel", "EMAIL"), ("region", "EMEA"), ("score_class", "hot")]),
        )
        .unwrap();
    assert!(result.contains("email"));
    assert!(result.contains("hot"));
}

#[test]
fn test_prebuilt_support_responder() {
    let mgr = PromptManager::new();
    register_xcapit_templates(&mgr);
    let result = mgr
        .render(
            "support_responder_v1",
            &vars(&[
                ("ticket_category", "billing"),
                ("priority", "high"),
                ("customer_message", "I was double charged!"),
                ("kb_context", "Refund policy: 30 days."),
            ]),
        )
        .unwrap();
    assert!(result.contains("HIGH"));
    assert!(result.contains("Refund policy"));
}

#[test]
fn test_prebuilt_ticket_router() {
    let mgr = PromptManager::new();
    register_xcapit_templates(&mgr);
    let result = mgr.render("ticket_router_v1", &vars(&[("message", "My payment failed and I need help")])).unwrap();
    assert!(result.contains("My payment failed"));
    assert!(result.contains("category"));
}

#[test]
fn test_combined_features() {
    let tmpl = PromptTemplate::new(
        "combo",
        "Combo",
        "{{greeting|upper}} {{name|default:Guest}}! {{#if vip}}VIP access granted.{{/if}}",
    );
    let mgr = PromptManager::new();
    mgr.register_template(tmpl);
    let result = mgr.render("combo", &vars(&[("greeting", "hello"), ("vip", "true")])).unwrap();
    assert_eq!(result, "HELLO Guest! VIP access granted.");
}

#[test]
fn test_template_summary() {
    let tmpl = PromptTemplate::new("sum", "Summary Test", "content").with_tag("a").with_tag("b").with_variant("v1", "alt content");
    let summary = TemplateSummary::of(&tmpl);
    assert_eq!(summary.id, "sum");
    assert_eq!(summary.tags.len(), 2);
    assert_eq!(summary.variant_count, 1);
}

#[test]
fn test_default_manager() {
    let mgr = PromptManager::default();
    assert!(mgr.list_templates().is_empty());
}

#[test]
fn test_history_empty() {
    let mgr = PromptManager::new();
    assert!(mgr.get_history("nope").is_empty());
}

#[test]
fn render_language_edge_cases() {
    assert_eq!(render_template("{{#each xs}}<{{item}}>{{/each}}", &vars(&[("xs", " a , b ,")])), "<a><b><>");
    assert_eq!(render_template("{{#if a}}x{{/if}}{{#if b}}y{{/if}}", &vars(&[("a", "0"), ("b", "1")])), "y");
    assert_eq!(render_template("{{#if a}}open", &vars(&[("a", "1")])), "{{#if a}}open");
    assert_eq!(render_template("{{name}} {{ name }} {{}} {{x|bogus}}", &vars(&[("name", "N"), ("x", "X")])), "N {{ name }} {{}} X");
    assert_eq!(render_template("{{v|default:a:b}}", &[]), "a:b");
    assert_eq!(render_template("{{v}}", &vars(&[("v", "1"), ("v", "2")])), "2");
}

#[test]
fn store_renders_versions_and_reports_errors() {
    let mut store = PromptStore::new();
    store.register_template(PromptTemplate::new("t", "T", "one {{x|default:d}}"));
    store.register_template(PromptTemplate::new("t", "T", "two {{x}}"));
    store.register_template(PromptTemplate::new("t", "T", "three"));
    assert_eq!(store.render("t", &[]).unwrap(), "three");
    assert_eq!(store.render_version("t", 1, &[]).unwrap(), "one d");
    assert_eq!(store.render_version("t", 2, &vars(&[("x", "y")])).unwrap(), "two y");
    assert_eq!(store.get_history("t").len(), 2);
    assert_eq!(store.set_active_variant("nope", None).unwrap_err(), PromptError::TemplateNotFound("nope".into()));
    assert_eq!(PromptError::VersionNotFound("t".into(), 7).to_string(), "version 7 not found for template t");
    assert_eq!(PromptError::VariantNotFound("t".into(), "v".into()).to_string(), "variant 'v' not found on template t");
}
