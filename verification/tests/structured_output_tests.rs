use argentor_agent::structured_output::{
    ExtractionPattern, FieldDefinition, FieldType, JsonValue, OutputSchema, StructuredOutputParser,
};

fn test_schema() -> OutputSchema {
    OutputSchema::new("test")
        .with_field(FieldDefinition::required("name", FieldType::String))
        .with_field(FieldDefinition::required("age", FieldType::Integer))
        .with_field(FieldDefinition::optional("active", FieldType::Boolean, JsonValue::Bool(true)))
}

fn text(s: &str) -> JsonValue {
    JsonValue::Str(s.to_string())
}

fn number(s: &str) -> JsonValue {
    JsonValue::Number { text: s.to_string(), integer: true }
}

#[test]
fn test_markdown_code_block() {
    let parser = StructuredOutputParser::new(test_schema(), ExtractionPattern::MarkdownCodeBlock);
    let input = "Here is the result:\n```json\n{\"name\": \"Alice\", \"age\": 30}\n```";
    let result = parser.parse(input);
    assert!(result.is_valid);
    assert_eq!(result.data.get("name"), Some(&text("Alice")));
    assert_eq!(result.data.get("age"), Some(&number("30")));
}

#[test]
fn test_json_block() {
    let parser = StructuredOutputParser::new(test_schema(), ExtractionPattern::JsonBlock);
    let input = r#"The output is {"name": "Bob", "age": 25} and some trailing text."#;
    let result = parser.parse(input);
    assert!(result.is_valid);
    assert_eq!(result.data.get("name"), Some(&text("Bob")));
}

#[test]
fn test_missing_required_field() {
    let parser = StructuredOutputParser::new(test_schema(), ExtractionPattern::JsonBlock);
    let result = parser.parse(r#"{"name": "Eve"}"#);
    assert!(!result.is_valid);
    assert!(result.errors.iter().any(|e| e.field == "age"));
}

#[test]
fn test_default_value() {
    let parser = StructuredOutputParser::new(test_schema(), ExtractionPattern::JsonBlock);
    let result = parser.parse(r#"{"name": "Charlie", "age": 40}"#);
    assert!(result.is_valid);
    assert_eq!(result.data.get("active"), Some(&JsonValue::Bool(true)));
    assert!(result.defaulted_fields.contains(&"active".to_string()));
}

#[test]
fn test_type_mismatch() {
    let parser = StructuredOutputParser::new(test_schema(), ExtractionPattern::JsonBlock);
    let result = parser.parse(r#"{"name": "Dana", "age": "not a number"}"#);
    assert!(!result.is_valid);
    assert!(result.errors.iter().any(|e| e.field == "age"));
}

#[test]
fn test_key_value_extraction() {
    let schema = OutputSchema::new("kv").with_field(FieldDefinition::required("status", FieldType::String));
    let parser = StructuredOutputParser::new(schema, ExtractionPattern::KeyValuePairs);
    let result = parser.parse("Status: success\nDuration: 42\nMessage: all good");
    assert!(result.is_valid);
    assert_eq!(result.data.get("status"), Some(&text("success")));
}

#[test]
fn test_list_extraction() {
    let schema = OutputSchema::new("list").with_field(FieldDefinition::required("items", FieldType::Array));
    let parser = StructuredOutputParser::new(schema, ExtractionPattern::List);
    let result = parser.parse("Here are the items:\n- Apple\n- Banana\n- Cherry");
    assert!(result.is_valid);
    let items = result.data.get("items").unwrap().as_array().unwrap();
    assert_eq!(items.len(), 3);
    assert_eq!(items[0], text("Apple"));
}

#[test]
fn test_numbered_list() {
    let schema = OutputSchema::new("list").with_field(FieldDefinition::required("items", FieldType::Array));
    let parser = StructuredOutputParser::new(schema, ExtractionPattern::List);
    let result = parser.parse("Steps:\n1. First step\n2. Second step\n3. Third step");
    assert!(result.is_valid);
    let items = result.data.get("items").unwrap().as_array().unwrap();
    assert_eq!(items.len(), 3);
}

#[test]
fn test_auto_pattern_json() {
    let parser = StructuredOutputParser::new(test_schema(), ExtractionPattern::Auto);
    let result = parser.parse("```json\n{\"name\": \"Auto\", \"age\": 10}\n```");
    assert!(result.is_valid);
    assert_eq!(result.pattern_used, "markdown_code_block");
}

#[test]
fn test_auto_pattern_fallback() {
    let parser = StructuredOutputParser::new(test_schema(), ExtractionPattern::Auto);
    let result = parser.parse(r#"Result: {"name": "Fallback", "age": 20}"#);
    assert!(result.is_valid);
    assert_eq!(result.pattern_used, "json_block");
}

#[test]
fn test_no_content_found() {
    let parser = StructuredOutputParser::new(test_schema(), ExtractionPattern::JsonBlock);
    let result = parser.parse("Just some plain text without any JSON.");
    assert!(!result.is_valid);
    assert!(!result.errors.is_empty());
}

#[test]
fn test_nested_json() {
    let schema = OutputSchema::new("nested").with_field(FieldDefinition::required("data", FieldType::Object));
    let parser = StructuredOutputParser::new(schema, ExtractionPattern::JsonBlock);
    let result = parser.parse(r#"{"data": {"key": "value", "nested": {"deep": true}}}"#);
    assert!(result.is_valid);
    let deep = result.data.get("data").unwrap().get("nested").unwrap().get("deep").unwrap();
    assert!(deep.as_bool().unwrap());
}

#[test]
fn test_to_json_schema() {
    let schema = test_schema();
    let json_schema = schema.to_json_schema();
    let parsed: serde_json::Value = serde_json::from_str(&json_schema).unwrap();
    assert_eq!(parsed["type"], "object");
    assert!(parsed["properties"]["name"].is_object());
    let required = parsed["required"].as_array().unwrap();
    assert!(required.contains(&serde_json::Value::String("name".to_string())));
}

#[test]
fn test_prompt_instruction() {
    let schema = test_schema();
    let prompt = schema.to_prompt_instruction();
    assert!(prompt.contains("Respond with a JSON object"));
    assert!(prompt.contains("\"name\""));
}

#[test]
fn test_any_type() {
    let schema = OutputSchema::new("any").with_field(FieldDefinition::required("value", FieldType::Any));
    let parser = StructuredOutputParser::new(schema, ExtractionPattern::JsonBlock);
    for input in &[
        r#"{"value": "string"}"#,
        r#"{"value": 42}"#,
        r#"{"value": true}"#,
        r#"{"value": [1, 2]}"#,
    ] {
        let result = parser.parse(input);
        assert!(result.is_valid, "Failed for: {input}");
    }
}

#[test]
fn test_code_block_no_lang() {
    let parser = StructuredOutputParser::new(test_schema(), ExtractionPattern::MarkdownCodeBlock);
    let result = parser.parse("```\n{\"name\": \"NoLang\", \"age\": 5}\n```");
    assert!(result.is_valid);
    assert_eq!(result.data.get("name"), Some(&text("NoLang")));
}

#[test]
fn test_json_escaped_quotes() {
    let schema = OutputSchema::new("escaped").with_field(FieldDefinition::required("text", FieldType::String));
    let parser = StructuredOutputParser::new(schema, ExtractionPattern::JsonBlock);
    let result = parser.parse(r#"Output: {"text": "He said \"hello\""}"#);
    assert!(result.is_valid);
}

#[test]
fn test_multiple_json_first() {
    let parser = StructuredOutputParser::new(test_schema(), ExtractionPattern::JsonBlock);
    let result = parser.parse(r#"{"name": "First", "age": 1} and {"name": "Second", "age": 2}"#);
    assert!(result.is_valid);
    assert_eq!(result.data.get("name"), Some(&text("First")));
}

#[test]
fn test_kv_numeric_values() {
    let schema = OutputSchema::new("kv_num").with_field(FieldDefinition::required("count", FieldType::Number));
    let parser = StructuredOutputParser::new(schema, ExtractionPattern::KeyValuePairs);
    let result = parser.parse("Count: 42");
    assert!(result.is_valid);
    assert_eq!(result.data.get("count"), Some(&number("42")));
}

#[test]
fn test_empty_schema() {
    let parser = StructuredOutputParser::new(OutputSchema::new("empty"), ExtractionPattern::JsonBlock);
    let result = parser.parse(r#"{"any": "data"}"#);
    assert!(result.is_valid);
}

#[test]
fn test_asterisk_list() {
    let schema = OutputSchema::new("list").with_field(FieldDefinition::required("items", FieldType::Array));
    let parser = StructuredOutputParser::new(schema, ExtractionPattern::List);
    let result = parser.parse("* Item one\n* Item two");
    assert!(result.is_valid);
    let items = result.data.get("items").unwrap().as_array().unwrap();
    assert_eq!(items.len(), 2);
}

#[test]
fn test_field_with_description() {
    let field = FieldDefinition::required("name", FieldType::String).with_description("The user's full name");
    assert_eq!(field.description.unwrap(), "The user's full name");
}

// ---------------------------------------------------------------------------
// Further cases
// ---------------------------------------------------------------------------

#[test]
fn empty_result_names_the_pattern() {
    let parser = StructuredOutputParser::new(test_schema(), ExtractionPattern::List);
    let result = parser.parse("no list here");
    assert!(!result.is_valid);
    assert_eq!(result.data, JsonValue::Null);
    assert_eq!(result.pattern_used, "list");
    assert_eq!(result.errors.len(), 1);
    assert_eq!(result.errors[0].field, "_root");
    assert_eq!(result.errors[0].message, "No structured content found using list pattern");
}

#[test]
fn type_mismatch_message_names_both_types() {
    let parser = StructuredOutputParser::new(test_schema(), ExtractionPattern::JsonBlock);
    let result = parser.parse(r#"{"name": 7, "age": 3}"#);
    assert_eq!(result.errors.len(), 1);
    assert_eq!(result.errors[0].field, "name");
    assert_eq!(result.errors[0].message, "Expected type String, got number");
}

#[test]
fn missing_required_message() {
    let parser = StructuredOutputParser::new(test_schema(), ExtractionPattern::JsonBlock);
    let result = parser.parse(r#"{"age": 3}"#);
    assert_eq!(result.errors.len(), 1);
    assert_eq!(result.errors[0].message, "Required field missing");
    assert_eq!(result.defaulted_fields, vec!["active".to_string()]);
}

#[test]
fn float_is_a_number_but_not_an_integer() {
    let parser = StructuredOutputParser::new(test_schema(), ExtractionPattern::JsonBlock);
    let result = parser.parse(r#"{"name": "x", "age": 2.5}"#);
    assert!(!result.is_valid);
    assert_eq!(result.errors[0].message, "Expected type Integer, got number");
}

#[test]
fn defaults_are_inserted_in_key_order() {
    let parser = StructuredOutputParser::new(test_schema(), ExtractionPattern::JsonBlock);
    let result = parser.parse(r#"{"name": "Zed", "age": 1}"#);
    match &result.data {
        JsonValue::Object(ms) => {
            let keys: Vec<&str> = ms.iter().map(|(k, _)| k.as_str()).collect();
            assert_eq!(keys, vec!["active", "age", "name"]);
        },
        _ => panic!("expected an object"),
    }
}

#[test]
fn key_value_keys_are_normalised_and_last_wins() {
    let parser = StructuredOutputParser::new(OutputSchema::new("kv"), ExtractionPattern::KeyValuePairs);
    let result = parser.parse("  Full Name : Ada  \nfull name: Grace\nno colon here");
    assert!(result.is_valid);
    match &result.data {
        JsonValue::Object(ms) => {
            assert_eq!(ms.len(), 1);
            assert_eq!(ms[0].0, "full_name");
            assert_eq!(ms[0].1, text("Grace"));
        },
        _ => panic!("expected an object"),
    }
}

#[test]
fn numbered_list_with_parenthesis_and_plain_digits() {
    let schema = OutputSchema::new("list").with_field(FieldDefinition::required("items", FieldType::Array));
    let parser = StructuredOutputParser::new(schema, ExtractionPattern::List);
    let result = parser.parse("1) one\n2. two\n42\n-not an item");
    let items = result.data.get("items").unwrap().as_array().unwrap();
    assert_eq!(items, &vec![text("one"), text("two")]);
}

#[test]
fn braces_inside_strings_do_not_count() {
    let schema = OutputSchema::new("s").with_field(FieldDefinition::required("t", FieldType::String));
    let parser = StructuredOutputParser::new(schema, ExtractionPattern::JsonBlock);
    let result = parser.parse(r#"x {"t": "a } b { c"} y"#);
    assert!(result.is_valid);
    assert_eq!(result.data.get("t"), Some(&text("a } b { c")));
}

#[test]
fn unbalanced_object_finds_nothing() {
    let parser = StructuredOutputParser::new(test_schema(), ExtractionPattern::JsonBlock);
    let result = parser.parse(r#"{"name": "x""#);
    assert!(!result.is_valid);
    assert_eq!(result.pattern_used, "json_block");
}

#[test]
fn auto_falls_back_to_list() {
    let parser = StructuredOutputParser::new(test_schema(), ExtractionPattern::Auto);
    let result = parser.parse("- a\n- b");
    assert_eq!(result.pattern_used, "list");
    assert!(!result.is_valid);
}

#[test]
fn schema_value_lists_properties_and_required() {
    let schema = test_schema();
    let v = schema.schema_value();
    assert_eq!(v.get("type"), Some(&text("object")));
    let req = v.get("required").unwrap().as_array().unwrap();
    assert_eq!(req, &vec![text("name"), text("age")]);
    let props = v.get("properties").unwrap();
    assert_eq!(props.get("active").unwrap().get("type"), Some(&text("boolean")));
    assert_eq!(props.get("age").unwrap().get("type"), Some(&text("integer")));
}

#[test]
fn prompt_instruction_wraps_the_schema() {
    let schema = test_schema();
    let prompt = schema.to_prompt_instruction();
    let expected = format!(
        "Respond with a JSON object matching this schema:\n```json\n{}\n```\nDo not include any text outside the JSON object.",
        schema.to_json_schema()
    );
    assert_eq!(prompt, expected);
}
