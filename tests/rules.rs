use darklua::codec::{decode, encode, DecodeError, RuleDocument};
use darklua::nodes::{Block, Expression, LocalAssignStatement, Statement};
use darklua::rules::{
    apply_rules, get_default_rules, rule_from_str, RemoveEmptyDo, Rule, RuleConfigurationError,
    RuleInstance, RuleProperties, RulePropertyValue,
};

fn text(s: &str) -> RulePropertyValue {
    RulePropertyValue::String(s.to_string())
}

fn object(entries: Vec<(&str, RulePropertyValue)>) -> RuleDocument {
    RuleDocument::Object(entries.into_iter().map(|(k, v)| (k.to_string(), v)).collect())
}

#[test]
fn default_rules_are_registered() {
    let rules = get_default_rules();
    assert!(!rules.is_empty());
    for rule in rules.iter() {
        let found = rule_from_str(rule.get_name()).unwrap();
        assert_eq!(found.get_name(), rule.get_name());
    }
}

#[test]
fn default_rules_encode_to_bare_names() {
    let rules = get_default_rules();
    let documents: Vec<RuleDocument> = rules.iter().map(encode).collect();
    assert_eq!(documents, vec![RuleDocument::Name("remove_empty_do".to_string())]);
}

#[test]
fn round_trip_of_default_rule() {
    let rule = RuleInstance::RemoveEmptyDo(RemoveEmptyDo::default());
    let decoded = decode(&encode(&rule)).unwrap();
    assert_eq!(decoded.get_name(), rule.get_name());
    assert!(decoded.serialize_to_properties().is_empty());
    assert_eq!(decoded, rule);
}

#[test]
fn decode_bare_name() {
    let decoded = decode(&RuleDocument::Name("remove_empty_do".to_string())).unwrap();
    assert_eq!(decoded, RuleInstance::RemoveEmptyDo(RemoveEmptyDo::default()));
}

#[test]
fn decode_object_with_rule_only() {
    let decoded = decode(&object(vec![("rule", text("remove_empty_do"))])).unwrap();
    assert_eq!(decoded.get_name(), "remove_empty_do");
}

#[test]
fn decode_empty_object_misses_rule_field() {
    assert_eq!(decode(&object(vec![])), Err(DecodeError::MissingRuleField));
}

#[test]
fn decode_object_without_rule_misses_rule_field() {
    let doc = object(vec![("depth", RulePropertyValue::Usize(2))]);
    assert_eq!(decode(&doc), Err(DecodeError::MissingRuleField));
}

#[test]
fn decode_duplicate_rule_field() {
    let doc = object(vec![("rule", text("remove_empty_do")), ("rule", text("remove_empty_do"))]);
    assert_eq!(decode(&doc), Err(DecodeError::DuplicateRuleField));
}

#[test]
fn decode_duplicate_property() {
    let doc = object(vec![
        ("rule", text("remove_empty_do")),
        ("prop", text("a")),
        ("prop", RulePropertyValue::Usize(1)),
    ]);
    assert_eq!(decode(&doc), Err(DecodeError::DuplicateProperty("prop".to_string())));
}

#[test]
fn decode_unknown_name() {
    let doc = RuleDocument::Name("not_a_real_rule".to_string());
    assert_eq!(decode(&doc), Err(DecodeError::InvalidRuleName("not_a_real_rule".to_string())));
}

#[test]
fn decode_unknown_name_in_object() {
    let doc = object(vec![("rule", text("not_a_real_rule"))]);
    assert_eq!(decode(&doc), Err(DecodeError::InvalidRuleName("not_a_real_rule".to_string())));
}

#[test]
fn decode_rule_name_not_text() {
    let doc = object(vec![("rule", RulePropertyValue::Usize(3))]);
    assert_eq!(decode(&doc), Err(DecodeError::RuleNameNotText));
}

#[test]
fn decode_unexpected_property() {
    let doc = object(vec![("rule", text("remove_empty_do")), ("extra", RulePropertyValue::Usize(4))]);
    assert_eq!(
        decode(&doc),
        Err(DecodeError::Configuration(RuleConfigurationError::UnexpectedProperty(
            "extra".to_string()
        )))
    );
}

#[test]
fn rule_from_str_message() {
    assert_eq!(rule_from_str("nope"), Err("invalid rule name: nope".to_string()));
}

#[test]
fn configure_rejects_unknown_property() {
    let mut rule = RemoveEmptyDo::default();
    let mut properties = RuleProperties::new();
    assert!(properties.insert("key".to_string(), text("v")));
    assert!(!properties.insert("key".to_string(), text("w")));
    assert_eq!(properties.len(), 1);
    assert_eq!(
        rule.configure(properties),
        Err(RuleConfigurationError::UnexpectedProperty("key".to_string()))
    );
    assert_eq!(rule.configure(RuleProperties::new()), Ok(()));
}

#[test]
fn configuration_error_messages() {
    let e = RuleConfigurationError::UnexpectedProperty("a".to_string());
    assert_eq!(e.message(), "unexpected field 'a'");
    let e = RuleConfigurationError::StringExpected("b".to_string());
    assert_eq!(e.message(), "string value expected for field 'b'");
    let e = RuleConfigurationError::UsizeExpected("c".to_string());
    assert_eq!(e.message(), "unsigned integer expected for field 'c'");
}

fn local(name: &str) -> Statement {
    Statement::LocalAssign(LocalAssignStatement::from_variable(name).with_value(Expression::True))
}

#[test]
fn remove_empty_do_keeps_other_statement() {
    let mut block = Block::new(vec![Statement::Do(Block::new(vec![])), local("x")]);
    RemoveEmptyDo::default().process(&mut block);
    assert_eq!(block, Block::new(vec![local("x")]));
}

#[test]
fn remove_empty_do_keeps_non_empty_do_and_order() {
    let inner = Block::new(vec![local("y")]);
    let mut block = Block::new(vec![
        local("a"),
        Statement::Do(Block::new(vec![])),
        Statement::Do(inner),
        Statement::Do(Block::new(vec![])),
        local("b"),
    ]);
    RemoveEmptyDo::default().process(&mut block);
    let expected = Block::new(vec![local("a"), Statement::Do(Block::new(vec![local("y")])), local("b")]);
    assert_eq!(block, expected);
}

#[test]
fn default_pipeline_removes_empty_do() {
    let mut block = Block::new(vec![local("x"), Statement::Do(Block::new(vec![]))]);
    apply_rules(&get_default_rules(), &mut block);
    assert_eq!(block, Block::new(vec![local("x")]));
}

#[test]
fn decode_rule_list_in_order() {
    let documents = vec![
        RuleDocument::Name("remove_empty_do".to_string()),
        object(vec![("rule", text("remove_empty_do"))]),
    ];
    let rules = darklua::codec::decode_rules(&documents).unwrap();
    assert_eq!(rules.len(), 2);
    assert_eq!(rules[1].get_name(), "remove_empty_do");
}

#[test]
fn decode_rule_list_stops_at_first_error() {
    let documents = vec![
        RuleDocument::Name("remove_empty_do".to_string()),
        RuleDocument::Name("first_bad".to_string()),
        object(vec![]),
    ];
    assert_eq!(
        darklua::codec::decode_rules(&documents),
        Err(DecodeError::InvalidRuleName("first_bad".to_string()))
    );
}

#[test]
fn configured_rules_default_when_absent() {
    let rules = darklua::codec::configured_rules(None).unwrap();
    assert_eq!(rules, get_default_rules());
    let empty: Vec<RuleDocument> = vec![];
    assert_eq!(darklua::codec::configured_rules(Some(&empty)).unwrap(), vec![]);
}

#[test]
fn encode_rule_list() {
    let documents = darklua::codec::encode_rules(&get_default_rules());
    assert_eq!(documents, vec![RuleDocument::Name("remove_empty_do".to_string())]);
    let decoded = darklua::codec::decode_rules(&documents).unwrap();
    assert_eq!(decoded, get_default_rules());
}

#[test]
fn render_block_with_do() {
    let block = Block::new(vec![
        local("a"),
        Statement::Do(Block::new(vec![local("b")])),
        Statement::Do(Block::new(vec![])),
    ]);
    assert_eq!(block.to_lua_string(), "local a=true do local b=true end do end");
}

#[test]
fn render_empty_block() {
    assert_eq!(Block::new(vec![]).to_lua_string(), "");
    assert_eq!(Statement::Do(Block::new(vec![])).to_lua_string(), "do end");
}

#[test]
fn rendering_after_removal_keeps_other_text() {
    let mut block = Block::new(vec![Statement::Do(Block::new(vec![])), local("x")]);
    let before = local("x").to_lua_string();
    RemoveEmptyDo::default().process(&mut block);
    assert_eq!(block.to_lua_string(), before);
}
