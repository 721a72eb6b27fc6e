use darklua::nodes::{Expression, LocalAssignStatement};

#[test]
fn generate_() {
    let output = LocalAssignStatement::from_variable("var")
        .with_value(Expression::False)
        .to_lua_string();

    assert_eq!(output, "local var=false");
}

#[test]
fn render_without_values() {
    let output = LocalAssignStatement::from_variable("var").to_lua_string();

    assert_eq!(output, "local var");
}

#[test]
fn render_two_variables_without_values() {
    let output = LocalAssignStatement::from_variable("a")
        .with_variable("b")
        .to_lua_string();

    assert_eq!(output, "local a,b");
}

#[test]
fn render_two_variables_two_values() {
    let output = LocalAssignStatement::from_variable("a")
        .with_variable("b")
        .with_value(Expression::Nil)
        .with_value(Expression::Identifier("c".to_string()))
        .to_lua_string();

    assert_eq!(output, "local a,b=nil,c");
}

#[test]
fn render_more_values_than_variables() {
    let output = LocalAssignStatement::new(
        vec!["x".to_string()],
        vec![Expression::True, Expression::VariableArguments],
    )
    .to_lua_string();

    assert_eq!(output, "local x=true,...");
}

#[test]
fn builders_keep_order() {
    let mut statement = LocalAssignStatement::from_variable("a").with_variable("b");
    assert_eq!(statement.get_variables(), &vec!["a".to_string(), "b".to_string()]);

    statement.mutate_variables().push("c".to_string());
    statement.mutate_values().push(Expression::False);
    assert_eq!(statement.get_variables().len(), 3);
    assert_eq!(statement.to_lua_string(), "local a,b,c=false");
}

#[test]
fn generator_separates_words() {
    let mut generator = darklua::generator::LuaGenerator::new();
    generator.push_str("local");
    generator.push_str("a");
    generator.push_str("=");
    generator.push_str("b");
    generator.push_str("");
    generator.push_str("end");
    assert_eq!(generator.into_string(), "local a=b end");
}
