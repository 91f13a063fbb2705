use eldiro::binding_definition::BindingDefinition;
use eldiro::binding_usage::BindingUsage;
use eldiro::environment::Environment;
use eldiro::expression::{Expression, Number, Operation};
use eldiro::value::Value;

#[test]
fn parse_binding_definition() {
    assert_eq!(
        BindingDefinition::new("let a = 10 / 2"),
        Ok((
            "",
            BindingDefinition {
                name: "a".to_string(),
                value: Expression::BinaryOperation {
                    operand: Number(10),
                    operator: Number(2),
                    operation: Operation::Div,
                }
            },
        ))
    )
}

#[test]
fn parse_binding_usage() {
    assert_eq!(
        BindingUsage::new("abc"),
        Ok((
            "",
            BindingUsage {
                name: "abc".to_string(),
            }
        ))
    );
}

#[test]
fn evaluate_existing_binding() {
    let mut env = Environment::default();
    env.store_binding("abc".to_string(), Value::Number(123));

    assert_eq!(
        BindingUsage {
            name: "abc".to_string()
        }
        .evaluate(&env),
        Ok(Value::Number(123))
    )
}

#[test]
fn evaluate_nonexistant_binding() {
    let env = Environment::default();

    assert_eq!(
        BindingUsage {
            name: "xyz".to_string()
        }
        .evaluate(&env),
        Err("Binding does not exist: xyz".to_string())
    )
}

fn define(source: &str, environment: &mut Environment) -> Result<(), String> {
    let (remainder, definition) = BindingDefinition::new(source).unwrap();
    assert_eq!(remainder, "");
    definition.evaluate(environment)
}

fn lookup(source: &str, environment: &Environment) -> Result<Value, String> {
    let (remainder, usage) = BindingUsage::new(source).unwrap();
    assert_eq!(remainder, "");
    usage.evaluate(environment)
}

#[test]
fn define_then_use() {
    let mut env = Environment::default();
    assert_eq!(define("let x = 10 / 2", &mut env), Ok(()));
    assert_eq!(lookup("x", &env), Ok(Value::Number(5)));
}

#[test]
fn use_of_an_unbound_name() {
    let env = Environment::default();
    assert_eq!(lookup("y", &env), Err("Binding does not exist: y".to_string()));
    assert_eq!(lookup("y", &env), Err("Binding does not exist: y".to_string()));
}

#[test]
fn definition_that_divides_by_zero_binds_nothing() {
    let mut env = Environment::default();
    let (remainder, definition) = BindingDefinition::new("let a = 10 / 0").unwrap();
    assert_eq!(remainder, "");
    assert_eq!(definition.value.evaluate(), Err("Division by zero".to_string()));
    assert_eq!(definition.evaluate(&mut env), Err("Division by zero".to_string()));
    assert_eq!(lookup("a", &env), Err("Binding does not exist: a".to_string()));
}

#[test]
fn failed_definition_keeps_the_earlier_binding() {
    let mut env = Environment::default();
    assert_eq!(define("let a = 4", &mut env), Ok(()));
    assert_eq!(define("let a = 1 / 0", &mut env), Err("Division by zero".to_string()));
    assert_eq!(lookup("a", &env), Ok(Value::Number(4)));
}

#[test]
fn later_binding_replaces_the_earlier() {
    let mut env = Environment::default();
    assert_eq!(define("let a = 1", &mut env), Ok(()));
    assert_eq!(define("let a = 2", &mut env), Ok(()));
    assert_eq!(lookup("a", &env), Ok(Value::Number(2)));
}

#[test]
fn bindings_do_not_disturb_each_other() {
    let mut env = Environment::default();
    assert_eq!(define("let a = 1", &mut env), Ok(()));
    assert_eq!(define("let ab = 2 * 3", &mut env), Ok(()));
    assert_eq!(lookup("a", &env), Ok(Value::Number(1)));
    assert_eq!(lookup("ab", &env), Ok(Value::Number(6)));
    assert_eq!(lookup("b", &env), Err("Binding does not exist: b".to_string()));
}

#[test]
fn environment_stores_and_finds() {
    let mut env = Environment::default();
    assert_eq!(env.get_binding_value("n"), Err("Binding does not exist: n".to_string()));
    env.store_binding("n".to_string(), Value::Number(-9));
    assert_eq!(env.get_binding_value("n"), Ok(Value::Number(-9)));
    env.store_binding("n".to_string(), Value::Number(9));
    assert_eq!(env.get_binding_value("n"), Ok(Value::Number(9)));
    assert_eq!(env.get_binding_value(""), Err("Binding does not exist: ".to_string()));
}

#[test]
fn usage_leaves_the_remainder() {
    assert_eq!(
        BindingUsage::new("abc def"),
        Ok((" def", BindingUsage { name: "abc".to_string() }))
    );
    assert_eq!(BindingUsage::new("x1+2"), Ok(("+2", BindingUsage { name: "x1".to_string() })));
}

#[test]
fn usage_needs_a_letter_first() {
    assert_eq!(BindingUsage::new("123abc"), Err("Expected identifier".to_string()));
    assert_eq!(BindingUsage::new(""), Err("Expected identifier".to_string()));
}

#[test]
fn definition_with_little_or_much_space() {
    let expected = BindingDefinition {
        name: "total".to_string(),
        value: Expression::Number(Number(7)),
    };
    assert_eq!(BindingDefinition::new("let total=7"), Ok(("", BindingDefinition {
        name: "total".to_string(),
        value: Expression::Number(Number(7)),
    })));
    assert_eq!(BindingDefinition::new("let    total   =   7;"), Ok((";", expected)));
}

#[test]
fn definition_reports_the_first_missing_part() {
    assert_eq!(BindingDefinition::new("a = 1"), Err("Expected let".to_string()));
    assert_eq!(BindingDefinition::new("Let a = 1"), Err("Expected let".to_string()));
    assert_eq!(BindingDefinition::new("leta = 1"), Err("Expected whitespace".to_string()));
    assert_eq!(BindingDefinition::new("let"), Err("Expected whitespace".to_string()));
    assert_eq!(BindingDefinition::new("let 1 = 2"), Err("Expected identifier".to_string()));
    assert_eq!(BindingDefinition::new("let a 1"), Err("Expected =".to_string()));
    assert_eq!(BindingDefinition::new("let a"), Err("Expected =".to_string()));
    assert_eq!(BindingDefinition::new("let a = "), Err("Expected digits".to_string()));
    assert_eq!(BindingDefinition::new("let a = b"), Err("Expected digits".to_string()));
    assert_eq!(
        BindingDefinition::new("let a = 4294967296"),
        Err("Number out of range".to_string())
    );
}
