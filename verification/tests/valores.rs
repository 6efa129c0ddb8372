use zero::analisador_semantico::atomo::evaluate_atomo;
use zero::analisador_semantico::formato::format_value;
use zero::analisador_semantico::lista::evaluate_lista;
use zero::analisador_semantico::logica::{evaluate_logica_e, evaluate_logica_ou, truth_of};
use zero::analisador_semantico::numeros::{Arith, Known, Request};
use zero::analisador_semantico::objeto::evaluate_objeto;
use zero::analisador_semantico::scope::Scope;
use zero::analisador_semantico::semantica::Stop;
use zero::analisador_semantico::value::{
    copy_value, number_less, number_less_or_equal, numbers_equal, values_equal, zero, Value, NAN,
    ONE, ZERO,
};
use zero::analisador_semantico::{evaluate, evaluate_recursively, shows};
use zero::analisador_sintatico::ast::{AstNode, Rule};
use zero::analisador_sintatico::{parse, SintaticoParser};

fn number(n: f64) -> Value {
    Value::Number(n.to_bits())
}

fn text(t: &str) -> Value {
    Value::String(t.to_string())
}

/// The table of the facts that the tests below have use for.
fn table() -> Known {
    let mut known = Known::new();
    for t in ["0", "1", "2", "3", "2.5", "10"] {
        known.learn_parse(t.to_string(), t.parse::<f64>().unwrap().to_bits());
        let n: f64 = t.parse().unwrap();
        known.learn_format(n.to_bits(), n.to_string());
    }
    known.learn_parse("abc".to_string(), f64::NAN.to_bits());
    known
}

#[test]
fn the_constants_are_the_bits_of_their_numbers() {
    assert_eq!(ONE, 1.0f64.to_bits());
    assert_eq!(ZERO, 0.0f64.to_bits());
    assert!(f64::from_bits(NAN).is_nan());
    assert_eq!(NAN, f64::NAN.to_bits());
}

#[test]
fn numbers_compare_as_binary64_does() {
    let samples = [
        0.0,
        -0.0,
        1.0,
        -1.0,
        0.5,
        -2.5,
        1e308,
        -1e308,
        5e-324,
        -5e-324,
        f64::INFINITY,
        f64::NEG_INFINITY,
        f64::NAN,
        -f64::NAN,
        f64::MAX,
        f64::MIN_POSITIVE,
    ];
    for a in samples {
        assert_eq!(zero(a.to_bits()), a == 0.0, "{a}");
        for b in samples {
            assert_eq!(numbers_equal(a.to_bits(), b.to_bits()), a == b, "{a} == {b}");
            assert_eq!(number_less(a.to_bits(), b.to_bits()), a < b, "{a} < {b}");
            assert_eq!(number_less_or_equal(a.to_bits(), b.to_bits()), a <= b, "{a} <= {b}");
        }
    }
}

#[test]
fn a_value_counts_as_a_number() {
    let known = table();
    assert_eq!(number(2.5).as_number(&known), Ok(2.5f64.to_bits()));
    assert_eq!(Value::Boolean(true).as_number(&known), Ok(ONE));
    assert_eq!(Value::Boolean(false).as_number(&known), Ok(ZERO));
    assert_eq!(Value::List(vec![]).as_number(&known), Ok(NAN));
    assert_eq!(Value::Object(vec![]).as_number(&known), Ok(NAN));
    assert_eq!(text("10").as_number(&known), Ok(10.0f64.to_bits()));
    assert_eq!(text("abc").as_number(&known), Ok(NAN));
    assert_eq!(
        text("7").as_number(&known),
        Err(Stop::Need(Request::Parse("7".to_string())))
    );
}

#[test]
fn truth_is_not_being_zero() {
    let known = table();
    assert_eq!(truth_of(&number(0.0), &known), Ok(false));
    assert_eq!(truth_of(&number(-0.0), &known), Ok(false));
    assert_eq!(truth_of(&number(3.0), &known), Ok(true));
    assert_eq!(truth_of(&number(f64::NAN), &known), Ok(true));
    assert_eq!(truth_of(&text("0"), &known), Ok(false));
    assert_eq!(truth_of(&text("abc"), &known), Ok(true));
    assert_eq!(truth_of(&Value::List(vec![]), &known), Ok(true));
    assert_eq!(truth_of(&Value::Boolean(false), &known), Ok(false));
}

#[test]
fn equality_of_values() {
    assert!(values_equal(&number(1.0), &number(1.0)));
    assert!(!values_equal(&number(f64::NAN), &number(f64::NAN)));
    assert!(values_equal(&number(0.0), &number(-0.0)));
    assert!(!values_equal(&number(1.0), &Value::Boolean(true)));
    assert!(!values_equal(&text("1"), &number(1.0)));
    assert!(values_equal(&text("a"), &text("a")));
    let list = Value::List(vec![number(1.0), text("a"), Value::List(vec![])]);
    assert!(values_equal(&list, &copy_value(&list)));
    assert_eq!(copy_value(&list), list);
    let object = Value::Object(vec![("a".to_string(), number(1.0)), ("b".to_string(), text("x"))]);
    let turned = Value::Object(vec![("b".to_string(), text("x")), ("a".to_string(), number(1.0))]);
    assert!(values_equal(&object, &turned));
    assert_ne!(object, turned);
    let other = Value::Object(vec![("a".to_string(), number(1.0)), ("c".to_string(), text("x"))]);
    assert!(!values_equal(&object, &other));
}

#[test]
fn the_scope_binds_and_binds_again() {
    let mut scope = Scope::new();
    assert_eq!(scope.get("a"), None);
    scope.set("a".to_string(), number(1.0));
    scope.set("b".to_string(), text("x"));
    assert_eq!(scope.get("a"), Some(number(1.0)));
    assert_eq!(scope.get("b"), Some(text("x")));
    scope.set("a".to_string(), Value::List(vec![number(2.0)]));
    assert_eq!(scope.get("a"), Some(Value::List(vec![number(2.0)])));
    assert_eq!(scope.get("b"), Some(text("x")));
    assert_eq!(scope.get("c"), None);
}

#[test]
fn the_table_holds_what_was_handed_in() {
    let mut known = Known::new();
    assert_eq!(known.parsed(&"1".to_string()), None);
    assert_eq!(known.computed(Arith::Add, 1, 2), None);
    assert_eq!(known.formatted(1), None);
    known.learn_parse("1".to_string(), 10);
    known.learn_compute(Arith::Add, 1, 2, 3);
    known.learn_format(1, "one".to_string());
    assert_eq!(known.parsed(&"1".to_string()), Some(10));
    assert_eq!(known.computed(Arith::Add, 1, 2), Some(3));
    assert_eq!(known.computed(Arith::Add, 2, 1), None);
    assert_eq!(known.computed(Arith::Sub, 1, 2), None);
    assert_eq!(known.formatted(1), Some("one".to_string()));
    known.learn_parse("1".to_string(), 11);
    known.learn_compute(Arith::Add, 1, 2, 4);
    known.learn_format(1, "um".to_string());
    assert_eq!(known.parsed(&"1".to_string()), Some(11));
    assert_eq!(known.computed(Arith::Add, 1, 2), Some(4));
    assert_eq!(known.formatted(1), Some("um".to_string()));
}

#[test]
fn values_are_written() {
    let known = table();
    assert_eq!(format_value(&number(2.5), false, &known), Ok("2.5".to_string()));
    assert_eq!(format_value(&text("a"), false, &known), Ok("a".to_string()));
    assert_eq!(format_value(&text("a"), true, &known), Ok("\"a\"".to_string()));
    assert_eq!(format_value(&Value::Boolean(true), false, &known), Ok("true".to_string()));
    assert_eq!(format_value(&Value::Boolean(false), true, &known), Ok("false".to_string()));
    let list = Value::List(vec![number(1.0), text("a"), Value::List(vec![number(2.0)])]);
    assert_eq!(format_value(&list, false, &known), Ok("[1, \"a\", [2]]".to_string()));
    let object = Value::Object(vec![("k".to_string(), list), ("l".to_string(), text("x"))]);
    assert_eq!(
        format_value(&object, false, &known),
        Ok("{k: [1, \"a\", [2]], l: \"x\"}".to_string())
    );
    assert_eq!(
        format_value(&Value::List(vec![number(1.0), number(7.0)]), false, &known),
        Err(Stop::Need(Request::Format(7.0f64.to_bits())))
    );
}

#[test]
fn each_rule_reads_its_own() {
    for (rule, input) in [
        (Rule::arquivo, "a = 1\na"),
        (Rule::expressao, "a = 1 a"),
        (Rule::atribuicao, "a = 1"),
        (Rule::logica_ou, "1 || 2"),
        (Rule::logica_e, "1 && 2"),
        (Rule::comparacao, "1 < 2"),
        (Rule::soma, "1 + 2"),
        (Rule::produto, "1 * 2"),
        (Rule::unario, "!1"),
        (Rule::atomo, "(1)"),
        (Rule::lista, "[1]"),
        (Rule::objeto, "{a: 1}"),
        (Rule::numero_literal, "1.5"),
        (Rule::texto_literal, "\"t\""),
        (Rule::nome, "a_1"),
    ] {
        assert!(SintaticoParser::parse(rule, input).is_ok(), "{:?} {}", rule, input);
    }
    assert_eq!(
        SintaticoParser::parse(Rule::nome, "a_1"),
        Ok(AstNode::Nome("a_1".to_string()))
    );
    assert_eq!(
        SintaticoParser::parse(Rule::texto_literal, " \"t\" rest"),
        Ok(AstNode::StringLiteral("\"t\"".to_string()))
    );
    assert_eq!(
        SintaticoParser::parse(Rule::numero_literal, "1.5.2"),
        Ok(AstNode::NumeroLiteral("1.5".to_string()))
    );
    assert_eq!(
        SintaticoParser::parse(Rule::lista, "[]"),
        Ok(AstNode::Lista(vec![]))
    );
}

#[test]
fn a_rule_refuses_what_is_not_its_own() {
    let error = SintaticoParser::parse(Rule::lista, "  1").unwrap_err();
    assert_eq!((error.line, error.column), (1, 3));
    assert!(SintaticoParser::parse(Rule::nome, "\"a\"").is_err());
    assert!(SintaticoParser::parse(Rule::numero_literal, "a").is_err());
    assert!(SintaticoParser::parse(Rule::atribuicao, "a == 1").is_err());
    assert!(SintaticoParser::parse(Rule::atribuicao, "1").is_err());
    assert!(SintaticoParser::parse(Rule::expressao, "").is_err());
    assert!(SintaticoParser::parse(Rule::arquivo, "").is_ok());
    // A rule reads from the start and lets the rest be.
    assert!(SintaticoParser::parse(Rule::soma, "1 + 2 )").is_ok());
    assert!(SintaticoParser::parse(Rule::arquivo, "1 + 2 )").is_err());
}

#[test]
fn the_tree_nests_as_the_rules_do() {
    let tree = SintaticoParser::parse(Rule::soma, "1 * 2 + a").unwrap();
    let operand = |node: AstNode| {
        AstNode::Unario(false, Box::new(AstNode::Atomo(Box::new(node))))
    };
    let one = operand(AstNode::NumeroLiteral("1".to_string()));
    let two = operand(AstNode::NumeroLiteral("2".to_string()));
    let a = operand(AstNode::Nome("a".to_string()));
    assert_eq!(
        tree,
        AstNode::Soma(
            Box::new(AstNode::Produto(Box::new(one), vec![(Arith::Mul, two)])),
            vec![(Arith::Add, AstNode::Produto(Box::new(a), vec![]))],
        )
    );
}

#[test]
fn statements_say_whether_they_show() {
    let statements = parse("a = 1\nb = 2\na + b\n5\nc = 3").unwrap();
    assert_eq!(statements.len(), 3);
    assert_eq!(statements.iter().map(shows).collect::<Vec<bool>>(), vec![true, true, false]);
}

#[test]
fn evaluate_runs_the_statements() {
    let known = table();
    let statements = parse("a = 2.5\na\n\"x\" == \"x\"\n[a, 1]").unwrap();
    assert_eq!(evaluate(&statements, &known), Ok("2.5\ntrue\n[2.5, 1]\n".to_string()));
    let statements = parse("1\n7").unwrap();
    assert_eq!(
        evaluate(&statements, &known),
        Err(Stop::Need(Request::Parse("7".to_string())))
    );
}

#[test]
fn rules_evaluate_their_nodes() {
    let known = table();
    let mut scope = Scope::new();
    scope.set("a".to_string(), number(3.0));

    let node = SintaticoParser::parse(Rule::lista, "[a, \"b\", 1]").unwrap();
    assert_eq!(
        evaluate_lista(&node, &mut scope, &known),
        Ok(Value::List(vec![number(3.0), text("b"), number(1.0)]))
    );
    let node = SintaticoParser::parse(Rule::objeto, "{x: a, y: [], x: 2}").unwrap();
    assert_eq!(
        evaluate_objeto(&node, &mut scope, &known),
        Ok(Value::Object(vec![
            ("x".to_string(), number(2.0)),
            ("y".to_string(), Value::List(vec![])),
        ]))
    );
    let node = SintaticoParser::parse(Rule::atomo, "(a)").unwrap();
    assert_eq!(evaluate_atomo(&node, &mut scope, &known), Ok(number(3.0)));
    let node = SintaticoParser::parse(Rule::logica_ou, "0 || a").unwrap();
    assert_eq!(evaluate_logica_ou(&node, &mut scope, &known), Ok(number(1.0)));
    let node = SintaticoParser::parse(Rule::logica_e, "a && 0").unwrap();
    assert_eq!(evaluate_logica_e(&node, &mut scope, &known), Ok(number(0.0)));
    let node = SintaticoParser::parse(Rule::logica_e, "a").unwrap();
    assert_eq!(evaluate_logica_e(&node, &mut scope, &known), Ok(number(3.0)));
    let node = SintaticoParser::parse(Rule::nome, "a").unwrap();
    assert_eq!(evaluate_recursively(&node, &mut scope, &known), Ok(number(3.0)));
    let node = SintaticoParser::parse(Rule::nome, "b").unwrap();
    assert_eq!(
        evaluate_recursively(&node, &mut scope, &known),
        Err(Stop::UnboundName("b".to_string()))
    );
    // An assignment has no value of its own, and binds.
    let node = SintaticoParser::parse(Rule::atribuicao, "b = a").unwrap();
    match evaluate_recursively(&node, &mut scope, &known) {
        Ok(Value::Number(bits)) => assert!(f64::from_bits(bits).is_nan()),
        other => panic!("{:?}", other),
    }
    assert_eq!(scope.get("b"), Some(number(3.0)));
    // A program has the value of its last statement.
    let node = SintaticoParser::parse(Rule::arquivo, "c = 1\nc\n2").unwrap();
    assert_eq!(evaluate_recursively(&node, &mut scope, &known), Ok(number(2.0)));
    assert_eq!(scope.get("c"), Some(number(1.0)));
}
