use zero::analisador_semantico::atribuicao::evaluate_atribuicao;
use zero::analisador_semantico::comparacao::evaluate_comparacao;
use zero::analisador_semantico::evaluate_recursively;
use zero::analisador_semantico::expressao::evaluate_expression;
use zero::analisador_semantico::literals::{evaluate_number_literal, evaluate_string_literal};
use zero::analisador_semantico::numeros::{Arith, Known, Request};
use zero::analisador_semantico::produto::evaluate_produto;
use zero::analisador_semantico::scope::Scope;
use zero::analisador_semantico::semantica::Stop;
use zero::analisador_semantico::soma::evaluate_soma;
use zero::analisador_semantico::unario::evaluate_unario;
use zero::analisador_semantico::value::Value;
use zero::analisador_sintatico::ast::{AstNode, Comparison, Rule};
use zero::analisador_sintatico::SintaticoParser;

/// Answers a request as the machine's binary64 arithmetic does.
fn learn(known: &mut Known, request: Request) {
    match request {
        Request::Parse(text) => {
            let bits = text.parse::<f64>().unwrap_or(f64::NAN).to_bits();
            known.learn_parse(text, bits);
        }
        Request::Compute(op, a, b) => {
            let (x, y) = (f64::from_bits(a), f64::from_bits(b));
            let result = match op {
                Arith::Add => x + y,
                Arith::Sub => x - y,
                Arith::Mul => x * y,
                Arith::Div => x / y,
            };
            known.learn_compute(op, a, b, result.to_bits());
        }
        Request::Format(bits) => {
            known.learn_format(bits, f64::from_bits(bits).to_string());
        }
    }
}

type Evaluator = fn(&AstNode, &mut Scope, &Known) -> Result<Value, Stop>;

/// Reads `input` by `rule` and evaluates it in an empty scope, answering
/// every request on the way. Returns what the evaluator returned and the
/// scope that it left.
fn settle(evaluate: Evaluator, rule: Rule, input: &str) -> (Result<Value, Stop>, Scope) {
    let node = SintaticoParser::parse(rule, input).unwrap();
    let mut known = Known::new();
    loop {
        let mut scope = Scope::new();
        match evaluate(&node, &mut scope, &known) {
            Err(Stop::Need(request)) => learn(&mut known, request),
            other => return (other, scope),
        }
    }
}

fn number(n: f64) -> Value {
    Value::Number(n.to_bits())
}

fn parse_and_evaluate_produto(input: &str) -> Value {
    settle(evaluate_produto, Rule::produto, input).0.unwrap()
}

fn parse_and_evaluate_soma(input: &str) -> Value {
    settle(evaluate_soma, Rule::soma, input).0.unwrap()
}

fn parse_and_evaluate_comparacao(input: &str) -> Result<Value, Stop> {
    settle(evaluate_comparacao, Rule::comparacao, input).0
}

fn parse_and_evaluate_expression(input: &str) -> Result<Value, Stop> {
    settle(evaluate_expression, Rule::expressao, input).0
}

fn parse_and_evaluate_logica(input: &str, _rule: Rule) -> Value {
    settle(evaluate_recursively, Rule::logica_ou, input).0.unwrap()
}

fn parse_and_evaluate_unario(input: &str) -> Result<Value, Stop> {
    settle(evaluate_unario, Rule::unario, input).0
}

fn assign(node: &AstNode, scope: &mut Scope, known: &Known) -> Result<Value, Stop> {
    evaluate_atribuicao(node, scope, known).map(|_| Value::Boolean(true))
}

#[test]
fn atomo_test_evaluate_term_2_with_parentheses() {
    assert_eq!(parse_and_evaluate_produto("(2 + 3) * 4"), number(20.0));
    assert_eq!(parse_and_evaluate_produto("100 / (10 - 5)"), number(20.0));
}

#[test]
fn test_evaluate_atribuicao() {
    let input = "a = 10";
    let (result, scope) = settle(assign, Rule::atribuicao, input);
    assert!(result.is_ok());
    assert_eq!(scope.get("a"), Some(number(10.0)));
}

#[test]
fn test_evaluate_atribuicao_complex() {
    let input = "b = 5 * 2 + 1";
    let (result, scope) = settle(assign, Rule::atribuicao, input);
    assert!(result.is_ok());
    assert_eq!(scope.get("b"), Some(number(11.0)));
}

#[test]
fn test_evaluate_fator_with_terms_2() {
    // 5 * 2 + 3 should be 10 + 3 = 13
    assert_eq!(parse_and_evaluate_expression("5 * 2 + 3"), Ok(number(13.0)));
    // 10 / 2 - 1 should be 5 - 1 = 4
    assert_eq!(parse_and_evaluate_expression("10 / 2 - 1"), Ok(number(4.0)));
}

#[test]
fn test_evaluate_expression_with_assignments() {
    let input = "a = 2\na + 3";
    assert_eq!(parse_and_evaluate_expression(input), Ok(number(5.0)));

    let input2 = "x = 10\ny = 5\nx * y";
    assert_eq!(parse_and_evaluate_expression(input2), Ok(number(50.0)));
}

#[test]
fn expressao_test_evaluate_term_3_with_terms_2() {
    assert_eq!(parse_and_evaluate_expression("5 * 2 + 3"), Ok(number(13.0)));
    assert_eq!(parse_and_evaluate_expression("10 / 2 - 1"), Ok(number(4.0)));
}

#[test]
fn test_evaluate_operacao_numerica_addition() {
    assert_eq!(parse_and_evaluate_soma("5 + 2"), number(7.0));
    assert_eq!(parse_and_evaluate_soma("2.5 + 4"), number(6.5));
}

#[test]
fn test_evaluate_operacao_numerica_subtraction() {
    assert_eq!(parse_and_evaluate_soma("10 - 2"), number(8.0));
    assert_eq!(parse_and_evaluate_soma("10 - 12.5"), number(-2.5));
}

#[test]
fn test_evaluate_operacao_numerica_left_associativity() {
    // 10 - 2 + 5 should be (10 - 2) + 5 = 8 + 5 = 13
    assert_eq!(parse_and_evaluate_soma("10 - 2 + 5"), number(13.0));
    // 100 + 2 - 4 should be (100 + 2) - 4 = 102 - 4 = 98
    assert_eq!(parse_and_evaluate_soma("100 + 2 - 4"), number(98.0));
}

#[test]
fn operacao_numerica_test_semantic_error_string_in_numeric_operation() {
    let code = r#"x = "texto" x + 1"#;
    assert_eq!(
        parse_and_evaluate_expression(code),
        Err(Stop::ArithmeticOnText(Arith::Add))
    );
}

#[test]
fn operacao_numerica_test_semantic_success_numeric_operation() {
    let code = r#"x = 10 x + 1"#;
    assert_eq!(parse_and_evaluate_expression(code), Ok(number(11.0)));
}

#[test]
fn termo_1_test_evaluate_term_2_with_parentheses() {
    assert_eq!(parse_and_evaluate_produto("(2 + 3) * 4"), number(20.0));
    assert_eq!(parse_and_evaluate_produto("100 / (10 - 5)"), number(20.0));
}

#[test]
fn termo_2_test_evaluate_term_2_multiplication() {
    assert_eq!(parse_and_evaluate_produto("5 * 2"), number(10.0));
    assert_eq!(parse_and_evaluate_produto("2.5 * 4"), number(10.0));
}

#[test]
fn termo_2_test_evaluate_term_2_division() {
    assert_eq!(parse_and_evaluate_produto("10 / 2"), number(5.0));
    assert_eq!(parse_and_evaluate_produto("10 / 4"), number(2.5));
}

#[test]
fn termo_2_test_evaluate_term_2_left_associativity() {
    // 10 / 2 * 5 should be (10 / 2) * 5 = 5 * 5 = 25
    assert_eq!(parse_and_evaluate_produto("10 / 2 * 5"), number(25.0));
    // 100 * 2 / 4 should be (100 * 2) / 4 = 200 / 4 = 50
    assert_eq!(parse_and_evaluate_produto("100 * 2 / 4"), number(50.0));
}

#[test]
fn termo_2_test_evaluate_term_2_with_parentheses() {
    assert_eq!(parse_and_evaluate_produto("(2 + 3) * 4"), number(20.0));
    assert_eq!(parse_and_evaluate_produto("100 / (10 - 5)"), number(20.0));
}

#[test]
fn test_evaluate_term_3_addition() {
    assert_eq!(parse_and_evaluate_soma("5 + 2"), number(7.0));
    assert_eq!(parse_and_evaluate_soma("2.5 + 4"), number(6.5));
}

#[test]
fn test_evaluate_term_3_subtraction() {
    assert_eq!(parse_and_evaluate_soma("10 - 2"), number(8.0));
    assert_eq!(parse_and_evaluate_soma("10 - 12.5"), number(-2.5));
}

#[test]
fn test_evaluate_term_3_left_associativity() {
    // 10 - 2 + 5 should be (10 - 2) + 5 = 8 + 5 = 13
    assert_eq!(parse_and_evaluate_soma("10 - 2 + 5"), number(13.0));
    // 100 + 2 - 4 should be (100 + 2) - 4 = 102 - 4 = 98
    assert_eq!(parse_and_evaluate_soma("100 + 2 - 4"), number(98.0));
}

#[test]
fn termo_3_test_evaluate_term_3_with_terms_2() {
    // 5 * 2 + 3 should be 10 + 3 = 13
    assert_eq!(parse_and_evaluate_soma("5 * 2 + 3"), number(13.0));
    // 10 / 2 - 1 should be 5 - 1 = 4
    assert_eq!(parse_and_evaluate_soma("10 / 2 - 1"), number(4.0));
}

#[test]
fn test_evaluate_number_literal_simple() {
    let pair = SintaticoParser::parse(Rule::numero_literal, "10").unwrap();
    let mut known = Known::new();
    assert_eq!(
        evaluate_number_literal(&pair, &known),
        Err(Stop::Need(Request::Parse("10".to_string())))
    );
    learn(&mut known, Request::Parse("10".to_string()));
    assert_eq!(evaluate_number_literal(&pair, &known), Ok(number(10.0)));
}

#[test]
fn test_evaluate_string_literal_simple() {
    let pair = SintaticoParser::parse(Rule::texto_literal, "\"hello\"").unwrap();
    assert_eq!(evaluate_string_literal(&pair), Value::String("hello".to_string()));
}

#[test]
fn test_evaluate_logica_e() {
    assert_eq!(parse_and_evaluate_logica("1 && 1", Rule::logica_ou), number(1.0));
    assert_eq!(parse_and_evaluate_logica("1 && 0", Rule::logica_ou), number(0.0));
    assert_eq!(parse_and_evaluate_logica("0 && 1", Rule::logica_ou), number(0.0));
    assert_eq!(parse_and_evaluate_logica("0 && 0", Rule::logica_ou), number(0.0));
}

#[test]
fn test_evaluate_logica_ou() {
    assert_eq!(parse_and_evaluate_logica("1 || 1", Rule::logica_ou), number(1.0));
    assert_eq!(parse_and_evaluate_logica("1 || 0", Rule::logica_ou), number(1.0));
    assert_eq!(parse_and_evaluate_logica("0 || 1", Rule::logica_ou), number(1.0));
    assert_eq!(parse_and_evaluate_logica("0 || 0", Rule::logica_ou), number(0.0));
}

#[test]
fn test_precedence() {
    // && has higher precedence than ||
    assert_eq!(parse_and_evaluate_logica("0 || 1 && 0", Rule::logica_ou), number(0.0));
    assert_eq!(parse_and_evaluate_logica("1 || 1 && 0", Rule::logica_ou), number(1.0));
}

#[test]
fn test_short_circuit_and() {
    assert_eq!(parse_and_evaluate_logica("0 && (1/0)", Rule::logica_ou), number(0.0));
}

#[test]
fn test_short_circuit_or() {
    assert_eq!(parse_and_evaluate_logica("1 || (1/0)", Rule::logica_ou), number(1.0));
}

#[test]
fn test_evaluate_operacao_maior() {
    assert_eq!(parse_and_evaluate_comparacao("5 > 2"), Ok(Value::Boolean(true)));
    assert_eq!(parse_and_evaluate_comparacao("2 > 5"), Ok(Value::Boolean(false)));
}

#[test]
fn test_evaluate_operacao_menor() {
    assert_eq!(parse_and_evaluate_comparacao("2 < 5"), Ok(Value::Boolean(true)));
    assert_eq!(parse_and_evaluate_comparacao("5 < 2"), Ok(Value::Boolean(false)));
}

#[test]
fn test_evaluate_operacao_maior_igual() {
    assert_eq!(parse_and_evaluate_comparacao("5 >= 2"), Ok(Value::Boolean(true)));
    assert_eq!(parse_and_evaluate_comparacao("5 >= 5"), Ok(Value::Boolean(true)));
    assert_eq!(parse_and_evaluate_comparacao("2 >= 5"), Ok(Value::Boolean(false)));
}

#[test]
fn test_evaluate_operacao_menor_igual() {
    assert_eq!(parse_and_evaluate_comparacao("2 <= 5"), Ok(Value::Boolean(true)));
    assert_eq!(parse_and_evaluate_comparacao("5 <= 5"), Ok(Value::Boolean(true)));
    assert_eq!(parse_and_evaluate_comparacao("5 <= 2"), Ok(Value::Boolean(false)));
}

#[test]
fn test_evaluate_operacao_igual() {
    assert_eq!(parse_and_evaluate_comparacao("5 == 5"), Ok(Value::Boolean(true)));
    assert_eq!(parse_and_evaluate_comparacao("5 == 2"), Ok(Value::Boolean(false)));
    assert_eq!(parse_and_evaluate_comparacao(r#""a" == "a""#), Ok(Value::Boolean(true)));
    assert_eq!(parse_and_evaluate_comparacao(r#""a" == "b""#), Ok(Value::Boolean(false)));
}

#[test]
fn test_evaluate_operacao_diferente() {
    assert_eq!(parse_and_evaluate_comparacao("5 != 2"), Ok(Value::Boolean(true)));
    assert_eq!(parse_and_evaluate_comparacao(r#""a" != "b""#), Ok(Value::Boolean(true)));
    assert_eq!(parse_and_evaluate_comparacao(r#""a" != "a""#), Ok(Value::Boolean(false)));
}

#[test]
fn operacao_test_semantic_error_invalid_op_with_string_1() {
    assert_eq!(
        parse_and_evaluate_comparacao(r#""a" > "b""#),
        Err(Stop::OrderingOnText(Comparison::Greater))
    );
}

#[test]
fn operacao_test_semantic_error_invalid_op_with_string_2() {
    assert_eq!(
        parse_and_evaluate_comparacao(r#""a" < "b""#),
        Err(Stop::OrderingOnText(Comparison::Less))
    );
}

#[test]
fn operacao_test_semantic_error_invalid_op_with_string_3() {
    assert_eq!(
        parse_and_evaluate_comparacao(r#""a" >= "b""#),
        Err(Stop::OrderingOnText(Comparison::GreaterOrEqual))
    );
}

#[test]
fn operacao_test_semantic_error_invalid_op_with_string_4() {
    assert_eq!(
        parse_and_evaluate_comparacao(r#""a" <= "b""#),
        Err(Stop::OrderingOnText(Comparison::LessOrEqual))
    );
}

#[test]
fn test_evaluate_unario_negation_boolean() {
    assert_eq!(parse_and_evaluate_unario("!(1 > 0)"), Ok(Value::Boolean(false)));
    assert_eq!(parse_and_evaluate_unario("!(1 < 0)"), Ok(Value::Boolean(true)));
}

#[test]
fn test_evaluate_unario_negation_number() {
    assert_eq!(parse_and_evaluate_unario("!1"), Ok(Value::Boolean(false)));
    assert_eq!(parse_and_evaluate_unario("!0"), Ok(Value::Boolean(true)));
}

#[test]
fn test_semantic_error_negation_on_string() {
    assert_eq!(parse_and_evaluate_unario("!\"a\""), Err(Stop::NegationOnText));
}

#[test]
fn test_evaluate_unario_no_negation() {
    assert_eq!(parse_and_evaluate_unario("1"), Ok(number(1.0)));
}
