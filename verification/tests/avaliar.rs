use zero::analisador_semantico::numeros::{Arith, Known, Request};
use zero::analisador_semantico::semantica::Stop;
use zero::analisador_semantico::{avaliar, Failure};

/// Answers a request as the machine's binary64 arithmetic does.
fn learn(known: &mut Known, request: Request) {
    match request {
        Request::Parse(text) => {
            let bits = text.parse::<f64>().unwrap_or(f64::NAN).to_bits();
            known.learn_parse(text, bits);
        }
        Request::Compute(op, a, b) => {
            let (x, y) = (f64::from_bits(a), f64::from_bits(b));
            let result = match op {
                Arith::Add => x + y,
                Arith::Sub => x - y,
                Arith::Mul => x * y,
                Arith::Div => x / y,
            };
            known.learn_compute(op, a, b, result.to_bits());
        }
        Request::Format(bits) => {
            known.learn_format(bits, f64::from_bits(bits).to_string());
        }
    }
}

/// Runs a program to its end, answering every request on the way.
fn executar(input: &str) -> Result<String, Failure> {
    let mut known = Known::new();
    loop {
        match avaliar(input, &known) {
            Err(Failure::Stopped(Stop::Need(request))) => learn(&mut known, request),
            other => return other,
        }
    }
}

#[test]
fn test_evaluate_comparacao_maior() {
    assert_eq!(executar("5 > 2").unwrap(), "true\n");
    assert_eq!(executar("2 > 5").unwrap(), "false\n");
}

#[test]
fn test_evaluate_comparacao_menor() {
    assert_eq!(executar("2 < 5").unwrap(), "true\n");
    assert_eq!(executar("5 < 2").unwrap(), "false\n");
}

#[test]
fn test_evaluate_comparacao_maior_igual() {
    assert_eq!(executar("5 >= 2").unwrap(), "true\n");
    assert_eq!(executar("5 >= 5").unwrap(), "true\n");
    assert_eq!(executar("2 >= 5").unwrap(), "false\n");
}

#[test]
fn test_evaluate_comparacao_menor_igual() {
    assert_eq!(executar("2 <= 5").unwrap(), "true\n");
    assert_eq!(executar("5 <= 5").unwrap(), "true\n");
    assert_eq!(executar("5 <= 2").unwrap(), "false\n");
}

#[test]
fn test_evaluate_comparacao_igual() {
    assert_eq!(executar("5 == 5").unwrap(), "true\n");
    assert_eq!(executar("5 == 2").unwrap(), "false\n");
    assert_eq!(executar(r#""a" == "a""#).unwrap(), "true\n");
    assert_eq!(executar(r#""a" == "b""#).unwrap(), "false\n");
}

#[test]
fn test_evaluate_comparacao_diferente() {
    assert_eq!(executar("5 != 2").unwrap(), "true\n");
    assert_eq!(executar(r#""a" != "b""#).unwrap(), "true\n");
    assert_eq!(executar("5 != 5").unwrap(), "false\n");
}

#[test]
fn comparacao_test_semantic_error_invalid_op_with_string_1() {
    assert!(executar(r#""a" > "b""#).is_err());
}

#[test]
fn comparacao_test_semantic_error_invalid_op_with_string_2() {
    assert!(executar(r#""a" < "b""#).is_err());
}

#[test]
fn comparacao_test_semantic_error_invalid_op_with_string_3() {
    assert!(executar(r#""a" >= "b""#).is_err());
}

#[test]
fn comparacao_test_semantic_error_invalid_op_with_string_4() {
    assert!(executar(r#""a" <= "b""#).is_err());
}

#[test]
fn test_evaluate_lista_vazia() {
    assert_eq!(executar("[]").unwrap(), "[]\n");
}

#[test]
fn test_evaluate_lista_com_um_elemento() {
    assert_eq!(executar("[1]").unwrap(), "[1]\n");
}

#[test]
fn test_evaluate_lista_com_multiplos_elementos() {
    assert_eq!(executar("[1, 2, 3]").unwrap(), "[1, 2, 3]\n");
}

#[test]
fn test_evaluate_lista_com_expressoes() {
    assert_eq!(executar("[1 + 2, 3 * 4]").unwrap(), "[3, 12]\n");
}

#[test]
fn test_evaluate_objeto_vazio() {
    assert_eq!(executar("{}").unwrap(), "{}\n");
}

#[test]
fn test_evaluate_objeto_com_um_elemento() {
    assert_eq!(executar("{a: 1}").unwrap(), "{a: 1}\n");
}

#[test]
fn test_evaluate_objeto_com_multiplos_elementos() {
    assert_eq!(executar("{a: 1, b: 2, c: 3}").unwrap(), "{a: 1, b: 2, c: 3}\n");
}

#[test]
fn test_evaluate_objeto_com_expressoes() {
    assert_eq!(executar("{a: 1 + 2, b: 3 * 4}").unwrap(), "{a: 3, b: 12}\n");
}

#[test]
fn produto_test_evaluate_term_2_multiplication() {
    assert_eq!(executar("5 * 2").unwrap(), "10\n");
    assert_eq!(executar("2.5 * 4").unwrap(), "10\n");
}

#[test]
fn produto_test_evaluate_term_2_division() {
    assert_eq!(executar("10 / 2").unwrap(), "5\n");
    assert_eq!(executar("10 / 4").unwrap(), "2.5\n");
}

#[test]
fn produto_test_evaluate_term_2_left_associativity() {
    // 10 / 2 * 5 should be (10 / 2) * 5 = 5 * 5 = 25
    assert_eq!(executar("10 / 2 * 5").unwrap(), "25\n");
    // 100 * 2 / 4 should be (100 * 2) / 4 = 200 / 4 = 50
    assert_eq!(executar("100 * 2 / 4").unwrap(), "50\n");
}

#[test]
fn test_evaluate_soma_addition() {
    assert_eq!(executar("5 + 2").unwrap(), "7\n");
    assert_eq!(executar("2.5 + 4").unwrap(), "6.5\n");
}

#[test]
fn test_evaluate_soma_subtraction() {
    assert_eq!(executar("10 - 2").unwrap(), "8\n");
    assert_eq!(executar("10 - 12.5").unwrap(), "-2.5\n");
}

#[test]
fn test_evaluate_soma_left_associativity() {
    // 10 - 2 + 5 should be (10 - 2) + 5 = 8 + 5 = 13
    assert_eq!(executar("10 - 2 + 5").unwrap(), "13\n");
    // 100 + 2 - 4 should be (100 + 2) - 4 = 102 - 4 = 98
    assert_eq!(executar("100 + 2 - 4").unwrap(), "98\n");
}

#[test]
fn soma_test_semantic_error_string_in_numeric_operation() {
    let code = r#"x = "texto"\nx + 1"#;
    assert!(executar(code).is_err());
}

#[test]
fn soma_test_semantic_success_numeric_operation() {
    let code = "x = 10\nx + 1";
    assert!(executar(code).is_ok());
}
