use zero::analisador_semantico::numeros::{Arith, Known, Request};
use zero::analisador_semantico::semantica::Stop;
use zero::analisador_semantico::{avaliar, Failure};
use zero::analisador_sintatico::ast::Comparison;

/// Answers a request as the machine's binary64 arithmetic does.
fn learn(known: &mut Known, request: Request) {
    match request {
        Request::Parse(text) => {
            let bits = text.parse::<f64>().unwrap_or(f64::NAN).to_bits();
            known.learn_parse(text, bits);
        }
        Request::Compute(op, a, b) => {
            let (x, y) = (f64::from_bits(a), f64::from_bits(b));
            let result = match op {
                Arith::Add => x + y,
                Arith::Sub => x - y,
                Arith::Mul => x * y,
                Arith::Div => x / y,
            };
            known.learn_compute(op, a, b, result.to_bits());
        }
        Request::Format(bits) => {
            known.learn_format(bits, f64::from_bits(bits).to_string());
        }
    }
}

/// Runs a program to its end, answering every request on the way.
fn executar(input: &str) -> Result<String, Failure> {
    let mut known = Known::new();
    loop {
        match avaliar(input, &known) {
            Err(Failure::Stopped(Stop::Need(request))) => learn(&mut known, request),
            other => return other,
        }
    }
}

/// Runs a program to its end and counts the requests that were answered.
fn executar_contando(input: &str) -> (Result<String, Failure>, Vec<Request>) {
    let mut known = Known::new();
    let mut asked = Vec::new();
    loop {
        match avaliar(input, &known) {
            Err(Failure::Stopped(Stop::Need(request))) => {
                asked.push(match &request {
                    Request::Parse(text) => Request::Parse(text.clone()),
                    Request::Compute(op, a, b) => Request::Compute(*op, *a, *b),
                    Request::Format(bits) => Request::Format(*bits),
                });
                learn(&mut known, request);
            }
            other => return (other, asked),
        }
    }
}

fn stop_of(input: &str) -> Stop {
    match executar(input) {
        Err(Failure::Stopped(stop)) => stop,
        other => panic!("{:?}", other),
    }
}

#[test]
fn arithmetic_is_that_of_binary64() {
    for (a, b) in [(0.1, 0.2), (1e308, 1e308), (5.0, 3.0), (1.0, 3.0), (2.5, 4.0)] {
        let (x, y): (f64, f64) = (a, b);
        assert_eq!(executar(&format!("{} + {}", x, y)).unwrap(), format!("{}\n", x + y));
        assert_eq!(executar(&format!("{} - {}", x, y)).unwrap(), format!("{}\n", x - y));
        assert_eq!(executar(&format!("{} * {}", x, y)).unwrap(), format!("{}\n", x * y));
        assert_eq!(executar(&format!("{} / {}", x, y)).unwrap(), format!("{}\n", x / y));
    }
    assert_eq!(executar("0.1 + 0.2").unwrap(), "0.30000000000000004\n");
}

#[test]
fn division_by_zero_is_no_error() {
    assert_eq!(executar("1 / 0").unwrap(), "inf\n");
    assert_eq!(executar("(0 - 1) / 0").unwrap(), "-inf\n");
    assert_eq!(executar("0 / 0").unwrap(), "NaN\n");
}

#[test]
fn operators_go_from_left_to_right() {
    assert_eq!(executar("10 - 2 + 5").unwrap(), "13\n");
    assert_eq!(executar("100 * 2 / 4").unwrap(), "50\n");
    assert_eq!(executar("2 - 3 - 4").unwrap(), "-5\n");
    assert_eq!(executar("1 < 2 < 3").unwrap(), "true\n");
    assert_eq!(executar("3 > 2 > 1").unwrap(), "false\n");
}

#[test]
fn operators_bind_by_their_rule() {
    assert_eq!(executar("5 * 2 + 3").unwrap(), "13\n");
    assert_eq!(executar("3 + 5 * 2").unwrap(), "13\n");
    assert_eq!(executar("0 || 1 && 0").unwrap(), "0\n");
    assert_eq!(executar("1 || 1 && 0").unwrap(), "1\n");
    assert_eq!(executar("1 + 1 == 2").unwrap(), "true\n");
    assert_eq!(executar("1 < 2 && 2 < 3").unwrap(), "1\n");
    assert_eq!(executar("!0 == !0").unwrap(), "true\n");
    assert_eq!(executar("(1 + 2) * 3").unwrap(), "9\n");
}

#[test]
fn logic_stops_as_soon_as_it_knows() {
    assert_eq!(executar("0 && a").unwrap(), "0\n");
    assert_eq!(executar("1 || a").unwrap(), "1\n");
    assert_eq!(executar("5 || a").unwrap(), "1\n");
    assert_eq!(executar("1 && 0 && a").unwrap(), "0\n");
    assert_eq!(executar("0 || 2 || a").unwrap(), "1\n");
    assert_eq!(executar("0 && \"x\" + 1").unwrap(), "0\n");
    assert_eq!(stop_of("1 && a"), Stop::UnboundName("a".to_string()));
    assert_eq!(stop_of("0 || a"), Stop::UnboundName("a".to_string()));
}

#[test]
fn one_operand_alone_is_its_own_value() {
    assert_eq!(executar("5").unwrap(), "5\n");
    assert_eq!(executar("\"a\"").unwrap(), "a\n");
    assert_eq!(executar("1 > 0").unwrap(), "true\n");
}

#[test]
fn what_counts_as_true() {
    assert_eq!(executar("\"0\" || 0").unwrap(), "0\n");
    assert_eq!(executar("\"0.0\" || 0").unwrap(), "0\n");
    assert_eq!(executar("\"2\" && 1").unwrap(), "1\n");
    assert_eq!(executar("\"abc\" && 1").unwrap(), "1\n");
    assert_eq!(executar("\"\" && 1").unwrap(), "1\n");
    assert_eq!(executar("[] && 1").unwrap(), "1\n");
    assert_eq!(executar("{} && 1").unwrap(), "1\n");
    assert_eq!(executar("(1 > 2) || 0").unwrap(), "0\n");
    assert_eq!(executar("(1 < 2) && 1").unwrap(), "1\n");
    assert_eq!(executar("(0 / 0) && 1").unwrap(), "1\n");
    assert_eq!(executar("(0 * (0 - 1)) || 0").unwrap(), "0\n");
}

#[test]
fn each_semantic_error_has_its_input() {
    assert_eq!(stop_of("\"a\" > \"b\""), Stop::OrderingOnText(Comparison::Greater));
    assert_eq!(stop_of("1 < \"b\""), Stop::OrderingOnText(Comparison::Less));
    assert_eq!(stop_of("\"a\" >= 1"), Stop::OrderingOnText(Comparison::GreaterOrEqual));
    assert_eq!(stop_of("\"a\" <= \"b\""), Stop::OrderingOnText(Comparison::LessOrEqual));
    assert_eq!(stop_of("\"a\" + 1"), Stop::ArithmeticOnText(Arith::Add));
    assert_eq!(stop_of("1 - \"a\""), Stop::ArithmeticOnText(Arith::Sub));
    assert_eq!(stop_of("\"a\" * 2"), Stop::ArithmeticOnText(Arith::Mul));
    assert_eq!(stop_of("2 / \"a\""), Stop::ArithmeticOnText(Arith::Div));
    assert_eq!(stop_of("!\"a\""), Stop::NegationOnText);
    assert_eq!(stop_of("a"), Stop::UnboundName("a".to_string()));
    assert_eq!(executar("\"a\" == \"a\"").unwrap(), "true\n");
    assert_eq!(executar("\"a\" == 1").unwrap(), "false\n");
    assert_eq!(executar("\"1\" != 1").unwrap(), "true\n");
}

#[test]
fn a_text_to_the_left_stops_before_the_right_is_evaluated() {
    assert_eq!(stop_of("\"a\" + b"), Stop::ArithmeticOnText(Arith::Add));
    assert_eq!(stop_of("\"a\" > b"), Stop::UnboundName("b".to_string()));
}

#[test]
fn messages_name_what_went_wrong() {
    assert_eq!(
        stop_of("1 >= \"b\"").message(),
        "❌ 💡 Erro semântico: Operador '>=' não pode ser usado com texto"
    );
    assert_eq!(
        stop_of("\"a\" + 1").message(),
        "❌ 💡 Erro semântico: Operando em operação numérica deve ser numérico"
    );
    assert_eq!(
        stop_of("!\"a\"").message(),
        "❌ Erro semântico: Não é possível aplicar o operador '!' a uma string."
    );
    assert_eq!(stop_of("total").message(), "❌ 💡 Erro semântico: Nome 'total' não definido");
    assert!(stop_of("total").is_error());
    assert!(!Stop::Need(Request::Format(0)).is_error());
}

#[test]
fn a_syntax_error_is_no_semantic_error() {
    match executar("a +") {
        Err(Failure::Syntax(error)) => assert_eq!((error.line, error.column), (1, 4)),
        other => panic!("{:?}", other),
    }
    // Nothing is evaluated where the text is no program.
    match executar("b\n1 +") {
        Err(Failure::Syntax(error)) => assert_eq!((error.line, error.column), (2, 4)),
        other => panic!("{:?}", other),
    }
}

#[test]
fn assignment_persists_across_statements() {
    assert_eq!(executar("a = 10\na").unwrap(), "10\n");
    assert_eq!(executar("a = 1\na = a + 1\na").unwrap(), "2\n");
    assert_eq!(executar("a = [1, 2]\nb = a\nb").unwrap(), "[1, 2]\n");
    assert_eq!(executar("x = 3\nx * x\ny = x + 1\ny").unwrap(), "9\n4\n");
}

#[test]
fn an_assignment_shows_nothing() {
    assert_eq!(executar("a = 10").unwrap(), "");
    assert_eq!(executar("a = 10\nb = 2").unwrap(), "");
    assert_eq!(executar("1\na = 2").unwrap(), "1\n");
    assert_eq!(executar("").unwrap(), "");
    assert_eq!(executar("// only a comment").unwrap(), "");
}

#[test]
fn the_first_error_discards_all_output() {
    assert_eq!(stop_of("1\n2\nc\n3"), Stop::UnboundName("c".to_string()));
    assert_eq!(stop_of("a = 1\na + \"x\""), Stop::ArithmeticOnText(Arith::Add));
}

#[test]
fn values_are_written_as_they_read() {
    assert_eq!(executar("[1, 2, 3]").unwrap(), "[1, 2, 3]\n");
    assert_eq!(executar("{a: 1, b: 2}").unwrap(), "{a: 1, b: 2}\n");
    assert_eq!(executar("[1 + 2, 3 * 4]").unwrap(), "[3, 12]\n");
    assert_eq!(executar("[\"a\", 1, 1 > 0]").unwrap(), "[\"a\", 1, true]\n");
    assert_eq!(executar("[[1, [2]], {k: [3]}]").unwrap(), "[[1, [2]], {k: [3]}]\n");
    assert_eq!(executar("{a: \"x\", b: {c: []}}").unwrap(), "{a: \"x\", b: {c: []}}\n");
    assert_eq!(executar("\"plain\"").unwrap(), "plain\n");
    assert_eq!(executar("1.50").unwrap(), "1.5\n");
    assert_eq!(executar("2.0").unwrap(), "2\n");
    assert_eq!(executar("1 < 2").unwrap(), "true\n");
    assert_eq!(executar("!1").unwrap(), "false\n");
}

#[test]
fn of_two_entries_with_one_key_the_later_gives_the_value() {
    assert_eq!(executar("{a: 1, b: 2, a: 3}").unwrap(), "{a: 3, b: 2}\n");
}

#[test]
fn equality_goes_by_kind_and_content() {
    assert_eq!(executar("[1, 2] == [1, 2]").unwrap(), "true\n");
    assert_eq!(executar("[1, 2] == [2, 1]").unwrap(), "false\n");
    assert_eq!(executar("[1] == [1, 1]").unwrap(), "false\n");
    assert_eq!(executar("{a: 1, b: 2} == {b: 2, a: 1}").unwrap(), "true\n");
    assert_eq!(executar("{a: 1} == {a: 2}").unwrap(), "false\n");
    assert_eq!(executar("{a: 1} != {b: 1}").unwrap(), "true\n");
    assert_eq!(executar("1 == (1 > 0)").unwrap(), "false\n");
    assert_eq!(executar("(1 > 0) == (2 > 1)").unwrap(), "true\n");
    assert_eq!(executar("[] == {}").unwrap(), "false\n");
    assert_eq!(executar("(0 / 0) == (0 / 0)").unwrap(), "false\n");
    assert_eq!(executar("(0 / 0) != (0 / 0)").unwrap(), "true\n");
    assert_eq!(executar("0 == 0 * (0 - 1)").unwrap(), "true\n");
    assert_eq!(executar("[0 / 0] == [0 / 0]").unwrap(), "false\n");
}

#[test]
fn ordering_compares_what_values_count_as() {
    assert_eq!(executar("(1 > 0) >= 1").unwrap(), "true\n");
    assert_eq!(executar("(1 > 2) < 1").unwrap(), "true\n");
    assert_eq!(executar("[] < 1").unwrap(), "false\n");
    assert_eq!(executar("[] >= 1").unwrap(), "false\n");
    assert_eq!(executar("(0 / 0) <= (0 / 0)").unwrap(), "false\n");
    assert_eq!(executar("(0 - 1) < 0 * (0 - 1)").unwrap(), "true\n");
    assert_eq!(executar("0 * (0 - 1) < 0").unwrap(), "false\n");
    assert_eq!(executar("0 - 2 < 0 - 1").unwrap(), "true\n");
    assert_eq!(executar("1 / 0 > 100").unwrap(), "true\n");
}

#[test]
fn negation_of_each_kind() {
    assert_eq!(executar("!(1 > 0)").unwrap(), "false\n");
    assert_eq!(executar("!0").unwrap(), "true\n");
    assert_eq!(executar("!(0 * (0 - 1))").unwrap(), "true\n");
    assert_eq!(executar("!(0 / 0)").unwrap(), "false\n");
    assert_eq!(executar("![]").unwrap(), "false\n");
    assert_eq!(executar("!{}").unwrap(), "false\n");
    assert_eq!(executar("!!5").unwrap(), "true\n");
}

#[test]
fn a_run_leaves_nothing_for_the_next() {
    let source = "a = 1\na + 1\n[a, \"b\"]";
    let first = executar(source);
    let second = executar(source);
    assert_eq!(first, second);
    assert_eq!(first.unwrap(), "2\n[1, \"b\"]\n");
    // A variable of one run is unbound in the next.
    assert!(executar("a = 1").is_ok());
    assert_eq!(stop_of("a"), Stop::UnboundName("a".to_string()));
}

#[test]
fn a_run_asks_for_each_fact_once() {
    let (result, asked) = executar_contando("1 + 2\n1 + 2\n2 + 1");
    assert_eq!(result.unwrap(), "3\n3\n3\n");
    let three = 3.0f64.to_bits();
    assert_eq!(
        asked,
        vec![
            Request::Parse("1".to_string()),
            Request::Parse("2".to_string()),
            Request::Compute(Arith::Add, 1.0f64.to_bits(), 2.0f64.to_bits()),
            Request::Format(three),
            Request::Compute(Arith::Add, 2.0f64.to_bits(), 1.0f64.to_bits()),
        ]
    );
}

#[test]
fn a_run_without_numbers_asks_for_nothing() {
    let known = Known::new();
    assert_eq!(avaliar("\"a\" == \"b\"", &known), Ok("false\n".to_string()));
    assert_eq!(avaliar("[\"a\", {}]", &known), Ok("[\"a\", {}]\n".to_string()));
    assert_eq!(
        avaliar("1", &known),
        Err(Failure::Stopped(Stop::Need(Request::Parse("1".to_string()))))
    );
}

#[test]
fn more_facts_change_no_result() {
    let source = "a = 2\na * 3 > 5";
    let mut known = Known::new();
    // Facts that the run has no use for.
    learn(&mut known, Request::Parse("7".to_string()));
    learn(&mut known, Request::Compute(Arith::Div, 1.0f64.to_bits(), 0.0f64.to_bits()));
    learn(&mut known, Request::Format(0.5f64.to_bits()));
    let result = loop {
        match avaliar(source, &known) {
            Err(Failure::Stopped(Stop::Need(request))) => learn(&mut known, request),
            other => break other,
        }
    };
    assert_eq!(result, executar(source));
    assert_eq!(result.unwrap(), "true\n");
}

#[test]
fn the_table_decides_what_numbers_are() {
    // The library takes the results of arithmetic as they are handed in.
    let mut known = Known::new();
    known.learn_parse("1".to_string(), 1.0f64.to_bits());
    known.learn_compute(Arith::Add, 1.0f64.to_bits(), 1.0f64.to_bits(), 3.0f64.to_bits());
    known.learn_format(3.0f64.to_bits(), "three".to_string());
    assert_eq!(avaliar("1 + 1", &known), Ok("three\n".to_string()));
    // A fact that is handed in again replaces the one before.
    known.learn_format(3.0f64.to_bits(), "3".to_string());
    assert_eq!(avaliar("1 + 1", &known), Ok("3\n".to_string()));
}

#[test]
fn blanks_and_comments_stand_anywhere() {
    assert_eq!(executar("  1+2 ").unwrap(), "3\n");
    assert_eq!(executar("1 /* one */ + /* two */ 2 // three").unwrap(), "3\n");
    assert_eq!(executar("[\n 1,\n 2\n]").unwrap(), "[1, 2]\n");
    assert_eq!(executar("6 / 3 // 2").unwrap(), "2\n");
    assert_eq!(executar("\"// no comment\"").unwrap(), "// no comment\n");
}

#[test]
fn the_deepest_nesting_runs() {
    let parentheses = format!("{}1{}", "(".repeat(64), ")".repeat(64));
    assert_eq!(executar(&parentheses).unwrap(), "1\n");
    let lists = format!("{}1{}", "[".repeat(64), "]".repeat(64));
    assert_eq!(executar(&lists).unwrap(), format!("{}\n", lists));
    let objects = format!("{}1{}", "{a: ".repeat(64), "}".repeat(64));
    assert_eq!(executar(&objects).unwrap(), format!("{}\n", objects));
    let negations = format!("{}1", "!".repeat(64));
    assert_eq!(executar(&negations).unwrap(), "true\n");
    let equal = format!("{} == {}", lists, lists);
    assert_eq!(executar(&equal).unwrap(), "true\n");
    match executar(&format!("{}1{}", "[".repeat(65), "]".repeat(65))) {
        Err(Failure::Syntax(error)) => assert_eq!((error.line, error.column), (1, 65)),
        other => panic!("{:?}", other),
    }
}

#[test]
fn a_long_program_runs() {
    let mut source = String::from("total = 0\n");
    for i in 0..200 {
        source.push_str(&format!("total = total + {}\n", i));
    }
    source.push_str("total");
    assert_eq!(executar(&source).unwrap(), "19900\n");
}
