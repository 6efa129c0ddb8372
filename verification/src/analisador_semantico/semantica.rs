//! What a program means: the value of every node of the syntax tree, given
//! the scope and the facts about numbers that are known.
use crate::analisador_semantico::numeros::{Arith, Fact, Facts, Request};
use crate::analisador_semantico::value::{
    is_zero, number_le, number_lt, number_of_bool, val_eq, with_entry, Val, Value, NAN,
};
use crate::analisador_sintatico::ast::{Comparison, Tree};
use vstd::prelude::*;
use vstd::string::StringExecFns;

verus! {

/// Why an evaluation stopped, as the contracts see it.
pub enum Cause {
    OrderingOnText(Comparison),
    ArithmeticOnText(Arith),
    NegationOnText,
    UnboundName(Seq<char>),
    Need(Fact),
}

/// Why an evaluation stopped short of a value.
///
/// The first four are the semantic errors of the language. `Need` is no
/// error: the table of known facts lacks the one named, and the evaluation
/// is to be made again once the table holds it.
#[derive(Debug, PartialEq)]
pub enum Stop {
    /// `>`, `<`, `>=` or `<=` met a text.
    OrderingOnText(Comparison),
    /// `+`, `-`, `*` or `/` met a text.
    ArithmeticOnText(Arith),
    /// `!` met a text.
    NegationOnText,
    /// A name was read that no assignment has bound.
    UnboundName(String),
    /// A fact about numbers is missing from the table.
    Need(Request),
}

impl View for Stop {
    type V = Cause;

    open spec fn view(&self) -> Cause {
        match self {
            Stop::OrderingOnText(op) => Cause::OrderingOnText(*op),
            Stop::ArithmeticOnText(op) => Cause::ArithmeticOnText(*op),
            Stop::NegationOnText => Cause::NegationOnText,
            Stop::UnboundName(n) => Cause::UnboundName(n@),
            Stop::Need(q) => Cause::Need(q@),
        }
    }
}

/// How the evaluation of a node ends: with a value or with the cause that
/// stopped it, and with the scope as the evaluation left it.
pub struct Eval {
    pub result: Result<Val, Cause>,
    pub scope: Map<Seq<char>, Val>,
}

/// The number that a value counts as where an operator wants a number and
/// the value is no text: a number is itself, a boolean is one or zero, a
/// list or an object is a NaN.
pub open spec fn as_number(v: Val) -> u64 {
    match v {
        Val::Number(n) => n,
        Val::Boolean(b) => number_of_bool(b),
        _ => NAN,
    }
}

/// The number that a value counts as: a number is itself, a boolean is one
/// or zero, a list or an object is a NaN, and a text is the number that it
/// reads as, which is asked of the table.
pub open spec fn coerced(v: Val, k: Facts) -> Result<u64, Cause> {
    match v {
        Val::Text(t) => if k.parsed.contains_key(t) {
            Ok(k.parsed[t])
        } else {
            Err(Cause::Need(Fact::Parse(t)))
        },
        _ => Ok(as_number(v)),
    }
}

/// Whether a value counts as true: whether the number that it counts as is
/// not zero.
pub open spec fn truth(v: Val, k: Facts) -> Result<bool, Cause> {
    match coerced(v, k) {
        Ok(n) => Ok(!is_zero(n)),
        Err(c) => Err(c),
    }
}

/// Whether the operator orders its operands, which texts cannot be.
pub open spec fn is_ordering(op: Comparison) -> bool {
    op != Comparison::Equal && op != Comparison::Different
}

/// What a comparison of two values gives. The four that order compare the
/// numbers that the values count as.
pub open spec fn compare(op: Comparison, a: Val, b: Val) -> bool {
    match op {
        Comparison::Greater => number_lt(as_number(b), as_number(a)),
        Comparison::Less => number_lt(as_number(a), as_number(b)),
        Comparison::GreaterOrEqual => number_le(as_number(b), as_number(a)),
        Comparison::LessOrEqual => number_le(as_number(a), as_number(b)),
        Comparison::Equal => val_eq(a, b),
        Comparison::Different => !val_eq(a, b),
    }
}

/// What `!` makes of a value.
pub open spec fn negate(v: Val) -> Result<Val, Cause> {
    match v {
        Val::Boolean(b) => Ok(Val::Boolean(!b)),
        Val::Text(_) => Err(Cause::NegationOnText),
        _ => Ok(Val::Boolean(is_zero(as_number(v)))),
    }
}

/// The text between the two quotes of a text literal.
pub open spec fn unquote(raw: Seq<char>) -> Seq<char> {
    if raw.len() >= 2 {
        raw.subrange(1, raw.len() - 1)
    } else {
        Seq::empty()
    }
}

/// The value of a node, and the scope after it.
pub open spec fn sem(t: Tree, s: Map<Seq<char>, Val>, k: Facts) -> Eval
    decreases t, 0nat,
{
    match t {
        Tree::Arquivo(items) => sem_sequence(items, 0, Val::Number(NAN), s, k),
        Tree::Expressao(items) => sem_sequence(items, 0, Val::Number(NAN), s, k),
        Tree::Atribuicao(name, e) => {
            let ev = sem(*e, s, k);
            match ev.result {
                Ok(v) => Eval { result: Ok(Val::Number(NAN)), scope: ev.scope.insert(name, v) },
                Err(_) => ev,
            }
        },
        Tree::LogicaOu(first, rest) => sem_logic(true, sem(*first, s, k), rest, k),
        Tree::LogicaE(first, rest) => sem_logic(false, sem(*first, s, k), rest, k),
        Tree::Comparacao(first, rest) => {
            let ev = sem(*first, s, k);
            match ev.result {
                Ok(v) => sem_comparisons(v, rest, 0, ev.scope, k),
                Err(_) => ev,
            }
        },
        Tree::Soma(first, rest) => sem_arithmetic(sem(*first, s, k), rest, k),
        Tree::Produto(first, rest) => sem_arithmetic(sem(*first, s, k), rest, k),
        Tree::Unario(negated, e) => {
            let ev = sem(*e, s, k);
            match ev.result {
                Ok(v) => if negated {
                    Eval { result: negate(v), scope: ev.scope }
                } else {
                    ev
                },
                Err(_) => ev,
            }
        },
        Tree::Atomo(e) => sem(*e, s, k),
        Tree::Lista(items) => sem_list(items, 0, Seq::empty(), s, k),
        Tree::Objeto(entries) => sem_object(entries, 0, Seq::empty(), s, k),
        Tree::NumeroLiteral(text) => Eval {
            result: if k.parsed.contains_key(text) {
                Ok(Val::Number(k.parsed[text]))
            } else {
                Err(Cause::Need(Fact::Parse(text)))
            },
            scope: s,
        },
        Tree::StringLiteral(raw) => Eval { result: Ok(Val::Text(unquote(raw))), scope: s },
        Tree::Nome(name) => Eval {
            result: if s.contains_key(name) {
                Ok(s[name])
            } else {
                Err(Cause::UnboundName(name))
            },
            scope: s,
        },
    }
}

/// The items from `i` on, one after the other: the value of the last one, or
/// `last` where there is none.
pub open spec fn sem_sequence(
    items: Seq<Tree>,
    i: int,
    last: Val,
    s: Map<Seq<char>, Val>,
    k: Facts,
) -> Eval
    decreases items, items.len() - i,
{
    if i < 0 || i >= items.len() {
        Eval { result: Ok(last), scope: s }
    } else {
        let ev = sem(items[i], s, k);
        match ev.result {
            Ok(v) => sem_sequence(items, i + 1, v, ev.scope, k),
            Err(_) => ev,
        }
    }
}

/// Operands between `||` (where `or` is set) or `&&`, the first of which
/// came to `ev`. One operand alone is its own value. With an operator, the
/// result is the number one or zero: for `||`, one as soon as an operand
/// counts as true; for `&&`, zero as soon as one counts as false. The operands
/// after that one are not evaluated.
pub open spec fn sem_logic(or: bool, ev: Eval, rest: Seq<Tree>, k: Facts) -> Eval
    decreases rest, rest.len() + 1,
{
    match ev.result {
        Ok(v) => if rest.len() == 0 {
            ev
        } else {
            match truth(v, k) {
                Ok(b) => sem_logic_rest(or, b, rest, 0, ev.scope, k),
                Err(c) => Eval { result: Err(c), scope: ev.scope },
            }
        },
        Err(_) => ev,
    }
}

/// The operands from `i` on, where those before them came to `state`.
pub open spec fn sem_logic_rest(
    or: bool,
    state: bool,
    rest: Seq<Tree>,
    i: int,
    s: Map<Seq<char>, Val>,
    k: Facts,
) -> Eval
    decreases rest, rest.len() - i,
{
    if i < 0 || i >= rest.len() || state == or {
        Eval { result: Ok(Val::Number(number_of_bool(state))), scope: s }
    } else {
        let ev = sem(rest[i], s, k);
        match ev.result {
            Ok(v) => match truth(v, k) {
                Ok(b) => sem_logic_rest(or, b, rest, i + 1, ev.scope, k),
                Err(c) => Eval { result: Err(c), scope: ev.scope },
            },
            Err(_) => ev,
        }
    }
}

/// The comparisons from `i` on, from left to right, where the operands
/// before them came to `left`. An operator that orders stops on a text, after
/// both of its operands were evaluated.
pub open spec fn sem_comparisons(
    left: Val,
    rest: Seq<(Comparison, Tree)>,
    i: int,
    s: Map<Seq<char>, Val>,
    k: Facts,
) -> Eval
    decreases rest, rest.len() - i,
{
    if i < 0 || i >= rest.len() {
        Eval { result: Ok(left), scope: s }
    } else {
        let ev = sem(rest[i].1, s, k);
        match ev.result {
            Ok(right) => if is_ordering(rest[i].0) && (left is Text || right is Text) {
                Eval { result: Err(Cause::OrderingOnText(rest[i].0)), scope: ev.scope }
            } else {
                sem_comparisons(
                    Val::Boolean(compare(rest[i].0, left, right)),
                    rest,
                    i + 1,
                    ev.scope,
                    k,
                )
            },
            Err(_) => ev,
        }
    }
}

/// Operands between operators of arithmetic, from left to right, the first
/// of which came to `ev`.
pub open spec fn sem_arithmetic(ev: Eval, rest: Seq<(Arith, Tree)>, k: Facts) -> Eval
    decreases rest, rest.len() + 1,
{
    match ev.result {
        Ok(v) => sem_operations(v, rest, 0, ev.scope, k),
        Err(_) => ev,
    }
}

/// The operations from `i` on, where the operands before them came to `left`.
/// An operation stops on a text to its left before its right operand is
/// evaluated, and on a text to its right after. Its result is asked of the
/// table, for the numbers that its operands count as.
pub open spec fn sem_operations(
    left: Val,
    rest: Seq<(Arith, Tree)>,
    i: int,
    s: Map<Seq<char>, Val>,
    k: Facts,
) -> Eval
    decreases rest, rest.len() - i,
{
    if i < 0 || i >= rest.len() {
        Eval { result: Ok(left), scope: s }
    } else if left is Text {
        Eval { result: Err(Cause::ArithmeticOnText(rest[i].0)), scope: s }
    } else {
        let ev = sem(rest[i].1, s, k);
        match ev.result {
            Ok(right) => if right is Text {
                Eval { result: Err(Cause::ArithmeticOnText(rest[i].0)), scope: ev.scope }
            } else {
                let key = (rest[i].0, as_number(left), as_number(right));
                if k.computed.contains_key(key) {
                    sem_operations(Val::Number(k.computed[key]), rest, i + 1, ev.scope, k)
                } else {
                    Eval {
                        result: Err(Cause::Need(Fact::Compute(key.0, key.1, key.2))),
                        scope: ev.scope,
                    }
                }
            },
            Err(_) => ev,
        }
    }
}

/// The list of the values of the items from `i` on, after `done`.
pub open spec fn sem_list(
    items: Seq<Tree>,
    i: int,
    done: Seq<Val>,
    s: Map<Seq<char>, Val>,
    k: Facts,
) -> Eval
    decreases items, items.len() - i,
{
    if i < 0 || i >= items.len() {
        Eval { result: Ok(Val::List(done)), scope: s }
    } else {
        let ev = sem(items[i], s, k);
        match ev.result {
            Ok(v) => sem_list(items, i + 1, done.push(v), ev.scope, k),
            Err(_) => ev,
        }
    }
}

/// The object of the entries from `i` on, put into `done` one after the
/// other: of two entries with one key the later gives the value, in the place
/// of the earlier.
pub open spec fn sem_object(
    entries: Seq<(Seq<char>, Tree)>,
    i: int,
    done: Seq<(Seq<char>, Val)>,
    s: Map<Seq<char>, Val>,
    k: Facts,
) -> Eval
    decreases entries, entries.len() - i,
{
    if i < 0 || i >= entries.len() {
        Eval { result: Ok(Val::Object(done)), scope: s }
    } else {
        let ev = sem(entries[i].1, s, k);
        match ev.result {
            Ok(v) => sem_object(entries, i + 1, with_entry(done, entries[i].0, v), ev.scope, k),
            Err(_) => ev,
        }
    }
}

/// Whether what an evaluator returned, and the scope that it left, are what
/// `ev` says.
pub open spec fn agrees(r: Result<Value, Stop>, scope: Map<Seq<char>, Val>, ev: Eval) -> bool {
    &&& ev.scope == scope
    &&& match r {
        Ok(v) => ev.result == Ok::<Val, Cause>(v@),
        Err(c) => ev.result == Err::<Val, Cause>(c@),
    }
}

/// How an operator of comparison is written.
pub open spec fn symbol(op: Comparison) -> Seq<char> {
    match op {
        Comparison::Greater => ">"@,
        Comparison::Less => "<"@,
        Comparison::GreaterOrEqual => ">="@,
        Comparison::LessOrEqual => "<="@,
        Comparison::Equal => "=="@,
        Comparison::Different => "!="@,
    }
}

/// What is told to the user of each cause: the operator that met a text, or
/// the name that is not bound.
pub open spec fn message_of(c: Cause) -> Seq<char> {
    match c {
        Cause::OrderingOnText(op) => "❌ 💡 Erro semântico: Operador '"@ + symbol(op)
            + "' não pode ser usado com texto"@,
        Cause::ArithmeticOnText(_) =>
            "❌ 💡 Erro semântico: Operando em operação numérica deve ser numérico"@,
        Cause::NegationOnText =>
            "❌ Erro semântico: Não é possível aplicar o operador '!' a uma string."@,
        Cause::UnboundName(name) => "❌ 💡 Erro semântico: Nome '"@ + name + "' não definido"@,
        Cause::Need(_) => "❌ Falta um fato sobre números"@,
    }
}

impl Stop {
    /// Whether this is a semantic error of the language, and not the want
    /// of a fact.
    pub fn is_error(&self) -> (r: bool)
        ensures
            r == !(self@ is Need),
    {
        match self {
            Stop::Need(_) => false,
            _ => true,
        }
    }

    /// What is told to the user.
    pub fn message(&self) -> (r: String)
        ensures
            r@ == message_of(self@),
    {
        match self {
            Stop::OrderingOnText(op) => {
                let mut text = String::from_str("❌ 💡 Erro semântico: Operador '");
                text.append(
                    match op {
                        Comparison::Greater => ">",
                        Comparison::Less => "<",
                        Comparison::GreaterOrEqual => ">=",
                        Comparison::LessOrEqual => "<=",
                        Comparison::Equal => "==",
                        Comparison::Different => "!=",
                    },
                );
                text.append("' não pode ser usado com texto");
                text
            },
            Stop::ArithmeticOnText(_) => String::from_str(
                "❌ 💡 Erro semântico: Operando em operação numérica deve ser numérico",
            ),
            Stop::NegationOnText => String::from_str(
                "❌ Erro semântico: Não é possível aplicar o operador '!' a uma string.",
            ),
            Stop::UnboundName(name) => {
                let mut text = String::from_str("❌ 💡 Erro semântico: Nome '");
                text.append(name.as_str());
                text.append("' não definido");
                text
            },
            Stop::Need(_) => String::from_str("❌ Falta um fato sobre números"),
        }
    }
}

} // verus!
