//! The evaluator: values, the scope, and one function for each grammar rule.
pub mod atomo;
pub mod atribuicao;
pub mod comparacao;
pub mod expressao;
pub mod formato;
pub mod leis;
pub mod lista;
pub mod literals;
pub mod logica;
pub mod numeros;
pub mod objeto;
pub mod produto;
pub mod scope;
pub mod semantica;
pub mod soma;
pub mod unario;
pub mod value;

use crate::analisador_semantico::formato::{format_value, show, written};
use crate::analisador_semantico::numeros::{Facts, Known};
use crate::analisador_semantico::scope::Scope;
use crate::analisador_semantico::semantica::{agrees, sem, Cause, Stop};
use crate::analisador_semantico::value::{Val, Value, NAN};
use crate::analisador_sintatico::ast::{trees, view_of_node, AstNode, Tree};
use crate::analisador_sintatico::gramatica::{p_arquivo, ParsedSeq};
use crate::analisador_sintatico::{mistake_at, parse, Mistake, SyntaxError};
use vstd::prelude::*;
use vstd::string::StringExecFns;

verus! {

/// The value of a node, by the rule that the node is of.
///
/// A name has the value that the scope binds it to, and stops the evaluation
/// where it is not bound. An assignment has no value of its own: a NaN
/// stands for it.
pub fn evaluate_recursively(node: &AstNode, scope: &mut Scope, known: &Known) -> (r: Result<
    Value,
    Stop,
>)
    ensures
        agrees(r, final(scope)@, sem(node@, old(scope)@, known@)),
    decreases node, 2nat,
{
    proof {
        view_of_node(*node);
    }
    match node {
        AstNode::Arquivo(items) => expressao::sequence(items, scope, known),
        AstNode::Expressao(_) => expressao::evaluate_expression(node, scope, known),
        AstNode::Atribuicao(_, _) => match atribuicao::evaluate_atribuicao(node, scope, known) {
            Ok(_) => Ok(Value::Number(NAN)),
            Err(c) => Err(c),
        },
        AstNode::LogicaOu(_, _) => logica::evaluate_logica_ou(node, scope, known),
        AstNode::LogicaE(_, _) => logica::evaluate_logica_e(node, scope, known),
        AstNode::Comparacao(_, _) => comparacao::evaluate_comparacao(node, scope, known),
        AstNode::Soma(_, _) => soma::evaluate_soma(node, scope, known),
        AstNode::Produto(_, _) => produto::evaluate_produto(node, scope, known),
        AstNode::Unario(_, _) => unario::evaluate_unario(node, scope, known),
        AstNode::Atomo(_) => atomo::evaluate_atomo(node, scope, known),
        AstNode::Lista(_) => lista::evaluate_lista(node, scope, known),
        AstNode::Objeto(_) => objeto::evaluate_objeto(node, scope, known),
        AstNode::NumeroLiteral(_) => literals::evaluate_number_literal(node, known),
        AstNode::StringLiteral(_) => Ok(literals::evaluate_string_literal(node)),
        AstNode::Nome(name) => match scope.get(name.as_str()) {
            Some(v) => Ok(v),
            None => Err(Stop::UnboundName(name.clone())),
        },
    }
}


/// Whether a statement shows its value: whether it does not end in an
/// assignment.
pub open spec fn prints(t: Tree) -> bool
    decreases t,
{
    match t {
        Tree::Atribuicao(_, _) => false,
        Tree::Expressao(items) => items.len() > 0 && prints(items[items.len() - 1]),
        Tree::Arquivo(items) => items.len() > 0 && prints(items[items.len() - 1]),
        _ => true,
    }
}

/// The output of the statements from `i` on, after `out`: one line for each
/// statement that shows its value, each statement evaluated in the scope that
/// the one before it left. The first statement that stops, stops the run.
pub open spec fn run(
    statements: Seq<Tree>,
    i: int,
    out: Seq<char>,
    s: Map<Seq<char>, Val>,
    k: Facts,
) -> Result<Seq<char>, Cause>
    decreases statements.len() - i,
{
    if i < 0 || i >= statements.len() {
        Ok(out)
    } else {
        let ev = sem(statements[i], s, k);
        match ev.result {
            Ok(v) => if prints(statements[i]) {
                match show(v, false, k) {
                    Ok(line) => run(statements, i + 1, out + line + seq!['\n'], ev.scope, k),
                    Err(c) => Err(c),
                }
            } else {
                run(statements, i + 1, out, ev.scope, k)
            },
            Err(c) => Err(c),
        }
    }
}

/// The output of a program: that of its statements, run from the first, with
/// nothing written yet and no variable bound.
pub open spec fn output(statements: Seq<Tree>, k: Facts) -> Result<Seq<char>, Cause> {
    run(statements, 0, Seq::empty(), Map::empty(), k)
}

/// Whether a statement shows its value.
pub fn shows(node: &AstNode) -> (r: bool)
    ensures
        r == prints(node@),
    decreases node,
{
    proof {
        view_of_node(*node);
    }
    match node {
        AstNode::Atribuicao(_, _) => false,
        AstNode::Expressao(items) => items.len() > 0 && shows(&items[items.len() - 1]),
        AstNode::Arquivo(items) => items.len() > 0 && shows(&items[items.len() - 1]),
        _ => true,
    }
}

/// Runs the statements of a program, in order and in one scope that is
/// empty at the start, and returns what they show: the value of each
/// statement that does not end in an assignment, on a line of its own.
///
/// The run stops at the first statement that stops, and then returns the
/// cause alone: nothing of what the statements before it have shown.
pub fn evaluate(statements: &Vec<AstNode>, known: &Known) -> (r: Result<String, Stop>)
    ensures
        written(r, output(trees(statements@), known@)),
{
    let mut scope = Scope::new();
    let mut out = String::new();
    let mut i: usize = 0;
    assert(out@ =~= Seq::<char>::empty());
    while i < statements.len()
        invariant
            i <= statements.len(),
            output(trees(statements@), known@) == run(
                trees(statements@),
                i as int,
                out@,
                scope@,
                known@,
            ),
        decreases statements.len() - i,
    {
        let value = match evaluate_recursively(&statements[i], &mut scope, known) {
            Ok(v) => v,
            Err(c) => {
                return Err(c);
            },
        };
        if shows(&statements[i]) {
            let line = match format_value(&value, false, known) {
                Ok(t) => t,
                Err(c) => {
                    return Err(c);
                },
            };
            let ghost before = out@;
            out.append(line.as_str());
            out.push('\n');
            assert(out@ =~= before + line@ + seq!['\n']);
        }
        i += 1;
    }
    Ok(out)
}

/// Why a program gave no output, as the contracts see it.
pub enum Fault {
    Syntax(Mistake),
    Stopped(Cause),
}

/// Why a program gave no output.
#[derive(Debug, PartialEq)]
pub enum Failure {
    /// The text is no program.
    Syntax(SyntaxError),
    /// The run stopped: on a semantic error, or for want of a fact about
    /// numbers.
    Stopped(Stop),
}

impl View for Failure {
    type V = Fault;

    open spec fn view(&self) -> Fault {
        match self {
            Failure::Syntax(error) => Fault::Syntax(error@),
            Failure::Stopped(stop) => Fault::Stopped(stop@),
        }
    }
}

/// What a text gives when it is read as a program and run: the output of
/// its statements, or the syntax error of the text, or the cause that stopped
/// the run.
pub open spec fn outcome(text: Seq<char>, k: Facts) -> Result<Seq<char>, Fault> {
    match p_arquivo(text) {
        ParsedSeq::Match(statements, _) => match output(statements, k) {
            Ok(out) => Ok(out),
            Err(c) => Err(Fault::Stopped(c)),
        },
        ParsedSeq::Fail(e) => Err(Fault::Syntax(mistake_at(text, e))),
    }
}

/// Whether what a run returned is what `o` says.
pub open spec fn returned(r: Result<String, Failure>, o: Result<Seq<char>, Fault>) -> bool {
    match r {
        Ok(out) => o == Ok::<Seq<char>, Fault>(out@),
        Err(failure) => o == Err::<Seq<char>, Fault>(failure@),
    }
}

/// Reads the text as a program and runs it.
///
/// A text that is no program is not run at all. A run that stops with
/// [`Stop::Need`] is to be made again with a table that holds the fact.
pub fn avaliar(input: &str, known: &Known) -> (r: Result<String, Failure>)
    ensures
        returned(r, outcome(input@, known@)),
{
    match parse(input) {
        Ok(statements) => match evaluate(&statements, known) {
            Ok(out) => Ok(out),
            Err(stop) => Err(Failure::Stopped(stop)),
        },
        Err(error) => Err(Failure::Syntax(error)),
    }
}

} // verus!
