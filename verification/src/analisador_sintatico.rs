//! The parser: from the text of a program to its syntax tree.
pub mod ast;
pub mod gramatica;
pub mod lexico;
pub mod regras;

use crate::analisador_sintatico::ast::{trees, view_of_node, AstNode, Rule, Tree};
use crate::analisador_sintatico::gramatica::{
    blank, p_arquivo, p_atomo, p_atribuicao, p_comparacao, p_expressao, p_logica_e, p_logica_ou,
    p_produto, p_soma, p_unario, Parsed, ParsedSeq, MAX_DEPTH,
};
use crate::analisador_sintatico::lexico::skip;
use crate::analisador_sintatico::regras::{
    found, parse_arquivo, parse_atomo, parse_atribuicao, parse_comparacao, parse_expressao,
    parse_logica_e, parse_logica_ou, parse_produto, parse_soma, parse_unario,
};
use crate::texto::{byte_offset, chars_of, prefix_ends_on_boundary, string_of};
use vstd::prelude::*;
use vstd::string::StringExecFns;
use vstd::string::StringSliceAdditionalSpecFns;
use vstd::utf8::is_char_boundary;

verus! {

/// The parser of the language.
#[derive(Debug, Clone, Copy)]
pub struct SintaticoParser;

/// What pest displays of a custom error at a place of a text: the line and
/// the column of the place, the line of the text that holds it with a mark
/// under the place, and the message. The place is counted in bytes.
pub uninterp spec fn pest_report(input: Seq<char>, pos: int, message: Seq<char>) -> Seq<char>;

/// What is said of every syntax error.
pub open spec fn detail() -> Seq<char> {
    "entrada inesperada"@
}

/// The number of line ends among the first `e` characters.
pub open spec fn lines_before(s: Seq<char>, e: int) -> nat
    decreases e,
{
    if e <= 0 || e > s.len() {
        0
    } else if s[e - 1] == '\n' {
        lines_before(s, e - 1) + 1
    } else {
        lines_before(s, e - 1)
    }
}

/// The number of characters between the last line end before the
/// character `e`, or the start of the text, and that character.
pub open spec fn since_line_start(s: Seq<char>, e: int) -> nat
    decreases e,
{
    if e <= 0 || e > s.len() || s[e - 1] == '\n' {
        0
    } else {
        since_line_start(s, e - 1) + 1
    }
}

/// One more than `n`, as far as a `usize` counts.
pub open spec fn one_more(n: nat) -> usize {
    if n < usize::MAX {
        (n + 1) as usize
    } else {
        usize::MAX
    }
}

/// A syntax error, as the contracts see it.
pub struct Mistake {
    pub line: usize,
    pub column: usize,
    pub message: Seq<char>,
}

/// A syntax error: the place where a text stops being a program.
#[derive(Debug, PartialEq)]
pub struct SyntaxError {
    /// The line of the place, the first being 1.
    pub line: usize,
    /// The column of the place in its line, counted in characters, the
    /// first being 1.
    pub column: usize,
    /// What is told to the user: pest's picture of the place.
    pub message: String,
}

impl View for SyntaxError {
    type V = Mistake;

    open spec fn view(&self) -> Mistake {
        Mistake { line: self.line, column: self.column, message: self.message@ }
    }
}

/// The message of a syntax error at the character `e` of the text `s`.
pub open spec fn syntax_message(s: Seq<char>, e: nat) -> Seq<char> {
    "❌ Erro de sintaxe: "@ + pest_report(s, byte_offset(s, e as int), detail())
}

/// The syntax error at the character `e` of the text `s`.
pub open spec fn mistake_at(s: Seq<char>, e: nat) -> Mistake {
    Mistake {
        line: one_more(lines_before(s, e as int)),
        column: one_more(since_line_start(s, e as int)),
        message: syntax_message(s, e),
    }
}

/// pest's report of an error at the byte `pos` of `input`.
///
/// `pest::Position::new` gives the position of that byte, and gives one
/// exactly where `pos` is the start of a character of `input`, or its end.
/// `pest::error::Error::new_from_pos` makes the custom error with the
/// message at that position, and the report is what the error displays. The
/// contract says when there is a report, and names its text: the text is
/// not written out here.
#[verifier::external_body]
fn report(input: &str, pos: usize, message: &str) -> (r: Option<String>)
    ensures
        r is Some <==> is_char_boundary(input.spec_bytes(), pos as int),
        r matches Some(t) ==> t@ == pest_report(input@, pos as int, message@),
{
    match pest::Position::new(input, pos) {
        Some(place) => Some(
            format!(
                "{}",
                pest::error::Error::<Rule>::new_from_pos(
                    pest::error::ErrorVariant::CustomError { message: message.to_owned() },
                    place,
                )
            ),
        ),
        None => None,
    }
}

/// One more than `n`, as far as a `usize` counts.
fn next(n: usize) -> (r: usize)
    ensures
        r == one_more(n as nat),
{
    if n < usize::MAX {
        n + 1
    } else {
        n
    }
}

/// The syntax error at the character `e` of `input`.
fn syntax_error(input: &str, chars: &Vec<char>, e: usize) -> (r: SyntaxError)
    requires
        chars@ == input@,
        e <= chars.len(),
    ensures
        r@ == mistake_at(input@, e as nat),
{
    let mut lines: usize = 0;
    let mut columns: usize = 0;
    let mut i: usize = 0;
    while i < e
        invariant
            i <= e <= chars.len(),
            lines == lines_before(chars@, i as int),
            columns == since_line_start(chars@, i as int),
            lines <= i,
            columns <= i,
        decreases e - i,
    {
        if chars[i] == '\n' {
            lines += 1;
            columns = 0;
        } else {
            columns += 1;
        }
        i += 1;
    }
    let prefix = string_of(chars, 0, e);
    let at = prefix.as_str().as_bytes().len();
    proof {
        prefix_ends_on_boundary(input@, e as int);
        assert(prefix@ == input@.subrange(0, e as int));
        assert(at == byte_offset(input@, e as int));
    }
    match report(input, at, "entrada inesperada") {
        Some(text) => {
            let mut message = String::from_str("❌ Erro de sintaxe: ");
            message.append(text.as_str());
            SyntaxError { line: next(lines), column: next(columns), message }
        },
        None => vstd::pervasive::unreached(),
    }
}

/// Whether a tree is of the kind that the rule names, for the rules of what
/// an atom holds.
pub open spec fn is_of(rule: Rule, t: Tree) -> bool {
    match rule {
        Rule::lista => t is Lista,
        Rule::objeto => t is Objeto,
        Rule::numero_literal => t is NumeroLiteral,
        Rule::texto_literal => t is StringLiteral,
        Rule::nome => t is Nome,
        _ => false,
    }
}

/// What a rule finds at the start of a text.
///
/// The rules of what an atom holds find what the atom at the start holds,
/// where it is of their kind, and fail at its start where it is not.
pub open spec fn p_rule(rule: Rule, s: Seq<char>) -> Parsed {
    let depth = MAX_DEPTH as nat;
    match rule {
        Rule::arquivo => match p_arquivo(s) {
            ParsedSeq::Match(statements, n) => Parsed::Match(Tree::Arquivo(statements), n),
            ParsedSeq::Fail(e) => Parsed::Fail(e),
        },
        Rule::expressao => p_expressao(s, 0, depth),
        Rule::atribuicao => p_atribuicao(s, 0, depth),
        Rule::logica_ou => p_logica_ou(s, 0, depth),
        Rule::logica_e => p_logica_e(s, 0, depth),
        Rule::comparacao => p_comparacao(s, 0, depth),
        Rule::soma => p_soma(s, 0, depth),
        Rule::produto => p_produto(s, 0, depth),
        Rule::unario => p_unario(s, 0, depth),
        Rule::atomo => p_atomo(s, 0, depth),
        _ => match p_atomo(s, 0, depth) {
            Parsed::Match(t, n) => if t is Atomo && is_of(rule, *t->Atomo_0) {
                Parsed::Match(*t->Atomo_0, n)
            } else {
                Parsed::Fail(blank(s, 0))
            },
            Parsed::Fail(e) => Parsed::Fail(e),
        },
    }
}

/// Whether a node is of the kind that the rule names, for the rules of what
/// an atom holds.
fn kind_is(rule: Rule, node: &AstNode) -> (r: bool)
    ensures
        r == is_of(rule, node@),
{
    proof {
        view_of_node(*node);
    }
    match rule {
        Rule::lista => match node {
            AstNode::Lista(_) => true,
            _ => false,
        },
        Rule::objeto => match node {
            AstNode::Objeto(_) => true,
            _ => false,
        },
        Rule::numero_literal => match node {
            AstNode::NumeroLiteral(_) => true,
            _ => false,
        },
        Rule::texto_literal => match node {
            AstNode::StringLiteral(_) => true,
            _ => false,
        },
        Rule::nome => match node {
            AstNode::Nome(_) => true,
            _ => false,
        },
        _ => false,
    }
}

/// What the rule finds at the start of the text.
fn parse_rule(rule: Rule, s: &Vec<char>) -> (r: Result<(AstNode, usize), usize>)
    ensures
        found(r, s@, 0, p_rule(rule, s@)),
{
    match rule {
        Rule::arquivo => match parse_arquivo(s) {
            Ok(statements) => Ok((AstNode::arquivo(statements), s.len())),
            Err(e) => Err(e),
        },
        Rule::expressao => parse_expressao(s, 0, MAX_DEPTH),
        Rule::atribuicao => parse_atribuicao(s, 0, MAX_DEPTH),
        Rule::logica_ou => parse_logica_ou(s, 0, MAX_DEPTH),
        Rule::logica_e => parse_logica_e(s, 0, MAX_DEPTH),
        Rule::comparacao => parse_comparacao(s, 0, MAX_DEPTH),
        Rule::soma => parse_soma(s, 0, MAX_DEPTH),
        Rule::produto => parse_produto(s, 0, MAX_DEPTH),
        Rule::unario => parse_unario(s, 0, MAX_DEPTH),
        Rule::atomo => parse_atomo(s, 0, MAX_DEPTH),
        _ => match parse_atomo(s, 0, MAX_DEPTH) {
            Ok((node, next)) => {
                proof {
                    view_of_node(node);
                }
                match node {
                    AstNode::Atomo(inner) => {
                        if kind_is(rule, &inner) {
                            Ok((*inner, next))
                        } else {
                            Err(skip(s, 0))
                        }
                    },
                    _ => Err(skip(s, 0)),
                }
            },
            Err(e) => Err(e),
        },
    }
}

impl SintaticoParser {
    /// Reads, at the start of the text, what the rule describes, and
    /// returns its tree. The text may go on after it.
    ///
    /// Where the text does not start with what the rule describes, the
    /// error is the syntax error of the place where the text goes wrong.
    pub fn parse(rule: Rule, input: &str) -> (r: Result<AstNode, SyntaxError>)
        ensures
            match r {
                Ok(node) => p_rule(rule, input@) is Match && p_rule(rule, input@)->Match_0
                    == node@,
                Err(error) => p_rule(rule, input@) is Fail && p_rule(rule, input@)->Fail_0
                    <= input@.len() && error@ == mistake_at(
                    input@,
                    p_rule(rule, input@)->Fail_0,
                ),
            },
    {
        let chars = chars_of(input);
        match parse_rule(rule, &chars) {
            Ok((node, _)) => Ok(node),
            Err(e) => Err(syntax_error(input, &chars, e)),
        }
    }
}

/// Reads a program: its statements, in order.
///
/// The whole text has to be statements, with blanks and comments between
/// them. Where it is not, the error is the syntax error of the place where
/// the text goes wrong.
pub fn parse(input: &str) -> (r: Result<Vec<AstNode>, SyntaxError>)
    ensures
        match r {
            Ok(statements) => p_arquivo(input@) == ParsedSeq::Match(
                trees(statements@),
                input@.len(),
            ),
            Err(error) => p_arquivo(input@) is Fail && p_arquivo(input@)->Fail_0 <= input@.len()
                && error@ == mistake_at(input@, p_arquivo(input@)->Fail_0),
        },
{
    let chars = chars_of(input);
    match parse_arquivo(&chars) {
        Ok(statements) => Ok(statements),
        Err(e) => Err(syntax_error(input, &chars, e)),
    }
}

} // verus!
