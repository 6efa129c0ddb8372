//! Literals: numbers and texts as written.
use crate::analisador_semantico::numeros::{Fact, Known, Request};
use crate::analisador_semantico::semantica::{unquote, Cause, Stop};
use crate::analisador_semantico::value::{Val, Value};
use crate::analisador_sintatico::ast::{view_of_node, AstNode};
use vstd::prelude::*;

verus! {

/// The number that a number literal writes, which is asked of the table.
pub fn evaluate_number_literal(node: &AstNode, known: &Known) -> (r: Result<Value, Stop>)
    requires
        node is NumeroLiteral,
    ensures
        match r {
            Ok(v) => known@.parsed.contains_key(node@->NumeroLiteral_0) && v@ == Val::Number(
                known@.parsed[node@->NumeroLiteral_0],
            ),
            Err(c) => !known@.parsed.contains_key(node@->NumeroLiteral_0) && c@ == Cause::Need(
                Fact::Parse(node@->NumeroLiteral_0),
            ),
        },
{
    proof {
        view_of_node(*node);
    }
    match node {
        AstNode::NumeroLiteral(text) => match known.parsed(text) {
            Some(bits) => Ok(Value::Number(bits)),
            None => Err(Stop::Need(Request::Parse(text.clone()))),
        },
        _ => vstd::pervasive::unreached(),
    }
}

/// The text that a text literal writes between its quotes.
pub fn evaluate_string_literal(node: &AstNode) -> (r: Value)
    requires
        node is StringLiteral,
    ensures
        r@ == Val::Text(unquote(node@->StringLiteral_0)),
{
    proof {
        view_of_node(*node);
    }
    match node {
        AstNode::StringLiteral(raw) => {
            let n = raw.as_str().unicode_len();
            if n >= 2 {
                Value::String(raw.as_str().substring_char(1, n - 1).to_owned())
            } else {
                Value::String(String::new())
            }
        },
        _ => vstd::pervasive::unreached(),
    }
}

} // verus!
