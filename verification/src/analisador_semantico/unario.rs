//! The prefix operator `!`.
use crate::analisador_semantico::evaluate_recursively;
use crate::analisador_semantico::numeros::Known;
use crate::analisador_semantico::scope::Scope;
use crate::analisador_semantico::semantica::{agrees, as_number, negate, sem, Cause, Stop};
use crate::analisador_semantico::value::{number_of_bool, zero, Val, Value, NAN, ONE, ZERO};
use crate::analisador_sintatico::ast::{view_of_node, AstNode};
use vstd::prelude::*;

verus! {

/// The number that a value counts as, where the value is no text.
pub fn number_of(v: &Value) -> (r: u64)
    ensures
        r == as_number(v@),
{
    match v {
        Value::Number(n) => *n,
        Value::Boolean(b) => if *b {
            ONE
        } else {
            ZERO
        },
        _ => NAN,
    }
}

/// What `!` makes of a value: the other boolean of a boolean; of a number,
/// whether it is zero; of a list or an object, false. It stops on a text.
pub fn negation(v: &Value) -> (r: Result<Value, Stop>)
    ensures
        match r {
            Ok(w) => negate(v@) == Ok::<Val, Cause>(w@),
            Err(c) => negate(v@) == Err::<Val, Cause>(c@),
        },
{
    match v {
        Value::Boolean(b) => Ok(Value::Boolean(!*b)),
        Value::String(_) => Err(Stop::NegationOnText),
        _ => Ok(Value::Boolean(zero(number_of(v)))),
    }
}

/// The value of an operand, negated where the node says so.
pub fn evaluate_unario(node: &AstNode, scope: &mut Scope, known: &Known) -> (r: Result<
    Value,
    Stop,
>)
    requires
        node is Unario,
    ensures
        agrees(r, final(scope)@, sem(node@, old(scope)@, known@)),
    decreases node, 1nat,
{
    match node {
        AstNode::Unario(negated, inner) => {
            proof {
                view_of_node(*node);
            }
            match evaluate_recursively(inner, scope, known) {
                Ok(v) => if *negated {
                    negation(&v)
                } else {
                    Ok(v)
                },
                Err(c) => Err(c),
            }
        },
        _ => vstd::pervasive::unreached(),
    }
}

} // verus!
