//! The operators of comparison.
use crate::analisador_semantico::evaluate_recursively;
use crate::analisador_semantico::numeros::Known;
use crate::analisador_semantico::scope::Scope;
use crate::analisador_semantico::semantica::{
    agrees, compare, is_ordering, sem, sem_comparisons, Stop,
};
use crate::analisador_semantico::unario::number_of;
use crate::analisador_semantico::value::{
    number_less, number_less_or_equal, values_equal, Val, Value,
};
use crate::analisador_sintatico::ast::{operands, view_of_node, AstNode, Comparison};
use vstd::prelude::*;

verus! {

/// Whether the operator orders its operands.
pub fn ordering(op: Comparison) -> (r: bool)
    ensures
        r == is_ordering(op),
{
    match op {
        Comparison::Equal => false,
        Comparison::Different => false,
        _ => true,
    }
}

/// What a comparison of two values gives.
pub fn compared(op: Comparison, a: &Value, b: &Value) -> (r: bool)
    ensures
        r == compare(op, a@, b@),
{
    match op {
        Comparison::Greater => number_less(number_of(b), number_of(a)),
        Comparison::Less => number_less(number_of(a), number_of(b)),
        Comparison::GreaterOrEqual => number_less_or_equal(number_of(b), number_of(a)),
        Comparison::LessOrEqual => number_less_or_equal(number_of(a), number_of(b)),
        Comparison::Equal => values_equal(a, b),
        Comparison::Different => !values_equal(a, b),
    }
}

/// Whether a value is a text.
pub fn is_text(v: &Value) -> (r: bool)
    ensures
        r == (v@ is Text),
{
    match v {
        Value::String(_) => true,
        _ => false,
    }
}

/// Operands between operators of comparison, from left to right.
///
/// `==` and `!=` take any two values. The four operators that order stop on
/// a text on either side, after both sides were evaluated; on other values
/// they compare the numbers that the values count as.
#[verifier::loop_isolation(false)]
pub fn evaluate_comparacao(node: &AstNode, scope: &mut Scope, known: &Known) -> (r: Result<
    Value,
    Stop,
>)
    requires
        node is Comparacao,
    ensures
        agrees(r, final(scope)@, sem(node@, old(scope)@, known@)),
    decreases node, 1nat,
{
    match node {
        AstNode::Comparacao(first, rest) => {
            proof {
                view_of_node(*node);
            }
            let mut left = match evaluate_recursively(first, scope, known) {
                Ok(v) => v,
                Err(c) => {
                    return Err(c);
                },
            };
            let mut i: usize = 0;
            while i < rest.len()
                invariant
                    i <= rest.len(),
                    sem(node@, old(scope)@, known@) == sem_comparisons(
                        left@,
                        operands(rest@),
                        i as int,
                        scope@,
                        known@,
                    ),
                decreases rest.len() - i,
            {
                let op = rest[i].0;
                let right = match evaluate_recursively(&rest[i].1, scope, known) {
                    Ok(v) => v,
                    Err(c) => {
                        return Err(c);
                    },
                };
                if ordering(op) && (is_text(&left) || is_text(&right)) {
                    return Err(Stop::OrderingOnText(op));
                }
                left = Value::Boolean(compared(op, &left, &right));
                i += 1;
            }
            Ok(left)
        },
        _ => vstd::pervasive::unreached(),
    }
}

} // verus!
