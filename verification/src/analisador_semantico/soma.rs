//! The operators `+` and `-`.
use crate::analisador_semantico::comparacao::is_text;
use crate::analisador_semantico::evaluate_recursively;
use crate::analisador_semantico::numeros::{Known, Request};
use crate::analisador_semantico::scope::Scope;
use crate::analisador_semantico::semantica::{
    agrees, sem, sem_arithmetic, sem_operations, Stop,
};
use crate::analisador_semantico::unario::number_of;
use crate::analisador_semantico::value::{Val, Value};
use crate::analisador_sintatico::ast::{operands, view_of_node, AstNode};
use vstd::prelude::*;

verus! {

/// Operands between operators of arithmetic, from left to right.
///
/// Each operation takes the numbers that its two operands count as, and its
/// result is asked of the table. It stops on a text: on one to its left
/// before its right operand is evaluated, on one to its right after.
#[verifier::loop_isolation(false)]
pub fn operations(node: &AstNode, scope: &mut Scope, known: &Known) -> (r: Result<Value, Stop>)
    requires
        node is Soma || node is Produto,
    ensures
        agrees(r, final(scope)@, sem(node@, old(scope)@, known@)),
    decreases node, 0nat,
{
    proof {
        view_of_node(*node);
    }
    let (first, rest) = match node {
        AstNode::Soma(first, rest) => (first, rest),
        AstNode::Produto(first, rest) => (first, rest),
        _ => vstd::pervasive::unreached(),
    };
    assert(sem(node@, scope@, known@) == sem_arithmetic(
        sem(first@, scope@, known@),
        operands(rest@),
        known@,
    ));
    let mut left = match evaluate_recursively(first, scope, known) {
        Ok(v) => v,
        Err(c) => {
            return Err(c);
        },
    };
    let mut i: usize = 0;
    while i < rest.len()
        invariant
            i <= rest.len(),
            sem(node@, old(scope)@, known@) == sem_operations(
                left@,
                operands(rest@),
                i as int,
                scope@,
                known@,
            ),
        decreases rest.len() - i,
    {
        let op = rest[i].0;
        if is_text(&left) {
            return Err(Stop::ArithmeticOnText(op));
        }
        let right = match evaluate_recursively(&rest[i].1, scope, known) {
            Ok(v) => v,
            Err(c) => {
                return Err(c);
            },
        };
        if is_text(&right) {
            return Err(Stop::ArithmeticOnText(op));
        }
        let a = number_of(&left);
        let b = number_of(&right);
        left = match known.computed(op, a, b) {
            Some(bits) => Value::Number(bits),
            None => {
                return Err(Stop::Need(Request::Compute(op, a, b)));
            },
        };
        i += 1;
    }
    Ok(left)
}

/// Operands between `+` and `-`.
pub fn evaluate_soma(node: &AstNode, scope: &mut Scope, known: &Known) -> (r: Result<Value, Stop>)
    requires
        node is Soma,
    ensures
        agrees(r, final(scope)@, sem(node@, old(scope)@, known@)),
    decreases node, 1nat,
{
    operations(node, scope, known)
}

} // verus!
