//! The operators `||` and `&&`.
use crate::analisador_semantico::evaluate_recursively;
use crate::analisador_semantico::numeros::Known;
use crate::analisador_semantico::scope::Scope;
use crate::analisador_semantico::semantica::{
    agrees, sem, sem_logic, sem_logic_rest, truth, Cause, Stop,
};
use crate::analisador_semantico::value::{zero, Val, Value, ONE, ZERO};
use crate::analisador_sintatico::ast::{trees, view_of_node, AstNode};
use vstd::prelude::*;

verus! {

/// Whether a value counts as true: whether the number that it counts as is
/// not zero. What a text reads as is asked of the table.
pub fn truth_of(v: &Value, known: &Known) -> (r: Result<bool, Stop>)
    ensures
        match r {
            Ok(b) => truth(v@, known@) == Ok::<bool, Cause>(b),
            Err(c) => truth(v@, known@) == Err::<bool, Cause>(c@),
        },
{
    match v.as_number(known) {
        Ok(n) => Ok(!zero(n)),
        Err(c) => Err(c),
    }
}

/// Operands between `||` (where `or` is set) or `&&`.
///
/// One operand alone gives its own value. With an operator the result is the
/// number one or zero, and the operands are evaluated from the left only as
/// far as it takes to know which: up to the first that counts as true for
/// `||`, as false for `&&`.
#[verifier::loop_isolation(false)]
fn evaluate_logical_op(node: &AstNode, scope: &mut Scope, known: &Known) -> (r: Result<
    Value,
    Stop,
>)
    requires
        node is LogicaOu || node is LogicaE,
    ensures
        agrees(r, final(scope)@, sem(node@, old(scope)@, known@)),
    decreases node, 0nat,
{
    proof {
        view_of_node(*node);
    }
    let (or, first, rest) = match node {
        AstNode::LogicaOu(first, rest) => (true, first, rest),
        AstNode::LogicaE(first, rest) => (false, first, rest),
        _ => vstd::pervasive::unreached(),
    };
    assert(sem(node@, scope@, known@) == sem_logic(
        or,
        sem(first@, scope@, known@),
        trees(rest@),
        known@,
    ));
    let value = match evaluate_recursively(first, scope, known) {
        Ok(v) => v,
        Err(c) => {
            return Err(c);
        },
    };
    if rest.len() == 0 {
        return Ok(value);
    }
    let mut state = match truth_of(&value, known) {
        Ok(b) => b,
        Err(c) => {
            return Err(c);
        },
    };
    let mut i: usize = 0;
    while i < rest.len() && state != or
        invariant
            i <= rest.len(),
            sem(node@, old(scope)@, known@) == sem_logic_rest(
                or,
                state,
                trees(rest@),
                i as int,
                scope@,
                known@,
            ),
        decreases rest.len() - i,
    {
        let v = match evaluate_recursively(&rest[i], scope, known) {
            Ok(v) => v,
            Err(c) => {
                return Err(c);
            },
        };
        state = match truth_of(&v, known) {
            Ok(b) => b,
            Err(c) => {
                return Err(c);
            },
        };
        i += 1;
    }
    Ok(Value::Number(if state {
        ONE
    } else {
        ZERO
    }))
}

/// Operands between `||`.
pub fn evaluate_logica_ou(node: &AstNode, scope: &mut Scope, known: &Known) -> (r: Result<
    Value,
    Stop,
>)
    requires
        node is LogicaOu,
    ensures
        agrees(r, final(scope)@, sem(node@, old(scope)@, known@)),
    decreases node, 1nat,
{
    evaluate_logical_op(node, scope, known)
}

/// Operands between `&&`.
pub fn evaluate_logica_e(node: &AstNode, scope: &mut Scope, known: &Known) -> (r: Result<
    Value,
    Stop,
>)
    requires
        node is LogicaE,
    ensures
        agrees(r, final(scope)@, sem(node@, old(scope)@, known@)),
    decreases node, 1nat,
{
    evaluate_logical_op(node, scope, known)
}

} // verus!
