//! Statements.
use crate::analisador_semantico::evaluate_recursively;
use crate::analisador_semantico::numeros::Known;
use crate::analisador_semantico::scope::Scope;
use crate::analisador_semantico::semantica::{agrees, sem, sem_sequence, Stop};
use crate::analisador_semantico::value::{Val, Value, NAN};
use crate::analisador_sintatico::ast::{trees, view_of_node, AstNode};
use vstd::prelude::*;

verus! {

/// Evaluates the items one after the other, each in the scope that the one
/// before it left.
#[verifier::loop_isolation(false)]
pub fn sequence(items: &Vec<AstNode>, scope: &mut Scope, known: &Known) -> (r: Result<Value, Stop>)
    ensures
        agrees(
            r,
            final(scope)@,
            sem_sequence(trees(items@), 0, Val::Number(NAN), old(scope)@, known@),
        ),
    decreases items, 0nat,
{
    let mut last = Value::Number(NAN);
    let mut i: usize = 0;
    while i < items.len()
        invariant
            i <= items.len(),
            sem_sequence(trees(items@), 0, Val::Number(NAN), old(scope)@, known@) == sem_sequence(
                trees(items@),
                i as int,
                last@,
                scope@,
                known@,
            ),
        decreases items.len() - i,
    {
        match evaluate_recursively(&items[i], scope, known) {
            Ok(v) => {
                last = v;
            },
            Err(c) => {
                return Err(c);
            },
        }
        i += 1;
    }
    Ok(last)
}

/// The value of a statement: that of its last item, after the assignments
/// before it were made. A statement that ends in an assignment has no value
/// to show, and a NaN stands for it.
pub fn evaluate_expression(node: &AstNode, scope: &mut Scope, known: &Known) -> (r: Result<
    Value,
    Stop,
>)
    requires
        node is Expressao,
    ensures
        agrees(r, final(scope)@, sem(node@, old(scope)@, known@)),
    decreases node, 1nat,
{
    match node {
        AstNode::Expressao(items) => {
            proof {
                view_of_node(*node);
            }
            sequence(items, scope, known)
        },
        _ => vstd::pervasive::unreached(),
    }
}

} // verus!
