//! Atoms: what the operators work on.
use crate::analisador_semantico::evaluate_recursively;
use crate::analisador_semantico::numeros::Known;
use crate::analisador_semantico::scope::Scope;
use crate::analisador_semantico::semantica::{agrees, sem, Stop};
use crate::analisador_semantico::value::Value;
use crate::analisador_sintatico::ast::{view_of_node, AstNode};
use vstd::prelude::*;

verus! {

/// The value of an atom: that of the literal, list, object, name or
/// expression in parentheses that it holds.
pub fn evaluate_atomo(node: &AstNode, scope: &mut Scope, known: &Known) -> (r: Result<
    Value,
    Stop,
>)
    requires
        node is Atomo,
    ensures
        agrees(r, final(scope)@, sem(node@, old(scope)@, known@)),
    decreases node, 1nat,
{
    match node {
        AstNode::Atomo(inner) => {
            proof {
                view_of_node(*node);
            }
            evaluate_recursively(inner, scope, known)
        },
        _ => vstd::pervasive::unreached(),
    }
}

} // verus!
