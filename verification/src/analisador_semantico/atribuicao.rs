//! Assignment.
use crate::analisador_semantico::evaluate_recursively;
use crate::analisador_semantico::numeros::Known;
use crate::analisador_semantico::scope::Scope;
use crate::analisador_semantico::semantica::{sem, Cause, Stop};
use crate::analisador_semantico::value::Val;
use crate::analisador_sintatico::ast::{view_of_node, AstNode};
use vstd::prelude::*;

verus! {

/// Evaluates the expression and binds the name to its value. Where the
/// expression stops, so does the assignment, and nothing is bound.
pub fn evaluate_atribuicao(node: &AstNode, scope: &mut Scope, known: &Known) -> (r: Result<
    (),
    Stop,
>)
    requires
        node is Atribuicao,
    ensures
        final(scope)@ == sem(node@, old(scope)@, known@).scope,
        match r {
            Ok(_) => sem(node@, old(scope)@, known@).result is Ok && final(scope)@ == sem(
                *node@->Atribuicao_1,
                old(scope)@,
                known@,
            ).scope.insert(
                node@->Atribuicao_0,
                sem(*node@->Atribuicao_1, old(scope)@, known@).result->Ok_0,
            ),
            Err(c) => sem(node@, old(scope)@, known@).result == Err::<Val, Cause>(c@),
        },
    decreases node, 1nat,
{
    match node {
        AstNode::Atribuicao(name, value) => {
            proof {
                view_of_node(*node);
            }
            match evaluate_recursively(value, scope, known) {
                Ok(v) => {
                    scope.set(name.clone(), v);
                    Ok(())
                },
                Err(c) => Err(c),
            }
        },
        _ => vstd::pervasive::unreached(),
    }
}

} // verus!
