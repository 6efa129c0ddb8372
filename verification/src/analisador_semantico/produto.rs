//! The operators `*` and `/`.
use crate::analisador_semantico::numeros::Known;
use crate::analisador_semantico::scope::Scope;
use crate::analisador_semantico::semantica::{agrees, sem, Stop};
use crate::analisador_semantico::soma::operations;
use crate::analisador_semantico::value::Value;
use crate::analisador_sintatico::ast::AstNode;
use vstd::prelude::*;

verus! {

/// Operands between `*` and `/`. A division by zero is no error: its result
/// is whatever the table gives for it.
pub fn evaluate_produto(node: &AstNode, scope: &mut Scope, known: &Known) -> (r: Result<
    Value,
    Stop,
>)
    requires
        node is Produto,
    ensures
        agrees(r, final(scope)@, sem(node@, old(scope)@, known@)),
    decreases node, 1nat,
{
    operations(node, scope, known)
}

} // verus!
