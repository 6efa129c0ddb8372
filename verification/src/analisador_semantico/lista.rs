//! List literals.
use crate::analisador_semantico::evaluate_recursively;
use crate::analisador_semantico::numeros::Known;
use crate::analisador_semantico::scope::Scope;
use crate::analisador_semantico::semantica::{agrees, sem, sem_list, Stop};
use crate::analisador_semantico::value::{list_view, view_of_list, Val, Value};
use crate::analisador_sintatico::ast::{trees, view_of_node, AstNode};
use vstd::prelude::*;

verus! {

/// The list of the values of the items, evaluated from left to right.
#[verifier::loop_isolation(false)]
pub fn evaluate_lista(node: &AstNode, scope: &mut Scope, known: &Known) -> (r: Result<
    Value,
    Stop,
>)
    requires
        node is Lista,
    ensures
        agrees(r, final(scope)@, sem(node@, old(scope)@, known@)),
    decreases node, 1nat,
{
    match node {
        AstNode::Lista(items) => {
            proof {
                view_of_node(*node);
            }
            let mut values: Vec<Value> = Vec::new();
            let mut i: usize = 0;
            assert(list_view(values@) =~= Seq::<Val>::empty());
            while i < items.len()
                invariant
                    i <= items.len(),
                    sem(node@, old(scope)@, known@) == sem_list(
                        trees(items@),
                        i as int,
                        list_view(values@),
                        scope@,
                        known@,
                    ),
                decreases items.len() - i,
            {
                match evaluate_recursively(&items[i], scope, known) {
                    Ok(v) => {
                        proof {
                            assert(list_view(values@.push(v)) =~= list_view(values@).push(v@));
                        }
                        values.push(v);
                    },
                    Err(c) => {
                        return Err(c);
                    },
                }
                i += 1;
            }
            proof {
                view_of_list(values);
            }
            Ok(Value::List(values))
        },
        _ => vstd::pervasive::unreached(),
    }
}

} // verus!
