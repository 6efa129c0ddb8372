//! Object literals.
use crate::analisador_semantico::evaluate_recursively;
use crate::analisador_semantico::numeros::Known;
use crate::analisador_semantico::scope::Scope;
use crate::analisador_semantico::semantica::{agrees, sem, sem_object, Stop};
use crate::analisador_semantico::value::{entries_view, put_entry, view_of_object, Val, Value};
use crate::analisador_sintatico::ast::{pairs, view_of_node, AstNode};
use vstd::prelude::*;

verus! {

/// The object of the entries, evaluated from left to right: of two entries
/// with one key the later gives the value, in the place of the earlier.
#[verifier::loop_isolation(false)]
pub fn evaluate_objeto(node: &AstNode, scope: &mut Scope, known: &Known) -> (r: Result<
    Value,
    Stop,
>)
    requires
        node is Objeto,
    ensures
        agrees(r, final(scope)@, sem(node@, old(scope)@, known@)),
    decreases node, 1nat,
{
    match node {
        AstNode::Objeto(entries) => {
            proof {
                view_of_node(*node);
            }
            let mut values: Vec<(String, Value)> = Vec::new();
            let mut i: usize = 0;
            assert(entries_view(values@) =~= Seq::<(Seq<char>, Val)>::empty());
            while i < entries.len()
                invariant
                    i <= entries.len(),
                    sem(node@, old(scope)@, known@) == sem_object(
                        pairs(entries@),
                        i as int,
                        entries_view(values@),
                        scope@,
                        known@,
                    ),
                decreases entries.len() - i,
            {
                match evaluate_recursively(&entries[i].1, scope, known) {
                    Ok(v) => {
                        put_entry(&mut values, entries[i].0.clone(), v);
                    },
                    Err(c) => {
                        return Err(c);
                    },
                }
                i += 1;
            }
            proof {
                view_of_object(values);
            }
            Ok(Value::Object(values))
        },
        _ => vstd::pervasive::unreached(),
    }
}

} // verus!
