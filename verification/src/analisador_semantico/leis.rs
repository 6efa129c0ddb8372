//! What holds of every program.
use crate::analisador_semantico::formato::{separator, show, show_entries, show_items};
use crate::analisador_semantico::numeros::{Arith, Fact, Facts};
use crate::analisador_semantico::semantica::{
    as_number, compare, is_ordering, sem, sem_arithmetic, sem_comparisons, sem_list, sem_logic,
    sem_logic_rest, sem_object, sem_operations, sem_sequence, truth, Cause, Eval,
};
use crate::analisador_semantico::value::{
    distinct_keys, with_entry, with_entry_keeps_distinct, Val, NAN, ONE, ZERO,
};
use crate::analisador_semantico::{outcome, output, prints, returned, run, Failure, Fault};
use crate::analisador_sintatico::ast::{Comparison, Tree};
use crate::analisador_sintatico::gramatica::{p_arquivo, ParsedSeq};
use vstd::prelude::*;

verus! {

/// A text that is run twice, with the same facts about numbers, gives the
/// same both times: the same output, or the same failure. Nothing of one run
/// is left for the next.
pub proof fn same_text_same_result(
    text: Seq<char>,
    k: Facts,
    first: Result<String, Failure>,
    second: Result<String, Failure>,
)
    requires
        returned(first, outcome(text, k)),
        returned(second, outcome(text, k)),
    ensures
        first is Ok <==> second is Ok,
        first is Ok ==> first->Ok_0@ == second->Ok_0@,
        first is Err ==> first->Err_0@ == second->Err_0@,
{
}

/// `&&` stops at the first operand that counts as false: the result is zero,
/// whatever the operands after it are, and they leave no trace in the scope.
pub proof fn and_stops_at_false(first: Tree, rest: Seq<Tree>, s: Map<Seq<char>, Val>, k: Facts)
    requires
        rest.len() > 0,
        sem(first, s, k).result is Ok,
        truth(sem(first, s, k).result->Ok_0, k) == Ok::<bool, Cause>(false),
    ensures
        sem(Tree::LogicaE(Box::new(first), rest), s, k) == (Eval {
            result: Ok(Val::Number(ZERO)),
            scope: sem(first, s, k).scope,
        }),
{
    let ev = sem(first, s, k);
    assert(sem(Tree::LogicaE(Box::new(first), rest), s, k) == sem_logic(false, ev, rest, k));
    assert(sem_logic(false, ev, rest, k) == sem_logic_rest(false, false, rest, 0, ev.scope, k));
}

/// `||` stops at the first operand that counts as true: the result is one,
/// whatever the operands after it are, and they leave no trace in the scope.
pub proof fn or_stops_at_true(first: Tree, rest: Seq<Tree>, s: Map<Seq<char>, Val>, k: Facts)
    requires
        rest.len() > 0,
        sem(first, s, k).result is Ok,
        truth(sem(first, s, k).result->Ok_0, k) == Ok::<bool, Cause>(true),
    ensures
        sem(Tree::LogicaOu(Box::new(first), rest), s, k) == (Eval {
            result: Ok(Val::Number(ONE)),
            scope: sem(first, s, k).scope,
        }),
{
    let ev = sem(first, s, k);
    assert(sem(Tree::LogicaOu(Box::new(first), rest), s, k) == sem_logic(true, ev, rest, k));
    assert(sem_logic(true, ev, rest, k) == sem_logic_rest(true, true, rest, 0, ev.scope, k));
}

/// One operand alone, with no operator after it, has its own value, at
/// every rule; and so has what stands in parentheses, and what no `!` stands
/// before.
pub proof fn one_operand_is_its_own_value(t: Tree, s: Map<Seq<char>, Val>, k: Facts)
    ensures
        sem(Tree::LogicaOu(Box::new(t), Seq::empty()), s, k) == sem(t, s, k),
        sem(Tree::LogicaE(Box::new(t), Seq::empty()), s, k) == sem(t, s, k),
        sem(Tree::Comparacao(Box::new(t), Seq::empty()), s, k) == sem(t, s, k),
        sem(Tree::Soma(Box::new(t), Seq::empty()), s, k) == sem(t, s, k),
        sem(Tree::Produto(Box::new(t), Seq::empty()), s, k) == sem(t, s, k),
        sem(Tree::Unario(false, Box::new(t)), s, k) == sem(t, s, k),
        sem(Tree::Atomo(Box::new(t)), s, k) == sem(t, s, k),
{
    let ev = sem(t, s, k);
    let none = Seq::<Tree>::empty();
    let no_comparison = Seq::<(Comparison, Tree)>::empty();
    let no_operation = Seq::<(Arith, Tree)>::empty();
    assert(sem(Tree::LogicaOu(Box::new(t), none), s, k) == sem_logic(true, ev, none, k));
    assert(sem(Tree::LogicaE(Box::new(t), none), s, k) == sem_logic(false, ev, none, k));
    assert(sem(Tree::Soma(Box::new(t), no_operation), s, k) == sem_arithmetic(
        ev,
        no_operation,
        k,
    ));
    assert(sem(Tree::Produto(Box::new(t), no_operation), s, k) == sem_arithmetic(
        ev,
        no_operation,
        k,
    ));
    if ev.result is Ok {
        assert(sem_comparisons(ev.result->Ok_0, no_comparison, 0, ev.scope, k) == ev);
        assert(sem_operations(ev.result->Ok_0, no_operation, 0, ev.scope, k) == ev);
    }
}

/// Operations go from left to right, whatever is done from `i` on: one more
/// operation at the end is done on the result of all that stand before it.
pub proof fn last_operation_is_done_last(
    left: Val,
    rest: Seq<(Arith, Tree)>,
    last: (Arith, Tree),
    i: int,
    s: Map<Seq<char>, Val>,
    k: Facts,
)
    requires
        0 <= i <= rest.len(),
    ensures
        sem_operations(left, rest.push(last), i, s, k) == ({
            let before = sem_operations(left, rest, i, s, k);
            match before.result {
                Ok(v) => sem_operations(v, seq![last], 0, before.scope, k),
                Err(_) => before,
            }
        }),
    decreases rest.len() - i,
{
    let more = rest.push(last);
    if i < rest.len() {
        assert(more[i] == rest[i]);
        if !(left is Text) {
            let ev = sem(rest[i].1, s, k);
            if ev.result is Ok && !(ev.result->Ok_0 is Text) {
                let key = (rest[i].0, as_number(left), as_number(ev.result->Ok_0));
                if k.computed.contains_key(key) {
                    last_operation_is_done_last(
                        Val::Number(k.computed[key]),
                        rest,
                        last,
                        i + 1,
                        ev.scope,
                        k,
                    );
                }
            }
        }
    } else {
        assert(more[i] == last);
        assert(seq![last][0] == last);
        assert(sem_operations(left, rest, i, s, k) == (Eval { result: Ok(left), scope: s }));
        if !(left is Text) {
            let ev = sem(last.1, s, k);
            if ev.result is Ok && !(ev.result->Ok_0 is Text) {
                let key = (last.0, as_number(left), as_number(ev.result->Ok_0));
                if k.computed.contains_key(key) {
                    let v = Val::Number(k.computed[key]);
                    assert(sem_operations(v, more, i + 1, ev.scope, k) == (Eval {
                        result: Ok(v),
                        scope: ev.scope,
                    }));
                    assert(sem_operations(v, seq![last], 1, ev.scope, k) == (Eval {
                        result: Ok(v),
                        scope: ev.scope,
                    }));
                }
            }
        }
    }
}

/// `+`, `-`, `*` and `/` associate to the left: `a op b op' c` is
/// `(a op b) op' c`, and so on for every operator more.
pub proof fn operators_associate_to_the_left(
    first: Tree,
    rest: Seq<(Arith, Tree)>,
    last: (Arith, Tree),
    s: Map<Seq<char>, Val>,
    k: Facts,
)
    ensures
        sem(Tree::Soma(Box::new(first), rest.push(last)), s, k) == sem(
            Tree::Soma(Box::new(Tree::Soma(Box::new(first), rest)), seq![last]),
            s,
            k,
        ),
        sem(Tree::Produto(Box::new(first), rest.push(last)), s, k) == sem(
            Tree::Produto(Box::new(Tree::Produto(Box::new(first), rest)), seq![last]),
            s,
            k,
        ),
{
    let ev = sem(first, s, k);
    let inner = sem_arithmetic(ev, rest, k);
    assert(sem(Tree::Soma(Box::new(first), rest), s, k) == inner);
    assert(sem(Tree::Produto(Box::new(first), rest), s, k) == inner);
    assert(sem(Tree::Soma(Box::new(first), rest.push(last)), s, k) == sem_arithmetic(
        ev,
        rest.push(last),
        k,
    ));
    assert(sem(Tree::Produto(Box::new(first), rest.push(last)), s, k) == sem_arithmetic(
        ev,
        rest.push(last),
        k,
    ));
    assert(sem(
        Tree::Soma(Box::new(Tree::Soma(Box::new(first), rest)), seq![last]),
        s,
        k,
    ) == sem_arithmetic(inner, seq![last], k));
    assert(sem(
        Tree::Produto(Box::new(Tree::Produto(Box::new(first), rest)), seq![last]),
        s,
        k,
    ) == sem_arithmetic(inner, seq![last], k));
    if ev.result is Ok {
        last_operation_is_done_last(ev.result->Ok_0, rest, last, 0, ev.scope, k);
    }
}

/// An operation of arithmetic on two operands that are numbers gives what
/// the table holds for the operation on the two, and never an error: not for
/// a division by zero either. Where the table holds nothing for it, the
/// operation asks for it.
pub proof fn operation_on_two_numbers(
    op: Arith,
    left: Tree,
    right: Tree,
    s: Map<Seq<char>, Val>,
    k: Facts,
    a: u64,
    b: u64,
)
    requires
        sem(left, s, k).result == Ok::<Val, Cause>(Val::Number(a)),
        sem(right, sem(left, s, k).scope, k).result == Ok::<Val, Cause>(Val::Number(b)),
    ensures
        sem(Tree::Soma(Box::new(left), seq![(op, right)]), s, k).result == (if k.computed.contains_key(
            (op, a, b),
        ) {
            Ok::<Val, Cause>(Val::Number(k.computed[(op, a, b)]))
        } else {
            Err::<Val, Cause>(Cause::Need(Fact::Compute(op, a, b)))
        }),
        sem(Tree::Produto(Box::new(left), seq![(op, right)]), s, k) == sem(
            Tree::Soma(Box::new(left), seq![(op, right)]),
            s,
            k,
        ),
{
    let rest = seq![(op, right)];
    let first = sem(left, s, k);
    assert(sem(Tree::Soma(Box::new(left), rest), s, k) == sem_arithmetic(first, rest, k));
    assert(sem_arithmetic(first, rest, k) == sem_operations(
        Val::Number(a),
        rest,
        0,
        first.scope,
        k,
    ));
    let second = sem(right, first.scope, k);
    if k.computed.contains_key((op, a, b)) {
        assert(sem_operations(Val::Number(a), rest, 0, first.scope, k) == sem_operations(
            Val::Number(k.computed[(op, a, b)]),
            rest,
            1,
            second.scope,
            k,
        ));
    }
}

/// An operation of arithmetic stops on a text: on one to its left before
/// its right operand is evaluated; on one to its right.
pub proof fn operation_rejects_text(
    op: Arith,
    left: Tree,
    right: Tree,
    s: Map<Seq<char>, Val>,
    k: Facts,
)
    requires
        sem(left, s, k).result is Ok,
    ensures
        sem(left, s, k).result->Ok_0 is Text ==> sem(
            Tree::Soma(Box::new(left), seq![(op, right)]),
            s,
            k,
        ) == (Eval { result: Err(Cause::ArithmeticOnText(op)), scope: sem(left, s, k).scope }),
        !(sem(left, s, k).result->Ok_0 is Text) && sem(right, sem(left, s, k).scope, k).result
            is Ok && sem(right, sem(left, s, k).scope, k).result->Ok_0 is Text ==> sem(
            Tree::Soma(Box::new(left), seq![(op, right)]),
            s,
            k,
        ).result == Err::<Val, Cause>(Cause::ArithmeticOnText(op)),
{
    let rest = seq![(op, right)];
    let first = sem(left, s, k);
    assert(sem(Tree::Soma(Box::new(left), rest), s, k) == sem_arithmetic(first, rest, k));
    assert(sem_arithmetic(first, rest, k) == sem_operations(
        first.result->Ok_0,
        rest,
        0,
        first.scope,
        k,
    ));
}

/// A comparison of two operands: `>`, `<`, `>=` and `<=` stop where either
/// is a text; on other operands, and `==` and `!=` on all, the result is the
/// boolean that the comparison of the two values gives.
pub proof fn comparison_of_two(
    op: Comparison,
    left: Tree,
    right: Tree,
    s: Map<Seq<char>, Val>,
    k: Facts,
)
    requires
        sem(left, s, k).result is Ok,
        sem(right, sem(left, s, k).scope, k).result is Ok,
    ensures
        ({
            let x = sem(left, s, k).result->Ok_0;
            let y = sem(right, sem(left, s, k).scope, k).result->Ok_0;
            sem(Tree::Comparacao(Box::new(left), seq![(op, right)]), s, k).result == (if is_ordering(
                op,
            ) && (x is Text || y is Text) {
                Err::<Val, Cause>(Cause::OrderingOnText(op))
            } else {
                Ok::<Val, Cause>(Val::Boolean(compare(op, x, y)))
            })
        }),
{
    let rest = seq![(op, right)];
    let first = sem(left, s, k);
    let second = sem(right, first.scope, k);
    let x = first.result->Ok_0;
    let y = second.result->Ok_0;
    assert(sem(Tree::Comparacao(Box::new(left), rest), s, k) == sem_comparisons(
        x,
        rest,
        0,
        first.scope,
        k,
    ));
    if !(is_ordering(op) && (x is Text || y is Text)) {
        assert(sem_comparisons(x, rest, 0, first.scope, k) == sem_comparisons(
            Val::Boolean(compare(op, x, y)),
            rest,
            1,
            second.scope,
            k,
        ));
    }
}

/// `!` stops on a text.
pub proof fn negation_rejects_text(operand: Tree, s: Map<Seq<char>, Val>, k: Facts)
    requires
        sem(operand, s, k).result is Ok,
        sem(operand, s, k).result->Ok_0 is Text,
    ensures
        sem(Tree::Unario(true, Box::new(operand)), s, k).result == Err::<Val, Cause>(
            Cause::NegationOnText,
        ),
{
}

/// What an assignment binds, the name has from then on: read right after
/// the assignment, the name gives the value of the expression.
pub proof fn assignment_persists(
    name: Seq<char>,
    value: Tree,
    s: Map<Seq<char>, Val>,
    k: Facts,
)
    requires
        sem(value, s, k).result is Ok,
    ensures
        sem(Tree::Nome(name), sem(Tree::Atribuicao(name, Box::new(value)), s, k).scope, k).result
            == sem(value, s, k).result,
{
}

/// A name that no assignment has bound stops the evaluation.
pub proof fn unbound_name_stops(name: Seq<char>, s: Map<Seq<char>, Val>, k: Facts)
    requires
        !s.contains_key(name),
    ensures
        sem(Tree::Nome(name), s, k).result == Err::<Val, Cause>(Cause::UnboundName(name)),
{
}

/// The entries of an object that an object literal makes have keys that
/// differ, where those that were made before differ.
pub proof fn entries_stay_distinct(
    entries: Seq<(Seq<char>, Tree)>,
    i: int,
    done: Seq<(Seq<char>, Val)>,
    s: Map<Seq<char>, Val>,
    k: Facts,
)
    requires
        distinct_keys(done),
    ensures
        sem_object(entries, i, done, s, k).result matches Ok(v) ==> v is Object && distinct_keys(
            v->Object_0,
        ),
    decreases entries.len() - i,
{
    if 0 <= i < entries.len() {
        let ev = sem(entries[i].1, s, k);
        if ev.result is Ok {
            with_entry_keeps_distinct(done, entries[i].0, ev.result->Ok_0);
            entries_stay_distinct(
                entries,
                i + 1,
                with_entry(done, entries[i].0, ev.result->Ok_0),
                ev.scope,
                k,
            );
        }
    }
}

/// In the object that an object literal makes, no two entries have the same
/// key.
pub proof fn object_keys_are_distinct(
    entries: Seq<(Seq<char>, Tree)>,
    s: Map<Seq<char>, Val>,
    k: Facts,
)
    ensures
        sem(Tree::Objeto(entries), s, k).result matches Ok(v) ==> v is Object && distinct_keys(
            v->Object_0,
        ),
{
    entries_stay_distinct(entries, 0, Seq::empty(), s, k);
}

/// Whether the table holds the fact.
pub open spec fn knows(k: Facts, f: Fact) -> bool {
    match f {
        Fact::Parse(text) => k.parsed.contains_key(text),
        Fact::Compute(op, a, b) => k.computed.contains_key((op, a, b)),
        Fact::Format(n) => k.formatted.contains_key(n),
    }
}

/// Whether every fact that `k` holds, `more` holds too, and the same.
pub open spec fn within(k: Facts, more: Facts) -> bool {
    &&& forall|t: Seq<char>| #[trigger]
        k.parsed.contains_key(t) ==> more.parsed.contains_key(t) && more.parsed[t] == k.parsed[t]
    &&& forall|key: (Arith, u64, u64)| #[trigger]
        k.computed.contains_key(key) ==> more.computed.contains_key(key) && more.computed[key]
            == k.computed[key]
    &&& forall|n: u64| #[trigger]
        k.formatted.contains_key(n) ==> more.formatted.contains_key(n) && more.formatted[n]
            == k.formatted[n]
}

/// Whether an evaluation stopped for want of a fact.
pub open spec fn waits<T>(r: Result<T, Cause>) -> bool {
    r matches Err(Cause::Need(_))
}

/// Whether an evaluation that stopped for want of a fact, wants one that
/// the table does not hold.
pub open spec fn wants_unknown<T>(r: Result<T, Cause>, k: Facts) -> bool {
    r matches Err(Cause::Need(f)) ==> !knows(k, f)
}

/// The evaluation of a node asks only for what the table lacks; and where
/// it ends without asking, it ends the same with any larger table.
pub proof fn sem_settles(t: Tree, s: Map<Seq<char>, Val>, k: Facts, more: Facts)
    requires
        within(k, more),
    ensures
        wants_unknown(sem(t, s, k).result, k),
        !waits(sem(t, s, k).result) ==> sem(t, s, more) == sem(t, s, k),
    decreases t, 0nat,
{
    match t {
        Tree::Arquivo(items) => {
            sequence_settles(items, 0, Val::Number(NAN), s, k, more);
        },
        Tree::Expressao(items) => {
            sequence_settles(items, 0, Val::Number(NAN), s, k, more);
        },
        Tree::Atribuicao(_, e) => {
            sem_settles(*e, s, k, more);
        },
        Tree::LogicaOu(first, rest) => {
            sem_settles(*first, s, k, more);
            let ev = sem(*first, s, k);
            assert(sem(t, s, k) == sem_logic(true, ev, rest, k));
            assert(sem(t, s, more) == sem_logic(true, sem(*first, s, more), rest, more));
            if ev.result is Ok && rest.len() > 0 {
                if truth(ev.result->Ok_0, k) is Ok {
                    logic_settles(true, truth(ev.result->Ok_0, k)->Ok_0, rest, 0, ev.scope, k, more);
                }
            }
        },
        Tree::LogicaE(first, rest) => {
            sem_settles(*first, s, k, more);
            let ev = sem(*first, s, k);
            assert(sem(t, s, k) == sem_logic(false, ev, rest, k));
            assert(sem(t, s, more) == sem_logic(false, sem(*first, s, more), rest, more));
            if ev.result is Ok && rest.len() > 0 {
                if truth(ev.result->Ok_0, k) is Ok {
                    logic_settles(
                        false,
                        truth(ev.result->Ok_0, k)->Ok_0,
                        rest,
                        0,
                        ev.scope,
                        k,
                        more,
                    );
                }
            }
        },
        Tree::Comparacao(first, rest) => {
            sem_settles(*first, s, k, more);
            let ev = sem(*first, s, k);
            if ev.result is Ok {
                comparisons_settle(ev.result->Ok_0, rest, 0, ev.scope, k, more);
            }
        },
        Tree::Soma(first, rest) => {
            sem_settles(*first, s, k, more);
            let ev = sem(*first, s, k);
            assert(sem(t, s, k) == sem_arithmetic(ev, rest, k));
            assert(sem(t, s, more) == sem_arithmetic(sem(*first, s, more), rest, more));
            if ev.result is Ok {
                operations_settle(ev.result->Ok_0, rest, 0, ev.scope, k, more);
            }
        },
        Tree::Produto(first, rest) => {
            sem_settles(*first, s, k, more);
            let ev = sem(*first, s, k);
            assert(sem(t, s, k) == sem_arithmetic(ev, rest, k));
            assert(sem(t, s, more) == sem_arithmetic(sem(*first, s, more), rest, more));
            if ev.result is Ok {
                operations_settle(ev.result->Ok_0, rest, 0, ev.scope, k, more);
            }
        },
        Tree::Unario(_, e) => {
            sem_settles(*e, s, k, more);
        },
        Tree::Atomo(e) => {
            sem_settles(*e, s, k, more);
        },
        Tree::Lista(items) => {
            list_settles(items, 0, Seq::empty(), s, k, more);
        },
        Tree::Objeto(entries) => {
            object_settles(entries, 0, Seq::empty(), s, k, more);
        },
        Tree::NumeroLiteral(_) => {},
        Tree::StringLiteral(_) => {},
        Tree::Nome(_) => {},
    }
}

/// The same, of the items of a statement.
pub proof fn sequence_settles(
    items: Seq<Tree>,
    i: int,
    last: Val,
    s: Map<Seq<char>, Val>,
    k: Facts,
    more: Facts,
)
    requires
        within(k, more),
    ensures
        wants_unknown(sem_sequence(items, i, last, s, k).result, k),
        !waits(sem_sequence(items, i, last, s, k).result) ==> sem_sequence(items, i, last, s, more)
            == sem_sequence(items, i, last, s, k),
    decreases items, items.len() - i,
{
    if 0 <= i < items.len() {
        sem_settles(items[i], s, k, more);
        let ev = sem(items[i], s, k);
        if ev.result is Ok {
            sequence_settles(items, i + 1, ev.result->Ok_0, ev.scope, k, more);
        }
    }
}

/// The same, of operands between `||` or `&&`.
pub proof fn logic_settles(
    or: bool,
    state: bool,
    rest: Seq<Tree>,
    i: int,
    s: Map<Seq<char>, Val>,
    k: Facts,
    more: Facts,
)
    requires
        within(k, more),
    ensures
        wants_unknown(sem_logic_rest(or, state, rest, i, s, k).result, k),
        !waits(sem_logic_rest(or, state, rest, i, s, k).result) ==> sem_logic_rest(
            or,
            state,
            rest,
            i,
            s,
            more,
        ) == sem_logic_rest(or, state, rest, i, s, k),
    decreases rest, rest.len() - i,
{
    if 0 <= i < rest.len() && state != or {
        sem_settles(rest[i], s, k, more);
        let ev = sem(rest[i], s, k);
        if ev.result is Ok && truth(ev.result->Ok_0, k) is Ok {
            logic_settles(or, truth(ev.result->Ok_0, k)->Ok_0, rest, i + 1, ev.scope, k, more);
        }
    }
}

/// The same, of operands between operators of comparison.
pub proof fn comparisons_settle(
    left: Val,
    rest: Seq<(Comparison, Tree)>,
    i: int,
    s: Map<Seq<char>, Val>,
    k: Facts,
    more: Facts,
)
    requires
        within(k, more),
    ensures
        wants_unknown(sem_comparisons(left, rest, i, s, k).result, k),
        !waits(sem_comparisons(left, rest, i, s, k).result) ==> sem_comparisons(
            left,
            rest,
            i,
            s,
            more,
        ) == sem_comparisons(left, rest, i, s, k),
    decreases rest, rest.len() - i,
{
    if 0 <= i < rest.len() {
        sem_settles(rest[i].1, s, k, more);
        let ev = sem(rest[i].1, s, k);
        if ev.result is Ok {
            let right = ev.result->Ok_0;
            if !(is_ordering(rest[i].0) && (left is Text || right is Text)) {
                comparisons_settle(
                    Val::Boolean(compare(rest[i].0, left, right)),
                    rest,
                    i + 1,
                    ev.scope,
                    k,
                    more,
                );
            }
        }
    }
}

/// The same, of operands between operators of arithmetic.
pub proof fn operations_settle(
    left: Val,
    rest: Seq<(Arith, Tree)>,
    i: int,
    s: Map<Seq<char>, Val>,
    k: Facts,
    more: Facts,
)
    requires
        within(k, more),
    ensures
        wants_unknown(sem_operations(left, rest, i, s, k).result, k),
        !waits(sem_operations(left, rest, i, s, k).result) ==> sem_operations(
            left,
            rest,
            i,
            s,
            more,
        ) == sem_operations(left, rest, i, s, k),
    decreases rest, rest.len() - i,
{
    if 0 <= i < rest.len() && !(left is Text) {
        sem_settles(rest[i].1, s, k, more);
        let ev = sem(rest[i].1, s, k);
        if ev.result is Ok && !(ev.result->Ok_0 is Text) {
            let key = (rest[i].0, as_number(left), as_number(ev.result->Ok_0));
            if k.computed.contains_key(key) {
                operations_settle(Val::Number(k.computed[key]), rest, i + 1, ev.scope, k, more);
            }
        }
    }
}

/// The same, of the items of a list.
pub proof fn list_settles(
    items: Seq<Tree>,
    i: int,
    done: Seq<Val>,
    s: Map<Seq<char>, Val>,
    k: Facts,
    more: Facts,
)
    requires
        within(k, more),
    ensures
        wants_unknown(sem_list(items, i, done, s, k).result, k),
        !waits(sem_list(items, i, done, s, k).result) ==> sem_list(items, i, done, s, more)
            == sem_list(items, i, done, s, k),
    decreases items, items.len() - i,
{
    if 0 <= i < items.len() {
        sem_settles(items[i], s, k, more);
        let ev = sem(items[i], s, k);
        if ev.result is Ok {
            list_settles(items, i + 1, done.push(ev.result->Ok_0), ev.scope, k, more);
        }
    }
}

/// The same, of the entries of an object.
pub proof fn object_settles(
    entries: Seq<(Seq<char>, Tree)>,
    i: int,
    done: Seq<(Seq<char>, Val)>,
    s: Map<Seq<char>, Val>,
    k: Facts,
    more: Facts,
)
    requires
        within(k, more),
    ensures
        wants_unknown(sem_object(entries, i, done, s, k).result, k),
        !waits(sem_object(entries, i, done, s, k).result) ==> sem_object(entries, i, done, s, more)
            == sem_object(entries, i, done, s, k),
    decreases entries, entries.len() - i,
{
    if 0 <= i < entries.len() {
        sem_settles(entries[i].1, s, k, more);
        let ev = sem(entries[i].1, s, k);
        if ev.result is Ok {
            object_settles(
                entries,
                i + 1,
                with_entry(
                    done,
                    entries[i].0,
                    ev.result->Ok_0,
                ),
                ev.scope,
                k,
                more,
            );
        }
    }
}

/// The writing of a value asks only for what the table lacks; and where it
/// ends without asking, it ends the same with any larger table.
pub proof fn show_settles(v: Val, quoted: bool, k: Facts, more: Facts)
    requires
        within(k, more),
    ensures
        wants_unknown(show(v, quoted, k), k),
        !waits(show(v, quoted, k)) ==> show(v, quoted, more) == show(v, quoted, k),
    decreases v, 0nat,
{
    match v {
        Val::List(items) => {
            show_items_settles(items, 0, seq!['['], k, more);
        },
        Val::Object(entries) => {
            show_entries_settles(entries, 0, seq!['{'], k, more);
        },
        _ => {},
    }
}

/// The same, of the items of a list.
pub proof fn show_items_settles(items: Seq<Val>, i: int, out: Seq<char>, k: Facts, more: Facts)
    requires
        within(k, more),
    ensures
        wants_unknown(show_items(items, i, out, k), k),
        !waits(show_items(items, i, out, k)) ==> show_items(items, i, out, more) == show_items(
            items,
            i,
            out,
            k,
        ),
    decreases items, items.len() - i,
{
    if 0 <= i < items.len() {
        show_settles(items[i], true, k, more);
        if show(items[i], true, k) is Ok {
            show_items_settles(
                items,
                i + 1,
                out + separator(i) + show(
                    items[i],
                    true,
                    k,
                )->Ok_0,
                k,
                more,
            );
        }
    }
}

/// The same, of the entries of an object.
pub proof fn show_entries_settles(
    entries: Seq<(Seq<char>, Val)>,
    i: int,
    out: Seq<char>,
    k: Facts,
    more: Facts,
)
    requires
        within(k, more),
    ensures
        wants_unknown(show_entries(entries, i, out, k), k),
        !waits(show_entries(entries, i, out, k)) ==> show_entries(entries, i, out, more)
            == show_entries(entries, i, out, k),
    decreases entries, entries.len() - i,
{
    if 0 <= i < entries.len() {
        show_settles(entries[i].1, true, k, more);
        if show(entries[i].1, true, k) is Ok {
            show_entries_settles(
                entries,
                i + 1,
                out + separator(i) + entries[i].0
                    + seq![':', ' '] + show(entries[i].1, true, k)->Ok_0,
                k,
                more,
            );
        }
    }
}

/// The same, of the statements of a program.
pub proof fn run_settles(
    statements: Seq<Tree>,
    i: int,
    out: Seq<char>,
    s: Map<Seq<char>, Val>,
    k: Facts,
    more: Facts,
)
    requires
        within(k, more),
    ensures
        wants_unknown(run(statements, i, out, s, k), k),
        !waits(run(statements, i, out, s, k)) ==> run(statements, i, out, s, more) == run(
            statements,
            i,
            out,
            s,
            k,
        ),
    decreases statements.len() - i,
{
    if 0 <= i < statements.len() {
        sem_settles(statements[i], s, k, more);
        let ev = sem(statements[i], s, k);
        if ev.result is Ok {
            if prints(statements[i]) {
                show_settles(ev.result->Ok_0, false, k, more);
                if show(ev.result->Ok_0, false, k) is Ok {
                    run_settles(
                        statements,
                        i + 1,
                        out + show(ev.result->Ok_0, false, k)->Ok_0 + seq!['\n'],
                        ev.scope,
                        k,
                        more,
                    );
                }
            } else {
                run_settles(statements, i + 1, out, ev.scope, k, more);
            }
        }
    }
}

/// A run that stops for want of a fact, wants a fact that the table does
/// not hold: a caller who adds each fact that is asked for is never asked
/// for the same fact twice.
pub proof fn run_asks_for_what_is_missing(text: Seq<char>, k: Facts, f: Fact)
    requires
        outcome(text, k) == Err::<Seq<char>, Fault>(Fault::Stopped(Cause::Need(f))),
    ensures
        !knows(k, f),
{
    match p_arquivo(text) {
        ParsedSeq::Match(statements, _) => {
            run_settles(statements, 0, Seq::empty(), Map::empty(), k, k);
        },
        ParsedSeq::Fail(_) => {},
    }
}

/// What a run gives without asking for a fact, it gives with every table
/// that holds the same facts and more: the output, or the error, does not
/// depend on which facts were handed in, nor in which order.
pub proof fn more_facts_same_result(text: Seq<char>, k: Facts, more: Facts)
    requires
        within(k, more),
        !(outcome(text, k) matches Err(Fault::Stopped(Cause::Need(_)))),
    ensures
        outcome(text, more) == outcome(text, k),
{
    match p_arquivo(text) {
        ParsedSeq::Match(statements, _) => {
            run_settles(statements, 0, Seq::empty(), Map::empty(), k, more);
        },
        ParsedSeq::Fail(_) => {},
    }
}

/// With a table that holds every fact, a run ends without asking for one.
pub proof fn a_full_table_is_never_asked(text: Seq<char>, full: Facts)
    requires
        forall|f: Fact| knows(full, f),
    ensures
        !(outcome(text, full) matches Err(Fault::Stopped(Cause::Need(_)))),
{
    match outcome(text, full) {
        Err(Fault::Stopped(Cause::Need(f))) => {
            run_asks_for_what_is_missing(text, full, f);
        },
        _ => {},
    }
}

/// A run with some of the facts either asks for another, or gives what the
/// run with all the facts gives.
pub proof fn a_run_ends_as_the_full_run(text: Seq<char>, k: Facts, full: Facts)
    requires
        within(k, full),
    ensures
        outcome(text, k) matches Err(Fault::Stopped(Cause::Need(_))) || outcome(text, k)
            == outcome(text, full),
{
    if !(outcome(text, k) matches Err(Fault::Stopped(Cause::Need(_)))) {
        more_facts_same_result(text, k, full);
    }
}

} // verus!
