//! One function for each rule of the grammar: what stands at a place of the
//! text, as the grammar says.
use crate::analisador_semantico::numeros::Arith;
use crate::analisador_sintatico::ast::{operands, pairs, trees, AstNode, Comparison, Tree};
use crate::analisador_sintatico::gramatica::{
    additive_at, assignment_at, comparison_at, left, multiplicative_at, p_atomo, p_atomo_is,
    p_comparacao, p_comparacao_is, p_comparacao_rest, p_comparacao_rest_is, p_e_rest, p_e_rest_is,
    p_entries, p_entries_is, p_items, p_items_is, p_logica_e, p_logica_e_is, p_logica_ou,
    p_logica_ou_is, p_ou_rest, p_ou_rest_is, p_produto, p_produto_is, p_produto_rest,
    p_produto_rest_is, p_soma, p_soma_is, p_soma_rest, p_soma_rest_is, p_unario, p_unario_is,
    expressao_takes, p_arquivo, p_atribuicao, p_expressao, p_expressao_items,
    p_statements, Parsed, ParsedSeq, MAX_DEPTH,
};
use crate::analisador_sintatico::lexico::{
    char_at, digit_char, name_start_char, scan_name, scan_number, scan_text, skip,
};
use crate::texto::string_of;
use vstd::prelude::*;

verus! {

/// Whether what a rule's function returned from the place `i` is what the
/// grammar says: the tree and the place after it, or the place of the error.
pub open spec fn found(r: Result<(AstNode, usize), usize>, s: Seq<char>, i: usize, p: Parsed) -> bool {
    match r {
        Ok((t, next)) => i <= next <= s.len() && p == Parsed::Match(t@, (next - i) as nat),
        Err(e) => e <= s.len() && p == Parsed::Fail(e as nat),
    }
}

/// The same, of a repetition.
pub open spec fn found_all(
    r: Result<(Vec<AstNode>, usize), usize>,
    s: Seq<char>,
    i: usize,
    p: ParsedSeq<Tree>,
) -> bool {
    match r {
        Ok((ts, next)) => i <= next <= s.len() && p == ParsedSeq::Match(
            trees(ts@),
            (next - i) as nat,
        ),
        Err(e) => e <= s.len() && p == ParsedSeq::<Tree>::Fail(e as nat),
    }
}

/// The operator of comparison that stands at `i`, and the place after it.
pub fn comparison_op(s: &Vec<char>, i: usize) -> (r: Option<(Comparison, usize)>)
    requires
        i <= s.len(),
    ensures
        match r {
            Some((op, next)) => i < next <= s.len() && comparison_at(s@, i as nat) == Some(
                (op, (next - i) as nat),
            ),
            None => comparison_at(s@, i as nat) is None,
        },
{
    if i >= s.len() {
        return None;
    }
    let c = s[i];
    let equals = char_at(s, i + 1, '=');
    if c == '>' && equals {
        Some((Comparison::GreaterOrEqual, i + 2))
    } else if c == '<' && equals {
        Some((Comparison::LessOrEqual, i + 2))
    } else if c == '=' && equals {
        Some((Comparison::Equal, i + 2))
    } else if c == '!' && equals {
        Some((Comparison::Different, i + 2))
    } else if c == '>' {
        Some((Comparison::Greater, i + 1))
    } else if c == '<' {
        Some((Comparison::Less, i + 1))
    } else {
        None
    }
}

/// `+` or `-`, where one stands at `i`.
pub fn additive_op(s: &Vec<char>, i: usize) -> (r: Option<Arith>)
    ensures
        r == additive_at(s@, i as nat),
{
    if char_at(s, i, '+') {
        Some(Arith::Add)
    } else if char_at(s, i, '-') {
        Some(Arith::Sub)
    } else {
        None
    }
}

/// `*` or `/`, where one stands at `i`.
pub fn multiplicative_op(s: &Vec<char>, i: usize) -> (r: Option<Arith>)
    ensures
        r == multiplicative_at(s@, i as nat),
{
    if char_at(s, i, '*') {
        Some(Arith::Mul)
    } else if char_at(s, i, '/') {
        Some(Arith::Div)
    } else {
        None
    }
}

/// Whether an assignment starts at `i`.
pub fn assignment_starts(s: &Vec<char>, i: usize) -> (r: bool)
    requires
        i <= s.len(),
    ensures
        r == assignment_at(s@, i as nat),
{
    if i < s.len() && name_start_char(s[i]) {
        let eq = skip(s, scan_name(s, i + 1));
        char_at(s, eq, '=') && !(eq < s.len() && char_at(s, eq + 1, '='))
    } else {
        false
    }
}

/// The operands between `||` that stand at `i`.
#[verifier::loop_isolation(false)]
pub fn parse_logica_ou(s: &Vec<char>, i: usize, depth: usize) -> (r: Result<
    (AstNode, usize),
    usize,
>)
    requires
        i <= s.len(),
    ensures
        found(r, s@, i, p_logica_ou(s@, i as nat, depth as nat)),
    decreases left(s@, i as nat), 7nat,
{
    proof {
        p_logica_ou_is(s@, i as nat, depth as nat);
    }
    let (first, start) = match parse_logica_e(s, i, depth) {
        Ok(x) => x,
        Err(e) => {
            return Err(e);
        },
    };
    let mut rest: Vec<AstNode> = Vec::new();
    let mut pos: usize = start;
    assert(trees(rest@) =~= Seq::<Tree>::empty());
    loop
        invariant
            start <= pos <= s.len(),
            p_ou_rest(s@, start as nat, depth as nat, Seq::empty()) == p_ou_rest(
                s@,
                pos as nat,
                depth as nat,
                trees(rest@),
            ).after((pos - start) as nat),
        decreases s.len() - pos,
    {
        proof {
            p_ou_rest_is(s@, pos as nat, depth as nat, trees(rest@));
        }
        let j = skip(s, pos);
        if char_at(s, j, '|') && char_at(s, j + 1, '|') {
            match parse_logica_e(s, j + 2, depth) {
                Ok((t, next)) => {
                    assert(trees(rest@.push(t)) =~= trees(rest@).push(t@));
                    rest.push(t);
                    pos = next;
                },
                Err(e) => {
                    return Err(e);
                },
            }
        } else {
            return Ok((AstNode::logica_ou(first, rest), pos));
        }
    }
}

/// The operands between `&&` that stand at `i`.
#[verifier::loop_isolation(false)]
pub fn parse_logica_e(s: &Vec<char>, i: usize, depth: usize) -> (r: Result<
    (AstNode, usize),
    usize,
>)
    requires
        i <= s.len(),
    ensures
        found(r, s@, i, p_logica_e(s@, i as nat, depth as nat)),
    decreases left(s@, i as nat), 6nat,
{
    proof {
        p_logica_e_is(s@, i as nat, depth as nat);
    }
    let (first, start) = match parse_comparacao(s, i, depth) {
        Ok(x) => x,
        Err(e) => {
            return Err(e);
        },
    };
    let mut rest: Vec<AstNode> = Vec::new();
    let mut pos: usize = start;
    assert(trees(rest@) =~= Seq::<Tree>::empty());
    loop
        invariant
            start <= pos <= s.len(),
            p_e_rest(s@, start as nat, depth as nat, Seq::empty()) == p_e_rest(
                s@,
                pos as nat,
                depth as nat,
                trees(rest@),
            ).after((pos - start) as nat),
        decreases s.len() - pos,
    {
        proof {
            p_e_rest_is(s@, pos as nat, depth as nat, trees(rest@));
        }
        let j = skip(s, pos);
        if char_at(s, j, '&') && char_at(s, j + 1, '&') {
            match parse_comparacao(s, j + 2, depth) {
                Ok((t, next)) => {
                    assert(trees(rest@.push(t)) =~= trees(rest@).push(t@));
                    rest.push(t);
                    pos = next;
                },
                Err(e) => {
                    return Err(e);
                },
            }
        } else {
            return Ok((AstNode::logica_e(first, rest), pos));
        }
    }
}

/// The operands between operators of comparison that stand at `i`.
#[verifier::loop_isolation(false)]
pub fn parse_comparacao(s: &Vec<char>, i: usize, depth: usize) -> (r: Result<
    (AstNode, usize),
    usize,
>)
    requires
        i <= s.len(),
    ensures
        found(r, s@, i, p_comparacao(s@, i as nat, depth as nat)),
    decreases left(s@, i as nat), 5nat,
{
    proof {
        p_comparacao_is(s@, i as nat, depth as nat);
    }
    let (first, start) = match parse_soma(s, i, depth) {
        Ok(x) => x,
        Err(e) => {
            return Err(e);
        },
    };
    let mut rest: Vec<(Comparison, AstNode)> = Vec::new();
    let mut pos: usize = start;
    assert(operands(rest@) =~= Seq::<(Comparison, Tree)>::empty());
    loop
        invariant
            start <= pos <= s.len(),
            p_comparacao_rest(s@, start as nat, depth as nat, Seq::empty()) == p_comparacao_rest(
                s@,
                pos as nat,
                depth as nat,
                operands(rest@),
            ).after((pos - start) as nat),
        decreases s.len() - pos,
    {
        proof {
            p_comparacao_rest_is(s@, pos as nat, depth as nat, operands(rest@));
        }
        let j = skip(s, pos);
        match comparison_op(s, j) {
            Some((op, after)) => match parse_soma(s, after, depth) {
                Ok((t, next)) => {
                    assert(operands(rest@.push((op, t))) =~= operands(rest@).push((op, t@)));
                    rest.push((op, t));
                    pos = next;
                },
                Err(e) => {
                    return Err(e);
                },
            },
            None => {
                return Ok((AstNode::comparacao(first, rest), pos));
            },
        }
    }
}

/// The operands between `+` and `-` that stand at `i`.
#[verifier::loop_isolation(false)]
pub fn parse_soma(s: &Vec<char>, i: usize, depth: usize) -> (r: Result<(AstNode, usize), usize>)
    requires
        i <= s.len(),
    ensures
        found(r, s@, i, p_soma(s@, i as nat, depth as nat)),
    decreases left(s@, i as nat), 4nat,
{
    proof {
        p_soma_is(s@, i as nat, depth as nat);
    }
    let (first, start) = match parse_produto(s, i, depth) {
        Ok(x) => x,
        Err(e) => {
            return Err(e);
        },
    };
    let mut rest: Vec<(Arith, AstNode)> = Vec::new();
    let mut pos: usize = start;
    assert(operands(rest@) =~= Seq::<(Arith, Tree)>::empty());
    loop
        invariant
            start <= pos <= s.len(),
            p_soma_rest(s@, start as nat, depth as nat, Seq::empty()) == p_soma_rest(
                s@,
                pos as nat,
                depth as nat,
                operands(rest@),
            ).after((pos - start) as nat),
        decreases s.len() - pos,
    {
        proof {
            p_soma_rest_is(s@, pos as nat, depth as nat, operands(rest@));
        }
        let j = skip(s, pos);
        match additive_op(s, j) {
            Some(op) => match parse_produto(s, j + 1, depth) {
                Ok((t, next)) => {
                    assert(operands(rest@.push((op, t))) =~= operands(rest@).push((op, t@)));
                    rest.push((op, t));
                    pos = next;
                },
                Err(e) => {
                    return Err(e);
                },
            },
            None => {
                return Ok((AstNode::soma(first, rest), pos));
            },
        }
    }
}

/// The operands between `*` and `/` that stand at `i`.
#[verifier::loop_isolation(false)]
pub fn parse_produto(s: &Vec<char>, i: usize, depth: usize) -> (r: Result<
    (AstNode, usize),
    usize,
>)
    requires
        i <= s.len(),
    ensures
        found(r, s@, i, p_produto(s@, i as nat, depth as nat)),
    decreases left(s@, i as nat), 3nat,
{
    proof {
        p_produto_is(s@, i as nat, depth as nat);
    }
    let (first, start) = match parse_unario(s, i, depth) {
        Ok(x) => x,
        Err(e) => {
            return Err(e);
        },
    };
    let mut rest: Vec<(Arith, AstNode)> = Vec::new();
    let mut pos: usize = start;
    assert(operands(rest@) =~= Seq::<(Arith, Tree)>::empty());
    loop
        invariant
            start <= pos <= s.len(),
            p_produto_rest(s@, start as nat, depth as nat, Seq::empty()) == p_produto_rest(
                s@,
                pos as nat,
                depth as nat,
                operands(rest@),
            ).after((pos - start) as nat),
        decreases s.len() - pos,
    {
        proof {
            p_produto_rest_is(s@, pos as nat, depth as nat, operands(rest@));
        }
        let j = skip(s, pos);
        match multiplicative_op(s, j) {
            Some(op) => match parse_unario(s, j + 1, depth) {
                Ok((t, next)) => {
                    assert(operands(rest@.push((op, t))) =~= operands(rest@).push((op, t@)));
                    rest.push((op, t));
                    pos = next;
                },
                Err(e) => {
                    return Err(e);
                },
            },
            None => {
                return Ok((AstNode::produto(first, rest), pos));
            },
        }
    }
}

/// The operand that stands at `i`, with the `!` before it where there is
/// one.
pub fn parse_unario(s: &Vec<char>, i: usize, depth: usize) -> (r: Result<(AstNode, usize), usize>)
    requires
        i <= s.len(),
    ensures
        found(r, s@, i, p_unario(s@, i as nat, depth as nat)),
    decreases left(s@, i as nat), 2nat,
{
    proof {
        p_unario_is(s@, i as nat, depth as nat);
    }
    let j = skip(s, i);
    if char_at(s, j, '!') {
        if depth == 0 {
            return Err(j);
        }
        match parse_unario(s, j + 1, depth - 1) {
            Ok((t, next)) => Ok((AstNode::unario(true, t), next)),
            Err(e) => Err(e),
        }
    } else {
        match parse_atomo(s, i, depth) {
            Ok((t, next)) => Ok((AstNode::unario(false, t), next)),
            Err(e) => Err(e),
        }
    }
}

/// The atom that stands at `i`.
pub fn parse_atomo(s: &Vec<char>, i: usize, depth: usize) -> (r: Result<(AstNode, usize), usize>)
    requires
        i <= s.len(),
    ensures
        found(r, s@, i, p_atomo(s@, i as nat, depth as nat)),
    decreases left(s@, i as nat), 1nat,
{
    proof {
        p_atomo_is(s@, i as nat, depth as nat);
    }
    let j = skip(s, i);
    if j >= s.len() {
        return Err(j);
    }
    let c = s[j];
    if digit_char(c) {
        let end = scan_number(s, j);
        Ok((AstNode::atomo(AstNode::numero_literal(string_of(s, j, end))), end))
    } else if c == '"' {
        match scan_text(s, j + 1) {
            Some(end) => Ok((AstNode::atomo(AstNode::string_literal(string_of(s, j, end))), end)),
            None => Err(j),
        }
    } else if name_start_char(c) {
        let end = scan_name(s, j + 1);
        Ok((AstNode::atomo(AstNode::nome(string_of(s, j, end))), end))
    } else if depth == 0 {
        Err(j)
    } else if c == '(' {
        match parse_logica_ou(s, j + 1, depth - 1) {
            Ok((t, next)) => {
                let close = skip(s, next);
                if char_at(s, close, ')') {
                    Ok((AstNode::atomo(t), close + 1))
                } else {
                    Err(close)
                }
            },
            Err(e) => Err(e),
        }
    } else if c == '[' {
        let close = skip(s, j + 1);
        if char_at(s, close, ']') {
            let items: Vec<AstNode> = Vec::new();
            assert(trees(items@) =~= Seq::<Tree>::empty());
            Ok((AstNode::atomo(AstNode::lista(items)), close + 1))
        } else {
            match parse_items(s, j + 1, depth - 1) {
                Ok((items, next)) => Ok((AstNode::atomo(AstNode::lista(items)), next)),
                Err(e) => Err(e),
            }
        }
    } else if c == '{' {
        let close = skip(s, j + 1);
        if char_at(s, close, '}') {
            let entries: Vec<(String, AstNode)> = Vec::new();
            assert(pairs(entries@) =~= Seq::<(Seq<char>, Tree)>::empty());
            Ok((AstNode::atomo(AstNode::objeto(entries)), close + 1))
        } else {
            match parse_entries(s, j + 1, depth - 1) {
                Ok((entries, next)) => Ok((AstNode::atomo(AstNode::objeto(entries)), next)),
                Err(e) => Err(e),
            }
        }
    } else {
        Err(j)
    }
}

/// The items of a list from `i` on, and the place after its `]`.
#[verifier::loop_isolation(false)]
pub fn parse_items(s: &Vec<char>, i: usize, depth: usize) -> (r: Result<
    (Vec<AstNode>, usize),
    usize,
>)
    requires
        i <= s.len(),
    ensures
        found_all(r, s@, i, p_items(s@, i as nat, depth as nat, Seq::empty())),
    decreases left(s@, i as nat), 8nat,
{
    let mut items: Vec<AstNode> = Vec::new();
    let mut pos: usize = i;
    assert(trees(items@) =~= Seq::<Tree>::empty());
    loop
        invariant
            i <= pos <= s.len(),
            p_items(s@, i as nat, depth as nat, Seq::empty()) == p_items(
                s@,
                pos as nat,
                depth as nat,
                trees(items@),
            ).after((pos - i) as nat),
        decreases s.len() - pos,
    {
        proof {
            p_items_is(s@, pos as nat, depth as nat, trees(items@));
        }
        match parse_logica_ou(s, pos, depth) {
            Ok((t, next)) => {
                let end = skip(s, next);
                assert(trees(items@.push(t)) =~= trees(items@).push(t@));
                if char_at(s, end, ',') {
                    items.push(t);
                    pos = end + 1;
                } else if char_at(s, end, ']') {
                    items.push(t);
                    return Ok((items, end + 1));
                } else {
                    return Err(end);
                }
            },
            Err(e) => {
                return Err(e);
            },
        }
    }
}

/// The entries of an object from `i` on, and the place after its `}`.
#[verifier::loop_isolation(false)]
pub fn parse_entries(s: &Vec<char>, i: usize, depth: usize) -> (r: Result<
    (Vec<(String, AstNode)>, usize),
    usize,
>)
    requires
        i <= s.len(),
    ensures
        match r {
            Ok((es, next)) => i <= next <= s.len() && p_entries(
                s@,
                i as nat,
                depth as nat,
                Seq::empty(),
            ) == ParsedSeq::Match(pairs(es@), (next - i) as nat),
            Err(e) => e <= s.len() && p_entries(s@, i as nat, depth as nat, Seq::empty())
                == ParsedSeq::<(Seq<char>, Tree)>::Fail(e as nat),
        },
    decreases left(s@, i as nat), 8nat,
{
    let mut entries: Vec<(String, AstNode)> = Vec::new();
    let mut pos: usize = i;
    assert(pairs(entries@) =~= Seq::<(Seq<char>, Tree)>::empty());
    loop
        invariant
            i <= pos <= s.len(),
            p_entries(s@, i as nat, depth as nat, Seq::empty()) == p_entries(
                s@,
                pos as nat,
                depth as nat,
                pairs(entries@),
            ).after((pos - i) as nat),
        decreases s.len() - pos,
    {
        proof {
            p_entries_is(s@, pos as nat, depth as nat, pairs(entries@));
        }
        let j = skip(s, pos);
        if !(j < s.len() && name_start_char(s[j])) {
            return Err(j);
        }
        let name_end = scan_name(s, j + 1);
        let colon = skip(s, name_end);
        if !char_at(s, colon, ':') {
            return Err(colon);
        }
        match parse_logica_ou(s, colon + 1, depth) {
            Ok((t, next)) => {
                let end = skip(s, next);
                let name = string_of(s, j, name_end);
                assert(pairs(entries@.push((name, t))) =~= pairs(entries@).push((name@, t@)));
                if char_at(s, end, ',') {
                    entries.push((name, t));
                    pos = end + 1;
                } else if char_at(s, end, '}') {
                    entries.push((name, t));
                    return Ok((entries, end + 1));
                } else {
                    return Err(end);
                }
            },
            Err(e) => {
                return Err(e);
            },
        }
    }
}

/// The assignment that stands at `i`.
pub fn parse_atribuicao(s: &Vec<char>, i: usize, depth: usize) -> (r: Result<
    (AstNode, usize),
    usize,
>)
    requires
        i <= s.len(),
    ensures
        found(r, s@, i, p_atribuicao(s@, i as nat, depth as nat)),
        r matches Ok((_, next)) ==> next > i,
{
    let j = skip(s, i);
    if !assignment_starts(s, j) {
        return Err(j);
    }
    let name_end = scan_name(s, j + 1);
    let eq = skip(s, name_end);
    match parse_logica_ou(s, eq + 1, depth) {
        Ok((t, next)) => Ok((AstNode::atribuicao(string_of(s, j, name_end), t), next)),
        Err(e) => Err(e),
    }
}

/// The statement that stands at `i`.
#[verifier::loop_isolation(false)]
pub fn parse_expressao(s: &Vec<char>, i: usize, depth: usize) -> (r: Result<
    (AstNode, usize),
    usize,
>)
    requires
        i <= s.len(),
    ensures
        found(r, s@, i, p_expressao(s@, i as nat, depth as nat)),
{
    let mut items: Vec<AstNode> = Vec::new();
    let mut pos: usize = i;
    assert(trees(items@) =~= Seq::<Tree>::empty());
    loop
        invariant
            i <= pos <= s.len(),
            p_expressao_items(s@, i as nat, depth as nat, Seq::empty()) == p_expressao_items(
                s@,
                pos as nat,
                depth as nat,
                trees(items@),
            ).after((pos - i) as nat),
        decreases s.len() - pos,
    {
        let j = skip(s, pos);
        if j >= s.len() {
            if items.len() > 0 {
                return Ok((AstNode::expressao(items), pos));
            } else {
                return Err(j);
            }
        }
        if assignment_starts(s, j) {
            match parse_atribuicao(s, pos, depth) {
                Ok((t, next)) => {
                    assert(trees(items@.push(t)) =~= trees(items@).push(t@));
                    items.push(t);
                    pos = next;
                },
                Err(e) => {
                    return Err(e);
                },
            }
        } else {
            match parse_logica_ou(s, pos, depth) {
                Ok((t, next)) => {
                    assert(trees(items@.push(t)) =~= trees(items@).push(t@));
                    items.push(t);
                    return Ok((AstNode::expressao(items), next));
                },
                Err(e) => {
                    return Err(e);
                },
            }
        }
    }
}

/// The statements of a program, from the start of the text to its end.
#[verifier::loop_isolation(false)]
pub fn parse_arquivo(s: &Vec<char>) -> (r: Result<Vec<AstNode>, usize>)
    ensures
        match r {
            Ok(statements) => p_arquivo(s@) == ParsedSeq::Match(trees(statements@), s@.len()),
            Err(e) => p_arquivo(s@) == ParsedSeq::<Tree>::Fail(e as nat) && e <= s.len(),
        },
{
    let mut statements: Vec<AstNode> = Vec::new();
    let mut pos: usize = 0;
    assert(trees(statements@) =~= Seq::<Tree>::empty());
    loop
        invariant
            pos <= s.len(),
            p_arquivo(s@) == p_statements(
                s@,
                pos as nat,
                MAX_DEPTH as nat,
                trees(statements@),
            ).after(pos as nat),
        decreases s.len() - pos,
    {
        let j = skip(s, pos);
        if j >= s.len() {
            return Ok(statements);
        }
        proof {
            expressao_takes(s@, pos as nat, MAX_DEPTH as nat, Seq::empty());
        }
        match parse_expressao(s, pos, MAX_DEPTH) {
            Ok((t, next)) => {
                assert(trees(statements@.push(t)) =~= trees(statements@).push(t@));
                statements.push(t);
                pos = next;
            },
            Err(e) => {
                return Err(e);
            },
        }
    }
}

} // verus!
