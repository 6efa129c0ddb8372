//! The grammar, as functions from a text and a place in it to what stands
//! there.
//!
//! ```text
//! arquivo    = expressao*
//! expressao  = atribuicao* logica_ou | atribuicao+
//! atribuicao = nome "=" logica_ou
//! logica_ou  = logica_e ("||" logica_e)*
//! logica_e   = comparacao ("&&" comparacao)*
//! comparacao = soma ((">=" | "<=" | "==" | "!=" | ">" | "<") soma)*
//! soma       = produto (("+" | "-") produto)*
//! produto    = unario (("*" | "/") unario)*
//! unario     = "!" unario | atomo
//! atomo      = numero | texto | nome | "(" logica_ou ")" | lista | objeto
//! lista      = "[" (logica_ou ("," logica_ou)*)? "]"
//! objeto     = "{" (nome ":" logica_ou ("," nome ":" logica_ou)*)? "}"
//! numero     = digit+ ("." digit+)?
//! texto      = "\"" (any character but "\"")* "\""
//! nome       = (letter | "_") (letter | digit | "_")*
//! ```
//!
//! Blanks and comments (`// ...` to the end of the line, `/* ... */`) may
//! stand before every token. An assignment is told from an expression by the
//! `=` after its name, which is no `==`. What a rule matches it matches in
//! one way only: a repetition takes all that it can, and an operator that was
//! taken wants its operand.
use crate::analisador_semantico::numeros::Arith;
use crate::analisador_sintatico::ast::{Comparison, Tree};
use vstd::prelude::*;

verus! {

/// How deep parentheses, brackets, braces and `!` may nest.
pub const MAX_DEPTH: usize = 64;

/// What a rule finds at a place: a tree and the number of characters that it
/// takes, blanks before it included; or the place where the text goes wrong.
pub enum Parsed {
    Match(Tree, nat),
    Fail(nat),
}

/// What a repetition finds at a place: its items and the number of
/// characters that they take, or the place where the text goes wrong.
pub enum ParsedSeq<T> {
    Match(Seq<T>, nat),
    Fail(nat),
}

impl<T> ParsedSeq<T> {
    /// The same, found after `n` characters that were taken before.
    pub open spec fn after(self, n: nat) -> ParsedSeq<T> {
        match self {
            ParsedSeq::Match(items, m) => ParsedSeq::Match(items, n + m),
            ParsedSeq::Fail(at) => ParsedSeq::Fail(at),
        }
    }
}

/// Whether `c` is a blank: a space, a tab, or the end of a line.
pub open spec fn is_blank(c: char) -> bool {
    c == ' ' || c == '\t' || c == '\n' || c == '\r'
}

/// Whether `c` is a digit.
pub open spec fn is_digit(c: char) -> bool {
    '0' <= c <= '9'
}

/// Whether a name may start with `c`.
pub open spec fn is_name_start(c: char) -> bool {
    'a' <= c <= 'z' || 'A' <= c <= 'Z' || c == '_'
}

/// Whether a name may go on with `c`.
pub open spec fn is_name_char(c: char) -> bool {
    is_name_start(c) || is_digit(c)
}

/// The number of characters from `i` to the end of the text.
pub open spec fn left(s: Seq<char>, i: nat) -> nat {
    if i <= s.len() {
        (s.len() - i) as nat
    } else {
        0
    }
}

/// Whether the character `c` stands at `i`.
pub open spec fn at(s: Seq<char>, i: nat, c: char) -> bool {
    i < s.len() && s[i as int] == c
}

/// The number of characters from `i` to the end of the line.
pub open spec fn line_rest(s: Seq<char>, i: nat) -> nat
    decreases s.len() - i,
{
    if i >= s.len() || s[i as int] == '\n' {
        0
    } else {
        1 + line_rest(s, i + 1)
    }
}

/// The number of characters from `i` to the end of the first `*/`, if there
/// is one.
pub open spec fn block_rest(s: Seq<char>, i: nat) -> Option<nat>
    decreases s.len() - i,
{
    if i + 1 >= s.len() {
        None
    } else if s[i as int] == '*' && s[i + 1 as int] == '/' {
        Some(2nat)
    } else {
        match block_rest(s, i + 1) {
            Some(n) => Some(n + 1),
            None => None,
        }
    }
}

/// The number of characters of the blanks and comments that stand at `i`. A
/// `/*` that nothing closes opens no comment.
pub open spec fn blank(s: Seq<char>, i: nat) -> nat
    decreases left(s, i),
{
    if i >= s.len() {
        0
    } else if is_blank(s[i as int]) {
        1 + blank(s, i + 1)
    } else if s[i as int] == '/' && at(s, i + 1, '/') {
        let n = 2 + line_rest(s, i + 2);
        n + blank(s, i + n)
    } else if s[i as int] == '/' && at(s, i + 1, '*') {
        match block_rest(s, i + 2) {
            Some(m) => 2 + m + blank(s, i + 2 + m),
            None => 0,
        }
    } else {
        0
    }
}

/// The number of digits that stand at `i`.
pub open spec fn digits(s: Seq<char>, i: nat) -> nat
    decreases s.len() - i,
{
    if i < s.len() && is_digit(s[i as int]) {
        1 + digits(s, i + 1)
    } else {
        0
    }
}

/// The number of characters of the number that stands at `i`: digits, and
/// after them a point and digits where both are there.
pub open spec fn number_len(s: Seq<char>, i: nat) -> nat {
    let whole = digits(s, i);
    if at(s, i + whole, '.') && digits(s, i + whole + 1) > 0 {
        whole + 1 + digits(s, i + whole + 1)
    } else {
        whole
    }
}

/// The number of characters that may stand in a name, from `i` on.
pub open spec fn name_rest(s: Seq<char>, i: nat) -> nat
    decreases s.len() - i,
{
    if i < s.len() && is_name_char(s[i as int]) {
        1 + name_rest(s, i + 1)
    } else {
        0
    }
}

/// The number of characters from `i` to the next quote, the quote included,
/// if there is one.
pub open spec fn text_rest(s: Seq<char>, i: nat) -> Option<nat>
    decreases s.len() - i,
{
    if i >= s.len() {
        None
    } else if s[i as int] == '"' {
        Some(1nat)
    } else {
        match text_rest(s, i + 1) {
            Some(n) => Some(n + 1),
            None => None,
        }
    }
}

/// The operator of comparison that stands at `i`, and its length.
pub open spec fn comparison_at(s: Seq<char>, i: nat) -> Option<(Comparison, nat)> {
    if at(s, i, '>') && at(s, i + 1, '=') {
        Some((Comparison::GreaterOrEqual, 2nat))
    } else if at(s, i, '<') && at(s, i + 1, '=') {
        Some((Comparison::LessOrEqual, 2nat))
    } else if at(s, i, '=') && at(s, i + 1, '=') {
        Some((Comparison::Equal, 2nat))
    } else if at(s, i, '!') && at(s, i + 1, '=') {
        Some((Comparison::Different, 2nat))
    } else if at(s, i, '>') {
        Some((Comparison::Greater, 1nat))
    } else if at(s, i, '<') {
        Some((Comparison::Less, 1nat))
    } else {
        None
    }
}

/// `+` or `-`, where one stands at `i`.
pub open spec fn additive_at(s: Seq<char>, i: nat) -> Option<Arith> {
    if at(s, i, '+') {
        Some(Arith::Add)
    } else if at(s, i, '-') {
        Some(Arith::Sub)
    } else {
        None
    }
}

/// `*` or `/`, where one stands at `i`.
pub open spec fn multiplicative_at(s: Seq<char>, i: nat) -> Option<Arith> {
    if at(s, i, '*') {
        Some(Arith::Mul)
    } else if at(s, i, '/') {
        Some(Arith::Div)
    } else {
        None
    }
}

/// Whether an assignment starts at `i`: a name, and after it a `=` that is
/// not the first half of `==`.
pub open spec fn assignment_at(s: Seq<char>, i: nat) -> bool {
    i < s.len() && is_name_start(s[i as int]) && {
        let eq = i + 1 + name_rest(s, i + 1) + blank(s, i + 1 + name_rest(s, i + 1));
        at(s, eq, '=') && !at(s, eq + 1, '=')
    }
}

/// `logica_ou = logica_e ("||" logica_e)*`
#[verifier::opaque]
pub open spec fn p_logica_ou(s: Seq<char>, i: nat, depth: nat) -> Parsed
    decreases left(s, i), 7nat,
{
    match p_logica_e(s, i, depth) {
        Parsed::Match(first, n) => match p_ou_rest(s, i + n, depth, Seq::empty()) {
            ParsedSeq::Match(rest, m) => Parsed::Match(Tree::LogicaOu(Box::new(first), rest), n + m),
            ParsedSeq::Fail(e) => Parsed::Fail(e),
        },
        Parsed::Fail(e) => Parsed::Fail(e),
    }
}

/// `("||" logica_e)*` from `i` on, after the operands `done`.
#[verifier::opaque]
pub open spec fn p_ou_rest(s: Seq<char>, i: nat, depth: nat, done: Seq<Tree>) -> ParsedSeq<Tree>
    decreases left(s, i), 0nat,
{
    let b = blank(s, i);
    if at(s, i + b, '|') && at(s, i + b + 1, '|') {
        match p_logica_e(s, i + b + 2, depth) {
            Parsed::Match(t, n) => p_ou_rest(s, i + b + 2 + n, depth, done.push(t)).after(
                b + 2 + n,
            ),
            Parsed::Fail(e) => ParsedSeq::Fail(e),
        }
    } else {
        ParsedSeq::Match(done, 0)
    }
}

/// `logica_e = comparacao ("&&" comparacao)*`
#[verifier::opaque]
pub open spec fn p_logica_e(s: Seq<char>, i: nat, depth: nat) -> Parsed
    decreases left(s, i), 6nat,
{
    match p_comparacao(s, i, depth) {
        Parsed::Match(first, n) => match p_e_rest(s, i + n, depth, Seq::empty()) {
            ParsedSeq::Match(rest, m) => Parsed::Match(Tree::LogicaE(Box::new(first), rest), n + m),
            ParsedSeq::Fail(e) => Parsed::Fail(e),
        },
        Parsed::Fail(e) => Parsed::Fail(e),
    }
}

/// `("&&" comparacao)*` from `i` on, after the operands `done`.
#[verifier::opaque]
pub open spec fn p_e_rest(s: Seq<char>, i: nat, depth: nat, done: Seq<Tree>) -> ParsedSeq<Tree>
    decreases left(s, i), 0nat,
{
    let b = blank(s, i);
    if at(s, i + b, '&') && at(s, i + b + 1, '&') {
        match p_comparacao(s, i + b + 2, depth) {
            Parsed::Match(t, n) => p_e_rest(s, i + b + 2 + n, depth, done.push(t)).after(
                b + 2 + n,
            ),
            Parsed::Fail(e) => ParsedSeq::Fail(e),
        }
    } else {
        ParsedSeq::Match(done, 0)
    }
}

/// `comparacao = soma ((">=" | "<=" | "==" | "!=" | ">" | "<") soma)*`
#[verifier::opaque]
pub open spec fn p_comparacao(s: Seq<char>, i: nat, depth: nat) -> Parsed
    decreases left(s, i), 5nat,
{
    match p_soma(s, i, depth) {
        Parsed::Match(first, n) => match p_comparacao_rest(s, i + n, depth, Seq::empty()) {
            ParsedSeq::Match(rest, m) => Parsed::Match(
                Tree::Comparacao(Box::new(first), rest),
                n + m,
            ),
            ParsedSeq::Fail(e) => Parsed::Fail(e),
        },
        Parsed::Fail(e) => Parsed::Fail(e),
    }
}

/// The operators of comparison and their right operands from `i` on, after
/// `done`.
#[verifier::opaque]
pub open spec fn p_comparacao_rest(
    s: Seq<char>,
    i: nat,
    depth: nat,
    done: Seq<(Comparison, Tree)>,
) -> ParsedSeq<(Comparison, Tree)>
    decreases left(s, i), 0nat,
{
    let b = blank(s, i);
    match comparison_at(s, i + b) {
        Some((op, w)) => match p_soma(s, i + b + w, depth) {
            Parsed::Match(t, n) => p_comparacao_rest(
                s,
                i + b + w + n,
                depth,
                done.push((op, t)),
            ).after(b + w + n),
            Parsed::Fail(e) => ParsedSeq::Fail(e),
        },
        None => ParsedSeq::Match(done, 0),
    }
}

/// `soma = produto (("+" | "-") produto)*`
#[verifier::opaque]
pub open spec fn p_soma(s: Seq<char>, i: nat, depth: nat) -> Parsed
    decreases left(s, i), 4nat,
{
    match p_produto(s, i, depth) {
        Parsed::Match(first, n) => match p_soma_rest(s, i + n, depth, Seq::empty()) {
            ParsedSeq::Match(rest, m) => Parsed::Match(Tree::Soma(Box::new(first), rest), n + m),
            ParsedSeq::Fail(e) => Parsed::Fail(e),
        },
        Parsed::Fail(e) => Parsed::Fail(e),
    }
}

/// `(("+" | "-") produto)*` from `i` on, after `done`.
#[verifier::opaque]
pub open spec fn p_soma_rest(
    s: Seq<char>,
    i: nat,
    depth: nat,
    done: Seq<(Arith, Tree)>,
) -> ParsedSeq<(Arith, Tree)>
    decreases left(s, i), 0nat,
{
    let b = blank(s, i);
    match additive_at(s, i + b) {
        Some(op) => match p_produto(s, i + b + 1, depth) {
            Parsed::Match(t, n) => p_soma_rest(s, i + b + 1 + n, depth, done.push((op, t))).after(
                b + 1 + n,
            ),
            Parsed::Fail(e) => ParsedSeq::Fail(e),
        },
        None => ParsedSeq::Match(done, 0),
    }
}

/// `produto = unario (("*" | "/") unario)*`
#[verifier::opaque]
pub open spec fn p_produto(s: Seq<char>, i: nat, depth: nat) -> Parsed
    decreases left(s, i), 3nat,
{
    match p_unario(s, i, depth) {
        Parsed::Match(first, n) => match p_produto_rest(s, i + n, depth, Seq::empty()) {
            ParsedSeq::Match(rest, m) => Parsed::Match(Tree::Produto(Box::new(first), rest), n + m),
            ParsedSeq::Fail(e) => Parsed::Fail(e),
        },
        Parsed::Fail(e) => Parsed::Fail(e),
    }
}

/// `(("*" | "/") unario)*` from `i` on, after `done`.
#[verifier::opaque]
pub open spec fn p_produto_rest(
    s: Seq<char>,
    i: nat,
    depth: nat,
    done: Seq<(Arith, Tree)>,
) -> ParsedSeq<(Arith, Tree)>
    decreases left(s, i), 0nat,
{
    let b = blank(s, i);
    match multiplicative_at(s, i + b) {
        Some(op) => match p_unario(s, i + b + 1, depth) {
            Parsed::Match(t, n) => p_produto_rest(
                s,
                i + b + 1 + n,
                depth,
                done.push((op, t)),
            ).after(b + 1 + n),
            Parsed::Fail(e) => ParsedSeq::Fail(e),
        },
        None => ParsedSeq::Match(done, 0),
    }
}

/// `unario = "!" unario | atomo`. A `!` is one level of nesting.
#[verifier::opaque]
pub open spec fn p_unario(s: Seq<char>, i: nat, depth: nat) -> Parsed
    decreases left(s, i), 2nat,
{
    let b = blank(s, i);
    if at(s, i + b, '!') {
        if depth == 0 {
            Parsed::Fail(i + b)
        } else {
            match p_unario(s, i + b + 1, (depth - 1) as nat) {
                Parsed::Match(t, n) => Parsed::Match(Tree::Unario(true, Box::new(t)), b + 1 + n),
                Parsed::Fail(e) => Parsed::Fail(e),
            }
        }
    } else {
        match p_atomo(s, i, depth) {
            Parsed::Match(t, n) => Parsed::Match(Tree::Unario(false, Box::new(t)), n),
            Parsed::Fail(e) => Parsed::Fail(e),
        }
    }
}

/// `atomo = numero | texto | nome | "(" logica_ou ")" | lista | objeto`.
/// Parentheses, brackets and braces are one level of nesting each, and none
/// may stand where `depth` levels are used up.
#[verifier::opaque]
pub open spec fn p_atomo(s: Seq<char>, i: nat, depth: nat) -> Parsed
    decreases left(s, i), 1nat,
{
    let b = blank(s, i);
    let j = i + b;
    if j >= s.len() {
        Parsed::Fail(j)
    } else if is_digit(s[j as int]) {
        let n = number_len(s, j);
        Parsed::Match(
            Tree::Atomo(Box::new(Tree::NumeroLiteral(s.subrange(j as int, (j + n) as int)))),
            b + n,
        )
    } else if s[j as int] == '"' {
        match text_rest(s, j + 1) {
            Some(n) => Parsed::Match(
                Tree::Atomo(Box::new(Tree::StringLiteral(s.subrange(j as int, (j + 1 + n) as int)))),
                b + 1 + n,
            ),
            None => Parsed::Fail(j),
        }
    } else if is_name_start(s[j as int]) {
        let n = 1 + name_rest(s, j + 1);
        Parsed::Match(Tree::Atomo(Box::new(Tree::Nome(s.subrange(j as int, (j + n) as int)))), b + n)
    } else if depth == 0 {
        Parsed::Fail(j)
    } else if s[j as int] == '(' {
        match p_logica_ou(s, j + 1, (depth - 1) as nat) {
            Parsed::Match(t, n) => {
                let c = blank(s, j + 1 + n);
                if at(s, j + 1 + n + c, ')') {
                    Parsed::Match(Tree::Atomo(Box::new(t)), b + 1 + n + c + 1)
                } else {
                    Parsed::Fail(j + 1 + n + c)
                }
            },
            Parsed::Fail(e) => Parsed::Fail(e),
        }
    } else if s[j as int] == '[' {
        let c = blank(s, j + 1);
        if at(s, j + 1 + c, ']') {
            Parsed::Match(Tree::Atomo(Box::new(Tree::Lista(Seq::empty()))), b + 1 + c + 1)
        } else {
            match p_items(s, j + 1, (depth - 1) as nat, Seq::empty()) {
                ParsedSeq::Match(items, n) => Parsed::Match(
                    Tree::Atomo(Box::new(Tree::Lista(items))),
                    b + 1 + n,
                ),
                ParsedSeq::Fail(e) => Parsed::Fail(e),
            }
        }
    } else if s[j as int] == '{' {
        let c = blank(s, j + 1);
        if at(s, j + 1 + c, '}') {
            Parsed::Match(Tree::Atomo(Box::new(Tree::Objeto(Seq::empty()))), b + 1 + c + 1)
        } else {
            match p_entries(s, j + 1, (depth - 1) as nat, Seq::empty()) {
                ParsedSeq::Match(entries, n) => Parsed::Match(
                    Tree::Atomo(Box::new(Tree::Objeto(entries))),
                    b + 1 + n,
                ),
                ParsedSeq::Fail(e) => Parsed::Fail(e),
            }
        }
    } else {
        Parsed::Fail(j)
    }
}

/// The items of a list from `i` on, up to the `]`, after `done`.
#[verifier::opaque]
pub open spec fn p_items(s: Seq<char>, i: nat, depth: nat, done: Seq<Tree>) -> ParsedSeq<Tree>
    decreases left(s, i), 8nat,
{
    match p_logica_ou(s, i, depth) {
        Parsed::Match(t, n) => {
            let c = blank(s, i + n);
            if at(s, i + n + c, ',') {
                p_items(s, i + n + c + 1, depth, done.push(t)).after(n + c + 1)
            } else if at(s, i + n + c, ']') {
                ParsedSeq::Match(done.push(t), n + c + 1)
            } else {
                ParsedSeq::Fail(i + n + c)
            }
        },
        Parsed::Fail(e) => ParsedSeq::Fail(e),
    }
}

/// The entries of an object from `i` on, up to the `}`, after `done`.
#[verifier::opaque]
pub open spec fn p_entries(
    s: Seq<char>,
    i: nat,
    depth: nat,
    done: Seq<(Seq<char>, Tree)>,
) -> ParsedSeq<(Seq<char>, Tree)>
    decreases left(s, i), 8nat,
{
    let b = blank(s, i);
    let j = i + b;
    if j < s.len() && is_name_start(s[j as int]) {
        let w = 1 + name_rest(s, j + 1);
        let c = blank(s, j + w);
        if at(s, j + w + c, ':') {
            match p_logica_ou(s, j + w + c + 1, depth) {
                Parsed::Match(t, n) => {
                    let d = blank(s, j + w + c + 1 + n);
                    let end = j + w + c + 1 + n + d;
                    let entry = (s.subrange(j as int, (j + w) as int), t);
                    if at(s, end, ',') {
                        p_entries(s, end + 1, depth, done.push(entry)).after(
                            b + w + c + 1 + n + d + 1,
                        )
                    } else if at(s, end, '}') {
                        ParsedSeq::Match(done.push(entry), b + w + c + 1 + n + d + 1)
                    } else {
                        ParsedSeq::Fail(end)
                    }
                },
                Parsed::Fail(e) => ParsedSeq::Fail(e),
            }
        } else {
            ParsedSeq::Fail(j + w + c)
        }
    } else {
        ParsedSeq::Fail(j)
    }
}

/// What `p_logica_ou` is, written out for one place of one text: the rules are kept
/// out of sight of the prover, which is shown them place by place.
pub proof fn p_logica_ou_is(s: Seq<char>, i: nat, depth: nat)
    ensures
        p_logica_ou(s, i, depth) == ({
            match p_logica_e(s, i, depth) {
                Parsed::Match(first, n) => match p_ou_rest(s, i + n, depth, Seq::empty()) {
                    ParsedSeq::Match(rest, m) => Parsed::Match(Tree::LogicaOu(Box::new(first), rest), n + m),
                    ParsedSeq::Fail(e) => Parsed::Fail(e),
                },
                Parsed::Fail(e) => Parsed::Fail(e),
            }
        }),
{
    reveal(p_logica_ou);
    reveal(p_ou_rest);
    reveal(p_logica_e);
}

/// What `p_ou_rest` is, written out for one place of one text: the rules are kept
/// out of sight of the prover, which is shown them place by place.
pub proof fn p_ou_rest_is(s: Seq<char>, i: nat, depth: nat, done: Seq<Tree>)
    ensures
        p_ou_rest(s, i, depth, done) == ({
            let b = blank(s, i);
            if at(s, i + b, '|') && at(s, i + b + 1, '|') {
                match p_logica_e(s, i + b + 2, depth) {
                    Parsed::Match(t, n) => p_ou_rest(s, i + b + 2 + n, depth, done.push(t)).after(
                        b + 2 + n,
                    ),
                    Parsed::Fail(e) => ParsedSeq::Fail(e),
                }
            } else {
                ParsedSeq::Match(done, 0)
            }
        }),
{
    reveal(p_ou_rest);
    reveal(p_logica_e);
}

/// What `p_logica_e` is, written out for one place of one text: the rules are kept
/// out of sight of the prover, which is shown them place by place.
pub proof fn p_logica_e_is(s: Seq<char>, i: nat, depth: nat)
    ensures
        p_logica_e(s, i, depth) == ({
            match p_comparacao(s, i, depth) {
                Parsed::Match(first, n) => match p_e_rest(s, i + n, depth, Seq::empty()) {
                    ParsedSeq::Match(rest, m) => Parsed::Match(Tree::LogicaE(Box::new(first), rest), n + m),
                    ParsedSeq::Fail(e) => Parsed::Fail(e),
                },
                Parsed::Fail(e) => Parsed::Fail(e),
            }
        }),
{
    reveal(p_logica_e);
    reveal(p_e_rest);
    reveal(p_comparacao);
}

/// What `p_e_rest` is, written out for one place of one text: the rules are kept
/// out of sight of the prover, which is shown them place by place.
pub proof fn p_e_rest_is(s: Seq<char>, i: nat, depth: nat, done: Seq<Tree>)
    ensures
        p_e_rest(s, i, depth, done) == ({
            let b = blank(s, i);
            if at(s, i + b, '&') && at(s, i + b + 1, '&') {
                match p_comparacao(s, i + b + 2, depth) {
                    Parsed::Match(t, n) => p_e_rest(s, i + b + 2 + n, depth, done.push(t)).after(
                        b + 2 + n,
                    ),
                    Parsed::Fail(e) => ParsedSeq::Fail(e),
                }
            } else {
                ParsedSeq::Match(done, 0)
            }
        }),
{
    reveal(p_e_rest);
    reveal(p_comparacao);
}

/// What `p_comparacao` is, written out for one place of one text: the rules are kept
/// out of sight of the prover, which is shown them place by place.
pub proof fn p_comparacao_is(s: Seq<char>, i: nat, depth: nat)
    ensures
        p_comparacao(s, i, depth) == ({
            match p_soma(s, i, depth) {
                Parsed::Match(first, n) => match p_comparacao_rest(s, i + n, depth, Seq::empty()) {
                    ParsedSeq::Match(rest, m) => Parsed::Match(
                        Tree::Comparacao(Box::new(first), rest),
                        n + m,
                    ),
                    ParsedSeq::Fail(e) => Parsed::Fail(e),
                },
                Parsed::Fail(e) => Parsed::Fail(e),
            }
        }),
{
    reveal(p_comparacao);
    reveal(p_comparacao_rest);
    reveal(p_soma);
}

/// What `p_comparacao_rest` is, written out for one place of one text: the rules are kept
/// out of sight of the prover, which is shown them place by place.
pub proof fn p_comparacao_rest_is(s: Seq<char>, i: nat, depth: nat, done: Seq<(Comparison, Tree)>)
    ensures
        p_comparacao_rest(s, i, depth, done) == ({
            let b = blank(s, i);
            match comparison_at(s, i + b) {
                Some((op, w)) => match p_soma(s, i + b + w, depth) {
                    Parsed::Match(t, n) => p_comparacao_rest(
                        s,
                        i + b + w + n,
                        depth,
                        done.push((op, t)),
                    ).after(b + w + n),
                    Parsed::Fail(e) => ParsedSeq::Fail(e),
                },
                None => ParsedSeq::Match(done, 0),
            }
        }),
{
    reveal(p_comparacao_rest);
    reveal(p_soma);
}

/// What `p_soma` is, written out for one place of one text: the rules are kept
/// out of sight of the prover, which is shown them place by place.
pub proof fn p_soma_is(s: Seq<char>, i: nat, depth: nat)
    ensures
        p_soma(s, i, depth) == ({
            match p_produto(s, i, depth) {
                Parsed::Match(first, n) => match p_soma_rest(s, i + n, depth, Seq::empty()) {
                    ParsedSeq::Match(rest, m) => Parsed::Match(Tree::Soma(Box::new(first), rest), n + m),
                    ParsedSeq::Fail(e) => Parsed::Fail(e),
                },
                Parsed::Fail(e) => Parsed::Fail(e),
            }
        }),
{
    reveal(p_soma);
    reveal(p_soma_rest);
    reveal(p_produto);
}

/// What `p_soma_rest` is, written out for one place of one text: the rules are kept
/// out of sight of the prover, which is shown them place by place.
pub proof fn p_soma_rest_is(s: Seq<char>, i: nat, depth: nat, done: Seq<(Arith, Tree)>)
    ensures
        p_soma_rest(s, i, depth, done) == ({
            let b = blank(s, i);
            match additive_at(s, i + b) {
                Some(op) => match p_produto(s, i + b + 1, depth) {
                    Parsed::Match(t, n) => p_soma_rest(s, i + b + 1 + n, depth, done.push((op, t))).after(
                        b + 1 + n,
                    ),
                    Parsed::Fail(e) => ParsedSeq::Fail(e),
                },
                None => ParsedSeq::Match(done, 0),
            }
        }),
{
    reveal(p_soma_rest);
    reveal(p_produto);
}

/// What `p_produto` is, written out for one place of one text: the rules are kept
/// out of sight of the prover, which is shown them place by place.
pub proof fn p_produto_is(s: Seq<char>, i: nat, depth: nat)
    ensures
        p_produto(s, i, depth) == ({
            match p_unario(s, i, depth) {
                Parsed::Match(first, n) => match p_produto_rest(s, i + n, depth, Seq::empty()) {
                    ParsedSeq::Match(rest, m) => Parsed::Match(Tree::Produto(Box::new(first), rest), n + m),
                    ParsedSeq::Fail(e) => Parsed::Fail(e),
                },
                Parsed::Fail(e) => Parsed::Fail(e),
            }
        }),
{
    reveal(p_produto);
    reveal(p_produto_rest);
    reveal(p_unario);
}

/// What `p_produto_rest` is, written out for one place of one text: the rules are kept
/// out of sight of the prover, which is shown them place by place.
pub proof fn p_produto_rest_is(s: Seq<char>, i: nat, depth: nat, done: Seq<(Arith, Tree)>)
    ensures
        p_produto_rest(s, i, depth, done) == ({
            let b = blank(s, i);
            match multiplicative_at(s, i + b) {
                Some(op) => match p_unario(s, i + b + 1, depth) {
                    Parsed::Match(t, n) => p_produto_rest(
                        s,
                        i + b + 1 + n,
                        depth,
                        done.push((op, t)),
                    ).after(b + 1 + n),
                    Parsed::Fail(e) => ParsedSeq::Fail(e),
                },
                None => ParsedSeq::Match(done, 0),
            }
        }),
{
    reveal(p_produto_rest);
    reveal(p_unario);
}

/// What `p_unario` is, written out for one place of one text: the rules are kept
/// out of sight of the prover, which is shown them place by place.
pub proof fn p_unario_is(s: Seq<char>, i: nat, depth: nat)
    ensures
        p_unario(s, i, depth) == ({
            let b = blank(s, i);
            if at(s, i + b, '!') {
                if depth == 0 {
                    Parsed::Fail(i + b)
                } else {
                    match p_unario(s, i + b + 1, (depth - 1) as nat) {
                        Parsed::Match(t, n) => Parsed::Match(Tree::Unario(true, Box::new(t)), b + 1 + n),
                        Parsed::Fail(e) => Parsed::Fail(e),
                    }
                }
            } else {
                match p_atomo(s, i, depth) {
                    Parsed::Match(t, n) => Parsed::Match(Tree::Unario(false, Box::new(t)), n),
                    Parsed::Fail(e) => Parsed::Fail(e),
                }
            }
        }),
{
    reveal(p_unario);
    reveal(p_atomo);
}

/// What `p_atomo` is, written out for one place of one text: the rules are kept
/// out of sight of the prover, which is shown them place by place.
pub proof fn p_atomo_is(s: Seq<char>, i: nat, depth: nat)
    ensures
        p_atomo(s, i, depth) == ({
            let b = blank(s, i);
            let j = i + b;
            if j >= s.len() {
                Parsed::Fail(j)
            } else if is_digit(s[j as int]) {
                let n = number_len(s, j);
                Parsed::Match(
                    Tree::Atomo(Box::new(Tree::NumeroLiteral(s.subrange(j as int, (j + n) as int)))),
                    b + n,
                )
            } else if s[j as int] == '"' {
                match text_rest(s, j + 1) {
                    Some(n) => Parsed::Match(
                        Tree::Atomo(Box::new(Tree::StringLiteral(s.subrange(j as int, (j + 1 + n) as int)))),
                        b + 1 + n,
                    ),
                    None => Parsed::Fail(j),
                }
            } else if is_name_start(s[j as int]) {
                let n = 1 + name_rest(s, j + 1);
                Parsed::Match(Tree::Atomo(Box::new(Tree::Nome(s.subrange(j as int, (j + n) as int)))), b + n)
            } else if depth == 0 {
                Parsed::Fail(j)
            } else if s[j as int] == '(' {
                match p_logica_ou(s, j + 1, (depth - 1) as nat) {
                    Parsed::Match(t, n) => {
                        let c = blank(s, j + 1 + n);
                        if at(s, j + 1 + n + c, ')') {
                            Parsed::Match(Tree::Atomo(Box::new(t)), b + 1 + n + c + 1)
                        } else {
                            Parsed::Fail(j + 1 + n + c)
                        }
                    },
                    Parsed::Fail(e) => Parsed::Fail(e),
                }
            } else if s[j as int] == '[' {
                let c = blank(s, j + 1);
                if at(s, j + 1 + c, ']') {
                    Parsed::Match(Tree::Atomo(Box::new(Tree::Lista(Seq::empty()))), b + 1 + c + 1)
                } else {
                    match p_items(s, j + 1, (depth - 1) as nat, Seq::empty()) {
                        ParsedSeq::Match(items, n) => Parsed::Match(
                            Tree::Atomo(Box::new(Tree::Lista(items))),
                            b + 1 + n,
                        ),
                        ParsedSeq::Fail(e) => Parsed::Fail(e),
                    }
                }
            } else if s[j as int] == '{' {
                let c = blank(s, j + 1);
                if at(s, j + 1 + c, '}') {
                    Parsed::Match(Tree::Atomo(Box::new(Tree::Objeto(Seq::empty()))), b + 1 + c + 1)
                } else {
                    match p_entries(s, j + 1, (depth - 1) as nat, Seq::empty()) {
                        ParsedSeq::Match(entries, n) => Parsed::Match(
                            Tree::Atomo(Box::new(Tree::Objeto(entries))),
                            b + 1 + n,
                        ),
                        ParsedSeq::Fail(e) => Parsed::Fail(e),
                    }
                }
            } else {
                Parsed::Fail(j)
            }
        }),
{
    reveal(p_atomo);
    reveal(p_logica_ou);
    reveal(p_items);
    reveal(p_entries);
}

/// What `p_items` is, written out for one place of one text: the rules are kept
/// out of sight of the prover, which is shown them place by place.
pub proof fn p_items_is(s: Seq<char>, i: nat, depth: nat, done: Seq<Tree>)
    ensures
        p_items(s, i, depth, done) == ({
            match p_logica_ou(s, i, depth) {
                Parsed::Match(t, n) => {
                    let c = blank(s, i + n);
                    if at(s, i + n + c, ',') {
                        p_items(s, i + n + c + 1, depth, done.push(t)).after(n + c + 1)
                    } else if at(s, i + n + c, ']') {
                        ParsedSeq::Match(done.push(t), n + c + 1)
                    } else {
                        ParsedSeq::Fail(i + n + c)
                    }
                },
                Parsed::Fail(e) => ParsedSeq::Fail(e),
            }
        }),
{
    reveal(p_items);
    reveal(p_logica_ou);
}

/// What `p_entries` is, written out for one place of one text: the rules are kept
/// out of sight of the prover, which is shown them place by place.
pub proof fn p_entries_is(s: Seq<char>, i: nat, depth: nat, done: Seq<(Seq<char>, Tree)>)
    ensures
        p_entries(s, i, depth, done) == ({
            let b = blank(s, i);
            let j = i + b;
            if j < s.len() && is_name_start(s[j as int]) {
                let w = 1 + name_rest(s, j + 1);
                let c = blank(s, j + w);
                if at(s, j + w + c, ':') {
                    match p_logica_ou(s, j + w + c + 1, depth) {
                        Parsed::Match(t, n) => {
                            let d = blank(s, j + w + c + 1 + n);
                            let end = j + w + c + 1 + n + d;
                            let entry = (s.subrange(j as int, (j + w) as int), t);
                            if at(s, end, ',') {
                                p_entries(s, end + 1, depth, done.push(entry)).after(
                                    b + w + c + 1 + n + d + 1,
                                )
                            } else if at(s, end, '}') {
                                ParsedSeq::Match(done.push(entry), b + w + c + 1 + n + d + 1)
                            } else {
                                ParsedSeq::Fail(end)
                            }
                        },
                        Parsed::Fail(e) => ParsedSeq::Fail(e),
                    }
                } else {
                    ParsedSeq::Fail(j + w + c)
                }
            } else {
                ParsedSeq::Fail(j)
            }
        }),
{
    reveal(p_entries);
    reveal(p_logica_ou);
}

/// What an operand takes is at least one character.
pub proof fn unario_takes(s: Seq<char>, i: nat, depth: nat)
    ensures
        p_unario(s, i, depth) matches Parsed::Match(_, n) ==> n > 0,
{
    reveal(p_unario);
    reveal(p_atomo);
    let j = i + blank(s, i);
    if !at(s, j, '!') {
        if j < s.len() && is_digit(s[j as int]) {
            assert(digits(s, j) > 0);
            assert(number_len(s, j) > 0);
        }
        assert(p_atomo(s, i, depth) matches Parsed::Match(_, n) ==> n > 0);
    }
}

/// What an expression takes is at least one character.
pub proof fn logica_ou_takes(s: Seq<char>, i: nat, depth: nat)
    ensures
        p_logica_ou(s, i, depth) matches Parsed::Match(_, n) ==> n > 0,
{
    reveal(p_logica_ou);
    reveal(p_logica_e);
    reveal(p_comparacao);
    reveal(p_soma);
    reveal(p_produto);
    unario_takes(s, i, depth);
}

/// The assignment that stands at `i`.
pub open spec fn p_atribuicao(s: Seq<char>, i: nat, depth: nat) -> Parsed {
    let b = blank(s, i);
    let j = i + b;
    if assignment_at(s, j) {
        let w = 1 + name_rest(s, j + 1);
        let c = blank(s, j + w);
        match p_logica_ou(s, j + w + c + 1, depth) {
            Parsed::Match(t, n) => Parsed::Match(
                Tree::Atribuicao(s.subrange(j as int, (j + w) as int), Box::new(t)),
                b + w + c + 1 + n,
            ),
            Parsed::Fail(e) => Parsed::Fail(e),
        }
    } else {
        Parsed::Fail(j)
    }
}

/// The items of a statement from `i` on, after `done`: assignments, as many
/// as there are, and after them an expression. Only where the text ends
/// after an assignment, a statement is without one.
pub open spec fn p_expressao_items(
    s: Seq<char>,
    i: nat,
    depth: nat,
    done: Seq<Tree>,
) -> ParsedSeq<Tree>
    decreases left(s, i),
{
    let j = i + blank(s, i);
    if j >= s.len() {
        if done.len() > 0 {
            ParsedSeq::Match(done, 0)
        } else {
            ParsedSeq::Fail(j)
        }
    } else if assignment_at(s, j) {
        match p_atribuicao(s, i, depth) {
            Parsed::Match(t, n) => p_expressao_items(s, i + n, depth, done.push(t)).after(n),
            Parsed::Fail(e) => ParsedSeq::Fail(e),
        }
    } else {
        match p_logica_ou(s, i, depth) {
            Parsed::Match(t, n) => ParsedSeq::Match(done.push(t), n),
            Parsed::Fail(e) => ParsedSeq::Fail(e),
        }
    }
}

/// The statement that stands at `i`.
pub open spec fn p_expressao(s: Seq<char>, i: nat, depth: nat) -> Parsed {
    match p_expressao_items(s, i, depth, Seq::empty()) {
        ParsedSeq::Match(items, n) => Parsed::Match(Tree::Expressao(items), n),
        ParsedSeq::Fail(e) => Parsed::Fail(e),
    }
}

/// What a statement takes is at least one character, where the text has not
/// ended.
pub proof fn expressao_takes(s: Seq<char>, i: nat, depth: nat, done: Seq<Tree>)
    requires
        i + blank(s, i) < s.len(),
    ensures
        p_expressao_items(s, i, depth, done) matches ParsedSeq::Match(_, n) ==> n > 0,
{
    logica_ou_takes(s, i, depth);
}

/// The statements from `i` on to the end of the text, after `done`.
pub open spec fn p_statements(s: Seq<char>, i: nat, depth: nat, done: Seq<Tree>) -> ParsedSeq<
    Tree,
>
    decreases left(s, i),
{
    let b = blank(s, i);
    if i + b >= s.len() {
        ParsedSeq::Match(done, b)
    } else {
        match p_expressao(s, i, depth) {
            Parsed::Match(t, n) => {
                proof {
                    expressao_takes(s, i, depth, Seq::empty());
                }
                p_statements(s, i + n, depth, done.push(t)).after(n)
            },
            Parsed::Fail(e) => ParsedSeq::Fail(e),
        }
    }
}

/// The program that a text writes: its statements, or the place where the
/// text goes wrong.
pub open spec fn p_arquivo(s: Seq<char>) -> ParsedSeq<Tree> {
    p_statements(s, 0, MAX_DEPTH as nat, Seq::empty())
}

} // verus!
