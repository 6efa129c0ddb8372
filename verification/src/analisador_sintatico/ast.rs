//! The syntax tree: one kind of node for each rule of the grammar.
use crate::analisador_semantico::numeros::Arith;
use vstd::prelude::*;

verus! {

/// The rules of the grammar.
#[derive(Debug, Clone, Copy, PartialEq, Eq, PartialOrd, Ord, Hash)]
pub enum Rule {
    arquivo,
    expressao,
    atribuicao,
    logica_ou,
    logica_e,
    comparacao,
    soma,
    produto,
    unario,
    atomo,
    lista,
    objeto,
    numero_literal,
    texto_literal,
    nome,
}

/// An operator of comparison.
#[derive(Debug, Clone, Copy, PartialEq, Eq, Structural)]
pub enum Comparison {
    Greater,
    Less,
    GreaterOrEqual,
    LessOrEqual,
    Equal,
    Different,
}

/// A node of the syntax tree, as the contracts see it.
pub enum Tree {
    Arquivo(Seq<Tree>),
    Expressao(Seq<Tree>),
    Atribuicao(Seq<char>, Box<Tree>),
    LogicaOu(Box<Tree>, Seq<Tree>),
    LogicaE(Box<Tree>, Seq<Tree>),
    Comparacao(Box<Tree>, Seq<(Comparison, Tree)>),
    Soma(Box<Tree>, Seq<(Arith, Tree)>),
    Produto(Box<Tree>, Seq<(Arith, Tree)>),
    Unario(bool, Box<Tree>),
    Atomo(Box<Tree>),
    Lista(Seq<Tree>),
    Objeto(Seq<(Seq<char>, Tree)>),
    NumeroLiteral(Seq<char>),
    StringLiteral(Seq<char>),
    Nome(Seq<char>),
}

/// A node of the syntax tree.
///
/// A node of a rule with operators holds its first operand, then each
/// operator with the operand to its right.
#[derive(Debug, PartialEq)]
pub enum AstNode {
    /// A program: its statements, in order.
    Arquivo(Vec<AstNode>),
    /// A statement: assignments, and an expression after them or none.
    Expressao(Vec<AstNode>),
    /// `name = expression`.
    Atribuicao(String, Box<AstNode>),
    /// Operands between `||`.
    LogicaOu(Box<AstNode>, Vec<AstNode>),
    /// Operands between `&&`.
    LogicaE(Box<AstNode>, Vec<AstNode>),
    /// Operands between `>`, `<`, `>=`, `<=`, `==`, `!=`.
    Comparacao(Box<AstNode>, Vec<(Comparison, AstNode)>),
    /// Operands between `+` and `-`.
    Soma(Box<AstNode>, Vec<(Arith, AstNode)>),
    /// Operands between `*` and `/`.
    Produto(Box<AstNode>, Vec<(Arith, AstNode)>),
    /// An operand, negated by `!` where the flag is set.
    Unario(bool, Box<AstNode>),
    /// A literal, a list, an object, a name, or an expression in parentheses.
    Atomo(Box<AstNode>),
    /// `[a, b, ...]`.
    Lista(Vec<AstNode>),
    /// `{k: a, l: b, ...}`.
    Objeto(Vec<(String, AstNode)>),
    /// The digits of a number, as written.
    NumeroLiteral(String),
    /// A text, as written: with its two quotes.
    StringLiteral(String),
    /// The name of a variable.
    Nome(String),
}

/// What the contracts see of a list of nodes.
pub open spec fn trees(l: Seq<AstNode>) -> Seq<Tree> {
    Seq::new(l.len(), |i: int| l[i]@)
}

/// What the contracts see of a list of operators and operands.
pub open spec fn operands<O>(l: Seq<(O, AstNode)>) -> Seq<(O, Tree)> {
    Seq::new(l.len(), |i: int| (l[i].0, l[i].1@))
}

/// What the contracts see of the entries of an object.
pub open spec fn pairs(l: Seq<(String, AstNode)>) -> Seq<(Seq<char>, Tree)> {
    Seq::new(l.len(), |i: int| (l[i].0@, l[i].1@))
}

/// What the contracts see of `n`.
#[verifier::opaque]
pub open spec fn tree_of(n: AstNode) -> Tree
    decreases n,
{
    match n {
        AstNode::Arquivo(l) => Tree::Arquivo(
            Seq::new(
                l.len() as nat,
                |i: int|
                    if 0 <= i < l.len() {
                        tree_of(l[i])
                    } else {
                        Tree::Lista(Seq::empty())
                    },
            ),
        ),
        AstNode::Expressao(l) => Tree::Expressao(
            Seq::new(
                l.len() as nat,
                |i: int|
                    if 0 <= i < l.len() {
                        tree_of(l[i])
                    } else {
                        Tree::Lista(Seq::empty())
                    },
            ),
        ),
        AstNode::Atribuicao(name, e) => Tree::Atribuicao(name@, Box::new(tree_of(*e))),
        AstNode::LogicaOu(first, rest) => Tree::LogicaOu(
            Box::new(tree_of(*first)),
            Seq::new(
                rest.len() as nat,
                |i: int|
                    if 0 <= i < rest.len() {
                        tree_of(rest[i])
                    } else {
                        Tree::Lista(Seq::empty())
                    },
            ),
        ),
        AstNode::LogicaE(first, rest) => Tree::LogicaE(
            Box::new(tree_of(*first)),
            Seq::new(
                rest.len() as nat,
                |i: int|
                    if 0 <= i < rest.len() {
                        tree_of(rest[i])
                    } else {
                        Tree::Lista(Seq::empty())
                    },
            ),
        ),
        AstNode::Comparacao(first, rest) => Tree::Comparacao(
            Box::new(tree_of(*first)),
            Seq::new(
                rest.len() as nat,
                |i: int|
                    if 0 <= i < rest.len() {
                        (rest[i].0, tree_of(rest[i].1))
                    } else {
                        (Comparison::Equal, Tree::Lista(Seq::empty()))
                    },
            ),
        ),
        AstNode::Soma(first, rest) => Tree::Soma(
            Box::new(tree_of(*first)),
            Seq::new(
                rest.len() as nat,
                |i: int|
                    if 0 <= i < rest.len() {
                        (rest[i].0, tree_of(rest[i].1))
                    } else {
                        (Arith::Add, Tree::Lista(Seq::empty()))
                    },
            ),
        ),
        AstNode::Produto(first, rest) => Tree::Produto(
            Box::new(tree_of(*first)),
            Seq::new(
                rest.len() as nat,
                |i: int|
                    if 0 <= i < rest.len() {
                        (rest[i].0, tree_of(rest[i].1))
                    } else {
                        (Arith::Add, Tree::Lista(Seq::empty()))
                    },
            ),
        ),
        AstNode::Unario(negated, e) => Tree::Unario(negated, Box::new(tree_of(*e))),
        AstNode::Atomo(e) => Tree::Atomo(Box::new(tree_of(*e))),
        AstNode::Lista(l) => Tree::Lista(
            Seq::new(
                l.len() as nat,
                |i: int|
                    if 0 <= i < l.len() {
                        tree_of(l[i])
                    } else {
                        Tree::Lista(Seq::empty())
                    },
            ),
        ),
        AstNode::Objeto(l) => Tree::Objeto(
            Seq::new(
                l.len() as nat,
                |i: int|
                    if 0 <= i < l.len() {
                        (l[i].0@, tree_of(l[i].1))
                    } else {
                        (Seq::empty(), Tree::Lista(Seq::empty()))
                    },
            ),
        ),
        AstNode::NumeroLiteral(t) => Tree::NumeroLiteral(t@),
        AstNode::StringLiteral(t) => Tree::StringLiteral(t@),
        AstNode::Nome(t) => Tree::Nome(t@),
    }
}

impl View for AstNode {
    type V = Tree;

    open spec fn view(&self) -> Tree {
        tree_of(*self)
    }
}

/// What the contracts see of a node, kind by kind.
pub proof fn view_of_node(n: AstNode)
    ensures
        n@ == match n {
            AstNode::Arquivo(l) => Tree::Arquivo(trees(l@)),
            AstNode::Expressao(l) => Tree::Expressao(trees(l@)),
            AstNode::Atribuicao(name, e) => Tree::Atribuicao(name@, Box::new(e@)),
            AstNode::LogicaOu(first, rest) => Tree::LogicaOu(Box::new(first@), trees(rest@)),
            AstNode::LogicaE(first, rest) => Tree::LogicaE(Box::new(first@), trees(rest@)),
            AstNode::Comparacao(first, rest) => Tree::Comparacao(
                Box::new(first@),
                operands(rest@),
            ),
            AstNode::Soma(first, rest) => Tree::Soma(Box::new(first@), operands(rest@)),
            AstNode::Produto(first, rest) => Tree::Produto(Box::new(first@), operands(rest@)),
            AstNode::Unario(negated, e) => Tree::Unario(negated, Box::new(e@)),
            AstNode::Atomo(e) => Tree::Atomo(Box::new(e@)),
            AstNode::Lista(l) => Tree::Lista(trees(l@)),
            AstNode::Objeto(l) => Tree::Objeto(pairs(l@)),
            AstNode::NumeroLiteral(t) => Tree::NumeroLiteral(t@),
            AstNode::StringLiteral(t) => Tree::StringLiteral(t@),
            AstNode::Nome(t) => Tree::Nome(t@),
        },
{
    reveal(tree_of);
    match n {
        AstNode::Arquivo(l) => {
            assert(n@->Arquivo_0 =~= trees(l@));
        },
        AstNode::Expressao(l) => {
            assert(n@->Expressao_0 =~= trees(l@));
        },
        AstNode::LogicaOu(first, rest) => {
            assert(n@->LogicaOu_1 =~= trees(rest@));
        },
        AstNode::LogicaE(first, rest) => {
            assert(n@->LogicaE_1 =~= trees(rest@));
        },
        AstNode::Comparacao(first, rest) => {
            assert(n@->Comparacao_1 =~= operands(rest@));
        },
        AstNode::Soma(first, rest) => {
            assert(n@->Soma_1 =~= operands(rest@));
        },
        AstNode::Produto(first, rest) => {
            assert(n@->Produto_1 =~= operands(rest@));
        },
        AstNode::Lista(l) => {
            assert(n@->Lista_0 =~= trees(l@));
        },
        AstNode::Objeto(l) => {
            assert(n@->Objeto_0 =~= pairs(l@));
        },
        _ => {},
    }
}

impl AstNode {
    /// The program of the statements.
    pub fn arquivo(statements: Vec<AstNode>) -> (r: AstNode)
        ensures
            r@ == Tree::Arquivo(trees(statements@)),
    {
        let r = AstNode::Arquivo(statements);
        proof {
            view_of_node(r);
        }
        r
    }

    /// The statement of the items.
    pub fn expressao(items: Vec<AstNode>) -> (r: AstNode)
        ensures
            r@ == Tree::Expressao(trees(items@)),
    {
        let r = AstNode::Expressao(items);
        proof {
            view_of_node(r);
        }
        r
    }

    /// `name = value`.
    pub fn atribuicao(name: String, value: AstNode) -> (r: AstNode)
        ensures
            r@ == Tree::Atribuicao(name@, Box::new(value@)),
    {
        let r = AstNode::Atribuicao(name, Box::new(value));
        proof {
            view_of_node(r);
        }
        r
    }

    /// `first || rest[0] || ...`.
    pub fn logica_ou(first: AstNode, rest: Vec<AstNode>) -> (r: AstNode)
        ensures
            r@ == Tree::LogicaOu(Box::new(first@), trees(rest@)),
    {
        let r = AstNode::LogicaOu(Box::new(first), rest);
        proof {
            view_of_node(r);
        }
        r
    }

    /// `first && rest[0] && ...`.
    pub fn logica_e(first: AstNode, rest: Vec<AstNode>) -> (r: AstNode)
        ensures
            r@ == Tree::LogicaE(Box::new(first@), trees(rest@)),
    {
        let r = AstNode::LogicaE(Box::new(first), rest);
        proof {
            view_of_node(r);
        }
        r
    }

    /// `first`, then each operator of comparison with its right operand.
    pub fn comparacao(first: AstNode, rest: Vec<(Comparison, AstNode)>) -> (r: AstNode)
        ensures
            r@ == Tree::Comparacao(Box::new(first@), operands(rest@)),
    {
        let r = AstNode::Comparacao(Box::new(first), rest);
        proof {
            view_of_node(r);
        }
        r
    }

    /// `first`, then each `+` or `-` with its right operand.
    pub fn soma(first: AstNode, rest: Vec<(Arith, AstNode)>) -> (r: AstNode)
        ensures
            r@ == Tree::Soma(Box::new(first@), operands(rest@)),
    {
        let r = AstNode::Soma(Box::new(first), rest);
        proof {
            view_of_node(r);
        }
        r
    }

    /// `first`, then each `*` or `/` with its right operand.
    pub fn produto(first: AstNode, rest: Vec<(Arith, AstNode)>) -> (r: AstNode)
        ensures
            r@ == Tree::Produto(Box::new(first@), operands(rest@)),
    {
        let r = AstNode::Produto(Box::new(first), rest);
        proof {
            view_of_node(r);
        }
        r
    }

    /// The operand, negated where `negated` is set.
    pub fn unario(negated: bool, operand: AstNode) -> (r: AstNode)
        ensures
            r@ == Tree::Unario(negated, Box::new(operand@)),
    {
        let r = AstNode::Unario(negated, Box::new(operand));
        proof {
            view_of_node(r);
        }
        r
    }

    /// The atom that holds `inner`.
    pub fn atomo(inner: AstNode) -> (r: AstNode)
        ensures
            r@ == Tree::Atomo(Box::new(inner@)),
    {
        let r = AstNode::Atomo(Box::new(inner));
        proof {
            view_of_node(r);
        }
        r
    }

    /// The number literal of the digits.
    pub fn numero_literal(text: String) -> (r: AstNode)
        ensures
            r@ == Tree::NumeroLiteral(text@),
    {
        let r = AstNode::NumeroLiteral(text);
        proof {
            view_of_node(r);
        }
        r
    }

    /// The text literal of the text, which holds its quotes.
    pub fn string_literal(text: String) -> (r: AstNode)
        ensures
            r@ == Tree::StringLiteral(text@),
    {
        let r = AstNode::StringLiteral(text);
        proof {
            view_of_node(r);
        }
        r
    }

    /// The name.
    pub fn nome(text: String) -> (r: AstNode)
        ensures
            r@ == Tree::Nome(text@),
    {
        let r = AstNode::Nome(text);
        proof {
            view_of_node(r);
        }
        r
    }

    /// `[items[0], ...]`.
    pub fn lista(items: Vec<AstNode>) -> (r: AstNode)
        ensures
            r@ == Tree::Lista(trees(items@)),
    {
        let r = AstNode::Lista(items);
        proof {
            view_of_node(r);
        }
        r
    }

    /// `{key: value, ...}`.
    pub fn objeto(entries: Vec<(String, AstNode)>) -> (r: AstNode)
        ensures
            r@ == Tree::Objeto(pairs(entries@)),
    {
        let r = AstNode::Objeto(entries);
        proof {
            view_of_node(r);
        }
        r
    }
}

} // verus!
