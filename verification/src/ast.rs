//! The abstract syntax tree produced by the grammar and consumed by the type
//! checker and the code generator.

use vstd::prelude::*;

use crate::types::SpecType;
use crate::types::Type;
use crate::types::params_view;
use crate::types::type_view;

verus! {

/// A node of the syntax tree. Each composite node exclusively owns its
/// children; the tree is immutable after construction.
#[derive(Debug, PartialEq)]
pub enum Ast {
    Null,
    Undefined,
    Number(i32),
    Bool(bool),
    ArrayLiteral(Vec<Ast>),
    ArrayLookup(Box<Ast>, Box<Ast>),
    ArrayLength(Box<Ast>),
    Identifier(String),
    Not(Box<Ast>),
    Equal(Box<Ast>, Box<Ast>),
    NotEqual(Box<Ast>, Box<Ast>),
    Addition(Box<Ast>, Box<Ast>),
    Subtraction(Box<Ast>, Box<Ast>),
    Multiplication(Box<Ast>, Box<Ast>),
    Division(Box<Ast>, Box<Ast>),
    Call(String, Vec<Ast>),
    Return(Box<Ast>),
    Block(Vec<Ast>),
    If(Box<Ast>, Box<Ast>, Box<Ast>),
    Function(String, Type, Box<Ast>),
    Var(String, Box<Ast>),
    Assignment(String, Box<Ast>),
    While(Box<Ast>, Box<Ast>),
}

/// The mathematical form of a syntax tree.
pub enum SpecAst {
    Null,
    Undefined,
    Number(int),
    Bool(bool),
    ArrayLiteral(Seq<SpecAst>),
    ArrayLookup(Box<SpecAst>, Box<SpecAst>),
    ArrayLength(Box<SpecAst>),
    Identifier(Seq<char>),
    Not(Box<SpecAst>),
    Equal(Box<SpecAst>, Box<SpecAst>),
    NotEqual(Box<SpecAst>, Box<SpecAst>),
    Addition(Box<SpecAst>, Box<SpecAst>),
    Subtraction(Box<SpecAst>, Box<SpecAst>),
    Multiplication(Box<SpecAst>, Box<SpecAst>),
    Division(Box<SpecAst>, Box<SpecAst>),
    Call(Seq<char>, Seq<SpecAst>),
    Return(Box<SpecAst>),
    Block(Seq<SpecAst>),
    If(Box<SpecAst>, Box<SpecAst>, Box<SpecAst>),
    Function(Seq<char>, SpecType, Box<SpecAst>),
    Var(Seq<char>, Box<SpecAst>),
    Assignment(Seq<char>, Box<SpecAst>),
    While(Box<SpecAst>, Box<SpecAst>),
}

pub open spec fn ast_view(a: Ast) -> SpecAst
    decreases a,
{
    match a {
        Ast::Null => SpecAst::Null,
        Ast::Undefined => SpecAst::Undefined,
        Ast::Number(v) => SpecAst::Number(v as int),
        Ast::Bool(b) => SpecAst::Bool(b),
        Ast::ArrayLiteral(es) => SpecAst::ArrayLiteral(asts_view(es@)),
        Ast::ArrayLookup(x, y) => SpecAst::ArrayLookup(
            Box::new(ast_view(*x)),
            Box::new(ast_view(*y)),
        ),
        Ast::ArrayLength(x) => SpecAst::ArrayLength(Box::new(ast_view(*x))),
        Ast::Identifier(n) => SpecAst::Identifier(n@),
        Ast::Not(x) => SpecAst::Not(Box::new(ast_view(*x))),
        Ast::Equal(x, y) => SpecAst::Equal(Box::new(ast_view(*x)), Box::new(ast_view(*y))),
        Ast::NotEqual(x, y) => SpecAst::NotEqual(Box::new(ast_view(*x)), Box::new(ast_view(*y))),
        Ast::Addition(x, y) => SpecAst::Addition(Box::new(ast_view(*x)), Box::new(ast_view(*y))),
        Ast::Subtraction(x, y) => SpecAst::Subtraction(
            Box::new(ast_view(*x)),
            Box::new(ast_view(*y)),
        ),
        Ast::Multiplication(x, y) => SpecAst::Multiplication(
            Box::new(ast_view(*x)),
            Box::new(ast_view(*y)),
        ),
        Ast::Division(x, y) => SpecAst::Division(Box::new(ast_view(*x)), Box::new(ast_view(*y))),
        Ast::Call(n, args) => SpecAst::Call(n@, asts_view(args@)),
        Ast::Return(x) => SpecAst::Return(Box::new(ast_view(*x))),
        Ast::Block(ss) => SpecAst::Block(asts_view(ss@)),
        Ast::If(c, t, e) => SpecAst::If(
            Box::new(ast_view(*c)),
            Box::new(ast_view(*t)),
            Box::new(ast_view(*e)),
        ),
        Ast::Function(n, t, b) => SpecAst::Function(n@, type_view(t), Box::new(ast_view(*b))),
        Ast::Var(n, x) => SpecAst::Var(n@, Box::new(ast_view(*x))),
        Ast::Assignment(n, x) => SpecAst::Assignment(n@, Box::new(ast_view(*x))),
        Ast::While(c, b) => SpecAst::While(Box::new(ast_view(*c)), Box::new(ast_view(*b))),
    }
}

pub open spec fn asts_view(s: Seq<Ast>) -> Seq<SpecAst>
    decreases s,
{
    if s.len() == 0 {
        Seq::empty()
    } else {
        seq![ast_view(s[0])] + asts_view(s.subrange(1, s.len() as int))
    }
}

pub proof fn lemma_asts_view_len(s: Seq<Ast>)
    ensures
        asts_view(s).len() == s.len(),
        forall|k: int| 0 <= k < s.len() ==> #[trigger] asts_view(s)[k] == ast_view(s[k]),
    decreases s,
{
    if s.len() > 0 {
        lemma_asts_view_len(s.subrange(1, s.len() as int));
    }
}


pub proof fn lemma_asts_view_push(s: Seq<Ast>, x: Ast)
    ensures
        asts_view(s.push(x)) == asts_view(s).push(ast_view(x)),
    decreases s,
{
    let whole = s.push(x);
    if s.len() == 0 {
        assert(whole.subrange(1, whole.len() as int) =~= Seq::<Ast>::empty());
        assert(whole[0] == x);
        assert(asts_view(whole) == seq![ast_view(whole[0])] + asts_view(
            whole.subrange(1, whole.len() as int),
        ));
        assert(asts_view(whole) =~~= asts_view(s).push(ast_view(x)));
    } else {
        let stail = s.subrange(1, s.len() as int);
        assert(whole.subrange(1, whole.len() as int) =~= stail.push(x));
        lemma_asts_view_push(stail, x);
        assert(asts_view(whole) == seq![ast_view(whole[0])] + asts_view(
            whole.subrange(1, whole.len() as int),
        ));
        assert(asts_view(whole.subrange(1, whole.len() as int)) == asts_view(stail).push(
            ast_view(x),
        ));
        assert(whole[0] == s[0]);
        assert(asts_view(s) == seq![ast_view(s[0])] + asts_view(stail));
        assert(asts_view(whole) =~~= asts_view(s).push(ast_view(x)));
    }
}

/// A `Function` node whose signature slot does not hold a function type is
/// malformed; the grammar never builds one.
pub open spec fn spec_signature_params(t: SpecType) -> Seq<(Seq<char>, SpecType)>
    recommends
        t is Function,
{
    match t {
        SpecType::Function(ps, _) => ps,
        _ => Seq::empty(),
    }
}

} // verus!
