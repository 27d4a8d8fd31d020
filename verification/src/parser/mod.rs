//! The grammar of the language, built from the combinator engine. Each rule
//! is a parser value whose meaning is a spec function; `make_full_parser`
//! gives the parser for a whole program.

use vstd::prelude::*;

pub mod combinators;

pub mod expression;

pub mod statement;

use crate::ast::Ast;
use crate::ast::SpecAst;
use crate::ast::ast_view;
use crate::ast::asts_view;
use crate::types::SpecType;
use crate::types::Type;
use crate::types::params_view;
use crate::types::type_view;

verus! {

/// A grammar rule of the language, the key of an `AstParser`.
#[derive(Debug, Clone, Copy, PartialEq, Eq)]
pub enum Rule {
    Number,
    Bool,
    Undefined,
    Null,
    Identifier,
    ArrayLiteral,
    ArrayLookup,
    ArrayLength,
    Call,
    Scalar,
    Atom,
    Unary,
    Product,
    Sum,
    Comparison,
    Expression,
    ExpressionStatement,
    Return,
    If,
    While,
    Var,
    Assignment,
    Block,
    Function,
    Statement,
    Program,
}

/// What each rule accepts and produces.
pub open spec fn spec_rule(rule: Rule, s: Seq<char>, i: int) -> Option<(SpecAst, int)> {
    match rule {
        Rule::Number => expression::spec_number(s, i),
        Rule::Bool => expression::spec_bool(s, i),
        Rule::Undefined => expression::spec_undefined(s, i),
        Rule::Null => expression::spec_null(s, i),
        Rule::Identifier => expression::spec_identifier(s, i),
        Rule::ArrayLiteral => expression::spec_array_literal(s, i),
        Rule::ArrayLookup => expression::spec_array_lookup(s, i),
        Rule::ArrayLength => expression::spec_array_length(s, i),
        Rule::Call => expression::spec_call(s, i),
        Rule::Scalar => expression::spec_scalar(s, i),
        Rule::Atom => expression::spec_atom(s, i),
        Rule::Unary => expression::spec_unary(s, i),
        Rule::Product => expression::spec_product(s, i),
        Rule::Sum => expression::spec_sum(s, i),
        Rule::Comparison => expression::spec_comparison(s, i),
        Rule::Expression => expression::spec_expression(s, i),
        Rule::ExpressionStatement => statement::spec_expression_statement(s, i),
        Rule::Return => statement::spec_return_statement(s, i),
        Rule::If => statement::spec_if_statement(s, i),
        Rule::While => statement::spec_while_statement(s, i),
        Rule::Var => statement::spec_var_statement(s, i),
        Rule::Assignment => statement::spec_assignment_statement(s, i),
        Rule::Block => statement::spec_block_statement(s, i),
        Rule::Function => statement::spec_function_statement(s, i),
        Rule::Statement => statement::spec_statement(s, i),
        Rule::Program => spec_full_parser(s, i),
    }
}

/// A whole program: leading ignored material, then statements until no more
/// match, collected into one block. Residual input is the caller's concern.
pub open spec fn spec_full_parser(s: Seq<char>, i: int) -> Option<(SpecAst, int)> {
    let j = expression::spec_ignored_end(s, i);
    if !(i <= j <= s.len()) {
        Option::None
    } else {
        match statement::spec_statements_rest(s, j, Seq::empty()) {
            Option::Some(m) => Option::Some((SpecAst::Block(m.0), m.1)),
            Option::None => Option::None,
        }
    }
}

/// A complete parse of a source text: the program, provided nothing but
/// ignored material and statements filled the whole input.
pub open spec fn spec_parse_program(s: Seq<char>) -> Option<SpecAst> {
    match spec_full_parser(s, 0) {
        Option::Some(m) => if m.1 == s.len() {
            Option::Some(m.0)
        } else {
            Option::None
        },
        Option::None => Option::None,
    }
}

fn parse_full(input: &str, pos: usize) -> (r: Option<(Ast, usize)>)
    requires
        pos <= input@.len(),
    ensures
        match r {
            Some(m) => spec_full_parser(input@, pos as int) == Some((ast_view(m.0), m.1 as int))
                && pos <= m.1 <= input@.len(),
            None => spec_full_parser(input@, pos as int) is None,
        },
{
    let j = expression::skip_ignored(input, pos);
    let empty: Vec<Ast> = Vec::new();
    proof {
        assert(asts_view(empty@) =~~= Seq::<SpecAst>::empty());
    }
    let (stmts, e) = statement::parse_statements_rest(input, j, empty);
    let ghost sv = asts_view(stmts@);
    let node = Ast::Block(stmts);
    proof {
        assert(ast_view(node) == SpecAst::Block(sv));
    }
    Some((node, e))
}

/// A parser producing one syntax-tree node, keyed by its grammar rule.
pub struct AstParser {
    rule: Rule,
}

impl AstParser {
    pub closed spec fn grammar_rule(&self) -> Rule {
        self.rule
    }

    /// Runs the rule at a position of the input. On success the node and the
    /// residual position come back; on failure nothing was consumed.
    pub fn parse(&self, input: &str, pos: usize) -> (r: Option<(Ast, usize)>)
        requires
            pos <= input@.len(),
        ensures
            match r {
                Some(m) => spec_rule(self.grammar_rule(), input@, pos as int) == Some(
                    (ast_view(m.0), m.1 as int),
                ) && pos <= m.1 <= input@.len(),
                None => spec_rule(self.grammar_rule(), input@, pos as int) is None,
            },
    {
        match self.rule {
            Rule::Number => expression::parse_number(input, pos),
            Rule::Bool => expression::parse_bool(input, pos),
            Rule::Undefined => expression::parse_undefined(input, pos),
            Rule::Null => expression::parse_null(input, pos),
            Rule::Identifier => expression::parse_identifier(input, pos),
            Rule::ArrayLiteral => expression::parse_array_literal(input, pos),
            Rule::ArrayLookup => expression::parse_array_lookup(input, pos),
            Rule::ArrayLength => expression::parse_array_length(input, pos),
            Rule::Call => expression::parse_call(input, pos),
            Rule::Scalar => expression::parse_scalar(input, pos),
            Rule::Atom => expression::parse_atom(input, pos),
            Rule::Unary => expression::parse_unary(input, pos),
            Rule::Product => expression::parse_product(input, pos),
            Rule::Sum => expression::parse_sum(input, pos),
            Rule::Comparison => expression::parse_comparison(input, pos),
            Rule::Expression => expression::parse_expression(input, pos),
            Rule::ExpressionStatement => statement::parse_expression_statement(input, pos),
            Rule::Return => statement::parse_return_statement(input, pos),
            Rule::If => statement::parse_if_statement(input, pos),
            Rule::While => statement::parse_while_statement(input, pos),
            Rule::Var => statement::parse_var_statement(input, pos),
            Rule::Assignment => statement::parse_assignment_statement(input, pos),
            Rule::Block => statement::parse_block_statement(input, pos),
            Rule::Function => statement::parse_function_statement(input, pos),
            Rule::Statement => statement::parse_statement(input, pos),
            Rule::Program => parse_full(input, pos),
        }
    }
}

pub(crate) fn ast_parser_for(rule: Rule) -> (r: AstParser)
    ensures
        r.grammar_rule() == rule,
{
    AstParser { rule }
}

/// The parser for a whole program: ignored material, then statements, as one
/// block.
pub fn make_full_parser() -> (r: AstParser)
    ensures
        r.grammar_rule() == Rule::Program,
{
    ast_parser_for(Rule::Program)
}

/// A parser for a comma-separated expression list; it never fails.
pub struct ArgsParser {}

impl ArgsParser {
    /// Runs the argument-list rule at a position of the input.
    pub fn parse(&self, input: &str, pos: usize) -> (r: (Vec<Ast>, usize))
        requires
            pos <= input@.len(),
        ensures
            expression::spec_args(input@, pos as int) == Some((asts_view(r.0@), r.1 as int)),
            pos <= r.1 <= input@.len(),
    {
        expression::parse_args(input, pos)
    }
}

/// A parser for a comma-separated parameter list with optional annotations;
/// it never fails, and an absent annotation means `Number`.
pub struct ParamsParser {}

impl ParamsParser {
    /// Runs the parameter-list rule at a position of the input.
    pub fn parse(&self, input: &str, pos: usize) -> (r: (Vec<(String, Type)>, usize))
        requires
            pos <= input@.len(),
        ensures
            statement::spec_parameters(input@, pos as int) == Some(
                (params_view(r.0@), r.1 as int),
            ),
            pos <= r.1 <= input@.len(),
    {
        statement::parse_parameters(input, pos)
    }
}

/// A parser for one `name[: type]` parameter.
pub struct ParamParser {}

impl ParamParser {
    /// Runs the parameter rule at a position of the input.
    pub fn parse(&self, input: &str, pos: usize) -> (r: Option<((String, Option<Type>), usize)>)
        requires
            pos <= input@.len(),
        ensures
            match r {
                Some(m) => ({
                    let sm = statement::spec_parameter(input@, pos as int);
                    &&& sm matches Some(sp)
                    &&& sp.0.0 == m.0.0@
                    &&& match m.0.1 {
                        Some(t) => sp.0.1 == Some(type_view(t)),
                        None => sp.0.1 is None,
                    }
                    &&& sp.1 == m.1 as int
                    &&& pos <= m.1 <= input@.len()
                }),
                None => statement::spec_parameter(input@, pos as int) is None,
            },
    {
        statement::parse_parameter(input, pos)
    }
}

/// A parser for an optional `: type` annotation; it never fails.
pub struct AnnotationParser {}

impl AnnotationParser {
    /// Runs the annotation rule at a position of the input.
    pub fn parse(&self, input: &str, pos: usize) -> (r: (Option<Type>, usize))
        requires
            pos <= input@.len(),
        ensures
            ({
                let m = statement::spec_type_annotation(input@, pos as int);
                match r.0 {
                    Some(t) => m.0 == Some(type_view(t)) && m.1 == r.1 as int,
                    None => m.0 is None && m.1 == r.1 as int,
                }
            }),
            pos <= r.1 <= input@.len(),
    {
        statement::parse_type_annotation(input, pos)
    }
}


/// Parsing is deterministic: a rule's outcome is a function of the input
/// text and the position alone, so re-parsing identical text always yields
/// an identical tree and identical residual position.
pub proof fn lemma_parsing_deterministic(
    rule: Rule,
    s: Seq<char>,
    i: int,
    r1: Option<(SpecAst, int)>,
    r2: Option<(SpecAst, int)>,
)
    requires
        r1 == spec_rule(rule, s, i),
        r2 == spec_rule(rule, s, i),
    ensures
        r1 == r2,
{
}

} // verus!
