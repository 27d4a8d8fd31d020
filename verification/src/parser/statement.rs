//! The statement grammar: return, if/else, while, declarations, assignments,
//! blocks and function definitions, tried in that order.

use vstd::prelude::*;

use crate::ast::Ast;
use crate::ast::SpecAst;
use crate::ast::ast_view;
use crate::ast::asts_view;
use crate::ast::lemma_asts_view_push;
use crate::parser::combinators::Pattern;
use crate::parser::combinators::SpecPattern;
use crate::parser::expression::parse_expression;
use crate::parser::expression::parse_lit_token;
use crate::parser::expression::parse_token;
use crate::parser::expression::spec_expression;
use crate::parser::expression::spec_token;
use crate::types::SpecType;
use crate::types::Type;
use crate::types::params_view;
use crate::types::type_view;

verus! {

/// `return expression ;`.
#[verifier::opaque]
pub open spec fn spec_return_statement(s: Seq<char>, i: int) -> Option<(SpecAst, int)>
    decreases s.len() - i, 90int,
    when 0 <= i <= s.len()
{
    match spec_token(s, i, SpecPattern::Literal("return"@)) {
        Option::Some(t1) => {
            let j = t1.1;
            if !(i < j <= s.len()) {
                Option::None
            } else {
                match spec_expression(s, j) {
                    Option::Some(m) => {
                        let e = m.1;
                        if !(j <= e <= s.len()) {
                            Option::None
                        } else {
                            match spec_token(s, e, SpecPattern::Literal(";"@)) {
                                Option::Some(t2) => Option::Some(
                                    (SpecAst::Return(Box::new(m.0)), t2.1),
                                ),
                                Option::None => Option::None,
                            }
                        }
                    },
                    Option::None => Option::None,
                }
            }
        },
        Option::None => Option::None,
    }
}

/// `expression ;`, a bare expression statement.
#[verifier::opaque]
pub open spec fn spec_expression_statement(s: Seq<char>, i: int) -> Option<(SpecAst, int)>
    decreases s.len() - i, 90int,
    when 0 <= i <= s.len()
{
    match spec_expression(s, i) {
        Option::Some(m) => {
            let e = m.1;
            if !(i <= e <= s.len()) {
                Option::None
            } else {
                match spec_token(s, e, SpecPattern::Literal(";"@)) {
                    Option::Some(t1) => Option::Some((m.0, t1.1)),
                    Option::None => Option::None,
                }
            }
        },
        Option::None => Option::None,
    }
}

/// `if ( expression ) statement else statement`: the alternate is mandatory.
#[verifier::opaque]
pub open spec fn spec_if_statement(s: Seq<char>, i: int) -> Option<(SpecAst, int)>
    decreases s.len() - i, 90int,
    when 0 <= i <= s.len()
{
    match spec_token(s, i, SpecPattern::Literal("if"@)) {
        Option::Some(t1) => {
            let j1 = t1.1;
            if !(i < j1 <= s.len()) {
                Option::None
            } else {
                match spec_token(s, j1, SpecPattern::Literal("("@)) {
                    Option::Some(t2) => {
                        let j2 = t2.1;
                        if !(j1 < j2 <= s.len()) {
                            Option::None
                        } else {
                            match spec_expression(s, j2) {
                                Option::Some(c) => {
                                    let e1 = c.1;
                                    if !(j2 <= e1 <= s.len()) {
                                        Option::None
                                    } else {
                                        match spec_token(s, e1, SpecPattern::Literal(")"@)) {
                                            Option::Some(t3) => {
                                                let j3 = t3.1;
                                                if !(e1 < j3 <= s.len()) {
                                                    Option::None
                                                } else {
                                                    spec_if_tail(s, i, j3, c.0)
                                                }
                                            },
                                            Option::None => Option::None,
                                        }
                                    }
                                },
                                Option::None => Option::None,
                            }
                        }
                    },
                    Option::None => Option::None,
                }
            }
        },
        Option::None => Option::None,
    }
}

/// The consequence, `else` and alternative of an `if`, parsed from `j`; `i`
/// is the statement's start, kept only to bound the recursion.
#[verifier::opaque]
pub open spec fn spec_if_tail(s: Seq<char>, i: int, j: int, cond: SpecAst) -> Option<
    (SpecAst, int),
>
    decreases s.len() - j, 105int,
    when 0 <= i < j <= s.len()
{
    match spec_statement(s, j) {
        Option::Some(cons) => {
            let e2 = cons.1;
            if !(j <= e2 <= s.len()) {
                Option::None
            } else {
                match spec_token(s, e2, SpecPattern::Literal("else"@)) {
                    Option::Some(t4) => {
                        let j4 = t4.1;
                        if !(e2 < j4 <= s.len()) {
                            Option::None
                        } else {
                            match spec_statement(s, j4) {
                                Option::Some(alt) => Option::Some(
                                    (
                                        SpecAst::If(
                                            Box::new(cond),
                                            Box::new(cons.0),
                                            Box::new(alt.0),
                                        ),
                                        alt.1,
                                    ),
                                ),
                                Option::None => Option::None,
                            }
                        }
                    },
                    Option::None => Option::None,
                }
            }
        },
        Option::None => Option::None,
    }
}

/// `while ( expression ) statement`.
#[verifier::opaque]
pub open spec fn spec_while_statement(s: Seq<char>, i: int) -> Option<(SpecAst, int)>
    decreases s.len() - i, 90int,
    when 0 <= i <= s.len()
{
    match spec_token(s, i, SpecPattern::Literal("while"@)) {
        Option::Some(t1) => {
            let j1 = t1.1;
            if !(i < j1 <= s.len()) {
                Option::None
            } else {
                match spec_token(s, j1, SpecPattern::Literal("("@)) {
                    Option::Some(t2) => {
                        let j2 = t2.1;
                        if !(j1 < j2 <= s.len()) {
                            Option::None
                        } else {
                            match spec_expression(s, j2) {
                                Option::Some(c) => {
                                    let e1 = c.1;
                                    if !(j2 <= e1 <= s.len()) {
                                        Option::None
                                    } else {
                                        match spec_token(s, e1, SpecPattern::Literal(")"@)) {
                                            Option::Some(t3) => {
                                                let j3 = t3.1;
                                                if !(e1 < j3 <= s.len()) {
                                                    Option::None
                                                } else {
                                                    match spec_statement(s, j3) {
                                                        Option::Some(b) => Option::Some(
                                                            (
                                                                SpecAst::While(
                                                                    Box::new(c.0),
                                                                    Box::new(b.0),
                                                                ),
                                                                b.1,
                                                            ),
                                                        ),
                                                        Option::None => Option::None,
                                                    }
                                                }
                                            },
                                            Option::None => Option::None,
                                        }
                                    }
                                },
                                Option::None => Option::None,
                            }
                        }
                    },
                    Option::None => Option::None,
                }
            }
        },
        Option::None => Option::None,
    }
}

/// `var identifier = expression ;`.
#[verifier::opaque]
pub open spec fn spec_var_statement(s: Seq<char>, i: int) -> Option<(SpecAst, int)>
    decreases s.len() - i, 90int,
    when 0 <= i <= s.len()
{
    match spec_token(s, i, SpecPattern::Literal("var"@)) {
        Option::Some(t1) => {
            let j1 = t1.1;
            if !(i < j1 <= s.len()) {
                Option::None
            } else {
                match spec_token(s, j1, SpecPattern::Identifier) {
                    Option::Some(t2) => {
                        let j2 = t2.1;
                        if !(j1 < j2 <= s.len()) {
                            Option::None
                        } else {
                            match spec_token(s, j2, SpecPattern::Literal("="@)) {
                                Option::Some(t3) => {
                                    let j3 = t3.1;
                                    if !(j2 < j3 <= s.len()) {
                                        Option::None
                                    } else {
                                        match spec_expression(s, j3) {
                                            Option::Some(m) => {
                                                let e = m.1;
                                                if !(j3 <= e <= s.len()) {
                                                    Option::None
                                                } else {
                                                    match spec_token(
                                                        s,
                                                        e,
                                                        SpecPattern::Literal(";"@),
                                                    ) {
                                                        Option::Some(t4) => Option::Some(
                                                            (
                                                                SpecAst::Var(
                                                                    t2.0,
                                                                    Box::new(m.0),
                                                                ),
                                                                t4.1,
                                                            ),
                                                        ),
                                                        Option::None => Option::None,
                                                    }
                                                }
                                            },
                                            Option::None => Option::None,
                                        }
                                    }
                                },
                                Option::None => Option::None,
                            }
                        }
                    },
                    Option::None => Option::None,
                }
            }
        },
        Option::None => Option::None,
    }
}

/// `identifier = expression ;`.
#[verifier::opaque]
pub open spec fn spec_assignment_statement(s: Seq<char>, i: int) -> Option<(SpecAst, int)>
    decreases s.len() - i, 90int,
    when 0 <= i <= s.len()
{
    match spec_token(s, i, SpecPattern::Identifier) {
        Option::Some(t1) => {
            let j1 = t1.1;
            if !(i < j1 <= s.len()) {
                Option::None
            } else {
                match spec_token(s, j1, SpecPattern::Literal("="@)) {
                    Option::Some(t2) => {
                        let j2 = t2.1;
                        if !(j1 < j2 <= s.len()) {
                            Option::None
                        } else {
                            match spec_expression(s, j2) {
                                Option::Some(m) => {
                                    let e = m.1;
                                    if !(j2 <= e <= s.len()) {
                                        Option::None
                                    } else {
                                        match spec_token(s, e, SpecPattern::Literal(";"@)) {
                                            Option::Some(t3) => Option::Some(
                                                (
                                                    SpecAst::Assignment(t1.0, Box::new(m.0)),
                                                    t3.1,
                                                ),
                                            ),
                                            Option::None => Option::None,
                                        }
                                    }
                                },
                                Option::None => Option::None,
                            }
                        }
                    },
                    Option::None => Option::None,
                }
            }
        },
        Option::None => Option::None,
    }
}

/// `{ statement* }`.
#[verifier::opaque]
pub open spec fn spec_block_statement(s: Seq<char>, i: int) -> Option<(SpecAst, int)>
    decreases s.len() - i, 90int,
    when 0 <= i <= s.len()
{
    match spec_token(s, i, SpecPattern::Literal("{"@)) {
        Option::Some(t1) => {
            let j = t1.1;
            if !(i < j <= s.len()) {
                Option::None
            } else {
                match spec_statements_rest(s, j, Seq::empty()) {
                    Option::Some(m) => {
                        let e = m.1;
                        if !(j <= e <= s.len()) {
                            Option::None
                        } else {
                            match spec_token(s, e, SpecPattern::Literal("}"@)) {
                                Option::Some(t2) => Option::Some((SpecAst::Block(m.0), t2.1)),
                                Option::None => Option::None,
                            }
                        }
                    },
                    Option::None => Option::None,
                }
            }
        },
        Option::None => Option::None,
    }
}

/// Zero or more statements collected onto `acc`; never fails. A statement
/// that consumes nothing ends the collection.
#[verifier::opaque]
pub open spec fn spec_statements_rest(s: Seq<char>, i: int, acc: Seq<SpecAst>) -> Option<
    (Seq<SpecAst>, int),
>
    decreases s.len() - i, 110int,
    when 0 <= i <= s.len()
{
    match spec_statement(s, i) {
        Option::Some(m) => if i < m.1 <= s.len() {
            spec_statements_rest(s, m.1, acc.push(m.0))
        } else {
            Option::Some((acc, i))
        },
        Option::None => Option::Some((acc, i)),
    }
}

/// A type name in an annotation: `number`, `boolean` or `void`.
pub open spec fn spec_type_name(s: Seq<char>, i: int) -> Option<(SpecType, int)> {
    match spec_token(s, i, SpecPattern::Literal("number"@)) {
        Option::Some(t) => Option::Some((SpecType::Number, t.1)),
        Option::None => match spec_token(s, i, SpecPattern::Literal("boolean"@)) {
            Option::Some(t) => Option::Some((SpecType::Boolean, t.1)),
            Option::None => match spec_token(s, i, SpecPattern::Literal("void"@)) {
                Option::Some(t) => Option::Some((SpecType::Void, t.1)),
                Option::None => Option::None,
            },
        },
    }
}

/// An optional `: type` annotation; consumes nothing when absent or
/// malformed.
pub open spec fn spec_type_annotation(s: Seq<char>, i: int) -> (Option<SpecType>, int) {
    match spec_token(s, i, SpecPattern::Literal(":"@)) {
        Option::Some(t1) => {
            let j = t1.1;
            if !(i <= j <= s.len()) {
                (Option::None, i)
            } else {
                match spec_type_name(s, j) {
                    Option::Some(m) => (Option::Some(m.0), m.1),
                    Option::None => (Option::None, i),
                }
            }
        },
        Option::None => (Option::None, i),
    }
}

/// One parameter: a name with an optional type annotation.
pub open spec fn spec_parameter(s: Seq<char>, i: int) -> Option<((Seq<char>, Option<SpecType>), int)> {
    match spec_token(s, i, SpecPattern::Identifier) {
        Option::Some(t1) => {
            let j = t1.1;
            if !(i <= j <= s.len()) {
                Option::None
            } else {
                let a = spec_type_annotation(s, j);
                Option::Some(((t1.0, a.0), a.1))
            }
        },
        Option::None => Option::None,
    }
}

/// An absent annotation defaults the parameter's type to `Number`.
pub open spec fn spec_annotation_or_number(t: Option<SpecType>) -> SpecType {
    match t {
        Option::Some(t) => t,
        Option::None => SpecType::Number,
    }
}

/// A comma-separated parameter list, possibly empty; never fails.
#[verifier::opaque]
pub open spec fn spec_parameters(s: Seq<char>, i: int) -> Option<
    (Seq<(Seq<char>, SpecType)>, int),
>
    decreases s.len() - i, 15int,
    when 0 <= i <= s.len()
{
    match spec_parameter(s, i) {
        Option::Some(m) => if i <= m.1 <= s.len() {
            spec_parameters_rest(s, m.1, seq![(m.0.0, spec_annotation_or_number(m.0.1))])
        } else {
            Option::Some((Seq::empty(), i))
        },
        Option::None => Option::Some((Seq::empty(), i)),
    }
}

/// Zero or more `, parameter` tails collected onto `acc`.
#[verifier::opaque]
pub open spec fn spec_parameters_rest(
    s: Seq<char>,
    i: int,
    acc: Seq<(Seq<char>, SpecType)>,
) -> Option<(Seq<(Seq<char>, SpecType)>, int)>
    decreases s.len() - i, 14int,
    when 0 <= i <= s.len()
{
    match spec_token(s, i, SpecPattern::Literal(","@)) {
        Option::Some(t1) => {
            let j = t1.1;
            if !(i < j <= s.len()) {
                Option::Some((acc, i))
            } else {
                match spec_parameter(s, j) {
                    Option::Some(m) => if j <= m.1 <= s.len() {
                        spec_parameters_rest(
                            s,
                            m.1,
                            acc.push((m.0.0, spec_annotation_or_number(m.0.1))),
                        )
                    } else {
                        Option::Some((acc, i))
                    },
                    Option::None => Option::Some((acc, i)),
                }
            }
        },
        Option::None => Option::Some((acc, i)),
    }
}

/// `function identifier ( parameters ) [: type] { statement* }`. The node
/// carries the function's signature as a function type; an unannotated
/// return type defaults to `Number`.
#[verifier::opaque]
pub open spec fn spec_function_statement(s: Seq<char>, i: int) -> Option<(SpecAst, int)>
    decreases s.len() - i, 90int,
    when 0 <= i <= s.len()
{
    match spec_token(s, i, SpecPattern::Literal("function"@)) {
        Option::Some(t1) => {
            let j1 = t1.1;
            if !(i < j1 <= s.len()) {
                Option::None
            } else {
                match spec_token(s, j1, SpecPattern::Identifier) {
                    Option::Some(t2) => {
                        let j2 = t2.1;
                        if !(j1 < j2 <= s.len()) {
                            Option::None
                        } else {
                            match spec_token(s, j2, SpecPattern::Literal("("@)) {
                                Option::Some(t3) => {
                                    let j3 = t3.1;
                                    if !(j2 < j3 <= s.len()) {
                                        Option::None
                                    } else {
                                        match spec_parameters(s, j3) {
                                            Option::Some(ps) => {
                                                let e1 = ps.1;
                                                if !(j3 <= e1 <= s.len()) {
                                                    Option::None
                                                } else {
                                                    spec_function_tail(s, i, e1, t2.0, ps.0)
                                                }
                                            },
                                            Option::None => Option::None,
                                        }
                                    }
                                },
                                Option::None => Option::None,
                            }
                        }
                    },
                    Option::None => Option::None,
                }
            }
        },
        Option::None => Option::None,
    }
}

/// The closing parenthesis, optional return annotation and body of a
/// function definition, parsed from `j`.
#[verifier::opaque]
pub open spec fn spec_function_tail(
    s: Seq<char>,
    i: int,
    j: int,
    name: Seq<char>,
    params: Seq<(Seq<char>, SpecType)>,
) -> Option<(SpecAst, int)>
    decreases s.len() - j, 105int,
    when 0 <= i < j <= s.len()
{
    match spec_token(s, j, SpecPattern::Literal(")"@)) {
        Option::Some(t4) => {
            let j4 = t4.1;
            if !(j < j4 <= s.len()) {
                Option::None
            } else {
                let a = spec_type_annotation(s, j4);
                let j5 = a.1;
                if !(j4 <= j5 <= s.len()) {
                    Option::None
                } else {
                    match spec_block_statement(s, j5) {
                        Option::Some(b) => Option::Some(
                            (
                                SpecAst::Function(
                                    name,
                                    SpecType::Function(
                                        params,
                                        Box::new(spec_annotation_or_number(a.0)),
                                    ),
                                    Box::new(b.0),
                                ),
                                b.1,
                            ),
                        ),
                        Option::None => Option::None,
                    }
                }
            }
        },
        Option::None => Option::None,
    }
}

/// A statement, by ordered choice: return, if, while, var, assignment,
/// block, function definition, bare expression.
#[verifier::opaque]
pub open spec fn spec_statement(s: Seq<char>, i: int) -> Option<(SpecAst, int)>
    decreases s.len() - i, 100int,
    when 0 <= i <= s.len()
{
    match spec_return_statement(s, i) {
        Option::Some(m) => Option::Some(m),
        Option::None => match spec_if_statement(s, i) {
            Option::Some(m) => Option::Some(m),
            Option::None => match spec_while_statement(s, i) {
                Option::Some(m) => Option::Some(m),
                Option::None => match spec_var_statement(s, i) {
                    Option::Some(m) => Option::Some(m),
                    Option::None => match spec_assignment_statement(s, i) {
                        Option::Some(m) => Option::Some(m),
                        Option::None => match spec_block_statement(s, i) {
                            Option::Some(m) => Option::Some(m),
                            Option::None => match spec_function_statement(s, i) {
                                Option::Some(m) => Option::Some(m),
                                Option::None => spec_expression_statement(s, i),
                            },
                        },
                    },
                },
            },
        },
    }
}


// ---------------------------------------------------------------------------
// Running the statement grammar
// ---------------------------------------------------------------------------

#[verifier::rlimit(100)]
#[verifier::spinoff_prover]
pub(crate) fn parse_return_statement(input: &str, pos: usize) -> (r: Option<(Ast, usize)>)
    requires
        pos <= input@.len(),
    ensures
        match r {
            Some(m) => spec_return_statement(input@, pos as int) == Some(
                (ast_view(m.0), m.1 as int),
            ) && pos <= m.1 <= input@.len(),
            None => spec_return_statement(input@, pos as int) is None,
        },
    decreases input@.len() - pos, 90int,
{
    proof {
        reveal(spec_return_statement);
    }
    match parse_lit_token(input, pos, "return") {
        Some((_, j)) => {
            if j > pos {
                match parse_expression(input, j) {
                    Some((e, m)) => {
                        match parse_lit_token(input, m, ";") {
                            Some((_, end)) => {
                                let ghost ev = ast_view(e);
                                let node = Ast::Return(Box::new(e));
                                proof {
                                    assert(ast_view(node) == SpecAst::Return(Box::new(ev)));
                                }
                                Some((node, end))
                            },
                            None => None,
                        }
                    },
                    None => None,
                }
            } else {
                None
            }
        },
        None => None,
    }
}

#[verifier::rlimit(100)]
#[verifier::spinoff_prover]
pub(crate) fn parse_expression_statement(input: &str, pos: usize) -> (r: Option<(Ast, usize)>)
    requires
        pos <= input@.len(),
    ensures
        match r {
            Some(m) => spec_expression_statement(input@, pos as int) == Some(
                (ast_view(m.0), m.1 as int),
            ) && pos <= m.1 <= input@.len(),
            None => spec_expression_statement(input@, pos as int) is None,
        },
    decreases input@.len() - pos, 90int,
{
    proof {
        reveal(spec_expression_statement);
    }
    match parse_expression(input, pos) {
        Some((e, m)) => {
            match parse_lit_token(input, m, ";") {
                Some((_, end)) => Some((e, end)),
                None => None,
            }
        },
        None => None,
    }
}

#[verifier::rlimit(100)]
#[verifier::spinoff_prover]
fn parse_if_tail(input: &str, Ghost(start): Ghost<int>, j: usize, cond: Ast) -> (r: Option<
    (Ast, usize),
>)
    requires
        0 <= start < j <= input@.len(),
    ensures
        match r {
            Some(m) => spec_if_tail(input@, start, j as int, ast_view(cond)) == Some(
                (ast_view(m.0), m.1 as int),
            ) && j <= m.1 <= input@.len(),
            None => spec_if_tail(input@, start, j as int, ast_view(cond)) is None,
        },
    decreases input@.len() - j, 105int,
{
    proof {
        reveal(spec_if_tail);
    }
    let ghost cv = ast_view(cond);
    match parse_statement(input, j) {
        Some((cons, e2)) => {
            match parse_lit_token(input, e2, "else") {
                Some((_, j4)) => {
                    if j4 > e2 {
                        match parse_statement(input, j4) {
                            Some((alt, end)) => {
                                let ghost consv = ast_view(cons);
                                let ghost altv = ast_view(alt);
                                let node = Ast::If(
                                    Box::new(cond),
                                    Box::new(cons),
                                    Box::new(alt),
                                );
                                proof {
                                    assert(ast_view(node) == SpecAst::If(
                                        Box::new(cv),
                                        Box::new(consv),
                                        Box::new(altv),
                                    ));
                                }
                                Some((node, end))
                            },
                            None => None,
                        }
                    } else {
                        None
                    }
                },
                None => None,
            }
        },
        None => None,
    }
}

#[verifier::rlimit(100)]
#[verifier::spinoff_prover]
pub(crate) fn parse_if_statement(input: &str, pos: usize) -> (r: Option<(Ast, usize)>)
    requires
        pos <= input@.len(),
    ensures
        match r {
            Some(m) => spec_if_statement(input@, pos as int) == Some((ast_view(m.0), m.1 as int))
                && pos <= m.1 <= input@.len(),
            None => spec_if_statement(input@, pos as int) is None,
        },
    decreases input@.len() - pos, 90int,
{
    proof {
        reveal(spec_if_statement);
    }
    match parse_lit_token(input, pos, "if") {
        Some((_, j1)) => {
            if j1 > pos {
                match parse_lit_token(input, j1, "(") {
                    Some((_, j2)) => {
                        if j2 > j1 {
                            match parse_expression(input, j2) {
                                Some((cond, e1)) => {
                                    match parse_lit_token(input, e1, ")") {
                                        Some((_, j3)) => {
                                            if j3 > e1 {
                                                parse_if_tail(
                                                    input,
                                                    Ghost(pos as int),
                                                    j3,
                                                    cond,
                                                )
                                            } else {
                                                None
                                            }
                                        },
                                        None => None,
                                    }
                                },
                                None => None,
                            }
                        } else {
                            None
                        }
                    },
                    None => None,
                }
            } else {
                None
            }
        },
        None => None,
    }
}

#[verifier::rlimit(100)]
#[verifier::spinoff_prover]
pub(crate) fn parse_while_statement(input: &str, pos: usize) -> (r: Option<(Ast, usize)>)
    requires
        pos <= input@.len(),
    ensures
        match r {
            Some(m) => spec_while_statement(input@, pos as int) == Some(
                (ast_view(m.0), m.1 as int),
            ) && pos <= m.1 <= input@.len(),
            None => spec_while_statement(input@, pos as int) is None,
        },
    decreases input@.len() - pos, 90int,
{
    proof {
        reveal(spec_while_statement);
    }
    match parse_lit_token(input, pos, "while") {
        Some((_, j1)) => {
            if j1 > pos {
                match parse_lit_token(input, j1, "(") {
                    Some((_, j2)) => {
                        if j2 > j1 {
                            match parse_expression(input, j2) {
                                Some((cond, e1)) => {
                                    match parse_lit_token(input, e1, ")") {
                                        Some((_, j3)) => {
                                            if j3 > e1 {
                                                match parse_statement(input, j3) {
                                                    Some((body, end)) => {
                                                        let ghost cv = ast_view(cond);
                                                        let ghost bv = ast_view(body);
                                                        let node = Ast::While(
                                                            Box::new(cond),
                                                            Box::new(body),
                                                        );
                                                        proof {
                                                            assert(ast_view(node)
                                                                == SpecAst::While(
                                                                Box::new(cv),
                                                                Box::new(bv),
                                                            ));
                                                        }
                                                        Some((node, end))
                                                    },
                                                    None => None,
                                                }
                                            } else {
                                                None
                                            }
                                        },
                                        None => None,
                                    }
                                },
                                None => None,
                            }
                        } else {
                            None
                        }
                    },
                    None => None,
                }
            } else {
                None
            }
        },
        None => None,
    }
}

#[verifier::rlimit(100)]
#[verifier::spinoff_prover]
pub(crate) fn parse_var_statement(input: &str, pos: usize) -> (r: Option<(Ast, usize)>)
    requires
        pos <= input@.len(),
    ensures
        match r {
            Some(m) => spec_var_statement(input@, pos as int) == Some(
                (ast_view(m.0), m.1 as int),
            ) && pos <= m.1 <= input@.len(),
            None => spec_var_statement(input@, pos as int) is None,
        },
    decreases input@.len() - pos, 90int,
{
    proof {
        reveal(spec_var_statement);
    }
    match parse_lit_token(input, pos, "var") {
        Some((_, j1)) => {
            if j1 > pos {
                match parse_token(input, j1, &Pattern::Identifier) {
                    Some((name, j2)) => {
                        if j2 > j1 {
                            match parse_lit_token(input, j2, "=") {
                                Some((_, j3)) => {
                                    if j3 > j2 {
                                        match parse_expression(input, j3) {
                                            Some((e, m)) => {
                                                match parse_lit_token(input, m, ";") {
                                                    Some((_, end)) => {
                                                        let ghost nv = name@;
                                                        let ghost ev = ast_view(e);
                                                        let node = Ast::Var(name, Box::new(e));
                                                        proof {
                                                            assert(ast_view(node) == SpecAst::Var(
                                                                nv,
                                                                Box::new(ev),
                                                            ));
                                                        }
                                                        Some((node, end))
                                                    },
                                                    None => None,
                                                }
                                            },
                                            None => None,
                                        }
                                    } else {
                                        None
                                    }
                                },
                                None => None,
                            }
                        } else {
                            None
                        }
                    },
                    None => None,
                }
            } else {
                None
            }
        },
        None => None,
    }
}

#[verifier::rlimit(100)]
#[verifier::spinoff_prover]
pub(crate) fn parse_assignment_statement(input: &str, pos: usize) -> (r: Option<(Ast, usize)>)
    requires
        pos <= input@.len(),
    ensures
        match r {
            Some(m) => spec_assignment_statement(input@, pos as int) == Some(
                (ast_view(m.0), m.1 as int),
            ) && pos <= m.1 <= input@.len(),
            None => spec_assignment_statement(input@, pos as int) is None,
        },
    decreases input@.len() - pos, 90int,
{
    proof {
        reveal(spec_assignment_statement);
    }
    match parse_token(input, pos, &Pattern::Identifier) {
        Some((name, j1)) => {
            if j1 > pos {
                match parse_lit_token(input, j1, "=") {
                    Some((_, j2)) => {
                        if j2 > j1 {
                            match parse_expression(input, j2) {
                                Some((e, m)) => {
                                    match parse_lit_token(input, m, ";") {
                                        Some((_, end)) => {
                                            let ghost nv = name@;
                                            let ghost ev = ast_view(e);
                                            let node = Ast::Assignment(name, Box::new(e));
                                            proof {
                                                assert(ast_view(node) == SpecAst::Assignment(
                                                    nv,
                                                    Box::new(ev),
                                                ));
                                            }
                                            Some((node, end))
                                        },
                                        None => None,
                                    }
                                },
                                None => None,
                            }
                        } else {
                            None
                        }
                    },
                    None => None,
                }
            } else {
                None
            }
        },
        None => None,
    }
}

#[verifier::rlimit(100)]
#[verifier::spinoff_prover]
pub(crate) fn parse_statements_rest(input: &str, pos: usize, acc: Vec<Ast>) -> (r: (Vec<Ast>, usize))
    requires
        pos <= input@.len(),
    ensures
        spec_statements_rest(input@, pos as int, asts_view(acc@)) == Some(
            (asts_view(r.0@), r.1 as int),
        ),
        pos <= r.1 <= input@.len(),
    decreases input@.len() - pos, 110int,
{
    proof {
        reveal(spec_statements_rest);
    }
    let ghost accv = asts_view(acc@);
    match parse_statement(input, pos) {
        Some((st, j)) => {
            if j > pos {
                let mut acc = acc;
                proof {
                    lemma_asts_view_push(acc@, st);
                }
                acc.push(st);
                parse_statements_rest(input, j, acc)
            } else {
                (acc, pos)
            }
        },
        None => (acc, pos),
    }
}

#[verifier::rlimit(100)]
#[verifier::spinoff_prover]
pub(crate) fn parse_block_statement(input: &str, pos: usize) -> (r: Option<(Ast, usize)>)
    requires
        pos <= input@.len(),
    ensures
        match r {
            Some(m) => spec_block_statement(input@, pos as int) == Some(
                (ast_view(m.0), m.1 as int),
            ) && pos <= m.1 <= input@.len(),
            None => spec_block_statement(input@, pos as int) is None,
        },
    decreases input@.len() - pos, 90int,
{
    proof {
        reveal(spec_block_statement);
    }
    match parse_lit_token(input, pos, "{") {
        Some((_, j)) => {
            if j > pos {
                let empty: Vec<Ast> = Vec::new();
                proof {
                    assert(asts_view(empty@) =~~= Seq::<SpecAst>::empty());
                }
                let (stmts, e) = parse_statements_rest(input, j, empty);
                match parse_lit_token(input, e, "}") {
                    Some((_, end)) => {
                        let ghost sv = asts_view(stmts@);
                        let node = Ast::Block(stmts);
                        proof {
                            assert(ast_view(node) == SpecAst::Block(sv));
                        }
                        Some((node, end))
                    },
                    None => None,
                }
            } else {
                None
            }
        },
        None => None,
    }
}

#[verifier::rlimit(100)]
#[verifier::spinoff_prover]
fn parse_type_name(input: &str, pos: usize) -> (r: Option<(Type, usize)>)
    requires
        pos <= input@.len(),
    ensures
        match r {
            Some(m) => spec_type_name(input@, pos as int) == Some((type_view(m.0), m.1 as int))
                && pos <= m.1 <= input@.len(),
            None => spec_type_name(input@, pos as int) is None,
        },
{
    match parse_lit_token(input, pos, "number") {
        Some((_, j)) => Some((Type::Number, j)),
        None => match parse_lit_token(input, pos, "boolean") {
            Some((_, j)) => Some((Type::Boolean, j)),
            None => match parse_lit_token(input, pos, "void") {
                Some((_, j)) => Some((Type::Void, j)),
                None => None,
            },
        },
    }
}

#[verifier::rlimit(100)]
#[verifier::spinoff_prover]
pub(crate) fn parse_type_annotation(input: &str, pos: usize) -> (r: (Option<Type>, usize))
    requires
        pos <= input@.len(),
    ensures
        ({
            let m = spec_type_annotation(input@, pos as int);
            match r.0 {
                Some(t) => m.0 == Some(type_view(t)) && m.1 == r.1 as int,
                None => m.0 is None && m.1 == r.1 as int,
            }
        }),
        pos <= r.1 <= input@.len(),
{
    match parse_lit_token(input, pos, ":") {
        Some((_, j)) => {
            match parse_type_name(input, j) {
                Some((t, end)) => (Some(t), end),
                None => (None, pos),
            }
        },
        None => (None, pos),
    }
}

#[verifier::rlimit(100)]
#[verifier::spinoff_prover]
pub(crate) fn parse_parameter(input: &str, pos: usize) -> (r: Option<((String, Option<Type>), usize)>)
    requires
        pos <= input@.len(),
    ensures
        match r {
            Some(m) => ({
                let sm = spec_parameter(input@, pos as int);
                &&& sm matches Some(sp)
                &&& sp.0.0 == m.0.0@
                &&& match m.0.1 {
                    Some(t) => sp.0.1 == Some(type_view(t)),
                    None => sp.0.1 is None,
                }
                &&& sp.1 == m.1 as int
                &&& pos <= m.1 <= input@.len()
            }),
            None => spec_parameter(input@, pos as int) is None,
        },
{
    match parse_token(input, pos, &Pattern::Identifier) {
        Some((name, j)) => {
            let (ot, end) = parse_type_annotation(input, j);
            Some(((name, ot), end))
        },
        None => None,
    }
}

#[verifier::rlimit(100)]
#[verifier::spinoff_prover]
fn parse_parameters_rest(input: &str, pos: usize, acc: Vec<(String, Type)>) -> (r: (
    Vec<(String, Type)>,
    usize,
))
    requires
        pos <= input@.len(),
    ensures
        spec_parameters_rest(input@, pos as int, params_view(acc@)) == Some(
            (params_view(r.0@), r.1 as int),
        ),
        pos <= r.1 <= input@.len(),
    decreases input@.len() - pos, 14int,
{
    proof {
        reveal(spec_parameters_rest);
    }
    let ghost accv = params_view(acc@);
    match parse_lit_token(input, pos, ",") {
        Some((_, j)) => {
            if j > pos {
                match parse_parameter(input, j) {
                    Some(((name, ot), end)) => {
                        let t = match ot {
                            Some(t) => t,
                            None => Type::Number,
                        };
                        let mut acc = acc;
                        let ghost pair = (name, t);
                        proof {
                            crate::types::lemma_params_view_append_one(acc@, pair);
                            assert(params_view(acc@) + seq![(pair.0@, type_view(pair.1))]
                                =~~= params_view(acc@).push((pair.0@, type_view(pair.1))));
                        }
                        acc.push((name, t));
                        parse_parameters_rest(input, end, acc)
                    },
                    None => (acc, pos),
                }
            } else {
                (acc, pos)
            }
        },
        None => (acc, pos),
    }
}

#[verifier::rlimit(100)]
#[verifier::spinoff_prover]
pub(crate) fn parse_parameters(input: &str, pos: usize) -> (r: (Vec<(String, Type)>, usize))
    requires
        pos <= input@.len(),
    ensures
        spec_parameters(input@, pos as int) == Some((params_view(r.0@), r.1 as int)),
        pos <= r.1 <= input@.len(),
    decreases input@.len() - pos, 15int,
{
    proof {
        reveal(spec_parameters);
    }
    match parse_parameter(input, pos) {
        Some(((name, ot), j)) => {
            let t = match ot {
                Some(t) => t,
                None => Type::Number,
            };
            let ghost nv = name@;
            let ghost tv = type_view(t);
            let mut acc: Vec<(String, Type)> = Vec::new();
            acc.push((name, t));
            proof {
                assert(acc@.len() == 1);
                assert(acc@.subrange(1, 1) =~= Seq::<(String, Type)>::empty());
                assert(params_view(Seq::<(String, Type)>::empty())
                    == Seq::<(Seq<char>, SpecType)>::empty());
                assert(params_view(acc@) == seq![(acc@[0].0@, type_view(acc@[0].1))]
                    + params_view(acc@.subrange(1, 1)));
                assert(params_view(acc@) =~~= seq![(nv, tv)]);
            }
            parse_parameters_rest(input, j, acc)
        },
        None => {
            let acc: Vec<(String, Type)> = Vec::new();
            proof {
                assert(params_view(acc@) =~~= Seq::<(Seq<char>, SpecType)>::empty());
            }
            (acc, pos)
        },
    }
}

#[verifier::rlimit(100)]
#[verifier::spinoff_prover]
fn parse_function_tail(
    input: &str,
    Ghost(start): Ghost<int>,
    j: usize,
    name: String,
    params: Vec<(String, Type)>,
) -> (r: Option<(Ast, usize)>)
    requires
        0 <= start < j <= input@.len(),
    ensures
        match r {
            Some(m) => spec_function_tail(
                input@,
                start,
                j as int,
                name@,
                params_view(params@),
            ) == Some((ast_view(m.0), m.1 as int)) && j <= m.1 <= input@.len(),
            None => spec_function_tail(input@, start, j as int, name@, params_view(params@))
                is None,
        },
    decreases input@.len() - j, 105int,
{
    proof {
        reveal(spec_function_tail);
    }
    let ghost nv = name@;
    let ghost pv = params_view(params@);
    match parse_lit_token(input, j, ")") {
        Some((_, j4)) => {
            if j4 > j {
                let (annot, j5) = parse_type_annotation(input, j4);
                let rt = match annot {
                    Some(t) => t,
                    None => Type::Number,
                };
                let ghost rtv = type_view(rt);
                match parse_block_statement(input, j5) {
                    Some((body, end)) => {
                        let ghost bv = ast_view(body);
                        let ftype = Type::Function {
                            parameter_types: params,
                            return_type: Box::new(rt),
                        };
                        proof {
                            assert(type_view(ftype) == SpecType::Function(pv, Box::new(rtv)));
                        }
                        let node = Ast::Function(name, ftype, Box::new(body));
                        proof {
                            assert(ast_view(node) == SpecAst::Function(
                                nv,
                                SpecType::Function(pv, Box::new(rtv)),
                                Box::new(bv),
                            ));
                        }
                        Some((node, end))
                    },
                    None => None,
                }
            } else {
                None
            }
        },
        None => None,
    }
}

#[verifier::rlimit(100)]
#[verifier::spinoff_prover]
pub(crate) fn parse_function_statement(input: &str, pos: usize) -> (r: Option<(Ast, usize)>)
    requires
        pos <= input@.len(),
    ensures
        match r {
            Some(m) => spec_function_statement(input@, pos as int) == Some(
                (ast_view(m.0), m.1 as int),
            ) && pos <= m.1 <= input@.len(),
            None => spec_function_statement(input@, pos as int) is None,
        },
    decreases input@.len() - pos, 90int,
{
    proof {
        reveal(spec_function_statement);
    }
    match parse_lit_token(input, pos, "function") {
        Some((_, j1)) => {
            if j1 > pos {
                match parse_token(input, j1, &Pattern::Identifier) {
                    Some((name, j2)) => {
                        if j2 > j1 {
                            match parse_lit_token(input, j2, "(") {
                                Some((_, j3)) => {
                                    if j3 > j2 {
                                        let (params, e1) = parse_parameters(input, j3);
                                        parse_function_tail(
                                            input,
                                            Ghost(pos as int),
                                            e1,
                                            name,
                                            params,
                                        )
                                    } else {
                                        None
                                    }
                                },
                                None => None,
                            }
                        } else {
                            None
                        }
                    },
                    None => None,
                }
            } else {
                None
            }
        },
        None => None,
    }
}

#[verifier::rlimit(100)]
#[verifier::spinoff_prover]
pub(crate) fn parse_statement(input: &str, pos: usize) -> (r: Option<(Ast, usize)>)
    requires
        pos <= input@.len(),
    ensures
        match r {
            Some(m) => spec_statement(input@, pos as int) == Some((ast_view(m.0), m.1 as int))
                && pos <= m.1 <= input@.len(),
            None => spec_statement(input@, pos as int) is None,
        },
    decreases input@.len() - pos, 100int,
{
    proof {
        reveal(spec_statement);
    }
    match parse_return_statement(input, pos) {
        Some(m) => Some(m),
        None => match parse_if_statement(input, pos) {
            Some(m) => Some(m),
            None => match parse_while_statement(input, pos) {
                Some(m) => Some(m),
                None => match parse_var_statement(input, pos) {
                    Some(m) => Some(m),
                    None => match parse_assignment_statement(input, pos) {
                        Some(m) => Some(m),
                        None => match parse_block_statement(input, pos) {
                            Some(m) => Some(m),
                            None => match parse_function_statement(input, pos) {
                                Some(m) => Some(m),
                                None => parse_expression_statement(input, pos),
                            },
                        },
                    },
                },
            },
        },
    }
}


// ---------------------------------------------------------------------------
// The statement-level rule parsers
// ---------------------------------------------------------------------------

/// The parser for a statement.
pub fn make_statement_parser() -> (r: crate::parser::AstParser)
    ensures
        r.grammar_rule() == crate::parser::Rule::Statement,
{
    crate::parser::ast_parser_for(crate::parser::Rule::Statement)
}

/// The parser for `return expression ;`.
pub fn make_return_parser() -> (r: crate::parser::AstParser)
    ensures
        r.grammar_rule() == crate::parser::Rule::Return,
{
    crate::parser::ast_parser_for(crate::parser::Rule::Return)
}

/// The parser for a bare expression statement.
pub fn make_expression_parser() -> (r: crate::parser::AstParser)
    ensures
        r.grammar_rule() == crate::parser::Rule::ExpressionStatement,
{
    crate::parser::ast_parser_for(crate::parser::Rule::ExpressionStatement)
}

/// The parser for `if ( expression ) statement else statement`.
pub fn make_if_parser() -> (r: crate::parser::AstParser)
    ensures
        r.grammar_rule() == crate::parser::Rule::If,
{
    crate::parser::ast_parser_for(crate::parser::Rule::If)
}

/// The parser for `while ( expression ) statement`.
pub fn make_while_parser() -> (r: crate::parser::AstParser)
    ensures
        r.grammar_rule() == crate::parser::Rule::While,
{
    crate::parser::ast_parser_for(crate::parser::Rule::While)
}

/// The parser for `var identifier = expression ;`.
pub fn make_var_parser() -> (r: crate::parser::AstParser)
    ensures
        r.grammar_rule() == crate::parser::Rule::Var,
{
    crate::parser::ast_parser_for(crate::parser::Rule::Var)
}

/// The parser for `identifier = expression ;`.
pub fn make_assignment_parser() -> (r: crate::parser::AstParser)
    ensures
        r.grammar_rule() == crate::parser::Rule::Assignment,
{
    crate::parser::ast_parser_for(crate::parser::Rule::Assignment)
}

/// The parser for `{ statement* }`.
pub fn make_block_parser() -> (r: crate::parser::AstParser)
    ensures
        r.grammar_rule() == crate::parser::Rule::Block,
{
    crate::parser::ast_parser_for(crate::parser::Rule::Block)
}

/// The parser for a function definition.
pub fn make_function_parser() -> (r: crate::parser::AstParser)
    ensures
        r.grammar_rule() == crate::parser::Rule::Function,
{
    crate::parser::ast_parser_for(crate::parser::Rule::Function)
}

/// The parser for a parameter list.
pub fn make_parameters_parser() -> (r: crate::parser::ParamsParser) {
    crate::parser::ParamsParser {  }
}

/// The parser for one parameter.
pub fn make_parameter_parser() -> (r: crate::parser::ParamParser) {
    crate::parser::ParamParser {  }
}

/// The parser for an optional type annotation.
pub fn make_optional_type_annotation_parser() -> (r: crate::parser::AnnotationParser) {
    crate::parser::AnnotationParser {  }
}

} // verus!
