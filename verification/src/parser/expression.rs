//! Token recognizers and the expression grammar, from scalars up to
//! comparison chains. Precedence climbs from comparison over sum, product and
//! unary down to atoms; each level's spec function is the rule's meaning.

use vstd::prelude::*;

use crate::ast::Ast;
use crate::ast::SpecAst;
use crate::ast::ast_view;
use crate::ast::asts_view;
use crate::parser::combinators::Parser;
use crate::parser::combinators::Pattern;
use crate::parser::combinators::SpecPattern;
use crate::parser::combinators::digit_run_end;
use crate::parser::combinators::is_digit_char;
use crate::parser::combinators::match_regex;
use crate::parser::combinators::or;
use crate::parser::combinators::pattern_view;
use crate::parser::combinators::regex;
use crate::parser::combinators::spec_pat_match;
use crate::parser::combinators::zero_or_more;

verus! {

/// The text of one line comment.
pub type Comment = String;

/// A run of whitespace.
pub type Whitespace = String;

// ---------------------------------------------------------------------------
// Ignored material and tokens
// ---------------------------------------------------------------------------

/// Position after all whitespace and line comments starting at `i`: every
/// token consumes this trailing material, so the grammar never reasons about
/// it between tokens.
pub open spec fn spec_ignored_end(s: Seq<char>, i: int) -> int
    decreases s.len() - i,
    when 0 <= i <= s.len()
{
    match spec_pat_match(s, i, SpecPattern::Whitespace) {
        Option::Some(e) => if i < e <= s.len() {
            spec_ignored_end(s, e)
        } else {
            i
        },
        Option::None => match spec_pat_match(s, i, SpecPattern::LineComment) {
            Option::Some(e) => if i < e <= s.len() {
                spec_ignored_end(s, e)
            } else {
                i
            },
            Option::None => i,
        },
    }
}

pub(crate) fn skip_ignored(input: &str, pos: usize) -> (r: usize)
    requires
        pos <= input@.len(),
    ensures
        r == spec_ignored_end(input@, pos as int),
        pos <= r <= input@.len(),
    decreases input@.len() - pos,
{
    match match_regex(input, pos, &Pattern::Whitespace) {
        Some((_, e)) => {
            if e > pos {
                skip_ignored(input, e)
            } else {
                pos
            }
        },
        None => match match_regex(input, pos, &Pattern::LineComment) {
            Some((_, e)) => {
                if e > pos {
                    skip_ignored(input, e)
                } else {
                    pos
                }
            },
            None => pos,
        },
    }
}

/// A token is a lexeme followed by the ignored material: the matched text of
/// the pattern, and the position after the trailing whitespace and comments.
pub open spec fn spec_token(s: Seq<char>, i: int, p: SpecPattern) -> Option<(Seq<char>, int)> {
    match spec_pat_match(s, i, p) {
        Option::Some(e) => if 0 <= i <= e <= s.len() {
            Option::Some((s.subrange(i, e), spec_ignored_end(s, e)))
        } else {
            Option::None
        },
        Option::None => Option::None,
    }
}

pub(crate) fn parse_token(input: &str, pos: usize, pattern: &Pattern) -> (r: Option<(String, usize)>)
    requires
        pos <= input@.len(),
    ensures
        match r {
            Some(m) => {
                &&& spec_token(input@, pos as int, pattern_view(*pattern)) == Some(
                    (m.0@, m.1 as int),
                )
                &&& pos <= m.1 <= input@.len()
            },
            None => spec_token(input@, pos as int, pattern_view(*pattern)) is None,
        },
{
    match match_regex(input, pos, pattern) {
        Some((t, e)) => {
            let j = skip_ignored(input, e);
            Some((t, j))
        },
        None => None,
    }
}

fn lit_pattern(text: &str) -> (r: Pattern)
    ensures
        pattern_view(r) == SpecPattern::Literal(text@),
{
    Pattern::Literal(text.to_owned())
}

pub(crate) fn parse_lit_token(input: &str, pos: usize, text: &str) -> (r: Option<(String, usize)>)
    requires
        pos <= input@.len(),
    ensures
        match r {
            Some(m) => {
                &&& spec_token(input@, pos as int, SpecPattern::Literal(text@)) == Some(
                    (m.0@, m.1 as int),
                )
                &&& pos <= m.1 <= input@.len()
            },
            None => spec_token(input@, pos as int, SpecPattern::Literal(text@)) is None,
        },
{
    let p = lit_pattern(text);
    parse_token(input, pos, &p)
}

/// A token parser: an anchored pattern whose match is followed by the ignored
/// material.
pub struct TokenParser {
    pattern: Pattern,
}

impl TokenParser {
    pub closed spec fn pat(&self) -> Pattern {
        self.pattern
    }

    /// Runs the token parser at a position of the input.
    pub fn parse(&self, input: &str, pos: usize) -> (r: Option<(String, usize)>)
        requires
            pos <= input@.len(),
        ensures
            match r {
                Some(m) => {
                    &&& spec_token(input@, pos as int, pattern_view(self.pat())) == Some(
                        (m.0@, m.1 as int),
                    )
                    &&& pos <= m.1 <= input@.len()
                },
                None => spec_token(input@, pos as int, pattern_view(self.pat())) is None,
            },
    {
        parse_token(input, pos, &self.pattern)
    }
}

/// A parser for one token: the pattern's match followed by ignored material.
pub fn make_token_parser(pattern: Pattern) -> (r: TokenParser)
    ensures
        r.pat() == pattern,
{
    TokenParser { pattern }
}

/// The parser for the ignored material itself: whitespace and line comments,
/// interleaved in any order.
pub fn make_ignored_parser() -> (r: Parser)
    ensures
        r matches Parser::ZeroOrMore(inner) && *inner matches Parser::Or(w, c) && *w
            == Parser::Regex(Pattern::Whitespace) && *c == Parser::Regex(Pattern::LineComment),
{
    zero_or_more(or(regex(Pattern::Whitespace), regex(Pattern::LineComment)))
}

// ---------------------------------------------------------------------------
// Number literals
// ---------------------------------------------------------------------------

/// The value of a run of decimal digits.
pub open spec fn digits_val(t: Seq<char>) -> int
    decreases t,
{
    if t.len() == 0 {
        0
    } else {
        digits_val(t.drop_last()) * 10 + (t.last() as u32 - 48)
    }
}

pub open spec fn all_digits(t: Seq<char>) -> bool {
    forall|k: int| 0 <= k < t.len() ==> is_digit_char(#[trigger] t[k])
}

proof fn lemma_digits_val_nonneg(t: Seq<char>)
    requires
        all_digits(t),
    ensures
        digits_val(t) >= 0,
    decreases t,
{
    if t.len() > 0 {
        assert(all_digits(t.drop_last()));
        lemma_digits_val_nonneg(t.drop_last());
    }
}

proof fn lemma_digits_val_prefix_le(t: Seq<char>, k: int)
    requires
        all_digits(t),
        0 <= k <= t.len(),
    ensures
        digits_val(t.subrange(0, k)) <= digits_val(t),
    decreases t.len() - k,
{
    if k < t.len() {
        let a = t.subrange(0, k);
        let b = t.subrange(0, k + 1);
        assert(b.drop_last() =~= a);
        assert(all_digits(a));
        lemma_digits_val_nonneg(a);
        assert(digits_val(b) == digits_val(a) * 10 + (b.last() as u32 - 48));
        assert(digits_val(a) * 10 >= digits_val(a));
        lemma_digits_val_prefix_le(t, k + 1);
    } else {
        assert(t.subrange(0, k) =~= t);
    }
}

/// All characters inside the longest digit run are digits.
proof fn lemma_digit_run_chars(s: Seq<char>, i: int)
    requires
        0 <= i <= s.len(),
    ensures
        forall|k: int| i <= k < digit_run_end(s, i) ==> is_digit_char(#[trigger] s[k]),
        i <= digit_run_end(s, i) <= s.len(),
    decreases s.len() - i,
{
    if i < s.len() && is_digit_char(s[i]) {
        lemma_digit_run_chars(s, i + 1);
    }
}

fn digits_to_i32(t: &str) -> (r: Option<i32>)
    requires
        all_digits(t@),
    ensures
        match r {
            Some(v) => digits_val(t@) == v as int,
            None => digits_val(t@) > 2147483647,
        },
{
    let len = t.unicode_len();
    let mut acc: u32 = 0;
    let mut k: usize = 0;
    proof {
        assert(t@.subrange(0, 0) =~= Seq::<char>::empty());
    }
    while k < len
        invariant
            0 <= k <= len,
            len == t@.len(),
            all_digits(t@),
            acc <= 2147483647,
            acc as int == digits_val(t@.subrange(0, k as int)),
        decreases len - k,
    {
        let c: char = t.get_char(k);
        let d: u32 = (c as u32) - 48;
        proof {
            assert(is_digit_char(t@[k as int]));
            assert(t@.subrange(0, k + 1).drop_last() =~= t@.subrange(0, k as int));
        }
        if acc > 214748364 || (acc == 214748364 && d > 7) {
            proof {
                assert(digits_val(t@.subrange(0, k + 1)) > 2147483647);
                lemma_digits_val_prefix_le(t@, k + 1);
            }
            return None;
        }
        acc = acc * 10 + d;
        k = k + 1;
    }
    proof {
        assert(t@.subrange(0, len as int) =~= t@);
    }
    Some(acc as i32)
}

/// A number literal: a digit token whose value fits a 32-bit signed integer.
pub open spec fn spec_number(s: Seq<char>, i: int) -> Option<(SpecAst, int)> {
    match spec_token(s, i, SpecPattern::Digits) {
        Option::Some(m) => if digits_val(m.0) <= 2147483647 {
            Option::Some((SpecAst::Number(digits_val(m.0)), m.1))
        } else {
            Option::None
        },
        Option::None => Option::None,
    }
}

pub(crate) fn parse_number(input: &str, pos: usize) -> (r: Option<(Ast, usize)>)
    requires
        pos <= input@.len(),
    ensures
        match r {
            Some(m) => spec_number(input@, pos as int) == Some((ast_view(m.0), m.1 as int)) && pos
                <= m.1 <= input@.len(),
            None => spec_number(input@, pos as int) is None,
        },
{
    match parse_token(input, pos, &Pattern::Digits) {
        Some((t, j)) => {
            proof {
                lemma_digit_run_chars(input@, pos as int);
                assert(all_digits(t@));
            }
            match digits_to_i32(t.as_str()) {
                Some(v) => Some((Ast::Number(v), j)),
                None => None,
            }
        },
        None => None,
    }
}

// ---------------------------------------------------------------------------
// The other scalars
// ---------------------------------------------------------------------------

/// A boolean literal: the `true` token or the `false` token.
pub open spec fn spec_bool(s: Seq<char>, i: int) -> Option<(SpecAst, int)> {
    match spec_token(s, i, SpecPattern::Literal("true"@)) {
        Option::Some(m) => Option::Some((SpecAst::Bool(true), m.1)),
        Option::None => match spec_token(s, i, SpecPattern::Literal("false"@)) {
            Option::Some(m) => Option::Some((SpecAst::Bool(false), m.1)),
            Option::None => Option::None,
        },
    }
}

pub(crate) fn parse_bool(input: &str, pos: usize) -> (r: Option<(Ast, usize)>)
    requires
        pos <= input@.len(),
    ensures
        match r {
            Some(m) => spec_bool(input@, pos as int) == Some((ast_view(m.0), m.1 as int)) && pos
                <= m.1 <= input@.len(),
            None => spec_bool(input@, pos as int) is None,
        },
{
    match parse_lit_token(input, pos, "true") {
        Some((_, j)) => Some((Ast::Bool(true), j)),
        None => match parse_lit_token(input, pos, "false") {
            Some((_, j)) => Some((Ast::Bool(false), j)),
            None => None,
        },
    }
}

/// The `undefined` literal.
pub open spec fn spec_undefined(s: Seq<char>, i: int) -> Option<(SpecAst, int)> {
    match spec_token(s, i, SpecPattern::Literal("undefined"@)) {
        Option::Some(m) => Option::Some((SpecAst::Undefined, m.1)),
        Option::None => Option::None,
    }
}

pub(crate) fn parse_undefined(input: &str, pos: usize) -> (r: Option<(Ast, usize)>)
    requires
        pos <= input@.len(),
    ensures
        match r {
            Some(m) => spec_undefined(input@, pos as int) == Some((ast_view(m.0), m.1 as int))
                && pos <= m.1 <= input@.len(),
            None => spec_undefined(input@, pos as int) is None,
        },
{
    match parse_lit_token(input, pos, "undefined") {
        Some((_, j)) => Some((Ast::Undefined, j)),
        None => None,
    }
}

/// The `null` literal.
pub open spec fn spec_null(s: Seq<char>, i: int) -> Option<(SpecAst, int)> {
    match spec_token(s, i, SpecPattern::Literal("null"@)) {
        Option::Some(m) => Option::Some((SpecAst::Null, m.1)),
        Option::None => Option::None,
    }
}

pub(crate) fn parse_null(input: &str, pos: usize) -> (r: Option<(Ast, usize)>)
    requires
        pos <= input@.len(),
    ensures
        match r {
            Some(m) => spec_null(input@, pos as int) == Some((ast_view(m.0), m.1 as int)) && pos
                <= m.1 <= input@.len(),
            None => spec_null(input@, pos as int) is None,
        },
{
    match parse_lit_token(input, pos, "null") {
        Some((_, j)) => Some((Ast::Null, j)),
        None => None,
    }
}

/// An identifier.
pub open spec fn spec_identifier(s: Seq<char>, i: int) -> Option<(SpecAst, int)> {
    match spec_token(s, i, SpecPattern::Identifier) {
        Option::Some(m) => Option::Some((SpecAst::Identifier(m.0), m.1)),
        Option::None => Option::None,
    }
}

pub(crate) fn parse_identifier(input: &str, pos: usize) -> (r: Option<(Ast, usize)>)
    requires
        pos <= input@.len(),
    ensures
        match r {
            Some(m) => spec_identifier(input@, pos as int) == Some((ast_view(m.0), m.1 as int))
                && pos <= m.1 <= input@.len(),
            None => spec_identifier(input@, pos as int) is None,
        },
{
    match parse_token(input, pos, &Pattern::Identifier) {
        Some((t, j)) => Some((Ast::Identifier(t), j)),
        None => None,
    }
}

/// A scalar: `null`, `undefined`, a boolean, an identifier or a number, tried
/// in that order.
pub open spec fn spec_scalar(s: Seq<char>, i: int) -> Option<(SpecAst, int)> {
    match spec_null(s, i) {
        Option::Some(m) => Option::Some(m),
        Option::None => match spec_undefined(s, i) {
            Option::Some(m) => Option::Some(m),
            Option::None => match spec_bool(s, i) {
                Option::Some(m) => Option::Some(m),
                Option::None => match spec_identifier(s, i) {
                    Option::Some(m) => Option::Some(m),
                    Option::None => spec_number(s, i),
                },
            },
        },
    }
}

pub(crate) fn parse_scalar(input: &str, pos: usize) -> (r: Option<(Ast, usize)>)
    requires
        pos <= input@.len(),
    ensures
        match r {
            Some(m) => spec_scalar(input@, pos as int) == Some((ast_view(m.0), m.1 as int)) && pos
                <= m.1 <= input@.len(),
            None => spec_scalar(input@, pos as int) is None,
        },
{
    match parse_null(input, pos) {
        Some(m) => Some(m),
        None => match parse_undefined(input, pos) {
            Some(m) => Some(m),
            None => match parse_bool(input, pos) {
                Some(m) => Some(m),
                None => match parse_identifier(input, pos) {
                    Some(m) => Some(m),
                    None => parse_number(input, pos),
                },
            },
        },
    }
}


// ---------------------------------------------------------------------------
// Composite expressions
// ---------------------------------------------------------------------------

/// `length ( expression )`.
#[verifier::opaque]
pub open spec fn spec_array_length(s: Seq<char>, i: int) -> Option<(SpecAst, int)>
    decreases s.len() - i, 5int,
    when 0 <= i <= s.len()
{
    match spec_token(s, i, SpecPattern::Literal("length"@)) {
        Option::Some(t1) => {
            let j = t1.1;
            if !(i < j <= s.len()) {
                Option::None
            } else {
                match spec_token(s, j, SpecPattern::Literal("("@)) {
                    Option::Some(t2) => {
                        let k = t2.1;
                        if !(j < k <= s.len()) {
                            Option::None
                        } else {
                            match spec_expression(s, k) {
                                Option::Some(m) => {
                                    let e = m.1;
                                    if !(k <= e <= s.len()) {
                                        Option::None
                                    } else {
                                        match spec_token(s, e, SpecPattern::Literal(")"@)) {
                                            Option::Some(t3) => Option::Some(
                                                (SpecAst::ArrayLength(Box::new(m.0)), t3.1),
                                            ),
                                            Option::None => Option::None,
                                        }
                                    }
                                },
                                Option::None => Option::None,
                            }
                        }
                    },
                    Option::None => Option::None,
                }
            }
        },
        Option::None => Option::None,
    }
}

/// `[ args ]`.
#[verifier::opaque]
pub open spec fn spec_array_literal(s: Seq<char>, i: int) -> Option<(SpecAst, int)>
    decreases s.len() - i, 5int,
    when 0 <= i <= s.len()
{
    match spec_token(s, i, SpecPattern::Literal("["@)) {
        Option::Some(t1) => {
            let j = t1.1;
            if !(i < j <= s.len()) {
                Option::None
            } else {
                match spec_args(s, j) {
                    Option::Some(m) => {
                        let e = m.1;
                        if !(j <= e <= s.len()) {
                            Option::None
                        } else {
                            match spec_token(s, e, SpecPattern::Literal("]"@)) {
                                Option::Some(t2) => Option::Some(
                                    (SpecAst::ArrayLiteral(m.0), t2.1),
                                ),
                                Option::None => Option::None,
                            }
                        }
                    },
                    Option::None => Option::None,
                }
            }
        },
        Option::None => Option::None,
    }
}

/// `identifier [ expression ]`.
#[verifier::opaque]
pub open spec fn spec_array_lookup(s: Seq<char>, i: int) -> Option<(SpecAst, int)>
    decreases s.len() - i, 5int,
    when 0 <= i <= s.len()
{
    match spec_token(s, i, SpecPattern::Identifier) {
        Option::Some(t1) => {
            let j = t1.1;
            if !(i < j <= s.len()) {
                Option::None
            } else {
                match spec_token(s, j, SpecPattern::Literal("["@)) {
                    Option::Some(t2) => {
                        let k = t2.1;
                        if !(j < k <= s.len()) {
                            Option::None
                        } else {
                            match spec_expression(s, k) {
                                Option::Some(m) => {
                                    let e = m.1;
                                    if !(k <= e <= s.len()) {
                                        Option::None
                                    } else {
                                        match spec_token(s, e, SpecPattern::Literal("]"@)) {
                                            Option::Some(t3) => Option::Some(
                                                (
                                                    SpecAst::ArrayLookup(
                                                        Box::new(SpecAst::Identifier(t1.0)),
                                                        Box::new(m.0),
                                                    ),
                                                    t3.1,
                                                ),
                                            ),
                                            Option::None => Option::None,
                                        }
                                    }
                                },
                                Option::None => Option::None,
                            }
                        }
                    },
                    Option::None => Option::None,
                }
            }
        },
        Option::None => Option::None,
    }
}

/// `identifier ( args )`.
#[verifier::opaque]
pub open spec fn spec_call(s: Seq<char>, i: int) -> Option<(SpecAst, int)>
    decreases s.len() - i, 5int,
    when 0 <= i <= s.len()
{
    match spec_token(s, i, SpecPattern::Identifier) {
        Option::Some(t1) => {
            let j = t1.1;
            if !(i < j <= s.len()) {
                Option::None
            } else {
                match spec_token(s, j, SpecPattern::Literal("("@)) {
                    Option::Some(t2) => {
                        let k = t2.1;
                        if !(j < k <= s.len()) {
                            Option::None
                        } else {
                            match spec_args(s, k) {
                                Option::Some(m) => {
                                    let e = m.1;
                                    if !(k <= e <= s.len()) {
                                        Option::None
                                    } else {
                                        match spec_token(s, e, SpecPattern::Literal(")"@)) {
                                            Option::Some(t3) => Option::Some(
                                                (SpecAst::Call(t1.0, m.0), t3.1),
                                            ),
                                            Option::None => Option::None,
                                        }
                                    }
                                },
                                Option::None => Option::None,
                            }
                        }
                    },
                    Option::None => Option::None,
                }
            }
        },
        Option::None => Option::None,
    }
}

/// An atom, by ordered choice: array length, array literal, array lookup,
/// call, scalar, and a parenthesized expression last. Earlier alternatives
/// shadow later ones, which is what gives `f()` to the call rule and not to
/// the identifier rule.
#[verifier::opaque]
pub open spec fn spec_atom(s: Seq<char>, i: int) -> Option<(SpecAst, int)>
    decreases s.len() - i, 10int,
    when 0 <= i <= s.len()
{
    match spec_array_length(s, i) {
        Option::Some(m) => Option::Some(m),
        Option::None => match spec_array_literal(s, i) {
            Option::Some(m) => Option::Some(m),
            Option::None => match spec_array_lookup(s, i) {
                Option::Some(m) => Option::Some(m),
                Option::None => match spec_call(s, i) {
                    Option::Some(m) => Option::Some(m),
                    Option::None => match spec_scalar(s, i) {
                        Option::Some(m) => Option::Some(m),
                        Option::None => spec_paren_expression(s, i),
                    },
                },
            },
        },
    }
}

/// `( expression )`.
#[verifier::opaque]
pub open spec fn spec_paren_expression(s: Seq<char>, i: int) -> Option<(SpecAst, int)>
    decreases s.len() - i, 5int,
    when 0 <= i <= s.len()
{
    match spec_token(s, i, SpecPattern::Literal("("@)) {
        Option::Some(t1) => {
            let j = t1.1;
            if !(i < j <= s.len()) {
                Option::None
            } else {
                match spec_expression(s, j) {
                    Option::Some(m) => {
                        let e = m.1;
                        if !(j <= e <= s.len()) {
                            Option::None
                        } else {
                            match spec_token(s, e, SpecPattern::Literal(")"@)) {
                                Option::Some(t2) => Option::Some((m.0, t2.1)),
                                Option::None => Option::None,
                            }
                        }
                    },
                    Option::None => Option::None,
                }
            }
        },
        Option::None => Option::None,
    }
}

/// An optional `!` before an atom.
#[verifier::opaque]
pub open spec fn spec_unary(s: Seq<char>, i: int) -> Option<(SpecAst, int)>
    decreases s.len() - i, 20int,
    when 0 <= i <= s.len()
{
    match spec_token(s, i, SpecPattern::Literal("!"@)) {
        Option::Some(t1) => {
            let j = t1.1;
            if !(i < j <= s.len()) {
                Option::None
            } else {
                match spec_atom(s, j) {
                    Option::Some(m) => Option::Some((SpecAst::Not(Box::new(m.0)), m.1)),
                    Option::None => Option::None,
                }
            }
        },
        Option::None => spec_atom(s, i),
    }
}

/// Zero or more `* unary` or `/ unary` tails, folded to the left onto `acc`
/// in encounter order: this is what makes products left-associative.
#[verifier::opaque]
pub open spec fn spec_product_rest(s: Seq<char>, i: int, acc: SpecAst) -> Option<(SpecAst, int)>
    decreases s.len() - i, 25int,
    when 0 <= i <= s.len()
{
    match spec_token(s, i, SpecPattern::Literal("*"@)) {
        Option::Some(t1) => {
            let j = t1.1;
            if !(i < j <= s.len()) {
                Option::Some((acc, i))
            } else {
                match spec_unary(s, j) {
                    Option::Some(m) => if j <= m.1 <= s.len() {
                        spec_product_rest(
                            s,
                            m.1,
                            SpecAst::Multiplication(Box::new(acc), Box::new(m.0)),
                        )
                    } else {
                        Option::Some((acc, i))
                    },
                    Option::None => Option::Some((acc, i)),
                }
            }
        },
        Option::None => match spec_token(s, i, SpecPattern::Literal("/"@)) {
            Option::Some(t1) => {
                let j = t1.1;
                if !(i < j <= s.len()) {
                    Option::Some((acc, i))
                } else {
                    match spec_unary(s, j) {
                        Option::Some(m) => if j <= m.1 <= s.len() {
                            spec_product_rest(
                                s,
                                m.1,
                                SpecAst::Division(Box::new(acc), Box::new(m.0)),
                            )
                        } else {
                            Option::Some((acc, i))
                        },
                        Option::None => Option::Some((acc, i)),
                    }
                }
            },
            Option::None => Option::Some((acc, i)),
        },
    }
}

/// `unary ((* | /) unary)*`, left-associative.
#[verifier::opaque]
pub open spec fn spec_product(s: Seq<char>, i: int) -> Option<(SpecAst, int)>
    decreases s.len() - i, 30int,
    when 0 <= i <= s.len()
{
    match spec_unary(s, i) {
        Option::Some(m) => if i <= m.1 <= s.len() {
            spec_product_rest(s, m.1, m.0)
        } else {
            Option::None
        },
        Option::None => Option::None,
    }
}

/// Zero or more `+ product` or `- product` tails, folded to the left.
#[verifier::opaque]
pub open spec fn spec_sum_rest(s: Seq<char>, i: int, acc: SpecAst) -> Option<(SpecAst, int)>
    decreases s.len() - i, 35int,
    when 0 <= i <= s.len()
{
    match spec_token(s, i, SpecPattern::Literal("+"@)) {
        Option::Some(t1) => {
            let j = t1.1;
            if !(i < j <= s.len()) {
                Option::Some((acc, i))
            } else {
                match spec_product(s, j) {
                    Option::Some(m) => if j <= m.1 <= s.len() {
                        spec_sum_rest(s, m.1, SpecAst::Addition(Box::new(acc), Box::new(m.0)))
                    } else {
                        Option::Some((acc, i))
                    },
                    Option::None => Option::Some((acc, i)),
                }
            }
        },
        Option::None => match spec_token(s, i, SpecPattern::Literal("-"@)) {
            Option::Some(t1) => {
                let j = t1.1;
                if !(i < j <= s.len()) {
                    Option::Some((acc, i))
                } else {
                    match spec_product(s, j) {
                        Option::Some(m) => if j <= m.1 <= s.len() {
                            spec_sum_rest(
                                s,
                                m.1,
                                SpecAst::Subtraction(Box::new(acc), Box::new(m.0)),
                            )
                        } else {
                            Option::Some((acc, i))
                        },
                        Option::None => Option::Some((acc, i)),
                    }
                }
            },
            Option::None => Option::Some((acc, i)),
        },
    }
}

/// `product ((+ | -) product)*`, left-associative.
#[verifier::opaque]
pub open spec fn spec_sum(s: Seq<char>, i: int) -> Option<(SpecAst, int)>
    decreases s.len() - i, 40int,
    when 0 <= i <= s.len()
{
    match spec_product(s, i) {
        Option::Some(m) => if i <= m.1 <= s.len() {
            spec_sum_rest(s, m.1, m.0)
        } else {
            Option::None
        },
        Option::None => Option::None,
    }
}

/// Zero or more `== sum` or `!= sum` tails, folded to the left.
#[verifier::opaque]
pub open spec fn spec_comparison_rest(s: Seq<char>, i: int, acc: SpecAst) -> Option<
    (SpecAst, int),
>
    decreases s.len() - i, 45int,
    when 0 <= i <= s.len()
{
    match spec_token(s, i, SpecPattern::Literal("=="@)) {
        Option::Some(t1) => {
            let j = t1.1;
            if !(i < j <= s.len()) {
                Option::Some((acc, i))
            } else {
                match spec_sum(s, j) {
                    Option::Some(m) => if j <= m.1 <= s.len() {
                        spec_comparison_rest(
                            s,
                            m.1,
                            SpecAst::Equal(Box::new(acc), Box::new(m.0)),
                        )
                    } else {
                        Option::Some((acc, i))
                    },
                    Option::None => Option::Some((acc, i)),
                }
            }
        },
        Option::None => match spec_token(s, i, SpecPattern::Literal("!="@)) {
            Option::Some(t1) => {
                let j = t1.1;
                if !(i < j <= s.len()) {
                    Option::Some((acc, i))
                } else {
                    match spec_sum(s, j) {
                        Option::Some(m) => if j <= m.1 <= s.len() {
                            spec_comparison_rest(
                                s,
                                m.1,
                                SpecAst::NotEqual(Box::new(acc), Box::new(m.0)),
                            )
                        } else {
                            Option::Some((acc, i))
                        },
                        Option::None => Option::Some((acc, i)),
                    }
                }
            },
            Option::None => Option::Some((acc, i)),
        },
    }
}

/// `sum ((== | !=) sum)*`, left-associative.
#[verifier::opaque]
pub open spec fn spec_comparison(s: Seq<char>, i: int) -> Option<(SpecAst, int)>
    decreases s.len() - i, 50int,
    when 0 <= i <= s.len()
{
    match spec_sum(s, i) {
        Option::Some(m) => if i <= m.1 <= s.len() {
            spec_comparison_rest(s, m.1, m.0)
        } else {
            Option::None
        },
        Option::None => Option::None,
    }
}

/// A full expression: the lowest-precedence level, a comparison chain.
#[verifier::opaque]
pub open spec fn spec_expression(s: Seq<char>, i: int) -> Option<(SpecAst, int)>
    decreases s.len() - i, 60int,
    when 0 <= i <= s.len()
{
    spec_comparison(s, i)
}

/// A comma-separated list of expressions, possibly empty; never fails.
#[verifier::opaque]
pub open spec fn spec_args(s: Seq<char>, i: int) -> Option<(Seq<SpecAst>, int)>
    decreases s.len() - i, 70int,
    when 0 <= i <= s.len()
{
    match spec_expression(s, i) {
        Option::Some(m) => if i <= m.1 <= s.len() {
            spec_args_rest(s, m.1, seq![m.0])
        } else {
            Option::Some((Seq::empty(), i))
        },
        Option::None => Option::Some((Seq::empty(), i)),
    }
}

/// Zero or more `, expression` tails collected onto `acc`. A comma not
/// followed by an expression is left unconsumed.
#[verifier::opaque]
pub open spec fn spec_args_rest(s: Seq<char>, i: int, acc: Seq<SpecAst>) -> Option<
    (Seq<SpecAst>, int),
>
    decreases s.len() - i, 65int,
    when 0 <= i <= s.len()
{
    match spec_token(s, i, SpecPattern::Literal(","@)) {
        Option::Some(t1) => {
            let j = t1.1;
            if !(i < j <= s.len()) {
                Option::Some((acc, i))
            } else {
                match spec_expression(s, j) {
                    Option::Some(m) => if j <= m.1 <= s.len() {
                        spec_args_rest(s, m.1, acc.push(m.0))
                    } else {
                        Option::Some((acc, i))
                    },
                    Option::None => Option::Some((acc, i)),
                }
            }
        },
        Option::None => Option::Some((acc, i)),
    }
}


// ---------------------------------------------------------------------------
// Running the expression grammar
// ---------------------------------------------------------------------------

#[verifier::rlimit(100)]
#[verifier::spinoff_prover]
pub(crate) fn parse_array_length(input: &str, pos: usize) -> (r: Option<(Ast, usize)>)
    requires
        pos <= input@.len(),
    ensures
        match r {
            Some(m) => spec_array_length(input@, pos as int) == Some((ast_view(m.0), m.1 as int))
                && pos <= m.1 <= input@.len(),
            None => spec_array_length(input@, pos as int) is None,
        },
    decreases input@.len() - pos, 5int,
{
    proof {
        reveal(spec_array_length);
    }
    match parse_lit_token(input, pos, "length") {
        Some((_, j)) => {
            if j > pos {
                match parse_lit_token(input, j, "(") {
                    Some((_, k)) => {
                        if k > j {
                            match parse_expression(input, k) {
                                Some((e, m)) => {
                                    match parse_lit_token(input, m, ")") {
                                        Some((_, end)) => {
                                            let ghost ev = ast_view(e);
                                            let node = Ast::ArrayLength(Box::new(e));
                                            proof {
                                                assert(ast_view(node) == SpecAst::ArrayLength(
                                                    Box::new(ev),
                                                ));
                                            }
                                            Some((node, end))
                                        },
                                        None => None,
                                    }
                                },
                                None => None,
                            }
                        } else {
                            None
                        }
                    },
                    None => None,
                }
            } else {
                None
            }
        },
        None => None,
    }
}

#[verifier::rlimit(100)]
#[verifier::spinoff_prover]
pub(crate) fn parse_array_literal(input: &str, pos: usize) -> (r: Option<(Ast, usize)>)
    requires
        pos <= input@.len(),
    ensures
        match r {
            Some(m) => spec_array_literal(input@, pos as int) == Some(
                (ast_view(m.0), m.1 as int),
            ) && pos <= m.1 <= input@.len(),
            None => spec_array_literal(input@, pos as int) is None,
        },
    decreases input@.len() - pos, 5int,
{
    proof {
        reveal(spec_array_literal);
    }
    match parse_lit_token(input, pos, "[") {
        Some((_, j)) => {
            if j > pos {
                let (elements, e) = parse_args(input, j);
                match parse_lit_token(input, e, "]") {
                    Some((_, end)) => {
                        let ghost ev = asts_view(elements@);
                        let node = Ast::ArrayLiteral(elements);
                        proof {
                            assert(ast_view(node) == SpecAst::ArrayLiteral(ev));
                        }
                        Some((node, end))
                    },
                    None => None,
                }
            } else {
                None
            }
        },
        None => None,
    }
}

#[verifier::rlimit(100)]
#[verifier::spinoff_prover]
pub(crate) fn parse_array_lookup(input: &str, pos: usize) -> (r: Option<(Ast, usize)>)
    requires
        pos <= input@.len(),
    ensures
        match r {
            Some(m) => spec_array_lookup(input@, pos as int) == Some((ast_view(m.0), m.1 as int))
                && pos <= m.1 <= input@.len(),
            None => spec_array_lookup(input@, pos as int) is None,
        },
    decreases input@.len() - pos, 5int,
{
    proof {
        reveal(spec_array_lookup);
    }
    match parse_token(input, pos, &Pattern::Identifier) {
        Some((name, j)) => {
            if j > pos {
                match parse_lit_token(input, j, "[") {
                    Some((_, k)) => {
                        if k > j {
                            match parse_expression(input, k) {
                                Some((ix, m)) => {
                                    match parse_lit_token(input, m, "]") {
                                        Some((_, end)) => {
                                            let ghost nv = name@;
                                            let ghost xv = ast_view(ix);
                                            let ident = Ast::Identifier(name);
                                            proof {
                                                assert(ast_view(ident) == SpecAst::Identifier(
                                                    nv,
                                                ));
                                            }
                                            let node = Ast::ArrayLookup(
                                                Box::new(ident),
                                                Box::new(ix),
                                            );
                                            proof {
                                                assert(ast_view(node) == SpecAst::ArrayLookup(
                                                    Box::new(SpecAst::Identifier(nv)),
                                                    Box::new(xv),
                                                ));
                                            }
                                            Some((node, end))
                                        },
                                        None => None,
                                    }
                                },
                                None => None,
                            }
                        } else {
                            None
                        }
                    },
                    None => None,
                }
            } else {
                None
            }
        },
        None => None,
    }
}

#[verifier::rlimit(100)]
#[verifier::spinoff_prover]
pub(crate) fn parse_call(input: &str, pos: usize) -> (r: Option<(Ast, usize)>)
    requires
        pos <= input@.len(),
    ensures
        match r {
            Some(m) => spec_call(input@, pos as int) == Some((ast_view(m.0), m.1 as int)) && pos
                <= m.1 <= input@.len(),
            None => spec_call(input@, pos as int) is None,
        },
    decreases input@.len() - pos, 5int,
{
    proof {
        reveal(spec_call);
    }
    match parse_token(input, pos, &Pattern::Identifier) {
        Some((name, j)) => {
            if j > pos {
                match parse_lit_token(input, j, "(") {
                    Some((_, k)) => {
                        if k > j {
                            let (arguments, e) = parse_args(input, k);
                            match parse_lit_token(input, e, ")") {
                                Some((_, end)) => {
                                    let ghost nv = name@;
                                    let ghost av = asts_view(arguments@);
                                    let node = Ast::Call(name, arguments);
                                    proof {
                                        assert(ast_view(node) == SpecAst::Call(nv, av));
                                    }
                                    Some((node, end))
                                },
                                None => None,
                            }
                        } else {
                            None
                        }
                    },
                    None => None,
                }
            } else {
                None
            }
        },
        None => None,
    }
}

#[verifier::rlimit(100)]
#[verifier::spinoff_prover]
fn parse_paren_expression(input: &str, pos: usize) -> (r: Option<(Ast, usize)>)
    requires
        pos <= input@.len(),
    ensures
        match r {
            Some(m) => spec_paren_expression(input@, pos as int) == Some(
                (ast_view(m.0), m.1 as int),
            ) && pos <= m.1 <= input@.len(),
            None => spec_paren_expression(input@, pos as int) is None,
        },
    decreases input@.len() - pos, 5int,
{
    proof {
        reveal(spec_paren_expression);
    }
    match parse_lit_token(input, pos, "(") {
        Some((_, j)) => {
            if j > pos {
                match parse_expression(input, j) {
                    Some((e, m)) => {
                        match parse_lit_token(input, m, ")") {
                            Some((_, end)) => Some((e, end)),
                            None => None,
                        }
                    },
                    None => None,
                }
            } else {
                None
            }
        },
        None => None,
    }
}

#[verifier::rlimit(100)]
#[verifier::spinoff_prover]
pub(crate) fn parse_atom(input: &str, pos: usize) -> (r: Option<(Ast, usize)>)
    requires
        pos <= input@.len(),
    ensures
        match r {
            Some(m) => spec_atom(input@, pos as int) == Some((ast_view(m.0), m.1 as int)) && pos
                <= m.1 <= input@.len(),
            None => spec_atom(input@, pos as int) is None,
        },
    decreases input@.len() - pos, 10int,
{
    proof {
        reveal(spec_atom);
    }
    match parse_array_length(input, pos) {
        Some(m) => Some(m),
        None => match parse_array_literal(input, pos) {
            Some(m) => Some(m),
            None => match parse_array_lookup(input, pos) {
                Some(m) => Some(m),
                None => match parse_call(input, pos) {
                    Some(m) => Some(m),
                    None => match parse_scalar(input, pos) {
                        Some(m) => Some(m),
                        None => parse_paren_expression(input, pos),
                    },
                },
            },
        },
    }
}

#[verifier::rlimit(100)]
#[verifier::spinoff_prover]
pub(crate) fn parse_unary(input: &str, pos: usize) -> (r: Option<(Ast, usize)>)
    requires
        pos <= input@.len(),
    ensures
        match r {
            Some(m) => spec_unary(input@, pos as int) == Some((ast_view(m.0), m.1 as int)) && pos
                <= m.1 <= input@.len(),
            None => spec_unary(input@, pos as int) is None,
        },
    decreases input@.len() - pos, 20int,
{
    proof {
        reveal(spec_unary);
    }
    match parse_lit_token(input, pos, "!") {
        Some((_, j)) => {
            if j > pos {
                match parse_atom(input, j) {
                    Some((a, e)) => {
                        let ghost av = ast_view(a);
                        let node = Ast::Not(Box::new(a));
                        proof {
                            assert(ast_view(node) == SpecAst::Not(Box::new(av)));
                        }
                        Some((node, e))
                    },
                    None => None,
                }
            } else {
                None
            }
        },
        None => parse_atom(input, pos),
    }
}

#[verifier::rlimit(100)]
#[verifier::spinoff_prover]
fn parse_product_rest(input: &str, pos: usize, acc: Ast) -> (r: (Ast, usize))
    requires
        pos <= input@.len(),
    ensures
        spec_product_rest(input@, pos as int, ast_view(acc)) == Some(
            (ast_view(r.0), r.1 as int),
        ),
        pos <= r.1 <= input@.len(),
    decreases input@.len() - pos, 25int,
{
    proof {
        reveal(spec_product_rest);
    }
    let ghost accv = ast_view(acc);
    match parse_lit_token(input, pos, "*") {
        Some((_, j)) => {
            if j > pos {
                match parse_unary(input, j) {
                    Some((t, k)) => {
                        let ghost tv = ast_view(t);
                        let node = Ast::Multiplication(Box::new(acc), Box::new(t));
                        proof {
                            assert(ast_view(node) == SpecAst::Multiplication(
                                Box::new(accv),
                                Box::new(tv),
                            ));
                        }
                        parse_product_rest(input, k, node)
                    },
                    None => (acc, pos),
                }
            } else {
                (acc, pos)
            }
        },
        None => match parse_lit_token(input, pos, "/") {
            Some((_, j)) => {
                if j > pos {
                    match parse_unary(input, j) {
                        Some((t, k)) => {
                            let ghost tv = ast_view(t);
                            let node = Ast::Division(Box::new(acc), Box::new(t));
                            proof {
                                assert(ast_view(node) == SpecAst::Division(
                                    Box::new(accv),
                                    Box::new(tv),
                                ));
                            }
                            parse_product_rest(input, k, node)
                        },
                        None => (acc, pos),
                    }
                } else {
                    (acc, pos)
                }
            },
            None => (acc, pos),
        },
    }
}

#[verifier::rlimit(100)]
#[verifier::spinoff_prover]
pub(crate) fn parse_product(input: &str, pos: usize) -> (r: Option<(Ast, usize)>)
    requires
        pos <= input@.len(),
    ensures
        match r {
            Some(m) => spec_product(input@, pos as int) == Some((ast_view(m.0), m.1 as int))
                && pos <= m.1 <= input@.len(),
            None => spec_product(input@, pos as int) is None,
        },
    decreases input@.len() - pos, 30int,
{
    proof {
        reveal(spec_product);
    }
    match parse_unary(input, pos) {
        Some((first, j)) => Some(parse_product_rest(input, j, first)),
        None => None,
    }
}

#[verifier::rlimit(100)]
#[verifier::spinoff_prover]
fn parse_sum_rest(input: &str, pos: usize, acc: Ast) -> (r: (Ast, usize))
    requires
        pos <= input@.len(),
    ensures
        spec_sum_rest(input@, pos as int, ast_view(acc)) == Some((ast_view(r.0), r.1 as int)),
        pos <= r.1 <= input@.len(),
    decreases input@.len() - pos, 35int,
{
    proof {
        reveal(spec_sum_rest);
    }
    let ghost accv = ast_view(acc);
    match parse_lit_token(input, pos, "+") {
        Some((_, j)) => {
            if j > pos {
                match parse_product(input, j) {
                    Some((t, k)) => {
                        let ghost tv = ast_view(t);
                        let node = Ast::Addition(Box::new(acc), Box::new(t));
                        proof {
                            assert(ast_view(node) == SpecAst::Addition(
                                Box::new(accv),
                                Box::new(tv),
                            ));
                        }
                        parse_sum_rest(input, k, node)
                    },
                    None => (acc, pos),
                }
            } else {
                (acc, pos)
            }
        },
        None => match parse_lit_token(input, pos, "-") {
            Some((_, j)) => {
                if j > pos {
                    match parse_product(input, j) {
                        Some((t, k)) => {
                            let ghost tv = ast_view(t);
                            let node = Ast::Subtraction(Box::new(acc), Box::new(t));
                            proof {
                                assert(ast_view(node) == SpecAst::Subtraction(
                                    Box::new(accv),
                                    Box::new(tv),
                                ));
                            }
                            parse_sum_rest(input, k, node)
                        },
                        None => (acc, pos),
                    }
                } else {
                    (acc, pos)
                }
            },
            None => (acc, pos),
        },
    }
}

#[verifier::rlimit(100)]
#[verifier::spinoff_prover]
pub(crate) fn parse_sum(input: &str, pos: usize) -> (r: Option<(Ast, usize)>)
    requires
        pos <= input@.len(),
    ensures
        match r {
            Some(m) => spec_sum(input@, pos as int) == Some((ast_view(m.0), m.1 as int)) && pos
                <= m.1 <= input@.len(),
            None => spec_sum(input@, pos as int) is None,
        },
    decreases input@.len() - pos, 40int,
{
    proof {
        reveal(spec_sum);
    }
    match parse_product(input, pos) {
        Some((first, j)) => Some(parse_sum_rest(input, j, first)),
        None => None,
    }
}

#[verifier::rlimit(100)]
#[verifier::spinoff_prover]
fn parse_comparison_rest(input: &str, pos: usize, acc: Ast) -> (r: (Ast, usize))
    requires
        pos <= input@.len(),
    ensures
        spec_comparison_rest(input@, pos as int, ast_view(acc)) == Some(
            (ast_view(r.0), r.1 as int),
        ),
        pos <= r.1 <= input@.len(),
    decreases input@.len() - pos, 45int,
{
    proof {
        reveal(spec_comparison_rest);
    }
    let ghost accv = ast_view(acc);
    match parse_lit_token(input, pos, "==") {
        Some((_, j)) => {
            if j > pos {
                match parse_sum(input, j) {
                    Some((t, k)) => {
                        let ghost tv = ast_view(t);
                        let node = Ast::Equal(Box::new(acc), Box::new(t));
                        proof {
                            assert(ast_view(node) == SpecAst::Equal(Box::new(accv), Box::new(tv)));
                        }
                        parse_comparison_rest(input, k, node)
                    },
                    None => (acc, pos),
                }
            } else {
                (acc, pos)
            }
        },
        None => match parse_lit_token(input, pos, "!=") {
            Some((_, j)) => {
                if j > pos {
                    match parse_sum(input, j) {
                        Some((t, k)) => {
                            let ghost tv = ast_view(t);
                            let node = Ast::NotEqual(Box::new(acc), Box::new(t));
                            proof {
                                assert(ast_view(node) == SpecAst::NotEqual(
                                    Box::new(accv),
                                    Box::new(tv),
                                ));
                            }
                            parse_comparison_rest(input, k, node)
                        },
                        None => (acc, pos),
                    }
                } else {
                    (acc, pos)
                }
            },
            None => (acc, pos),
        },
    }
}

#[verifier::rlimit(100)]
#[verifier::spinoff_prover]
pub(crate) fn parse_comparison(input: &str, pos: usize) -> (r: Option<(Ast, usize)>)
    requires
        pos <= input@.len(),
    ensures
        match r {
            Some(m) => spec_comparison(input@, pos as int) == Some((ast_view(m.0), m.1 as int))
                && pos <= m.1 <= input@.len(),
            None => spec_comparison(input@, pos as int) is None,
        },
    decreases input@.len() - pos, 50int,
{
    proof {
        reveal(spec_comparison);
    }
    match parse_sum(input, pos) {
        Some((first, j)) => Some(parse_comparison_rest(input, j, first)),
        None => None,
    }
}

#[verifier::rlimit(100)]
#[verifier::spinoff_prover]
pub(crate) fn parse_expression(input: &str, pos: usize) -> (r: Option<(Ast, usize)>)
    requires
        pos <= input@.len(),
    ensures
        match r {
            Some(m) => spec_expression(input@, pos as int) == Some((ast_view(m.0), m.1 as int))
                && pos <= m.1 <= input@.len(),
            None => spec_expression(input@, pos as int) is None,
        },
    decreases input@.len() - pos, 60int,
{
    proof {
        reveal(spec_expression);
    }
    parse_comparison(input, pos)
}

#[verifier::rlimit(100)]
#[verifier::spinoff_prover]
pub(crate) fn parse_args(input: &str, pos: usize) -> (r: (Vec<Ast>, usize))
    requires
        pos <= input@.len(),
    ensures
        spec_args(input@, pos as int) == Some((asts_view(r.0@), r.1 as int)),
        pos <= r.1 <= input@.len(),
    decreases input@.len() - pos, 70int,
{
    proof {
        reveal(spec_args);
    }
    match parse_expression(input, pos) {
        Some((first, j)) => {
            let mut acc: Vec<Ast> = Vec::new();
            let ghost fv = ast_view(first);
            acc.push(first);
            proof {
                assert(acc@.len() == 1 && acc@[0] == first);
                assert(acc@.subrange(1, 1) =~= Seq::<Ast>::empty());
                assert(asts_view(Seq::<Ast>::empty()) == Seq::<SpecAst>::empty());
                assert(asts_view(acc@) == seq![ast_view(acc@[0])] + asts_view(
                    acc@.subrange(1, 1),
                ));
                assert(asts_view(acc@) =~~= seq![fv]);
            }
            parse_args_rest(input, j, acc)
        },
        None => {
            let acc: Vec<Ast> = Vec::new();
            proof {
                assert(asts_view(acc@) =~~= Seq::<SpecAst>::empty());
            }
            (acc, pos)
        },
    }
}

#[verifier::rlimit(100)]
#[verifier::spinoff_prover]
fn parse_args_rest(input: &str, pos: usize, acc: Vec<Ast>) -> (r: (Vec<Ast>, usize))
    requires
        pos <= input@.len(),
    ensures
        spec_args_rest(input@, pos as int, asts_view(acc@)) == Some(
            (asts_view(r.0@), r.1 as int),
        ),
        pos <= r.1 <= input@.len(),
    decreases input@.len() - pos, 65int,
{
    proof {
        reveal(spec_args_rest);
    }
    let ghost accv = asts_view(acc@);
    match parse_lit_token(input, pos, ",") {
        Some((_, j)) => {
            if j > pos {
                match parse_expression(input, j) {
                    Some((e, k)) => {
                        let mut acc = acc;
                        let ghost ev = ast_view(e);
                        proof {
                            crate::ast::lemma_asts_view_push(acc@, e);
                        }
                        acc.push(e);
                        parse_args_rest(input, k, acc)
                    },
                    None => (acc, pos),
                }
            } else {
                (acc, pos)
            }
        },
        None => (acc, pos),
    }
}


// ---------------------------------------------------------------------------
// The expression-level rule parsers
// ---------------------------------------------------------------------------

/// The parser for a full expression.
pub fn make_expression_parser() -> (r: crate::parser::AstParser)
    ensures
        r.grammar_rule() == crate::parser::Rule::Expression,
{
    crate::parser::ast_parser_for(crate::parser::Rule::Expression)
}

/// The parser for a number literal.
pub fn make_number_parser() -> (r: crate::parser::AstParser)
    ensures
        r.grammar_rule() == crate::parser::Rule::Number,
{
    crate::parser::ast_parser_for(crate::parser::Rule::Number)
}

/// The parser for a boolean literal.
pub fn make_bool_parser() -> (r: crate::parser::AstParser)
    ensures
        r.grammar_rule() == crate::parser::Rule::Bool,
{
    crate::parser::ast_parser_for(crate::parser::Rule::Bool)
}

/// The parser for the `undefined` literal.
pub fn make_undefined_parser_() -> (r: crate::parser::AstParser)
    ensures
        r.grammar_rule() == crate::parser::Rule::Undefined,
{
    crate::parser::ast_parser_for(crate::parser::Rule::Undefined)
}

/// The parser for the `null` literal.
pub fn make_null_parser_() -> (r: crate::parser::AstParser)
    ensures
        r.grammar_rule() == crate::parser::Rule::Null,
{
    crate::parser::ast_parser_for(crate::parser::Rule::Null)
}

/// The parser for an identifier.
pub fn make_identifier_parser() -> (r: crate::parser::AstParser)
    ensures
        r.grammar_rule() == crate::parser::Rule::Identifier,
{
    crate::parser::ast_parser_for(crate::parser::Rule::Identifier)
}

/// The parser for `[ args ]`.
pub fn make_array_literal_parser() -> (r: crate::parser::AstParser)
    ensures
        r.grammar_rule() == crate::parser::Rule::ArrayLiteral,
{
    crate::parser::ast_parser_for(crate::parser::Rule::ArrayLiteral)
}

/// The parser for `identifier [ expression ]`.
pub fn make_array_lookup_parser() -> (r: crate::parser::AstParser)
    ensures
        r.grammar_rule() == crate::parser::Rule::ArrayLookup,
{
    crate::parser::ast_parser_for(crate::parser::Rule::ArrayLookup)
}

/// The parser for `length ( expression )`.
pub fn make_array_length_parser() -> (r: crate::parser::AstParser)
    ensures
        r.grammar_rule() == crate::parser::Rule::ArrayLength,
{
    crate::parser::ast_parser_for(crate::parser::Rule::ArrayLength)
}

/// The parser for `identifier ( args )`.
pub fn make_call_parser() -> (r: crate::parser::AstParser)
    ensures
        r.grammar_rule() == crate::parser::Rule::Call,
{
    crate::parser::ast_parser_for(crate::parser::Rule::Call)
}

/// The parser for a scalar.
pub fn make_scalar_parser() -> (r: crate::parser::AstParser)
    ensures
        r.grammar_rule() == crate::parser::Rule::Scalar,
{
    crate::parser::ast_parser_for(crate::parser::Rule::Scalar)
}

/// The parser for an atom.
pub fn make_atom_parser() -> (r: crate::parser::AstParser)
    ensures
        r.grammar_rule() == crate::parser::Rule::Atom,
{
    crate::parser::ast_parser_for(crate::parser::Rule::Atom)
}

/// The parser for an optionally negated atom.
pub fn make_unary_parser() -> (r: crate::parser::AstParser)
    ensures
        r.grammar_rule() == crate::parser::Rule::Unary,
{
    crate::parser::ast_parser_for(crate::parser::Rule::Unary)
}

/// The parser for a product chain.
pub fn make_product_parser() -> (r: crate::parser::AstParser)
    ensures
        r.grammar_rule() == crate::parser::Rule::Product,
{
    crate::parser::ast_parser_for(crate::parser::Rule::Product)
}

/// The parser for a sum chain.
pub fn make_sum_parser() -> (r: crate::parser::AstParser)
    ensures
        r.grammar_rule() == crate::parser::Rule::Sum,
{
    crate::parser::ast_parser_for(crate::parser::Rule::Sum)
}

/// The parser for a comparison chain.
pub fn make_comparison_parser() -> (r: crate::parser::AstParser)
    ensures
        r.grammar_rule() == crate::parser::Rule::Comparison,
{
    crate::parser::ast_parser_for(crate::parser::Rule::Comparison)
}

/// The parser for a comma-separated argument list.
pub fn make_args_parser() -> (r: crate::parser::ArgsParser) {
    crate::parser::ArgsParser {  }
}

} // verus!
