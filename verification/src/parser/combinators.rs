//! Parsing-combinator engine: anchored text patterns and the parser-building
//! primitives (constant, error, or, and, maybe, zero-or-more) over them.
//!
//! A parser is a pure function of a cursor, represented as the full input text
//! together with a character position. On success it yields a value and the
//! position of the residual input; on failure it consumes nothing.

use vstd::prelude::*;

verus! {

// ---------------------------------------------------------------------------
// Anchored patterns
// ---------------------------------------------------------------------------

/// A fixed pattern, always anchored at the cursor position, matching the
/// longest possible prefix.
#[derive(Debug, PartialEq, Eq)]
pub enum Pattern {
    /// Matches exactly this text.
    Literal(String),
    /// Matches one or more decimal digits.
    Digits,
    /// Matches a letter or underscore followed by letters, digits, underscores.
    Identifier,
    /// Matches one or more blank, newline, carriage-return or tab characters.
    Whitespace,
    /// Matches `//` followed by everything up to (excluding) the next newline.
    LineComment,
}

/// The mathematical form of a pattern.
pub enum SpecPattern {
    Literal(Seq<char>),
    Digits,
    Identifier,
    Whitespace,
    LineComment,
}

pub open spec fn pattern_view(p: Pattern) -> SpecPattern {
    match p {
        Pattern::Literal(s) => SpecPattern::Literal(s@),
        Pattern::Digits => SpecPattern::Digits,
        Pattern::Identifier => SpecPattern::Identifier,
        Pattern::Whitespace => SpecPattern::Whitespace,
        Pattern::LineComment => SpecPattern::LineComment,
    }
}

pub open spec fn is_digit_char(c: char) -> bool {
    48 <= c as u32 <= 57
}

pub open spec fn is_ident_start_char(c: char) -> bool {
    (65 <= c as u32 <= 90) || (97 <= c as u32 <= 122) || c as u32 == 95
}

pub open spec fn is_ident_char(c: char) -> bool {
    is_ident_start_char(c) || is_digit_char(c)
}

pub open spec fn is_space_char(c: char) -> bool {
    c as u32 == 32 || c as u32 == 10 || c as u32 == 13 || c as u32 == 9
}

pub open spec fn is_comment_char(c: char) -> bool {
    c as u32 != 10
}

/// End of the longest run of digit characters starting at `i`.
pub open spec fn digit_run_end(s: Seq<char>, i: int) -> int
    decreases s.len() - i,
    when 0 <= i <= s.len()
{
    if i < s.len() && is_digit_char(s[i]) {
        digit_run_end(s, i + 1)
    } else {
        i
    }
}

/// End of the longest run of identifier characters starting at `i`.
pub open spec fn ident_run_end(s: Seq<char>, i: int) -> int
    decreases s.len() - i,
    when 0 <= i <= s.len()
{
    if i < s.len() && is_ident_char(s[i]) {
        ident_run_end(s, i + 1)
    } else {
        i
    }
}

/// End of the longest run of whitespace characters starting at `i`.
pub open spec fn space_run_end(s: Seq<char>, i: int) -> int
    decreases s.len() - i,
    when 0 <= i <= s.len()
{
    if i < s.len() && is_space_char(s[i]) {
        space_run_end(s, i + 1)
    } else {
        i
    }
}

/// End of the longest run of non-newline characters starting at `i`.
pub open spec fn comment_run_end(s: Seq<char>, i: int) -> int
    decreases s.len() - i,
    when 0 <= i <= s.len()
{
    if i < s.len() && is_comment_char(s[i]) {
        comment_run_end(s, i + 1)
    } else {
        i
    }
}

/// What a pattern matches at position `i` of `s`: the end position of the
/// matched prefix, or `None` when the pattern does not match there.
pub open spec fn spec_pat_match(s: Seq<char>, i: int, p: SpecPattern) -> Option<int> {
    if !(0 <= i <= s.len()) {
        None
    } else {
        match p {
            SpecPattern::Literal(t) => if i + t.len() <= s.len() && s.subrange(i, i + t.len())
                == t {
                Some(i + t.len())
            } else {
                None
            },
            SpecPattern::Digits => if digit_run_end(s, i) > i {
                Some(digit_run_end(s, i))
            } else {
                None
            },
            SpecPattern::Identifier => if i < s.len() && is_ident_start_char(s[i]) {
                Some(ident_run_end(s, i + 1))
            } else {
                None
            },
            SpecPattern::Whitespace => if space_run_end(s, i) > i {
                Some(space_run_end(s, i))
            } else {
                None
            },
            SpecPattern::LineComment => if i + 2 <= s.len() && s[i] == '/' && s[i + 1] == '/' {
                Some(comment_run_end(s, i + 2))
            } else {
                None
            },
        }
    }
}

fn digit_run(input: &str, i: usize) -> (r: usize)
    requires
        i <= input@.len(),
    ensures
        r == digit_run_end(input@, i as int),
        i <= r <= input@.len(),
    decreases input@.len() - i,
{
    if i < input.unicode_len() {
        let c: char = input.get_char(i);
        let u: u32 = c as u32;
        if 48 <= u && u <= 57 {
            return digit_run(input, i + 1);
        }
    }
    i
}

fn ident_run(input: &str, i: usize) -> (r: usize)
    requires
        i <= input@.len(),
    ensures
        r == ident_run_end(input@, i as int),
        i <= r <= input@.len(),
    decreases input@.len() - i,
{
    if i < input.unicode_len() {
        let c: char = input.get_char(i);
        let u: u32 = c as u32;
        if (65 <= u && u <= 90) || (97 <= u && u <= 122) || u == 95 || (48 <= u && u <= 57) {
            return ident_run(input, i + 1);
        }
    }
    i
}

fn space_run(input: &str, i: usize) -> (r: usize)
    requires
        i <= input@.len(),
    ensures
        r == space_run_end(input@, i as int),
        i <= r <= input@.len(),
    decreases input@.len() - i,
{
    if i < input.unicode_len() {
        let c: char = input.get_char(i);
        let u: u32 = c as u32;
        if u == 32 || u == 10 || u == 13 || u == 9 {
            return space_run(input, i + 1);
        }
    }
    i
}

fn comment_run(input: &str, i: usize) -> (r: usize)
    requires
        i <= input@.len(),
    ensures
        r == comment_run_end(input@, i as int),
        i <= r <= input@.len(),
    decreases input@.len() - i,
{
    if i < input.unicode_len() {
        let c: char = input.get_char(i);
        let u: u32 = c as u32;
        if u != 10 {
            return comment_run(input, i + 1);
        }
    }
    i
}

/// Whether `input` continues with every character of `lit` from index `j` on,
/// starting at `pos + j`.
fn literal_matches_from(input: &str, pos: usize, lit: &str, j: usize) -> (b: bool)
    requires
        pos + lit@.len() <= input@.len(),
        input@.len() <= usize::MAX,
        j <= lit@.len(),
    ensures
        b == (forall|k: int| j <= k < lit@.len() ==> input@[pos + k] == lit@[k]),
    decreases lit@.len() - j,
{
    if j < lit.unicode_len() {
        let a: char = input.get_char(pos + j);
        let b: char = lit.get_char(j);
        if a == b {
            literal_matches_from(input, pos, lit, j + 1)
        } else {
            false
        }
    } else {
        true
    }
}

/// Matches an anchored pattern at a position of the input. On success returns
/// the matched text and the position right after it; on failure, nothing.
pub fn match_regex(input: &str, pos: usize, pattern: &Pattern) -> (r: Option<(String, usize)>)
    requires
        pos <= input@.len(),
    ensures
        match r {
            Some(m) => {
                &&& spec_pat_match(input@, pos as int, pattern_view(*pattern)) == Some(
                    m.1 as int,
                )
                &&& pos <= m.1 <= input@.len()
                &&& m.0@ == input@.subrange(pos as int, m.1 as int)
            },
            None => spec_pat_match(input@, pos as int, pattern_view(*pattern)) is None,
        },
{
    let len = input.unicode_len();
    match pattern {
        Pattern::Literal(t) => {
            let tlen = t.as_str().unicode_len();
            if tlen <= len - pos {
                if literal_matches_from(input, pos, t.as_str(), 0) {
                    let end = pos + tlen;
                    proof {
                        assert(input@.subrange(pos as int, end as int) =~= t@);
                    }
                    Some((input.substring_char(pos, end).to_owned(), end))
                } else {
                    proof {
                        let tv = t@;
                        let sv = input@;
                        assert(exists|k: int|
                            0 <= k < tv.len() && sv[pos + k] != tv[k]);
                        assert(sv.subrange(pos as int, pos + tv.len()) != tv) by {
                            let k = choose|k: int|
                                0 <= k < tv.len() && sv[pos + k] != tv[k];
                            assert(sv.subrange(pos as int, pos + tv.len())[k] != tv[k]);
                        }
                    }
                    None
                }
            } else {
                None
            }
        },
        Pattern::Digits => {
            let end = digit_run(input, pos);
            if end > pos {
                Some((input.substring_char(pos, end).to_owned(), end))
            } else {
                None
            }
        },
        Pattern::Identifier => {
            if pos < len {
                let c: char = input.get_char(pos);
                let u: u32 = c as u32;
                if (65 <= u && u <= 90) || (97 <= u && u <= 122) || u == 95 {
                    let end = ident_run(input, pos + 1);
                    Some((input.substring_char(pos, end).to_owned(), end))
                } else {
                    None
                }
            } else {
                None
            }
        },
        Pattern::Whitespace => {
            let end = space_run(input, pos);
            if end > pos {
                Some((input.substring_char(pos, end).to_owned(), end))
            } else {
                None
            }
        },
        Pattern::LineComment => {
            if len - pos >= 2 {
                let a: char = input.get_char(pos);
                let b: char = input.get_char(pos + 1);
                if a == '/' && b == '/' {
                    let end = comment_run(input, pos + 2);
                    Some((input.substring_char(pos, end).to_owned(), end))
                } else {
                    None
                }
            } else {
                None
            }
        },
    }
}

// ---------------------------------------------------------------------------
// The combinator engine
// ---------------------------------------------------------------------------

/// Tells which branch of an ordered choice matched.
#[derive(Debug, Clone, PartialEq)]
pub enum OrValue<LHS, RHS> {
    Lhs(LHS),
    Rhs(RHS),
}

/// What a combinator parser produces: matched text, an either-value from an
/// ordered choice, an optional value, or a collected repetition.
#[derive(Debug, PartialEq)]
pub enum Value {
    Text(String),
    Either(Box<OrValue<Value, Value>>),
    Opt(Option<Box<Value>>),
    Many(Vec<Value>),
}

/// The mathematical form of a produced value.
pub enum SpecValue {
    Text(Seq<char>),
    Either(Box<OrValue<SpecValue, SpecValue>>),
    Opt(Option<Box<SpecValue>>),
    Many(Seq<SpecValue>),
}

pub open spec fn value_view(v: Value) -> SpecValue
    decreases v,
{
    match v {
        Value::Text(s) => SpecValue::Text(s@),
        Value::Either(b) => match *b {
            OrValue::Lhs(x) => SpecValue::Either(Box::new(OrValue::Lhs(value_view(x)))),
            OrValue::Rhs(x) => SpecValue::Either(Box::new(OrValue::Rhs(value_view(x)))),
        },
        Value::Opt(o) => match o {
            Option::Some(b) => SpecValue::Opt(Option::Some(Box::new(value_view(*b)))),
            Option::None => SpecValue::Opt(Option::None),
        },
        Value::Many(vs) => SpecValue::Many(values_view(vs@)),
    }
}

pub open spec fn values_view(vs: Seq<Value>) -> Seq<SpecValue>
    decreases vs,
{
    if vs.len() == 0 {
        Seq::empty()
    } else {
        seq![value_view(vs[0])] + values_view(vs.subrange(1, vs.len() as int))
    }
}

/// A parser built from the engine's primitives. Running it is `Parser::parse`;
/// its meaning is `spec_engine_parse`.
#[derive(Debug, PartialEq)]
pub enum Parser {
    /// Matches an anchored pattern, producing the matched text.
    Regex(Pattern),
    /// Always succeeds, consumes nothing, produces the given text.
    Constant(String),
    /// Always fails; the text is a diagnostic message.
    Error(String),
    /// Ordered choice: the right side is tried only where the left fails, on
    /// the original cursor.
    Or(Box<Parser>, Box<Parser>),
    /// Sequence, discarding the first value.
    And(Box<Parser>, Box<Parser>),
    /// Optional: produces `Opt(None)` without consuming where the inner
    /// parser fails.
    Maybe(Box<Parser>),
    /// Repetition until the first failure; never fails itself. A repetition
    /// step that consumes nothing ends the collection (it would otherwise
    /// repeat forever).
    ZeroOrMore(Box<Parser>),
}

pub open spec fn spec_engine_parse(p: Parser, s: Seq<char>, i: int) -> Option<(SpecValue, int)>
    decreases s.len() - i, p, 0int,
    when 0 <= i <= s.len()
{
    match p {
        Parser::Regex(pat) => match spec_pat_match(s, i, pattern_view(pat)) {
            Option::Some(e) => if i <= e <= s.len() {
                Option::Some((SpecValue::Text(s.subrange(i, e)), e))
            } else {
                Option::None
            },
            Option::None => Option::None,
        },
        Parser::Constant(c) => Option::Some((SpecValue::Text(c@), i)),
        Parser::Error(_) => Option::None,
        Parser::Or(a, b) => match spec_engine_parse(*a, s, i) {
            Option::Some(r) => Option::Some(
                (SpecValue::Either(Box::new(OrValue::Lhs(r.0))), r.1),
            ),
            Option::None => match spec_engine_parse(*b, s, i) {
                Option::Some(r) => Option::Some(
                    (SpecValue::Either(Box::new(OrValue::Rhs(r.0))), r.1),
                ),
                Option::None => Option::None,
            },
        },
        Parser::And(a, b) => match spec_engine_parse(*a, s, i) {
            Option::Some(r) => if i <= r.1 <= s.len() {
                spec_engine_parse(*b, s, r.1)
            } else {
                Option::None
            },
            Option::None => Option::None,
        },
        Parser::Maybe(a) => match spec_engine_parse(*a, s, i) {
            Option::Some(r) => Option::Some((SpecValue::Opt(Option::Some(Box::new(r.0))), r.1)),
            Option::None => Option::Some((SpecValue::Opt(Option::None), i)),
        },
        Parser::ZeroOrMore(a) => {
            let r = spec_zero_or_more(*a, s, i);
            Option::Some((SpecValue::Many(r.0), r.1))
        },
    }
}

pub open spec fn spec_zero_or_more(p: Parser, s: Seq<char>, i: int) -> (Seq<SpecValue>, int)
    decreases s.len() - i, p, 1int,
    when 0 <= i <= s.len()
{
    match spec_engine_parse(p, s, i) {
        Option::Some(r) => if i < r.1 <= s.len() {
            let rest = spec_zero_or_more(p, s, r.1);
            (seq![r.0] + rest.0, rest.1)
        } else {
            (Seq::empty(), i)
        },
        Option::None => (Seq::empty(), i),
    }
}

impl Parser {
    /// Runs the parser at a position of the input.
    pub fn parse(&self, input: &str, pos: usize) -> (r: Option<(Value, usize)>)
        requires
            pos <= input@.len(),
        ensures
            match r {
                Some(m) => {
                    &&& spec_engine_parse(*self, input@, pos as int) == Some(
                        (value_view(m.0), m.1 as int),
                    )
                    &&& pos <= m.1 <= input@.len()
                },
                None => spec_engine_parse(*self, input@, pos as int) is None,
            },
        decreases input@.len() - pos, *self, 0int,
    {
        match self {
            Parser::Regex(pat) => match match_regex(input, pos, pat) {
                Some((t, e)) => Some((Value::Text(t), e)),
                None => None,
            },
            Parser::Constant(c) => Some((Value::Text(c.clone()), pos)),
            Parser::Error(_) => None,
            Parser::Or(a, b) => match a.parse(input, pos) {
                Some((v, e)) => Some((Value::Either(Box::new(OrValue::Lhs(v))), e)),
                None => match b.parse(input, pos) {
                    Some((v, e)) => Some((Value::Either(Box::new(OrValue::Rhs(v))), e)),
                    None => None,
                },
            },
            Parser::And(a, b) => match a.parse(input, pos) {
                Some((_, j)) => b.parse(input, j),
                None => None,
            },
            Parser::Maybe(a) => match a.parse(input, pos) {
                Some((v, e)) => Some((Value::Opt(Some(Box::new(v))), e)),
                None => Some((Value::Opt(None), pos)),
            },
            Parser::ZeroOrMore(a) => {
                let (vs, e) = parse_zero_or_more(a, input, pos);
                Some((Value::Many(vs), e))
            },
        }
    }
}

fn parse_zero_or_more(p: &Parser, input: &str, pos: usize) -> (r: (Vec<Value>, usize))
    requires
        pos <= input@.len(),
    ensures
        ({
            let m = spec_zero_or_more(*p, input@, pos as int);
            values_view(r.0@) == m.0 && r.1 as int == m.1 && pos <= r.1 <= input@.len()
        }),
    decreases input@.len() - pos, *p, 1int,
{
    match p.parse(input, pos) {
        Some((v, j)) => {
            if j > pos {
                let (mut vs, e) = parse_zero_or_more(p, input, j);
                let ghost pre = vs@;
                vs.insert(0, v);
                proof {
                    assert(vs@.subrange(1, vs@.len() as int) =~= pre);
                    assert(values_view(vs@) == seq![value_view(vs@[0])] + values_view(
                        vs@.subrange(1, vs@.len() as int),
                    ));
                    assert(seq![value_view(vs@[0])] + values_view(pre) =~= seq![value_view(v)]
                        + values_view(pre));
                }
                (vs, e)
            } else {
                (Vec::new(), pos)
            }
        },
        None => (Vec::new(), pos),
    }
}

/// A parser for an anchored pattern.
pub fn regex(pattern: Pattern) -> (r: Parser)
    ensures
        r == Parser::Regex(pattern),
{
    Parser::Regex(pattern)
}

/// A parser that always succeeds with the given text, consuming nothing.
pub fn constant(value: &str) -> (r: Parser)
    ensures
        r matches Parser::Constant(c) && c@ == value@,
{
    Parser::Constant(value.to_owned())
}

/// A parser that always fails, carrying a diagnostic message.
pub fn error(message: &str) -> (r: Parser)
    ensures
        r matches Parser::Error(m) && m@ == message@,
{
    Parser::Error(message.to_owned())
}

/// Ordered choice between two parsers.
pub fn or(parser1: Parser, parser2: Parser) -> (r: Parser)
    ensures
        r matches Parser::Or(a, b) && *a == parser1 && *b == parser2,
{
    Parser::Or(Box::new(parser1), Box::new(parser2))
}

/// Both parsers in sequence, producing the second value.
pub fn and(parser1: Parser, parser2: Parser) -> (r: Parser)
    ensures
        r matches Parser::And(a, b) && *a == parser1 && *b == parser2,
{
    Parser::And(Box::new(parser1), Box::new(parser2))
}

/// An optional parser: succeeds either way.
pub fn maybe(parser: Parser) -> (r: Parser)
    ensures
        r matches Parser::Maybe(a) && *a == parser,
{
    Parser::Maybe(Box::new(parser))
}

/// Repetition of a parser, collecting its values until it fails.
pub fn zero_or_more(parser: Parser) -> (r: Parser)
    ensures
        r matches Parser::ZeroOrMore(a) && *a == parser,
{
    Parser::ZeroOrMore(Box::new(parser))
}

} // verus!
