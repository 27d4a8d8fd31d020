use minic::parser::combinators::OrValue;
use minic::parser::combinators::Pattern;
use minic::parser::combinators::Value;
use minic::parser::combinators::and;
use minic::parser::combinators::constant;
use minic::parser::combinators::error;
use minic::parser::combinators::match_regex;
use minic::parser::combinators::maybe;
use minic::parser::combinators::or;
use minic::parser::combinators::regex;
use minic::parser::combinators::zero_or_more;

fn lit(text: &str) -> Pattern {
    Pattern::Literal(String::from(text))
}

fn text(t: &str) -> Value {
    Value::Text(String::from(t))
}

#[test]
fn matching_regex() {
    let input = "12345";
    assert_eq!(match_regex(input, 0, &lit("123")), Some((String::from("123"), 3)));
}

#[test]
fn constant_parser() {
    let input = "12345";
    assert_eq!(constant("123").parse(input, 0), Some((text("123"), 0)));
}

#[test]
fn error_parser() {
    let message = "error";
    let input = "12345";
    assert_eq!(error(message).parse(input, 0), None);
}

#[test]
fn or_parser() {
    let error = error("");
    let constant1 = constant("123");
    let input = "12345";
    assert_eq!(
        or(error, constant1).parse(input, 0),
        Some((Value::Either(Box::new(OrValue::Rhs(text("123")))), 0))
    );

    let constant2 = constant("1");
    let constant3 = constant("2");
    assert_eq!(
        or(constant2, constant3).parse(input, 0),
        Some((Value::Either(Box::new(OrValue::Lhs(text("1")))), 0))
    );
}

#[test]
fn and_parser() {
    let input = "12345";
    let p1 = regex(lit("12"));
    let p2 = regex(lit("3"));
    assert_eq!(and(p1, p2).parse(input, 0), Some((text("3"), 3)));

    let p3 = regex(lit("12"));
    let p4 = regex(lit("4"));
    assert_eq!(and(p3, p4).parse(input, 0), None);
}

#[test]
fn zero_or_more_parser() {
    let input = "1111END";
    let one = regex(lit("1"));
    let parser = zero_or_more(one);
    assert_eq!(
        parser.parse(input, 0),
        Some((Value::Many(vec![text("1"), text("1"), text("1"), text("1")]), 4))
    );
}

#[test]
fn maybe_parser() {
    let input = "1111END";
    let ones = regex(lit("1112"));
    let parser = maybe(ones);
    assert_eq!(parser.parse(input, 0), Some((Value::Opt(None), 0)));

    let ones_correct = regex(lit("1111"));
    let parser = maybe(ones_correct);
    assert_eq!(
        parser.parse(input, 0),
        Some((Value::Opt(Some(Box::new(text("1111")))), 4))
    );
}
