use minic::ast::Ast;
use minic::parser::combinators::OrValue;
use minic::parser::combinators::Pattern;
use minic::parser::combinators::Value;
use minic::parser::expression::make_args_parser;
use minic::parser::expression::make_array_length_parser;
use minic::parser::expression::make_array_literal_parser;
use minic::parser::expression::make_array_lookup_parser;
use minic::parser::expression::make_atom_parser;
use minic::parser::expression::make_bool_parser;
use minic::parser::expression::make_comparison_parser;
use minic::parser::expression::make_ignored_parser;
use minic::parser::expression::make_null_parser_;
use minic::parser::expression::make_number_parser;
use minic::parser::expression::make_product_parser;
use minic::parser::expression::make_sum_parser;
use minic::parser::expression::make_token_parser;
use minic::parser::expression::make_undefined_parser_;
use minic::parser::expression::make_unary_parser;

fn chars(s: &str) -> usize {
    s.chars().count()
}

fn id(name: &str) -> Ast {
    Ast::Identifier(String::from(name))
}

#[test]
fn ignored_parser() {
    let input = "//line1\n\t\r  qweqwrasf";
    let parser = make_ignored_parser();
    let (parsed, next) = parser.parse(input, 0).unwrap();
    assert_eq!(next, chars("//line1\n\t\r  "));
    let expected = Value::Many(vec![
        Value::Either(Box::new(OrValue::Rhs(Value::Text(String::from("//line1"))))),
        Value::Either(Box::new(OrValue::Lhs(Value::Text(String::from("\n\t\r  "))))),
    ]);
    assert_eq!(parsed, expected);
}

#[test]
fn token_parser() {
    let input = "fun  //xx";
    let parser = make_token_parser(Pattern::Literal(String::from("fun")));
    let (parsed, next) = parser.parse(input, 0).unwrap();
    assert_eq!(next, chars(input));
    assert_eq!(parsed, String::from("fun"));
}

#[test]
fn number_parser() {
    let input = "123  //xx";
    let parser = make_number_parser();
    let (parsed, next) = parser.parse(input, 0).unwrap();
    assert_eq!(next, chars(input));
    assert_eq!(parsed, Ast::Number(123));
}

#[test]
fn bool_parser() {
    let true_input = "true  //xx";
    let false_input = "false  //xx";
    let parser = make_bool_parser();
    let (true_parsed, true_next) = parser.parse(true_input, 0).unwrap();
    let (false_parsed, false_next) = parser.parse(false_input, 0).unwrap();
    assert_eq!(true_next, chars(true_input));
    assert_eq!(true_parsed, Ast::Bool(true));
    assert_eq!(false_next, chars(false_input));
    assert_eq!(false_parsed, Ast::Bool(false));
}

#[test]
fn null_parser() {
    let input = "null  //xx";
    let parser = make_null_parser_();
    let (parsed, next) = parser.parse(input, 0).unwrap();
    assert_eq!(next, chars(input));
    assert_eq!(parsed, Ast::Null);
}

#[test]
fn undefined_parser() {
    let input = "undefined  //xx";
    let parser = make_undefined_parser_();
    let (parsed, next) = parser.parse(input, 0).unwrap();
    assert_eq!(next, chars(input));
    assert_eq!(parsed, Ast::Undefined);
}

#[test]
fn array_literal_parser() {
    let input = "[1,2]  //xx";
    let parser = make_array_literal_parser();
    let (parsed, next) = parser.parse(input, 0).unwrap();
    assert_eq!(next, chars(input));
    assert_eq!(parsed, Ast::ArrayLiteral(vec![Ast::Number(1), Ast::Number(2)]));
}

#[test]
fn array_lookup_parser() {
    let input = "x[1]  //xx";
    let parser = make_array_lookup_parser();
    let (parsed, next) = parser.parse(input, 0).unwrap();
    assert_eq!(next, chars(input));
    assert_eq!(parsed, Ast::ArrayLookup(Box::new(id("x")), Box::new(Ast::Number(1))));
}

#[test]
fn array_length_parser() {
    let input = "length(x)  //xx";
    let parser = make_array_length_parser();
    let (parsed, next) = parser.parse(input, 0).unwrap();
    assert_eq!(next, chars(input));
    assert_eq!(parsed, Ast::ArrayLength(Box::new(id("x"))));
}

#[test]
fn args_parser() {
    let input = "arg1, arg2, arg3  //xx";
    let parser = make_args_parser();
    let (parsed, next) = parser.parse(input, 0);
    assert_eq!(next, chars(input));
    assert_eq!(parsed, vec![id("arg1"), id("arg2"), id("arg3")]);
}

#[test]
fn call_parser_with_args() {
    let input = "f(arg1, arg2, arg3)  //xx";
    let parser = minic::parser::expression::make_call_parser();
    let (parsed, next) = parser.parse(input, 0).unwrap();
    let (name, args) = match parsed {
        Ast::Call(name, args) => (name, args),
        _ => panic!(),
    };
    assert_eq!(next, chars(input));
    assert_eq!(&name, "f");
    assert_eq!(args, vec![id("arg1"), id("arg2"), id("arg3")]);
}

#[test]
fn call_parser_without_args() {
    let input = "f()  //xx";
    let parser = minic::parser::expression::make_call_parser();
    let (parsed, next) = parser.parse(input, 0).unwrap();
    let (name, args) = match parsed {
        Ast::Call(name, args) => (name, args),
        _ => panic!(),
    };
    assert_eq!(next, chars(input));
    assert_eq!(&name, "f");
    assert_eq!(args, vec![]);
}

#[test]
fn atom_parser_for_call() {
    let input = "f()  //xx";
    let parser = make_atom_parser();
    let (parsed, next) = parser.parse(input, 0).unwrap();
    let (name, args) = match parsed {
        Ast::Call(name, args) => (name, args),
        _ => panic!(),
    };
    assert_eq!(next, chars(input));
    assert_eq!(&name, "f");
    assert_eq!(args, vec![]);
}

#[test]
fn atom_parser_for_id() {
    let input = "identifier //xx";
    let parser = make_atom_parser();
    let (parsed, next) = parser.parse(input, 0).unwrap();
    assert_eq!(next, chars(input));
    assert_eq!(parsed, id("identifier"));
}

#[test]
fn atom_parser_for_number() {
    let input = "123 //xx";
    let parser = make_atom_parser();
    let (parsed, next) = parser.parse(input, 0).unwrap();
    assert_eq!(next, chars(input));
    assert_eq!(parsed, Ast::Number(123));
}

#[test]
fn atom_parser_for_array_literal() {
    let input = "[1,2] //xx";
    let parser = make_atom_parser();
    let (parsed, next) = parser.parse(input, 0).unwrap();
    assert_eq!(next, chars(input));
    assert_eq!(parsed, Ast::ArrayLiteral(vec![Ast::Number(1), Ast::Number(2)]));
}

#[test]
fn atom_parser_for_array_lookup() {
    let input = "x[1] //xx";
    let parser = make_atom_parser();
    let (parsed, next) = parser.parse(input, 0).unwrap();
    assert_eq!(next, chars(input));
    assert_eq!(parsed, Ast::ArrayLookup(Box::new(id("x")), Box::new(Ast::Number(1))));
}

#[test]
fn unary_parser() {
    let input = "!id //xx";
    let parser = make_unary_parser();
    let (parsed, next) = parser.parse(input, 0).unwrap();
    assert_eq!(next, chars(input));
    assert_eq!(parsed, Ast::Not(Box::new(id("id"))));
}

#[test]
fn product_parser() {
    let input = "1 * 2 / 3 //xx";
    let parser = make_product_parser();
    let (parsed, next) = parser.parse(input, 0).unwrap();
    assert_eq!(next, chars(input));
    assert_eq!(
        parsed,
        Ast::Division(
            Box::new(Ast::Multiplication(Box::new(Ast::Number(1)), Box::new(Ast::Number(2)))),
            Box::new(Ast::Number(3))
        )
    );
}

#[test]
fn sum_parser() {
    let input = "1 + 2 - 3 //xx";
    let parser = make_sum_parser();
    let (parsed, next) = parser.parse(input, 0).unwrap();
    assert_eq!(next, chars(input));
    assert_eq!(
        parsed,
        Ast::Subtraction(
            Box::new(Ast::Addition(Box::new(Ast::Number(1)), Box::new(Ast::Number(2)))),
            Box::new(Ast::Number(3))
        )
    );
}

#[test]
fn comparison_parser() {
    let input = "1 == 2 != 3 //xx";
    let parser = make_comparison_parser();
    let (parsed, next) = parser.parse(input, 0).unwrap();
    assert_eq!(next, chars(input));
    assert_eq!(
        parsed,
        Ast::NotEqual(
            Box::new(Ast::Equal(Box::new(Ast::Number(1)), Box::new(Ast::Number(2)))),
            Box::new(Ast::Number(3))
        )
    );
}

#[test]
fn expression_expression_parser() {
    let input = "f(1 * 2) //xx";
    let parser = make_comparison_parser();
    let (parsed, next) = parser.parse(input, 0).unwrap();
    assert_eq!(next, chars(input));
    assert_eq!(
        parsed,
        Ast::Call(
            String::from("f"),
            vec![Ast::Multiplication(Box::new(Ast::Number(1)), Box::new(Ast::Number(2)))],
        )
    );
}
