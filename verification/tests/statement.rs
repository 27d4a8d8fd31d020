use minic::ast::Ast;
use minic::parser::make_full_parser;
use minic::parser::statement::make_assignment_parser;
use minic::parser::statement::make_block_parser;
use minic::parser::statement::make_expression_parser;
use minic::parser::statement::make_function_parser;
use minic::parser::statement::make_if_parser;
use minic::parser::statement::make_parameters_parser;
use minic::parser::statement::make_return_parser;
use minic::parser::statement::make_var_parser;
use minic::parser::statement::make_while_parser;
use minic::types::Type;

fn chars(s: &str) -> usize {
    s.chars().count()
}

fn id(name: &str) -> Ast {
    Ast::Identifier(String::from(name))
}

#[test]
fn return_parser() {
    let input = "return 1; //xx";
    let parser = make_return_parser();
    let (parsed, next) = parser.parse(input, 0).unwrap();
    assert_eq!(next, chars(input));
    assert_eq!(parsed, Ast::Return(Box::new(Ast::Number(1))));
}

#[test]
fn statement_expression_parser() {
    let input = "1; //xx";
    let parser = make_expression_parser();
    let (parsed, next) = parser.parse(input, 0).unwrap();
    assert_eq!(next, chars(input));
    assert_eq!(parsed, Ast::Number(1));
}

#[test]
fn if_parser() {
    let input = "if (1) 2; else 3; //xx";
    let parser = make_if_parser();
    let (parsed, next) = parser.parse(input, 0).unwrap();
    assert_eq!(next, chars(input));
    assert_eq!(
        parsed,
        Ast::If(
            Box::new(Ast::Number(1)),
            Box::new(Ast::Number(2)),
            Box::new(Ast::Number(3)),
        )
    );
}

#[test]
fn while_parser() {
    let input = "while (1) { 2; } //xx";
    let parser = make_while_parser();
    let (parsed, next) = parser.parse(input, 0).unwrap();
    assert_eq!(next, chars(input));
    assert_eq!(
        parsed,
        Ast::While(Box::new(Ast::Number(1)), Box::new(Ast::Block(vec![Ast::Number(2)])))
    );
}

#[test]
fn var_parser() {
    let input = "var x = 1; //xx";
    let parser = make_var_parser();
    let (parsed, next) = parser.parse(input, 0).unwrap();
    assert_eq!(next, chars(input));
    assert_eq!(parsed, Ast::Var(String::from("x"), Box::new(Ast::Number(1))));
}

#[test]
fn assignment_parser() {
    let input = "x = 1; //xx";
    let parser = make_assignment_parser();
    let (parsed, next) = parser.parse(input, 0).unwrap();
    assert_eq!(next, chars(input));
    assert_eq!(parsed, Ast::Assignment(String::from("x"), Box::new(Ast::Number(1))));
}

#[test]
fn block_parser() {
    let input = "{1;2;} //xx";
    let parser = make_block_parser();
    let (parsed, next) = parser.parse(input, 0).unwrap();
    assert_eq!(next, chars(input));
    assert_eq!(parsed, Ast::Block(vec![Ast::Number(1), Ast::Number(2)]));
}

#[test]
fn parameters_parser() {
    let input = "x, y, z //xx";
    let parser = make_parameters_parser();
    let (parsed, next) = parser.parse(input, 0);
    assert_eq!(next, chars(input));
    assert_eq!(
        parsed,
        vec![
            (String::from("x"), Type::Number),
            (String::from("y"), Type::Number),
            (String::from("z"), Type::Number),
        ]
    );
}

#[test]
fn parameters_with_types_parser() {
    let input = "x: number, y: boolean, z: void , w: number//xx";
    let parser = make_parameters_parser();
    let (parsed, next) = parser.parse(input, 0);
    assert_eq!(next, chars(input));
    assert_eq!(
        parsed,
        vec![
            (String::from("x"), Type::Number),
            (String::from("y"), Type::Boolean),
            (String::from("z"), Type::Void),
            (String::from("w"), Type::Number),
        ]
    );
}

#[test]
fn function_parser() {
    let input = "function f(x:number, y:boolean, z: number, w: boolean) { 1; } //xx";
    let parser = make_function_parser();
    let (parsed, next) = parser.parse(input, 0).unwrap();
    assert_eq!(next, chars(input));
    assert_eq!(
        parsed,
        Ast::Function(
            String::from("f"),
            Type::Function {
                parameter_types: vec![
                    (String::from("x"), Type::Number),
                    (String::from("y"), Type::Boolean),
                    (String::from("z"), Type::Number),
                    (String::from("w"), Type::Boolean),
                ],
                return_type: Box::new(Type::Number),
            },
            Box::new(Ast::Block(vec![Ast::Number(1)]))
        )
    );
}

#[test]
fn function_parser_without_args() {
    let input = "function f() { 1; } //xx";
    let parser = make_function_parser();
    let (parsed, next) = parser.parse(input, 0).unwrap();
    assert_eq!(next, chars(input));
    assert_eq!(
        parsed,
        Ast::Function(
            String::from("f"),
            Type::Function { parameter_types: vec![], return_type: Box::new(Type::Number) },
            Box::new(Ast::Block(vec![Ast::Number(1)]))
        )
    );
}

#[test]
fn full_parser() {
    let input = "function factorial(n) {
                var result = 1;
                while (n != 1) {
                    result = result * n;
                    n = n - 1;
                }
                return result;
            } //xx
            ";
    let parser = make_full_parser();
    let (parsed, next) = parser.parse(input, 0).unwrap();
    assert_eq!(next, chars(input));
    assert_eq!(
        parsed,
        Ast::Block(vec![Ast::Function(
            String::from("factorial"),
            Type::Function {
                parameter_types: vec![(String::from("n"), Type::Number)],
                return_type: Box::new(Type::Number),
            },
            Box::new(Ast::Block(vec![
                Ast::Var(String::from("result"), Box::new(Ast::Number(1))),
                Ast::While(
                    Box::new(Ast::NotEqual(
                        Box::new(id("n")),
                        Box::new(Ast::Number(1))
                    )),
                    Box::new(Ast::Block(vec![
                        Ast::Assignment(
                            String::from("result"),
                            Box::new(Ast::Multiplication(
                                Box::new(id("result")),
                                Box::new(id("n")),
                            ))
                        ),
                        Ast::Assignment(
                            String::from("n"),
                            Box::new(Ast::Subtraction(
                                Box::new(id("n")),
                                Box::new(Ast::Number(1)),
                            ))
                        ),
                    ])),
                ),
                Ast::Return(Box::new(id("result")))
            ]))
        )])
    );
}
