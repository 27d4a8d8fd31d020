use minic::ast::Ast;
use minic::compile;
use minic::generate_code;
use minic::parse;
use minic::parser::expression::make_atom_parser;
use minic::parser::expression::make_sum_parser;
use minic::typecheck;
use minic::types::CompileError;
use minic::types::Type;

#[test]
fn ordered_choice_gives_calls_to_the_call_rule() {
    let (parsed, next) = make_atom_parser().parse("f()", 0).unwrap();
    assert_eq!(parsed, Ast::Call(String::from("f"), vec![]));
    assert_eq!(next, 3);
}

#[test]
fn subtraction_is_left_associative() {
    let (parsed, _) = make_sum_parser().parse("1 - 2 - 3", 0).unwrap();
    assert_eq!(
        parsed,
        Ast::Subtraction(
            Box::new(Ast::Subtraction(Box::new(Ast::Number(1)), Box::new(Ast::Number(2)))),
            Box::new(Ast::Number(3))
        )
    );
}

#[test]
fn assigning_a_boolean_to_a_number_is_rejected() {
    let ast = parse("var x = 1; x = true;").unwrap();
    assert_eq!(
        typecheck(&ast),
        Err(CompileError::TypeMismatch { expected: Type::Number, actual: Type::Boolean })
    );
}

#[test]
fn assigning_through_the_undefined_wildcard_is_accepted() {
    let ast = parse("var x = undefined; x = true;").unwrap();
    assert_eq!(typecheck(&ast), Ok(()));
}

#[test]
fn argument_type_mismatch_is_rejected_at_the_call_site() {
    let ast = parse("function f(a: number): number { return a; } f(true);").unwrap();
    assert_eq!(
        typecheck(&ast),
        Err(CompileError::TypeMismatch { expected: Type::Boolean, actual: Type::Number })
    );
}

#[test]
fn generated_function_has_label_prologue_addition_and_return() {
    let output = compile("function add(a: number, b: number): number { return a + b; }").unwrap();
    assert!(output.contains(".global add\n"));
    assert!(output.contains("add:\n"));
    assert!(output.contains("    push {fp, lr}\n"));
    assert!(output.contains("    push {r0, r1, r2, r3}\n"));
    assert!(output.contains("    ldr r0, [fp, #-16]\n"));
    assert!(output.contains("    ldr r0, [fp, #-12]\n"));
    assert!(output.contains("    add r0, r0, r1\n"));
    assert!(output.contains("    pop {fp, pc}\n"));
}

#[test]
fn array_lookup_takes_the_sentinel_path_not_a_trap() {
    let output = compile("var x = [1,2,3]; x[10];").unwrap();
    assert!(output.contains("    cmp r0, r2\n"));
    assert!(output.contains("    movhs r0, #0\n"));
    assert!(output.contains("    ldrlo r0, [r1, r0]\n"));
    assert!(!output.contains("udf"));
}

#[test]
fn undefined_variable_is_rejected() {
    let ast = parse("y = 1;").unwrap();
    assert_eq!(typecheck(&ast), Err(CompileError::UndefinedVariable(String::from("y"))));
}

#[test]
fn undefined_function_is_rejected() {
    let ast = parse("g(1);").unwrap();
    assert_eq!(typecheck(&ast), Err(CompileError::UndefinedFunction(String::from("g"))));
}

#[test]
fn empty_array_literal_is_rejected() {
    let ast = parse("var x = [];").unwrap();
    assert_eq!(typecheck(&ast), Err(CompileError::EmptyArrayLiteral));
}

#[test]
fn return_outside_a_function_is_rejected() {
    let ast = parse("return 1;").unwrap();
    assert_eq!(typecheck(&ast), Err(CompileError::ReturnOutsideFunction));
}

#[test]
fn more_than_four_arguments_are_rejected_by_the_generator() {
    let ast = parse("f(1, 2, 3, 4, 5);").unwrap();
    assert_eq!(generate_code(ast), Err(CompileError::TooManyArguments));
}

#[test]
fn non_array_length_operand_is_rejected() {
    let ast = parse("length(1);").unwrap();
    assert_eq!(typecheck(&ast), Err(CompileError::NotAnArray(Type::Number)));
}

#[test]
fn unparsable_input_is_a_parse_failure() {
    assert_eq!(compile("var x = ;"), Err(CompileError::ParseFailure));
    assert_eq!(parse("@@@").is_err(), true);
}

#[test]
fn branch_labels_are_unique_and_counted_up() {
    let output = compile("if (1) 2; else 3; if (4) 5; else 6;").unwrap();
    assert!(output.contains(".L0:"));
    assert!(output.contains(".L1:"));
    assert!(output.contains(".L2:"));
    assert!(output.contains(".L3:"));
    assert!(output.contains("    beq .L0\n"));
    assert!(output.contains("    beq .L2\n"));
}

#[test]
fn while_loop_emits_its_label_pair() {
    let output = compile("while (1) { 2; }").unwrap();
    assert!(output.contains(".L0:\n"));
    assert!(output.contains("    beq .L1\n"));
    assert!(output.contains("    b .L0\n"));
    assert!(output.contains(".L1:"));
}

#[test]
fn number_too_large_for_the_language_fails_to_parse() {
    assert_eq!(compile("var x = 99999999999;"), Err(CompileError::ParseFailure));
    let output = compile("var x = 2147483647;").unwrap();
    assert!(output.contains("    ldr r0, =2147483647\n"));
}

#[test]
fn redeclaration_overwrites_the_earlier_type() {
    let ast = parse("var x = 1; var x = true; x = false;").unwrap();
    assert_eq!(typecheck(&ast), Ok(()));
}

#[test]
fn stack_pointer_moves_pair_up_in_expression_code() {
    let output = compile("var a = [1, 2]; var b = a[0] + length(a) * 2 - 3; b == 4;").unwrap();
    let pushes = output.matches("    push {r0, ip}\n").count();
    let pops = output.matches("    pop {r1, ip}\n").count();
    // one push parks each binary left operand and is popped into r1; each of
    // the two `var` statements parks one more value for good
    assert_eq!(pushes, pops + 2);
    let saves = output.matches("    push {r4, ip}\n").count();
    let restores = output.matches("    pop {r4, ip}\n").count();
    assert_eq!(saves, restores);
}

#[test]
fn call_scratch_space_is_released_by_the_register_load() {
    let ast = parse("f(1, 2, 3);").unwrap();
    let output = generate_code(ast).unwrap();
    let reserves = output.matches("    sub sp, sp, #16\n").count();
    let loads = output.matches("    pop {r0, r1, r2, r3}\n").count();
    assert_eq!(reserves, 1);
    assert_eq!(loads, 1);
}
