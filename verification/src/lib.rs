//! A verified compiler for a small imperative language (numbers, booleans,
//! arrays, functions, control flow) targeting 32-bit ARM assembly.
//!
//! The pipeline: the grammar parses source text into one tree, the structural
//! type checker validates it, and the code generator lowers it to assembly
//! text. A fatal error in any phase aborts the compilation with its reason.

use vstd::prelude::*;

pub mod ast;
pub mod parser;
pub mod phases;
pub mod types;

use crate::phases::codegen::Arm32Generator;
use crate::phases::codegen::CodeGenerator;
use crate::phases::codegen::Environment;
use crate::phases::codegen::render_all;
use crate::phases::codegen::spec_emit;
use crate::phases::typecheck::Bindings;
use crate::phases::typecheck::SpecBindings;
use crate::phases::typecheck::StaticTypeChecker;
use crate::phases::typecheck::spec_check;
use crate::types::CompileError;
use crate::types::SpecCompileError;
use crate::types::SpecType;
use crate::types::Type;
use crate::types::error_view;
use crate::types::params_view;
use crate::types::type_view;

verus! {

/// Parses a complete program. Fails if no program can be derived or if
/// unconsumed input remains after the last statement.
pub fn parse(source: &str) -> (r: Result<ast::Ast, CompileError>)
    ensures
        match r {
            Ok(a) => parser::spec_parse_program(source@) == Some(ast::ast_view(a)),
            Err(e) => parser::spec_parse_program(source@) is None && error_view(e)
                == SpecCompileError::ParseFailure,
        },
{
    let len = source.unicode_len();
    match parser::make_full_parser().parse(source, 0) {
        Some((a, end)) => {
            if end == len {
                Ok(a)
            } else {
                Err(CompileError::ParseFailure)
            }
        },
        None => Err(CompileError::ParseFailure),
    }
}

/// The function signatures every compilation starts from: the driver's
/// built-in `putchar`, a one-number routine the runtime provides.
pub open spec fn spec_builtin_functions() -> SpecBindings {
    seq![
        (
            "putchar"@,
            SpecType::Function(seq![("x1"@, SpecType::Number)], Box::new(SpecType::Void)),
        ),
    ]
}

/// Type-checks a program under empty locals and the built-in function
/// signatures, outside any function body.
pub fn typecheck(ast: &ast::Ast) -> (r: Result<(), CompileError>)
    ensures
        match r {
            Ok(_) => spec_check(
                ast::ast_view(*ast),
                Seq::empty(),
                spec_builtin_functions(),
                None,
            ) is Ok,
            Err(e) => spec_check(
                ast::ast_view(*ast),
                Seq::empty(),
                spec_builtin_functions(),
                None,
            ) matches Err(me) && me == error_view(e),
        },
{
    let mut putchar_parameters: Vec<(String, Type)> = Vec::new();
    putchar_parameters.push(("x1".to_owned(), Type::Number));
    proof {
        assert(putchar_parameters@.subrange(1, 1) =~= Seq::<(String, Type)>::empty());
        assert(params_view(putchar_parameters@) == seq![
            (putchar_parameters@[0].0@, type_view(putchar_parameters@[0].1)),
        ] + params_view(putchar_parameters@.subrange(1, 1)));
        assert(params_view(putchar_parameters@) =~~= seq![("x1"@, SpecType::Number)]);
    }
    let ghost pview = params_view(putchar_parameters@);
    let rt = Type::Void;
    let ghost rtv = type_view(rt);
    let putchar_type = Type::Function {
        parameter_types: putchar_parameters,
        return_type: Box::new(rt),
    };
    proof {
        assert(rtv == SpecType::Void);
        assert(type_view(putchar_type) == SpecType::Function(pview, Box::new(rtv)));
    }
    let mut functions = Bindings::new();
    let ghost empty_env = functions.env();
    let name = "putchar".to_owned();
    let ghost tview = type_view(putchar_type);
    functions.insert(name, putchar_type);
    proof {
        assert(functions.env() == empty_env.push(("putchar"@, tview)));
        assert(empty_env.push(("putchar"@, tview)) =~~= spec_builtin_functions());
    }
    let mut checker = StaticTypeChecker::new(Bindings::new(), functions, None);
    match checker.check(ast) {
        Ok(_) => Ok(()),
        Err(e) => Err(e),
    }
}

/// Lowers a program to assembly text, with an empty top-level symbol table
/// and branch targets counted from zero.
pub fn generate_code(ast: ast::Ast) -> (r: Result<String, CompileError>)
    ensures
        match r {
            Ok(out) => spec_emit(ast::ast_view(ast), Seq::empty(), 0, 0) matches Ok(mm) && out@
                == render_all(mm.0),
            Err(e) => spec_emit(ast::ast_view(ast), Seq::empty(), 0, 0) matches Err(me) && me
                == error_view(e),
        },
{
    let mut output_asm = String::new();
    let mut env = Environment::default();
    let generator = Arm32Generator::new(ast);
    match generator.emit(&mut output_asm, &mut env) {
        Ok(_) => {
            proof {
                let mm0 = spec_emit(generator.program(), Seq::empty(), 0, 0)->Ok_0.0;
                assert(Seq::<char>::empty() + render_all(mm0) =~= render_all(mm0));
            }
            Ok(output_asm)
        },
        Err(e) => Err(e),
    }
}

/// Compiles source text: parse, type-check, generate. A one-shot, total
/// failure or total success transformation; the error says which rule broke.
pub fn compile(source: &str) -> (r: Result<String, CompileError>)
    ensures
        match r {
            Ok(out) => ({
                &&& parser::spec_parse_program(source@) matches Some(prog)
                &&& spec_check(prog, Seq::empty(), spec_builtin_functions(), None) is Ok
                &&& spec_emit(prog, Seq::empty(), 0, 0) matches Ok(mm) && out@ == render_all(mm.0)
            }),
            Err(e) => match parser::spec_parse_program(source@) {
                Option::Some(prog) => match spec_check(
                    prog,
                    Seq::empty(),
                    spec_builtin_functions(),
                    None,
                ) {
                    Ok(_) => spec_emit(prog, Seq::empty(), 0, 0) matches Err(me) && me
                        == error_view(e),
                    Err(me) => me == error_view(e),
                },
                Option::None => error_view(e) == SpecCompileError::ParseFailure,
            },
        },
{
    let ast = match parse(source) {
        Ok(a) => a,
        Err(e) => {
            return Err(e);
        },
    };
    match typecheck(&ast) {
        Ok(_) => (),
        Err(e) => {
            return Err(e);
        },
    }
    generate_code(ast)
}

} // verus!
