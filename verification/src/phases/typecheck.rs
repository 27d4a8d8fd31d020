//! The structural type checker: a single recursive pass over the tree that
//! returns each node's type, threading a mapping of locals and a mapping of
//! function signatures, and stops at the first violated rule.

use vstd::prelude::*;

use crate::ast::Ast;
use crate::ast::SpecAst;
use crate::ast::ast_view;
use crate::ast::asts_view;
use crate::types::CompileError;
use crate::types::SpecCompileError;
use crate::types::SpecType;
use crate::types::Type;
use crate::types::clone_params;
use crate::types::error_view;
use crate::types::lemma_params_view_append_one;
use crate::types::lemma_params_view_len;
use crate::types::lemma_types_view_len;
use crate::types::lemma_types_view_push;
use crate::types::params_view;
use crate::types::return_type_view;
use crate::types::spec_types_compatible;
use crate::types::type_view;
use crate::types::types_compatible;
use crate::types::types_view;

verus! {

/// An ordered mapping from names to types: later insertions shadow earlier
/// ones, and lookup finds the newest entry.
pub struct Bindings {
    entries: Vec<(String, Type)>,
}

/// What a `Bindings` means: its entries in insertion order.
pub type SpecBindings = Seq<(Seq<char>, SpecType)>;

/// The newest entry under `name`, if any.
pub open spec fn spec_env_get(env: SpecBindings, name: Seq<char>) -> Option<SpecType>
    decreases env,
{
    if env.len() == 0 {
        Option::None
    } else if env.last().0 == name {
        Option::Some(env.last().1)
    } else {
        spec_env_get(env.drop_last(), name)
    }
}

fn bindings_get_at<'a>(entries: &'a Vec<(String, Type)>, name: &String, i: usize) -> (r: Option<
    &'a Type,
>)
    requires
        i <= entries@.len(),
    ensures
        match r {
            Some(t) => spec_env_get(params_view(entries@.subrange(0, i as int)), name@) == Some(
                type_view(*t),
            ),
            None => spec_env_get(params_view(entries@.subrange(0, i as int)), name@) is None,
        },
    decreases i,
{
    proof {
        lemma_params_view_len(entries@.subrange(0, i as int));
    }
    if i == 0 {
        proof {
            assert(params_view(entries@.subrange(0, 0)).len() == 0);
        }
        None
    } else {
        let e = &entries[i - 1];
        proof {
            let sub = entries@.subrange(0, i as int);
            let v = params_view(sub);
            assert(v.last() == (entries@[i - 1].0@, type_view(entries@[i - 1].1)));
            lemma_params_view_len(entries@.subrange(0, i - 1));
            assert(v.drop_last() =~~= params_view(entries@.subrange(0, i - 1)));
        }
        if e.0.eq(name) {
            Some(&e.1)
        } else {
            bindings_get_at(entries, name, i - 1)
        }
    }
}

impl Bindings {
    /// The mapping's mathematical value.
    pub closed spec fn env(&self) -> SpecBindings {
        params_view(self.entries@)
    }

    /// An empty mapping.
    pub fn new() -> (r: Bindings)
        ensures
            r.env() == Seq::<(Seq<char>, SpecType)>::empty(),
    {
        Bindings { entries: Vec::new() }
    }

    /// A mapping holding the given entries in order.
    pub fn from_entries(entries: Vec<(String, Type)>) -> (r: Bindings)
        ensures
            r.env() == params_view(entries@),
    {
        Bindings { entries }
    }

    /// Adds a binding; it shadows any earlier one under the same name.
    pub fn insert(&mut self, name: String, t: Type)
        ensures
            final(self).env() == old(self).env().push((name@, type_view(t))),
    {
        let ghost pair = (name, t);
        proof {
            lemma_params_view_append_one(self.entries@, pair);
            assert(params_view(self.entries@) + seq![(pair.0@, type_view(pair.1))]
                =~~= params_view(self.entries@).push((pair.0@, type_view(pair.1))));
        }
        self.entries.push((name, t));
    }

    /// The type bound to `name`, if any.
    pub fn get<'a>(&'a self, name: &String) -> (r: Option<&'a Type>)
        ensures
            match r {
                Some(t) => spec_env_get(self.env(), name@) == Some(type_view(*t)),
                None => spec_env_get(self.env(), name@) is None,
            },
    {
        let n = self.entries.len();
        proof {
            assert(self.entries@.subrange(0, n as int) =~= self.entries@);
        }
        bindings_get_at(&self.entries, name, n)
    }
}

impl Clone for Bindings {
    /// Clones preserve the mapping's mathematical value.
    fn clone(&self) -> (r: Bindings)
        ensures
            r.env() == self.env(),
    {
        let ghost pre = self.entries@;
        let entries = clone_params(&self.entries, 0, Vec::new());
        proof {
            assert(pre.subrange(0, pre.len() as int) =~= pre);
            assert(params_view(Seq::<(String, Type)>::empty()) + params_view(pre)
                =~~= params_view(pre));
        }
        Bindings { entries }
    }
}

// ---------------------------------------------------------------------------
// The checking rules
// ---------------------------------------------------------------------------

/// The outcome of checking one node: its type and the two mappings after the
/// check, or the first violated rule.
pub type SpecCheckOutcome = Result<(SpecType, SpecBindings, SpecBindings), SpecCompileError>;

/// The type checker's rules, one case per node kind, in the order the checks
/// run. The mappings thread left to right through every child.
#[verifier::opaque]
pub open spec fn spec_check(
    a: SpecAst,
    locals: SpecBindings,
    functions: SpecBindings,
    ret: Option<SpecType>,
) -> SpecCheckOutcome
    decreases a, 1int, 0int,
{
    match a {
        SpecAst::Number(_) => Ok((SpecType::Number, locals, functions)),
        SpecAst::Bool(_) => Ok((SpecType::Boolean, locals, functions)),
        SpecAst::Undefined => Ok((SpecType::Undefined, locals, functions)),
        SpecAst::Null => Ok((SpecType::Void, locals, functions)),
        SpecAst::Not(e) => match spec_check(*e, locals, functions, ret) {
            Ok(m) => if spec_types_compatible(SpecType::Boolean, m.0) {
                Ok((SpecType::Boolean, m.1, m.2))
            } else {
                Err(SpecCompileError::TypeMismatch(SpecType::Boolean, m.0))
            },
            Err(e) => Err(e),
        },
        SpecAst::Addition(x, y) => spec_check_arithmetic(a, *x, *y, locals, functions, ret),
        SpecAst::Subtraction(x, y) => spec_check_arithmetic(a, *x, *y, locals, functions, ret),
        SpecAst::Multiplication(x, y) => spec_check_arithmetic(a, *x, *y, locals, functions, ret),
        SpecAst::Division(x, y) => spec_check_arithmetic(a, *x, *y, locals, functions, ret),
        SpecAst::Equal(x, y) => spec_check_equality(a, *x, *y, locals, functions, ret),
        SpecAst::NotEqual(x, y) => spec_check_equality(a, *x, *y, locals, functions, ret),
        SpecAst::Var(name, e) => match spec_check(*e, locals, functions, ret) {
            Ok(m) => Ok((SpecType::Void, m.1.push((name, m.0)), m.2)),
            Err(e) => Err(e),
        },
        SpecAst::Identifier(name) => match spec_env_get(locals, name) {
            Option::Some(t) => Ok((t, locals, functions)),
            Option::None => Err(SpecCompileError::UndefinedVariable(name)),
        },
        SpecAst::Assignment(name, e) => match spec_env_get(locals, name) {
            Option::Some(t) => match spec_check(*e, locals, functions, ret) {
                Ok(m) => if spec_types_compatible(t, m.0) {
                    Ok((SpecType::Void, m.1, m.2))
                } else {
                    Err(SpecCompileError::TypeMismatch(t, m.0))
                },
                Err(e) => Err(e),
            },
            Option::None => Err(SpecCompileError::UndefinedVariable(name)),
        },
        SpecAst::ArrayLiteral(es) => if es.len() == 0 {
            Err(SpecCompileError::EmptyArrayLiteral)
        } else {
            match spec_check_all(es, locals, functions, ret) {
                Ok(m) => match spec_check_elements_agree(m.0, 1) {
                    Option::Some(e) => Err(e),
                    Option::None => Ok(
                        (SpecType::Array(Box::new(m.0.last())), m.1, m.2),
                    ),
                },
                Err(e) => Err(e),
            }
        },
        SpecAst::ArrayLength(e) => match spec_check(*e, locals, functions, ret) {
            Ok(m) => if m.0 is Array {
                Ok((SpecType::Number, m.1, m.2))
            } else {
                Err(SpecCompileError::NotAnArray(m.0))
            },
            Err(e) => Err(e),
        },
        SpecAst::ArrayLookup(arr, ix) => match spec_check(*ix, locals, functions, ret) {
            Ok(mi) => if !spec_types_compatible(SpecType::Number, mi.0) {
                Err(SpecCompileError::TypeMismatch(SpecType::Number, mi.0))
            } else {
                match spec_check(*arr, mi.1, mi.2, ret) {
                    Ok(ma) => if ma.0 is Array {
                        Ok((SpecType::Number, ma.1, ma.2))
                    } else {
                        Err(SpecCompileError::NotAnArray(ma.0))
                    },
                    Err(e) => Err(e),
                }
            },
            Err(e) => Err(e),
        },
        SpecAst::Function(name, signature, body) => {
            let functions2 = functions.push((name, signature));
            match signature {
                SpecType::Function(params, rt) => match spec_check(
                    *body,
                    params,
                    functions2,
                    Option::Some(*rt),
                ) {
                    Ok(_) => Ok((SpecType::Void, locals, functions2)),
                    Err(e) => Err(e),
                },
                _ => Err(SpecCompileError::NotAFunction(signature)),
            }
        },
        SpecAst::Call(name, args) => match spec_env_get(functions, name) {
            Option::Some(signature) => match signature {
                SpecType::Function(params, rt) => match spec_check_all(
                    args,
                    locals,
                    functions,
                    ret,
                ) {
                    Ok(m) => match spec_check_arguments(m.0, params, 0) {
                        Option::Some(e) => Err(e),
                        Option::None => Ok((*rt, m.1, m.2)),
                    },
                    Err(e) => Err(e),
                },
                _ => Err(SpecCompileError::NotAFunction(signature)),
            },
            Option::None => Err(SpecCompileError::UndefinedFunction(name)),
        },
        SpecAst::Return(e) => match spec_check(*e, locals, functions, ret) {
            Ok(m) => match ret {
                Option::Some(rt) => if spec_types_compatible(rt, m.0) {
                    Ok((SpecType::Void, m.1, m.2))
                } else {
                    Err(SpecCompileError::TypeMismatch(rt, m.0))
                },
                Option::None => Err(SpecCompileError::ReturnOutsideFunction),
            },
            Err(e) => Err(e),
        },
        SpecAst::If(c, t, e) => match spec_check(*c, locals, functions, ret) {
            Ok(mc) => match spec_check(*t, mc.1, mc.2, ret) {
                Ok(mt) => match spec_check(*e, mt.1, mt.2, ret) {
                    Ok(me) => Ok((SpecType::Void, me.1, me.2)),
                    Err(err) => Err(err),
                },
                Err(err) => Err(err),
            },
            Err(err) => Err(err),
        },
        SpecAst::While(c, b) => match spec_check(*c, locals, functions, ret) {
            Ok(mc) => match spec_check(*b, mc.1, mc.2, ret) {
                Ok(mb) => Ok((SpecType::Void, mb.1, mb.2)),
                Err(err) => Err(err),
            },
            Err(err) => Err(err),
        },
        SpecAst::Block(ss) => match spec_check_all(ss, locals, functions, ret) {
            Ok(m) => Ok((SpecType::Void, m.1, m.2)),
            Err(e) => Err(e),
        },
    }
}

/// Both operands of an arithmetic operator must be numbers; the result is a
/// number. `parent` is the operator node the operands came out of; it only
/// bounds the recursion.
#[verifier::opaque]
pub open spec fn spec_check_arithmetic(
    parent: SpecAst,
    x: SpecAst,
    y: SpecAst,
    locals: SpecBindings,
    functions: SpecBindings,
    ret: Option<SpecType>,
) -> SpecCheckOutcome
    decreases parent, 0int, 0int,
    when decreases_to!(parent => x) && decreases_to!(parent => y)
{
    match spec_check(x, locals, functions, ret) {
        Ok(mx) => if !spec_types_compatible(SpecType::Number, mx.0) {
            Err(SpecCompileError::TypeMismatch(SpecType::Number, mx.0))
        } else {
            match spec_check(y, mx.1, mx.2, ret) {
                Ok(my) => if !spec_types_compatible(SpecType::Number, my.0) {
                    Err(SpecCompileError::TypeMismatch(SpecType::Number, my.0))
                } else {
                    Ok((SpecType::Number, my.1, my.2))
                },
                Err(e) => Err(e),
            }
        },
        Err(e) => Err(e),
    }
}

/// Both operands of an equality operator must agree; the result is a
/// boolean. `parent` is the operator node the operands came out of; it only
/// bounds the recursion.
#[verifier::opaque]
pub open spec fn spec_check_equality(
    parent: SpecAst,
    x: SpecAst,
    y: SpecAst,
    locals: SpecBindings,
    functions: SpecBindings,
    ret: Option<SpecType>,
) -> SpecCheckOutcome
    decreases parent, 0int, 0int,
    when decreases_to!(parent => x) && decreases_to!(parent => y)
{
    match spec_check(x, locals, functions, ret) {
        Ok(mx) => match spec_check(y, mx.1, mx.2, ret) {
            Ok(my) => if spec_types_compatible(mx.0, my.0) {
                Ok((SpecType::Boolean, my.1, my.2))
            } else {
                Err(SpecCompileError::TypeMismatch(mx.0, my.0))
            },
            Err(e) => Err(e),
        },
        Err(e) => Err(e),
    }
}

/// Checks a sequence of nodes in order, threading the mappings, and collects
/// their types.
#[verifier::opaque]
pub open spec fn spec_check_all(
    elements: Seq<SpecAst>,
    locals: SpecBindings,
    functions: SpecBindings,
    ret: Option<SpecType>,
) -> Result<(Seq<SpecType>, SpecBindings, SpecBindings), SpecCompileError>
    decreases elements, 1int, 0int,
{
    if elements.len() == 0 {
        Ok((Seq::empty(), locals, functions))
    } else {
        match spec_check(elements[0], locals, functions, ret) {
            Ok(m) => match spec_check_all(
                elements.subrange(1, elements.len() as int),
                m.1,
                m.2,
                ret,
            ) {
                Ok(rest) => Ok((seq![m.0] + rest.0, rest.1, rest.2)),
                Err(e) => Err(e),
            },
            Err(e) => Err(e),
        }
    }
}

/// Array literal elements must agree pairwise, each with its predecessor;
/// the first mismatch is the error.
pub open spec fn spec_check_elements_agree(ts: Seq<SpecType>, k: int) -> Option<SpecCompileError>
    decreases ts.len() - k,
    when 1 <= k
{
    if k >= ts.len() {
        Option::None
    } else if spec_types_compatible(ts[k - 1], ts[k]) {
        spec_check_elements_agree(ts, k + 1)
    } else {
        Option::Some(SpecCompileError::TypeMismatch(ts[k - 1], ts[k]))
    }
}

/// Call arguments are checked against parameters by position, only as many
/// pairs as the shorter list has.
pub open spec fn spec_check_arguments(
    args: Seq<SpecType>,
    params: Seq<(Seq<char>, SpecType)>,
    k: int,
) -> Option<SpecCompileError>
    decreases args.len() - k,
    when 0 <= k
{
    if k >= args.len() || k >= params.len() {
        Option::None
    } else if spec_types_compatible(args[k], params[k].1) {
        spec_check_arguments(args, params, k + 1)
    } else {
        Option::Some(SpecCompileError::TypeMismatch(args[k], params[k].1))
    }
}


// ---------------------------------------------------------------------------
// Running the checker
// ---------------------------------------------------------------------------

fn elements_agree(ts: &Vec<Type>, k: usize) -> (r: Option<CompileError>)
    requires
        1 <= k,
    ensures
        match r {
            Some(e) => spec_check_elements_agree(types_view(ts@), k as int) == Some(
                error_view(e),
            ),
            None => spec_check_elements_agree(types_view(ts@), k as int) is None,
        },
    decreases ts@.len() - k,
{
    proof {
        lemma_types_view_len(ts@);
    }
    if k >= ts.len() {
        None
    } else {
        if types_compatible(&ts[k - 1], &ts[k]) {
            elements_agree(ts, k + 1)
        } else {
            Some(
                CompileError::TypeMismatch {
                    expected: ts[k - 1].clone(),
                    actual: ts[k].clone(),
                },
            )
        }
    }
}

fn arguments_agree(args: &Vec<Type>, params: &Vec<(String, Type)>, k: usize) -> (r: Option<
    CompileError,
>)
    ensures
        match r {
            Some(e) => spec_check_arguments(types_view(args@), params_view(params@), k as int)
                == Some(error_view(e)),
            None => spec_check_arguments(types_view(args@), params_view(params@), k as int)
                is None,
        },
    decreases args@.len() - k,
{
    proof {
        lemma_types_view_len(args@);
        lemma_params_view_len(params@);
    }
    if k >= args.len() || k >= params.len() {
        None
    } else {
        if types_compatible(&args[k], &params[k].1) {
            arguments_agree(args, params, k + 1)
        } else {
            Some(
                CompileError::TypeMismatch {
                    expected: args[k].clone(),
                    actual: params[k].1.clone(),
                },
            )
        }
    }
}

/// The structural type checker: a locals mapping, a mapping of every
/// function signature seen so far, and the expected return type inside a
/// function body (`None` outside).
pub struct StaticTypeChecker {
    locals: Bindings,
    functions: Bindings,
    current_return_type: Option<Type>,
}

impl StaticTypeChecker {
    pub closed spec fn locals_env(&self) -> SpecBindings {
        self.locals.env()
    }

    pub closed spec fn functions_env(&self) -> SpecBindings {
        self.functions.env()
    }

    pub closed spec fn ret_view(&self) -> Option<SpecType> {
        return_type_view(self.current_return_type)
    }

    /// A checker over the given scopes and expected return type.
    pub fn new(
        locals: Bindings,
        functions: Bindings,
        current_return_type: Option<Type>,
    ) -> (r: StaticTypeChecker)
        ensures
            r.locals_env() == locals.env(),
            r.functions_env() == functions.env(),
            r.ret_view() == return_type_view(current_return_type),
    {
        StaticTypeChecker { locals, functions, current_return_type }
    }

    /// The wildcard-aware agreement check: `Undefined` on either side
    /// passes; otherwise the types must be structurally equal, else the
    /// mismatch is the error.
    pub fn assert_type(lhs: Type, rhs: Type) -> (r: Result<(), CompileError>)
        ensures
            match r {
                Ok(_) => spec_types_compatible(type_view(lhs), type_view(rhs)),
                Err(e) => !spec_types_compatible(type_view(lhs), type_view(rhs)) && error_view(e)
                    == SpecCompileError::TypeMismatch(type_view(lhs), type_view(rhs)),
            },
    {
        if types_compatible(&lhs, &rhs) {
            Ok(())
        } else {
            Err(CompileError::TypeMismatch { expected: lhs, actual: rhs })
        }
    }

    /// Checks one node and yields its type, threading the scopes exactly as
    /// `spec_check` states. The first violated rule aborts the whole check.
    #[verifier::rlimit(100)]
    #[verifier::spinoff_prover]
    pub fn check(&mut self, ast: &Ast) -> (r: Result<Type, CompileError>)
        ensures
            ({
                let m = spec_check(
                    ast_view(*ast),
                    old(self).locals_env(),
                    old(self).functions_env(),
                    old(self).ret_view(),
                );
                match r {
                    Ok(t) => {
                        &&& m matches Ok(mm)
                        &&& mm.0 == type_view(t)
                        &&& mm.1 == final(self).locals_env()
                        &&& mm.2 == final(self).functions_env()
                        &&& final(self).ret_view() == old(self).ret_view()
                    },
                    Err(e) => m matches Err(me) && me == error_view(e),
                }
            }),
        decreases *ast, 1int, 0int,
    {
        proof {
            reveal(spec_check);
        }
        match ast {
            Ast::Number(_) => {
                proof {
                    assert(spec_check(
                        ast_view(*ast),
                        old(self).locals_env(),
                        old(self).functions_env(),
                        old(self).ret_view(),
                    ) == Ok::<_, SpecCompileError>((
                        SpecType::Number,
                        old(self).locals_env(),
                        old(self).functions_env(),
                    )));
                    assert(type_view(Type::Number) == SpecType::Number);
                }
                Ok(Type::Number)
            },
            Ast::Bool(_) => {
                proof {
                    assert(spec_check(
                        ast_view(*ast),
                        old(self).locals_env(),
                        old(self).functions_env(),
                        old(self).ret_view(),
                    ) == Ok::<_, SpecCompileError>((
                        SpecType::Boolean,
                        old(self).locals_env(),
                        old(self).functions_env(),
                    )));
                    assert(type_view(Type::Boolean) == SpecType::Boolean);
                }
                Ok(Type::Boolean)
            },
            Ast::Undefined => {
                proof {
                    assert(spec_check(
                        ast_view(*ast),
                        old(self).locals_env(),
                        old(self).functions_env(),
                        old(self).ret_view(),
                    ) == Ok::<_, SpecCompileError>((
                        SpecType::Undefined,
                        old(self).locals_env(),
                        old(self).functions_env(),
                    )));
                    assert(type_view(Type::Undefined) == SpecType::Undefined);
                }
                Ok(Type::Undefined)
            },
            Ast::Null => {
                proof {
                    assert(spec_check(
                        ast_view(*ast),
                        old(self).locals_env(),
                        old(self).functions_env(),
                        old(self).ret_view(),
                    ) == Ok::<_, SpecCompileError>((
                        SpecType::Void,
                        old(self).locals_env(),
                        old(self).functions_env(),
                    )));
                    assert(type_view(Type::Void) == SpecType::Void);
                }
                Ok(Type::Void)
            },
            Ast::Not(e) => match self.check(e) {
                Ok(t) => {
                    if types_compatible(&Type::Boolean, &t) {
                        proof {
                            let m = spec_check(
                                ast_view(*ast),
                                old(self).locals_env(),
                                old(self).functions_env(),
                                old(self).ret_view(),
                            );
                            assert(m matches Ok(mm) && mm.1 == self.locals_env() && mm.2
                                == self.functions_env());
                            assert(m->Ok_0.0 == type_view(Type::Boolean));
                        }
                        Ok(Type::Boolean)
                    } else {
                        { let cerr = CompileError::TypeMismatch { expected: Type::Boolean, actual: t }; proof {
                assert(spec_check(
                    ast_view(*ast),
                    old(self).locals_env(),
                    old(self).functions_env(),
                    old(self).ret_view(),
                ) is Err);
                assert(({
                    let m = spec_check(
                        ast_view(*ast),
                        old(self).locals_env(),
                        old(self).functions_env(),
                        old(self).ret_view(),
                    );
                    m matches Err(me) && me == error_view(cerr)
                }));
            } Err(cerr) }
                    }
                },
                Err(e) => { proof {
                assert(spec_check(
                    ast_view(*ast),
                    old(self).locals_env(),
                    old(self).functions_env(),
                    old(self).ret_view(),
                ) is Err);
                assert(({
                    let m = spec_check(
                        ast_view(*ast),
                        old(self).locals_env(),
                        old(self).functions_env(),
                        old(self).ret_view(),
                    );
                    m matches Err(me) && me == error_view(e)
                }));
            } Err(e) },
            },
            Ast::Addition(x, y) => {
                proof {
                    assert(decreases_to!(*ast => **x));
                    assert(decreases_to!(*ast => **y));
                    assert(decreases_to!(ast_view(*ast) => ast_view(**x)));
                    assert(decreases_to!(ast_view(*ast) => ast_view(**y)));
                    assert(spec_check(
                        ast_view(*ast),
                        old(self).locals_env(),
                        old(self).functions_env(),
                        old(self).ret_view(),
                    ) == spec_check_arithmetic(
                        ast_view(*ast),
                        ast_view(**x),
                        ast_view(**y),
                        old(self).locals_env(),
                        old(self).functions_env(),
                        old(self).ret_view(),
                    ));
                }
                self.check_arithmetic_pair(ast, x, y)
            },
            Ast::Subtraction(x, y) => {
                proof {
                    assert(decreases_to!(*ast => **x));
                    assert(decreases_to!(*ast => **y));
                    assert(decreases_to!(ast_view(*ast) => ast_view(**x)));
                    assert(decreases_to!(ast_view(*ast) => ast_view(**y)));
                    assert(spec_check(
                        ast_view(*ast),
                        old(self).locals_env(),
                        old(self).functions_env(),
                        old(self).ret_view(),
                    ) == spec_check_arithmetic(
                        ast_view(*ast),
                        ast_view(**x),
                        ast_view(**y),
                        old(self).locals_env(),
                        old(self).functions_env(),
                        old(self).ret_view(),
                    ));
                }
                self.check_arithmetic_pair(ast, x, y)
            },
            Ast::Multiplication(x, y) => {
                proof {
                    assert(decreases_to!(*ast => **x));
                    assert(decreases_to!(*ast => **y));
                    assert(decreases_to!(ast_view(*ast) => ast_view(**x)));
                    assert(decreases_to!(ast_view(*ast) => ast_view(**y)));
                    assert(spec_check(
                        ast_view(*ast),
                        old(self).locals_env(),
                        old(self).functions_env(),
                        old(self).ret_view(),
                    ) == spec_check_arithmetic(
                        ast_view(*ast),
                        ast_view(**x),
                        ast_view(**y),
                        old(self).locals_env(),
                        old(self).functions_env(),
                        old(self).ret_view(),
                    ));
                }
                self.check_arithmetic_pair(ast, x, y)
            },
            Ast::Division(x, y) => {
                proof {
                    assert(decreases_to!(*ast => **x));
                    assert(decreases_to!(*ast => **y));
                    assert(decreases_to!(ast_view(*ast) => ast_view(**x)));
                    assert(decreases_to!(ast_view(*ast) => ast_view(**y)));
                    assert(spec_check(
                        ast_view(*ast),
                        old(self).locals_env(),
                        old(self).functions_env(),
                        old(self).ret_view(),
                    ) == spec_check_arithmetic(
                        ast_view(*ast),
                        ast_view(**x),
                        ast_view(**y),
                        old(self).locals_env(),
                        old(self).functions_env(),
                        old(self).ret_view(),
                    ));
                }
                self.check_arithmetic_pair(ast, x, y)
            },
            Ast::Equal(x, y) => {
                proof {
                    assert(decreases_to!(*ast => **x));
                    assert(decreases_to!(*ast => **y));
                    assert(decreases_to!(ast_view(*ast) => ast_view(**x)));
                    assert(decreases_to!(ast_view(*ast) => ast_view(**y)));
                    assert(spec_check(
                        ast_view(*ast),
                        old(self).locals_env(),
                        old(self).functions_env(),
                        old(self).ret_view(),
                    ) == spec_check_equality(
                        ast_view(*ast),
                        ast_view(**x),
                        ast_view(**y),
                        old(self).locals_env(),
                        old(self).functions_env(),
                        old(self).ret_view(),
                    ));
                }
                self.check_equality_pair(ast, x, y)
            },
            Ast::NotEqual(x, y) => {
                proof {
                    assert(decreases_to!(*ast => **x));
                    assert(decreases_to!(*ast => **y));
                    assert(decreases_to!(ast_view(*ast) => ast_view(**x)));
                    assert(decreases_to!(ast_view(*ast) => ast_view(**y)));
                    assert(spec_check(
                        ast_view(*ast),
                        old(self).locals_env(),
                        old(self).functions_env(),
                        old(self).ret_view(),
                    ) == spec_check_equality(
                        ast_view(*ast),
                        ast_view(**x),
                        ast_view(**y),
                        old(self).locals_env(),
                        old(self).functions_env(),
                        old(self).ret_view(),
                    ));
                }
                self.check_equality_pair(ast, x, y)
            },
            Ast::Var(name, e) => match self.check(e) {
                Ok(t) => {
                    self.locals.insert(name.clone(), t);
                    proof {
                        let m = spec_check(
                            ast_view(*ast),
                            old(self).locals_env(),
                            old(self).functions_env(),
                            old(self).ret_view(),
                        );
                        assert(m matches Ok(mm) && mm.0 == type_view(Type::Void) && mm.1
                            == self.locals_env() && mm.2 == self.functions_env());
                    }
                    Ok(Type::Void)
                },
                Err(e) => { proof {
                assert(spec_check(
                    ast_view(*ast),
                    old(self).locals_env(),
                    old(self).functions_env(),
                    old(self).ret_view(),
                ) is Err);
                assert(({
                    let m = spec_check(
                        ast_view(*ast),
                        old(self).locals_env(),
                        old(self).functions_env(),
                        old(self).ret_view(),
                    );
                    m matches Err(me) && me == error_view(e)
                }));
            } Err(e) },
            },
            Ast::Identifier(name) => match self.locals.get(name) {
                Some(t) => {
                    let out = t.clone();
                    proof {
                        let m = spec_check(
                            ast_view(*ast),
                            old(self).locals_env(),
                            old(self).functions_env(),
                            old(self).ret_view(),
                        );
                        assert(m matches Ok(mm) && mm.0 == type_view(out) && mm.1
                            == self.locals_env() && mm.2 == self.functions_env());
                    }
                    Ok(out)
                },
                None => { let cerr = CompileError::UndefinedVariable(name.clone()); proof {
                assert(spec_check(
                    ast_view(*ast),
                    old(self).locals_env(),
                    old(self).functions_env(),
                    old(self).ret_view(),
                ) is Err);
                assert(({
                    let m = spec_check(
                        ast_view(*ast),
                        old(self).locals_env(),
                        old(self).functions_env(),
                        old(self).ret_view(),
                    );
                    m matches Err(me) && me == error_view(cerr)
                }));
            } Err(cerr) },
            },
            Ast::Assignment(name, e) => {
                let looked_up = self.locals.get(name);
                proof {
                    assert(looked_up is None ==> spec_env_get(
                        old(self).locals_env(),
                        name@,
                    ) is None);
                }
                let declared = match looked_up {
                    Some(t) => Some(t.clone()),
                    None => None,
                };
                proof {
                    assert(declared is None ==> spec_env_get(
                        old(self).locals_env(),
                        name@,
                    ) is None);
                    assert(ast_view(*ast) == SpecAst::Assignment(
                        name@,
                        Box::new(ast_view(**e)),
                    ));
                }
                match declared {
                    Some(t) => match self.check(e) {
                        Ok(t2) => {
                            if types_compatible(&t, &t2) {
                        proof {
                            let m = spec_check(
                                ast_view(*ast),
                                old(self).locals_env(),
                                old(self).functions_env(),
                                old(self).ret_view(),
                            );
                            assert(m matches Ok(mm) && mm.1 == self.locals_env() && mm.2
                                == self.functions_env());
                            assert(m->Ok_0.0 == type_view(Type::Void));
                        }
                                Ok(Type::Void)
                            } else {
                                { let cerr = CompileError::TypeMismatch { expected: t, actual: t2 }; proof {
                assert(spec_check(
                    ast_view(*ast),
                    old(self).locals_env(),
                    old(self).functions_env(),
                    old(self).ret_view(),
                ) is Err);
                assert(({
                    let m = spec_check(
                        ast_view(*ast),
                        old(self).locals_env(),
                        old(self).functions_env(),
                        old(self).ret_view(),
                    );
                    m matches Err(me) && me == error_view(cerr)
                }));
            } Err(cerr) }
                            }
                        },
                        Err(e) => { proof {
                assert(spec_check(
                    ast_view(*ast),
                    old(self).locals_env(),
                    old(self).functions_env(),
                    old(self).ret_view(),
                ) is Err);
                assert(({
                    let m = spec_check(
                        ast_view(*ast),
                        old(self).locals_env(),
                        old(self).functions_env(),
                        old(self).ret_view(),
                    );
                    m matches Err(me) && me == error_view(e)
                }));
            } Err(e) },
                    },
                    None => { let cerr = CompileError::UndefinedVariable(name.clone()); proof {
                assert(error_view(cerr) == SpecCompileError::UndefinedVariable(name@));
                assert(spec_check(
                    ast_view(*ast),
                    old(self).locals_env(),
                    old(self).functions_env(),
                    old(self).ret_view(),
                ) is Err);
                assert(({
                    let m = spec_check(
                        ast_view(*ast),
                        old(self).locals_env(),
                        old(self).functions_env(),
                        old(self).ret_view(),
                    );
                    m matches Err(me) && me == error_view(cerr)
                }));
            } Err(cerr) },
                }
            },
            Ast::ArrayLiteral(es) => {
                proof {
                    crate::ast::lemma_asts_view_len(es@);
                    assert(ast_view(*ast) == SpecAst::ArrayLiteral(asts_view(es@)));
                }
                if es.len() == 0 {
                    { let cerr = CompileError::EmptyArrayLiteral; proof {
                assert(spec_check(
                    ast_view(*ast),
                    old(self).locals_env(),
                    old(self).functions_env(),
                    old(self).ret_view(),
                ) is Err);
                assert(({
                    let m = spec_check(
                        ast_view(*ast),
                        old(self).locals_env(),
                        old(self).functions_env(),
                        old(self).ret_view(),
                    );
                    m matches Err(me) && me == error_view(cerr)
                }));
            } Err(cerr) }
                } else {
                    proof {
                        assert(es@.subrange(0, es@.len() as int) =~= es@);
                    }
                    match self.check_seq(es, 0) {
                        Ok(ts) => match elements_agree(&ts, 1) {
                            Some(e) => Err(e),
                            None => {
                                proof {
                                    lemma_types_view_len(ts@);
                                    assert(types_view(ts@).last() == type_view(
                                        ts@[ts@.len() - 1],
                                    ));
                                }
                                let last = ts[ts.len() - 1].clone();
                                let ghost lv = type_view(last);
                                let node = Type::Array { element_type: Box::new(last) };
                                proof {
                                    assert(type_view(node) == SpecType::Array(Box::new(lv)));
                                    assert(spec_check(
                                        ast_view(*ast),
                                        old(self).locals_env(),
                                        old(self).functions_env(),
                                        old(self).ret_view(),
                                    ) matches Ok(mm) && mm.0 == type_view(node) && mm.1
                                        == self.locals_env() && mm.2 == self.functions_env());
                                }
                                Ok(node)
                            },
                        },
                        Err(e) => { proof {
                assert(spec_check(
                    ast_view(*ast),
                    old(self).locals_env(),
                    old(self).functions_env(),
                    old(self).ret_view(),
                ) is Err);
                assert(({
                    let m = spec_check(
                        ast_view(*ast),
                        old(self).locals_env(),
                        old(self).functions_env(),
                        old(self).ret_view(),
                    );
                    m matches Err(me) && me == error_view(e)
                }));
            } Err(e) },
                    }
                }
            },
            Ast::ArrayLength(e) => match self.check(e) {
                Ok(t) => match t {
                    Type::Array { .. } => {
                        proof {
                            let m = spec_check(
                                ast_view(*ast),
                                old(self).locals_env(),
                                old(self).functions_env(),
                                old(self).ret_view(),
                            );
                            assert(m matches Ok(mm) && mm.1 == self.locals_env() && mm.2
                                == self.functions_env());
                            assert(m->Ok_0.0 == type_view(Type::Number));
                        }
                        Ok(Type::Number)
                    },
                    _ => { let cerr = CompileError::NotAnArray(t); proof {
                assert(spec_check(
                    ast_view(*ast),
                    old(self).locals_env(),
                    old(self).functions_env(),
                    old(self).ret_view(),
                ) is Err);
                assert(({
                    let m = spec_check(
                        ast_view(*ast),
                        old(self).locals_env(),
                        old(self).functions_env(),
                        old(self).ret_view(),
                    );
                    m matches Err(me) && me == error_view(cerr)
                }));
            } Err(cerr) },
                },
                Err(e) => { proof {
                assert(spec_check(
                    ast_view(*ast),
                    old(self).locals_env(),
                    old(self).functions_env(),
                    old(self).ret_view(),
                ) is Err);
                assert(({
                    let m = spec_check(
                        ast_view(*ast),
                        old(self).locals_env(),
                        old(self).functions_env(),
                        old(self).ret_view(),
                    );
                    m matches Err(me) && me == error_view(e)
                }));
            } Err(e) },
            },
            Ast::ArrayLookup(arr, ix) => match self.check(ix) {
                Ok(ti) => {
                    if !types_compatible(&Type::Number, &ti) {
                        { let cerr = CompileError::TypeMismatch { expected: Type::Number, actual: ti }; proof {
                assert(spec_check(
                    ast_view(*ast),
                    old(self).locals_env(),
                    old(self).functions_env(),
                    old(self).ret_view(),
                ) is Err);
                assert(({
                    let m = spec_check(
                        ast_view(*ast),
                        old(self).locals_env(),
                        old(self).functions_env(),
                        old(self).ret_view(),
                    );
                    m matches Err(me) && me == error_view(cerr)
                }));
            } Err(cerr) }
                    } else {
                        match self.check(arr) {
                            Ok(ta) => match ta {
                                Type::Array { .. } => {
                        proof {
                            let m = spec_check(
                                ast_view(*ast),
                                old(self).locals_env(),
                                old(self).functions_env(),
                                old(self).ret_view(),
                            );
                            assert(m matches Ok(mm) && mm.1 == self.locals_env() && mm.2
                                == self.functions_env());
                            assert(m->Ok_0.0 == type_view(Type::Number));
                        }
                                    Ok(Type::Number)
                                },
                                _ => { let cerr = CompileError::NotAnArray(ta); proof {
                assert(spec_check(
                    ast_view(*ast),
                    old(self).locals_env(),
                    old(self).functions_env(),
                    old(self).ret_view(),
                ) is Err);
                assert(({
                    let m = spec_check(
                        ast_view(*ast),
                        old(self).locals_env(),
                        old(self).functions_env(),
                        old(self).ret_view(),
                    );
                    m matches Err(me) && me == error_view(cerr)
                }));
            } Err(cerr) },
                            },
                            Err(e) => { proof {
                assert(spec_check(
                    ast_view(*ast),
                    old(self).locals_env(),
                    old(self).functions_env(),
                    old(self).ret_view(),
                ) is Err);
                assert(({
                    let m = spec_check(
                        ast_view(*ast),
                        old(self).locals_env(),
                        old(self).functions_env(),
                        old(self).ret_view(),
                    );
                    m matches Err(me) && me == error_view(e)
                }));
            } Err(e) },
                        }
                    }
                },
                Err(e) => { proof {
                assert(spec_check(
                    ast_view(*ast),
                    old(self).locals_env(),
                    old(self).functions_env(),
                    old(self).ret_view(),
                ) is Err);
                assert(({
                    let m = spec_check(
                        ast_view(*ast),
                        old(self).locals_env(),
                        old(self).functions_env(),
                        old(self).ret_view(),
                    );
                    m matches Err(me) && me == error_view(e)
                }));
            } Err(e) },
            },
            Ast::Function(name, signature, body) => {
                self.functions.insert(name.clone(), signature.clone());
                match signature {
                    Type::Function { parameter_types, return_type } => {
                        proof {
                            assert(type_view(*signature) == SpecType::Function(
                                params_view(parameter_types@),
                                Box::new(type_view(**return_type)),
                            ));
                        }
                        let ghost pre = parameter_types@;
                        let params = clone_params(parameter_types, 0, Vec::new());
                        proof {
                            assert(pre.subrange(0, pre.len() as int) =~= pre);
                            assert(params_view(Seq::<(String, Type)>::empty()) + params_view(pre)
                                =~~= params_view(pre));
                        }
                        let mut child = StaticTypeChecker::new(
                            Bindings::from_entries(params),
                            self.functions.clone(),
                            Some((**return_type).clone()),
                        );
                        match child.check(body) {
                            Ok(_) => {
                                proof {
                                    assert(spec_check(
                                        ast_view(*ast),
                                        old(self).locals_env(),
                                        old(self).functions_env(),
                                        old(self).ret_view(),
                                    ) matches Ok(mm) && mm.0 == SpecType::Void && mm.1
                                        == self.locals_env() && mm.2 == self.functions_env());
                                }
                                Ok(Type::Void)
                            },
                            Err(e) => { proof {
                assert(spec_check(
                    ast_view(*ast),
                    old(self).locals_env(),
                    old(self).functions_env(),
                    old(self).ret_view(),
                ) is Err);
                assert(({
                    let m = spec_check(
                        ast_view(*ast),
                        old(self).locals_env(),
                        old(self).functions_env(),
                        old(self).ret_view(),
                    );
                    m matches Err(me) && me == error_view(e)
                }));
            } Err(e) },
                        }
                    },
                    _ => { let cerr = CompileError::NotAFunction(signature.clone()); proof {
                assert(spec_check(
                    ast_view(*ast),
                    old(self).locals_env(),
                    old(self).functions_env(),
                    old(self).ret_view(),
                ) is Err);
                assert(({
                    let m = spec_check(
                        ast_view(*ast),
                        old(self).locals_env(),
                        old(self).functions_env(),
                        old(self).ret_view(),
                    );
                    m matches Err(me) && me == error_view(cerr)
                }));
            } Err(cerr) },
                }
            },
            Ast::Call(name, args) => {
                let signature = match self.functions.get(name) {
                    Some(t) => Some(t.clone()),
                    None => None,
                };
                match signature {
                    Some(sig) => match &sig {
                        Type::Function { parameter_types, return_type } => {
                            proof {
                                assert(args@.subrange(0, args@.len() as int) =~= args@);
                                assert(type_view(sig) == SpecType::Function(
                                    params_view(parameter_types@),
                                    Box::new(type_view(**return_type)),
                                ));
                            }
                            match self.check_seq(args, 0) {
                                Ok(ts) => match arguments_agree(&ts, parameter_types, 0) {
                                    Some(e) => Err(e),
                                    None => {
                                        let out = (**return_type).clone();
                                        proof {
                                            assert(spec_check(
                                                ast_view(*ast),
                                                old(self).locals_env(),
                                                old(self).functions_env(),
                                                old(self).ret_view(),
                                            ) matches Ok(mm) && mm.0 == type_view(out) && mm.1
                                                == self.locals_env() && mm.2
                                                == self.functions_env());
                                        }
                                        Ok(out)
                                    },
                                },
                                Err(e) => { proof {
                assert(spec_check(
                    ast_view(*ast),
                    old(self).locals_env(),
                    old(self).functions_env(),
                    old(self).ret_view(),
                ) is Err);
                assert(({
                    let m = spec_check(
                        ast_view(*ast),
                        old(self).locals_env(),
                        old(self).functions_env(),
                        old(self).ret_view(),
                    );
                    m matches Err(me) && me == error_view(e)
                }));
            } Err(e) },
                            }
                        },
                        _ => { let cerr = CompileError::NotAFunction(sig.clone()); proof {
                assert(spec_check(
                    ast_view(*ast),
                    old(self).locals_env(),
                    old(self).functions_env(),
                    old(self).ret_view(),
                ) is Err);
                assert(({
                    let m = spec_check(
                        ast_view(*ast),
                        old(self).locals_env(),
                        old(self).functions_env(),
                        old(self).ret_view(),
                    );
                    m matches Err(me) && me == error_view(cerr)
                }));
            } Err(cerr) },
                    },
                    None => { let cerr = CompileError::UndefinedFunction(name.clone()); proof {
                assert(spec_check(
                    ast_view(*ast),
                    old(self).locals_env(),
                    old(self).functions_env(),
                    old(self).ret_view(),
                ) is Err);
                assert(({
                    let m = spec_check(
                        ast_view(*ast),
                        old(self).locals_env(),
                        old(self).functions_env(),
                        old(self).ret_view(),
                    );
                    m matches Err(me) && me == error_view(cerr)
                }));
            } Err(cerr) },
                }
            },
            Ast::Return(e) => match self.check(e) {
                Ok(t) => {
                    let expected = match &self.current_return_type {
                        Some(rt) => Some(rt.clone()),
                        None => None,
                    };
                    match expected {
                        Some(rt) => {
                            if types_compatible(&rt, &t) {
                                proof {
                                    assert(spec_check(
                                        ast_view(*ast),
                                        old(self).locals_env(),
                                        old(self).functions_env(),
                                        old(self).ret_view(),
                                    ) matches Ok(mm) && mm.0 == SpecType::Void && mm.1
                                        == self.locals_env() && mm.2 == self.functions_env());
                                }
                                Ok(Type::Void)
                            } else {
                                { let cerr = CompileError::TypeMismatch { expected: rt, actual: t }; proof {
                assert(spec_check(
                    ast_view(*ast),
                    old(self).locals_env(),
                    old(self).functions_env(),
                    old(self).ret_view(),
                ) is Err);
                assert(({
                    let m = spec_check(
                        ast_view(*ast),
                        old(self).locals_env(),
                        old(self).functions_env(),
                        old(self).ret_view(),
                    );
                    m matches Err(me) && me == error_view(cerr)
                }));
            } Err(cerr) }
                            }
                        },
                        None => { let cerr = CompileError::ReturnOutsideFunction; proof {
                assert(spec_check(
                    ast_view(*ast),
                    old(self).locals_env(),
                    old(self).functions_env(),
                    old(self).ret_view(),
                ) is Err);
                assert(({
                    let m = spec_check(
                        ast_view(*ast),
                        old(self).locals_env(),
                        old(self).functions_env(),
                        old(self).ret_view(),
                    );
                    m matches Err(me) && me == error_view(cerr)
                }));
            } Err(cerr) },
                    }
                },
                Err(e) => { proof {
                assert(spec_check(
                    ast_view(*ast),
                    old(self).locals_env(),
                    old(self).functions_env(),
                    old(self).ret_view(),
                ) is Err);
                assert(({
                    let m = spec_check(
                        ast_view(*ast),
                        old(self).locals_env(),
                        old(self).functions_env(),
                        old(self).ret_view(),
                    );
                    m matches Err(me) && me == error_view(e)
                }));
            } Err(e) },
            },
            Ast::If(c, t, e) => match self.check(c) {
                Ok(_) => match self.check(t) {
                    Ok(_) => match self.check(e) {
                        Ok(_) => {
                        proof {
                            let m = spec_check(
                                ast_view(*ast),
                                old(self).locals_env(),
                                old(self).functions_env(),
                                old(self).ret_view(),
                            );
                            assert(m matches Ok(mm) && mm.1 == self.locals_env() && mm.2
                                == self.functions_env());
                            assert(m->Ok_0.0 == type_view(Type::Void));
                        }
                            Ok(Type::Void)
                        },
                        Err(err) => { proof {
                assert(spec_check(
                    ast_view(*ast),
                    old(self).locals_env(),
                    old(self).functions_env(),
                    old(self).ret_view(),
                ) is Err);
                assert(({
                    let m = spec_check(
                        ast_view(*ast),
                        old(self).locals_env(),
                        old(self).functions_env(),
                        old(self).ret_view(),
                    );
                    m matches Err(me) && me == error_view(err)
                }));
            } Err(err) },
                    },
                    Err(err) => { proof {
                assert(spec_check(
                    ast_view(*ast),
                    old(self).locals_env(),
                    old(self).functions_env(),
                    old(self).ret_view(),
                ) is Err);
                assert(({
                    let m = spec_check(
                        ast_view(*ast),
                        old(self).locals_env(),
                        old(self).functions_env(),
                        old(self).ret_view(),
                    );
                    m matches Err(me) && me == error_view(err)
                }));
            } Err(err) },
                },
                Err(err) => { proof {
                assert(spec_check(
                    ast_view(*ast),
                    old(self).locals_env(),
                    old(self).functions_env(),
                    old(self).ret_view(),
                ) is Err);
                assert(({
                    let m = spec_check(
                        ast_view(*ast),
                        old(self).locals_env(),
                        old(self).functions_env(),
                        old(self).ret_view(),
                    );
                    m matches Err(me) && me == error_view(err)
                }));
            } Err(err) },
            },
            Ast::While(c, b) => match self.check(c) {
                Ok(_) => match self.check(b) {
                    Ok(_) => {
                        proof {
                            let m = spec_check(
                                ast_view(*ast),
                                old(self).locals_env(),
                                old(self).functions_env(),
                                old(self).ret_view(),
                            );
                            assert(m matches Ok(mm) && mm.1 == self.locals_env() && mm.2
                                == self.functions_env());
                            assert(m->Ok_0.0 == type_view(Type::Void));
                        }
                        Ok(Type::Void)
                    },
                    Err(err) => { proof {
                assert(spec_check(
                    ast_view(*ast),
                    old(self).locals_env(),
                    old(self).functions_env(),
                    old(self).ret_view(),
                ) is Err);
                assert(({
                    let m = spec_check(
                        ast_view(*ast),
                        old(self).locals_env(),
                        old(self).functions_env(),
                        old(self).ret_view(),
                    );
                    m matches Err(me) && me == error_view(err)
                }));
            } Err(err) },
                },
                Err(err) => { proof {
                assert(spec_check(
                    ast_view(*ast),
                    old(self).locals_env(),
                    old(self).functions_env(),
                    old(self).ret_view(),
                ) is Err);
                assert(({
                    let m = spec_check(
                        ast_view(*ast),
                        old(self).locals_env(),
                        old(self).functions_env(),
                        old(self).ret_view(),
                    );
                    m matches Err(me) && me == error_view(err)
                }));
            } Err(err) },
            },
            Ast::Block(ss) => {
                proof {
                    assert(ss@.subrange(0, ss@.len() as int) =~= ss@);
                }
                match self.check_seq(ss, 0) {
                Ok(_) => {
                        proof {
                            let m = spec_check(
                                ast_view(*ast),
                                old(self).locals_env(),
                                old(self).functions_env(),
                                old(self).ret_view(),
                            );
                            assert(m matches Ok(mm) && mm.1 == self.locals_env() && mm.2
                                == self.functions_env());
                            assert(m->Ok_0.0 == type_view(Type::Void));
                        }
                    Ok(Type::Void)
                },
                Err(e) => { proof {
                assert(spec_check(
                    ast_view(*ast),
                    old(self).locals_env(),
                    old(self).functions_env(),
                    old(self).ret_view(),
                ) is Err);
                assert(({
                    let m = spec_check(
                        ast_view(*ast),
                        old(self).locals_env(),
                        old(self).functions_env(),
                        old(self).ret_view(),
                    );
                    m matches Err(me) && me == error_view(e)
                }));
            } Err(e) },
                }
            },
        }
    }

    #[verifier::rlimit(100)]
    #[verifier::spinoff_prover]
    fn check_arithmetic_pair(&mut self, parent: &Ast, x: &Ast, y: &Ast) -> (r: Result<
        Type,
        CompileError,
    >)
        requires
            decreases_to!(*parent => *x),
            decreases_to!(*parent => *y),
            decreases_to!(ast_view(*parent) => ast_view(*x)),
            decreases_to!(ast_view(*parent) => ast_view(*y)),
        ensures
            ({
                let m = spec_check_arithmetic(
                    ast_view(*parent),
                    ast_view(*x),
                    ast_view(*y),
                    old(self).locals_env(),
                    old(self).functions_env(),
                    old(self).ret_view(),
                );
                match r {
                    Ok(t) => {
                        &&& m matches Ok(mm)
                        &&& mm.0 == type_view(t)
                        &&& mm.1 == final(self).locals_env()
                        &&& mm.2 == final(self).functions_env()
                        &&& final(self).ret_view() == old(self).ret_view()
                    },
                    Err(e) => m matches Err(me) && me == error_view(e),
                }
            }),
        decreases *parent, 0int, 0int,
    {
        proof {
            reveal(spec_check_arithmetic);
        }
        match self.check(x) {
            Ok(tx) => {
                if !types_compatible(&Type::Number, &tx) {
                    Err(CompileError::TypeMismatch { expected: Type::Number, actual: tx })
                } else {
                    match self.check(y) {
                        Ok(ty) => {
                            if !types_compatible(&Type::Number, &ty) {
                                Err(
                                    CompileError::TypeMismatch {
                                        expected: Type::Number,
                                        actual: ty,
                                    },
                                )
                            } else {
                                Ok(Type::Number)
                            }
                        },
                        Err(e) => Err(e),
                    }
                }
            },
            Err(e) => Err(e),
        }
    }

    #[verifier::rlimit(100)]
    #[verifier::spinoff_prover]
    fn check_equality_pair(&mut self, parent: &Ast, x: &Ast, y: &Ast) -> (r: Result<
        Type,
        CompileError,
    >)
        requires
            decreases_to!(*parent => *x),
            decreases_to!(*parent => *y),
            decreases_to!(ast_view(*parent) => ast_view(*x)),
            decreases_to!(ast_view(*parent) => ast_view(*y)),
        ensures
            ({
                let m = spec_check_equality(
                    ast_view(*parent),
                    ast_view(*x),
                    ast_view(*y),
                    old(self).locals_env(),
                    old(self).functions_env(),
                    old(self).ret_view(),
                );
                match r {
                    Ok(t) => {
                        &&& m matches Ok(mm)
                        &&& mm.0 == type_view(t)
                        &&& mm.1 == final(self).locals_env()
                        &&& mm.2 == final(self).functions_env()
                        &&& final(self).ret_view() == old(self).ret_view()
                    },
                    Err(e) => m matches Err(me) && me == error_view(e),
                }
            }),
        decreases *parent, 0int, 0int,
    {
        proof {
            reveal(spec_check_equality);
        }
        match self.check(x) {
            Ok(tx) => match self.check(y) {
                Ok(ty) => {
                    if types_compatible(&tx, &ty) {
                        Ok(Type::Boolean)
                    } else {
                        Err(CompileError::TypeMismatch { expected: tx, actual: ty })
                    }
                },
                Err(e) => Err(e),
            },
            Err(e) => Err(e),
        }
    }

    #[verifier::rlimit(100)]
    #[verifier::spinoff_prover]
    fn check_seq(&mut self, elements: &Vec<Ast>, k: usize) -> (r: Result<Vec<Type>, CompileError>)
        requires
            k <= elements@.len(),
        ensures
            ({
                let m = spec_check_all(
                    asts_view(elements@.subrange(k as int, elements@.len() as int)),
                    old(self).locals_env(),
                    old(self).functions_env(),
                    old(self).ret_view(),
                );
                match r {
                    Ok(ts) => {
                        &&& m matches Ok(mm)
                        &&& ts@.len() == elements@.len() - k
                        &&& mm.0 == types_view(ts@)
                        &&& mm.1 == final(self).locals_env()
                        &&& mm.2 == final(self).functions_env()
                        &&& final(self).ret_view() == old(self).ret_view()
                    },
                    Err(e) => m matches Err(me) && me == error_view(e),
                }
            }),
        decreases elements@, 1int, elements@.len() - k,
    {
        proof {
            reveal_with_fuel(spec_check_all, 2);
        }
        let ghost sub = elements@.subrange(k as int, elements@.len() as int);
        proof {
            crate::ast::lemma_asts_view_len(sub);
        }
        if k == elements.len() {
            proof {
                assert(asts_view(sub).len() == 0);
                assert(types_view(Seq::<Type>::empty()) == Seq::<SpecType>::empty());
            }
            Ok(Vec::new())
        } else {
            proof {
                assert(sub[0] == elements@[k as int]);
                assert(sub.subrange(1, sub.len() as int) =~= elements@.subrange(
                    k + 1,
                    elements@.len() as int,
                ));
                assert(asts_view(sub) == seq![ast_view(sub[0])] + asts_view(
                    sub.subrange(1, sub.len() as int),
                ));
                assert(asts_view(sub)[0] == ast_view(elements@[k as int]));
                assert(asts_view(sub).subrange(1, asts_view(sub).len() as int) =~~= asts_view(
                    elements@.subrange(k + 1, elements@.len() as int),
                ));
            }
            match self.check(&elements[k]) {
                Ok(t) => match self.check_seq(elements, k + 1) {
                    Ok(mut ts) => {
                        let ghost tv = type_view(t);
                        let ghost pre = ts@;
                        ts.insert(0, t);
                        proof {
                            assert(ts@.subrange(1, ts@.len() as int) =~= pre);
                            assert(types_view(ts@) == seq![type_view(ts@[0])] + types_view(
                                ts@.subrange(1, ts@.len() as int),
                            ));
                            assert(seq![type_view(ts@[0])] + types_view(pre) =~~= seq![tv]
                                + types_view(pre));
                        }
                        Ok(ts)
                    },
                    Err(e) => Err(e),
                },
                Err(e) => Err(e),
            }
        }
    }
}

} // verus!
