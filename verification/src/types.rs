//! The language's types, their structural equality, and the compilation
//! errors.

use vstd::prelude::*;

verus! {

/// A type of the checked language. `Undefined` is a wildcard that compares
/// equal to anything during checks; `Function` carries its parameters as an
/// ordered name-to-type mapping.
#[derive(Debug)]
pub enum Type {
    Boolean,
    Number,
    Void,
    Undefined,
    Array { element_type: Box<Type> },
    Function { parameter_types: Vec<(String, Type)>, return_type: Box<Type> },
}

/// The mathematical form of a `Type`.
pub enum SpecType {
    Boolean,
    Number,
    Void,
    Undefined,
    Array(Box<SpecType>),
    Function(Seq<(Seq<char>, SpecType)>, Box<SpecType>),
}

pub open spec fn type_view(t: Type) -> SpecType
    decreases t,
{
    match t {
        Type::Boolean => SpecType::Boolean,
        Type::Number => SpecType::Number,
        Type::Void => SpecType::Void,
        Type::Undefined => SpecType::Undefined,
        Type::Array { element_type } => SpecType::Array(Box::new(type_view(*element_type))),
        Type::Function { parameter_types, return_type } => SpecType::Function(
            params_view(parameter_types@),
            Box::new(type_view(*return_type)),
        ),
    }
}

pub open spec fn params_view(ps: Seq<(String, Type)>) -> Seq<(Seq<char>, SpecType)>
    decreases ps,
{
    if ps.len() == 0 {
        Seq::empty()
    } else {
        seq![(ps[0].0@, type_view(ps[0].1))] + params_view(ps.subrange(1, ps.len() as int))
    }
}

/// Structural type equality. Function types compare their ordered parameter
/// types and return type, ignoring parameter names. This is plain equality:
/// the `Undefined` wildcard rule lives in `spec_types_compatible`, not here.
pub open spec fn spec_type_eq(a: SpecType, b: SpecType) -> bool
    decreases a, 0int, 0int,
{
    match (a, b) {
        (SpecType::Boolean, SpecType::Boolean) => true,
        (SpecType::Number, SpecType::Number) => true,
        (SpecType::Void, SpecType::Void) => true,
        (SpecType::Undefined, SpecType::Undefined) => true,
        (SpecType::Array(x), SpecType::Array(y)) => spec_type_eq(*x, *y),
        (SpecType::Function(pa, ra), SpecType::Function(pb, rb)) => spec_type_eq(*ra, *rb)
            && spec_params_eq(pa, pb),
        _ => false,
    }
}

pub open spec fn spec_params_eq(
    pa: Seq<(Seq<char>, SpecType)>,
    pb: Seq<(Seq<char>, SpecType)>,
) -> bool
    decreases pa, 1int, 0int,
{
    if pa.len() != pb.len() {
        false
    } else if pa.len() == 0 {
        true
    } else {
        spec_type_eq(pa[0].1, pb[0].1) && spec_params_eq(
            pa.subrange(1, pa.len() as int),
            pb.subrange(1, pb.len() as int),
        )
    }
}

/// The wildcard rule used by every type check: `Undefined` on either side
/// passes, otherwise the types must be structurally equal.
pub open spec fn spec_types_compatible(a: SpecType, b: SpecType) -> bool {
    a is Undefined || b is Undefined || spec_type_eq(a, b)
}

fn params_eq(pa: &Vec<(String, Type)>, pb: &Vec<(String, Type)>, i: usize) -> (r: bool)
    requires
        i <= pa@.len(),
        i <= pb@.len(),
        pa@.len() == pb@.len(),
    ensures
        r == spec_params_eq(
            params_view(pa@.subrange(i as int, pa@.len() as int)),
            params_view(pb@.subrange(i as int, pb@.len() as int)),
        ),
    decreases pa@, 1int, pa@.len() - i,
{
    proof {
        lemma_params_view_len(pa@.subrange(i as int, pa@.len() as int));
        lemma_params_view_len(pb@.subrange(i as int, pb@.len() as int));
    }
    if i == pa.len() {
        true
    } else {
        let sa = &pa[i];
        let sb = &pb[i];
        let head = type_eq(&sa.1, &sb.1);
        if !head {
            proof {
                lemma_params_view_len(pa@.subrange(i as int, pa@.len() as int));
            }
            false
        } else {
            let rest = params_eq(pa, pb, i + 1);
            proof {
                let suba = pa@.subrange(i as int, pa@.len() as int);
                let subb = pb@.subrange(i as int, pb@.len() as int);
                let va = params_view(suba);
                let vb = params_view(subb);
                assert(suba.subrange(1, suba.len() as int) =~= pa@.subrange(
                    i + 1,
                    pa@.len() as int,
                ));
                assert(subb.subrange(1, subb.len() as int) =~= pb@.subrange(
                    i + 1,
                    pb@.len() as int,
                ));
                assert(va == seq![(suba[0].0@, type_view(suba[0].1))] + params_view(
                    pa@.subrange(i + 1, pa@.len() as int),
                ));
                assert(vb == seq![(subb[0].0@, type_view(subb[0].1))] + params_view(
                    pb@.subrange(i + 1, pb@.len() as int),
                ));
                assert(va.subrange(1, va.len() as int) =~= params_view(
                    pa@.subrange(i + 1, pa@.len() as int),
                ));
                assert(vb.subrange(1, vb.len() as int) =~= params_view(
                    pb@.subrange(i + 1, pb@.len() as int),
                ));
                assert(va[0].1 == type_view(pa@[i as int].1));
                assert(vb[0].1 == type_view(pb@[i as int].1));
            }
            rest
        }
    }
}

pub proof fn lemma_params_view_len(ps: Seq<(String, Type)>)
    ensures
        params_view(ps).len() == ps.len(),
        forall|k: int|
            0 <= k < ps.len() ==> #[trigger] params_view(ps)[k] == (
                ps[k].0@,
                type_view(ps[k].1),
            ),
    decreases ps,
{
    if ps.len() > 0 {
        lemma_params_view_len(ps.subrange(1, ps.len() as int));
    }
}

/// Structural equality of two types, ignoring parameter names of function
/// types.
pub fn type_eq(a: &Type, b: &Type) -> (r: bool)
    ensures
        r == spec_type_eq(type_view(*a), type_view(*b)),
    decreases *a, 0int, 0int,
{
    match (a, b) {
        (Type::Boolean, Type::Boolean) => true,
        (Type::Number, Type::Number) => true,
        (Type::Void, Type::Void) => true,
        (Type::Undefined, Type::Undefined) => true,
        (Type::Array { element_type: x }, Type::Array { element_type: y }) => {
            let r = type_eq(x, y);
            proof {
                let bx = Box::new(type_view(**x));
                let by = Box::new(type_view(**y));
                assert(*bx == type_view(**x) && *by == type_view(**y));
                assert(type_view(*a) == SpecType::Array(bx));
                assert(type_view(*b) == SpecType::Array(by));
                assert(spec_type_eq(SpecType::Array(bx), SpecType::Array(by)) == spec_type_eq(
                    *bx,
                    *by,
                ));
            }
            r
        },
        (
            Type::Function { parameter_types: pa, return_type: ra },
            Type::Function { parameter_types: pb, return_type: rb },
        ) => {
            proof {
                lemma_params_view_len(pa@);
                lemma_params_view_len(pb@);
                assert(type_view(*a) == SpecType::Function(
                    params_view(pa@),
                    Box::new(type_view(**ra)),
                ));
                assert(type_view(*b) == SpecType::Function(
                    params_view(pb@),
                    Box::new(type_view(**rb)),
                ));
                let bra = Box::new(type_view(**ra));
                let brb = Box::new(type_view(**rb));
                assert(*bra == type_view(**ra) && *brb == type_view(**rb));
                assert(spec_type_eq(
                    SpecType::Function(params_view(pa@), bra),
                    SpecType::Function(params_view(pb@), brb),
                ) == (spec_type_eq(*bra, *brb) && spec_params_eq(
                    params_view(pa@),
                    params_view(pb@),
                )));
            }
            if pa.len() != pb.len() {
                false
            } else {
                let ret = type_eq(ra, rb);
                if !ret {
                    false
                } else {
                    let ps = params_eq(pa, pb, 0);
                    proof {
                        assert(pa@.subrange(0, pa@.len() as int) =~= pa@);
                        assert(pb@.subrange(0, pb@.len() as int) =~= pb@);
                    }
                    ps
                }
            }
        },
        _ => false,
    }
}

pub(crate) fn clone_params(v: &Vec<(String, Type)>, i: usize, acc: Vec<(String, Type)>) -> (r: Vec<
    (String, Type),
>)
    requires
        i <= v@.len(),
    ensures
        params_view(r@) == params_view(acc@) + params_view(v@.subrange(i as int, v@.len() as int)),
    decreases v@, 1int, v@.len() - i,
{
    let mut acc = acc;
    if i == v.len() {
        proof {
            assert(v@.subrange(i as int, v@.len() as int) =~= Seq::<(String, Type)>::empty());
            assert(params_view(acc@) + params_view(v@.subrange(i as int, v@.len() as int))
                =~= params_view(acc@));
        }
        acc
    } else {
        let name = v[i].0.clone();
        let t = v[i].1.clone();
        let ghost pre = acc@;
        acc.push((name, t));
        proof {
            lemma_params_view_append_one(pre, acc@[pre.len() as int]);
            assert(acc@ =~= pre.push(acc@[pre.len() as int]));
            let tail = v@.subrange(i as int, v@.len() as int);
            assert(tail.subrange(1, tail.len() as int) =~= v@.subrange(i + 1, v@.len() as int));
            lemma_params_view_append_assoc(
                params_view(pre),
                seq![(acc@[pre.len() as int].0@, type_view(acc@[pre.len() as int].1))],
                params_view(v@.subrange(i + 1, v@.len() as int)),
            );
        }
        clone_params(v, i + 1, acc)
    }
}

pub proof fn lemma_params_view_append_one(ps: Seq<(String, Type)>, x: (String, Type))
    ensures
        params_view(ps.push(x)) == params_view(ps) + seq![(x.0@, type_view(x.1))],
    decreases ps,
{
    let whole = ps.push(x);
    if ps.len() == 0 {
        assert(whole.subrange(1, whole.len() as int) =~= Seq::<(String, Type)>::empty());
        assert(whole[0] == x);
        assert(params_view(whole) == seq![(x.0@, type_view(x.1))] + params_view(
            whole.subrange(1, whole.len() as int),
        ));
        assert(params_view(Seq::<(String, Type)>::empty())
            == Seq::<(Seq<char>, SpecType)>::empty());
        assert(params_view(whole) =~~= params_view(ps) + seq![(x.0@, type_view(x.1))]);
    } else {
        let pstail = ps.subrange(1, ps.len() as int);
        assert(whole.subrange(1, whole.len() as int) =~= pstail.push(x));
        lemma_params_view_append_one(pstail, x);
        let xv = seq![(x.0@, type_view(x.1))];
        assert(params_view(whole) == seq![(whole[0].0@, type_view(whole[0].1))] + params_view(
            whole.subrange(1, whole.len() as int),
        ));
        assert(params_view(whole.subrange(1, whole.len() as int)) == params_view(pstail) + xv);
        assert(whole[0] == ps[0]);
        assert(seq![(ps[0].0@, type_view(ps[0].1))] + (params_view(pstail) + xv) =~~= (seq![
            (ps[0].0@, type_view(ps[0].1)),
        ] + params_view(pstail)) + xv);
        assert(params_view(ps) + xv == (seq![(ps[0].0@, type_view(ps[0].1))] + params_view(pstail))
            + xv);
    }
}

proof fn lemma_params_view_append_assoc(
    a: Seq<(Seq<char>, SpecType)>,
    b: Seq<(Seq<char>, SpecType)>,
    c: Seq<(Seq<char>, SpecType)>,
)
    ensures
        (a + b) + c == a + (b + c),
{
    assert((a + b) + c =~= a + (b + c));
}

impl Clone for Type {
    /// Clones preserve the mathematical value of a type.
    fn clone(&self) -> (r: Type)
        ensures
            type_view(r) == type_view(*self),
        decreases *self, 0int, 0int,
    {
        match self {
            Type::Boolean => Type::Boolean,
            Type::Number => Type::Number,
            Type::Void => Type::Void,
            Type::Undefined => Type::Undefined,
            Type::Array { element_type } => Type::Array {
                element_type: Box::new((**element_type).clone()),
            },
            Type::Function { parameter_types, return_type } => {
                let ps = clone_params(parameter_types, 0, Vec::new());
                proof {
                    assert(parameter_types@.subrange(0, parameter_types@.len() as int)
                        =~= parameter_types@);
                    assert(params_view(Seq::<(String, Type)>::empty()) + params_view(
                        parameter_types@,
                    ) =~= params_view(parameter_types@));
                }
                Type::Function {
                    parameter_types: ps,
                    return_type: Box::new((**return_type).clone()),
                }
            },
        }
    }
}

impl PartialEq for Type {
    fn eq(&self, other: &Type) -> (r: bool) {
        type_eq(self, other)
    }
}

impl Eq for Type {

}

impl vstd::std_specs::cmp::PartialEqSpecImpl for Type {
    open spec fn obeys_eq_spec() -> bool {
        true
    }

    open spec fn eq_spec(&self, other: &Type) -> bool {
        spec_type_eq(type_view(*self), type_view(*other))
    }
}


/// The wildcard-aware check used everywhere two types must agree.
pub fn types_compatible(a: &Type, b: &Type) -> (r: bool)
    ensures
        r == spec_types_compatible(type_view(*a), type_view(*b)),
{
    match a {
        Type::Undefined => true,
        _ => match b {
            Type::Undefined => true,
            _ => type_eq(a, b),
        },
    }
}

pub open spec fn types_view(ts: Seq<Type>) -> Seq<SpecType>
    decreases ts,
{
    if ts.len() == 0 {
        Seq::empty()
    } else {
        seq![type_view(ts[0])] + types_view(ts.subrange(1, ts.len() as int))
    }
}

pub proof fn lemma_types_view_len(ts: Seq<Type>)
    ensures
        types_view(ts).len() == ts.len(),
        forall|k: int| 0 <= k < ts.len() ==> #[trigger] types_view(ts)[k] == type_view(ts[k]),
    decreases ts,
{
    if ts.len() > 0 {
        lemma_types_view_len(ts.subrange(1, ts.len() as int));
    }
}

pub proof fn lemma_types_view_push(ts: Seq<Type>, x: Type)
    ensures
        types_view(ts.push(x)) == types_view(ts).push(type_view(x)),
    decreases ts,
{
    let whole = ts.push(x);
    if ts.len() == 0 {
        assert(whole.subrange(1, whole.len() as int) =~= Seq::<Type>::empty());
        assert(whole[0] == x);
        assert(types_view(whole) == seq![type_view(whole[0])] + types_view(
            whole.subrange(1, whole.len() as int),
        ));
        assert(types_view(Seq::<Type>::empty()) == Seq::<SpecType>::empty());
        assert(types_view(whole) =~~= types_view(ts).push(type_view(x)));
    } else {
        let tail = ts.subrange(1, ts.len() as int);
        assert(whole.subrange(1, whole.len() as int) =~= tail.push(x));
        lemma_types_view_push(tail, x);
        assert(types_view(whole) == seq![type_view(whole[0])] + types_view(
            whole.subrange(1, whole.len() as int),
        ));
        assert(types_view(whole.subrange(1, whole.len() as int)) == types_view(tail).push(
            type_view(x),
        ));
        assert(whole[0] == ts[0]);
        assert(types_view(ts) == seq![type_view(ts[0])] + types_view(tail));
        assert(types_view(whole) =~~= types_view(ts).push(type_view(x)));
    }
}

/// The view of an optional expected return type.
pub open spec fn return_type_view(t: Option<Type>) -> Option<SpecType> {
    match t {
        Option::Some(t) => Option::Some(type_view(t)),
        Option::None => Option::None,
    }
}

/// Why a compilation failed: the parse failures and the semantic failures of
/// the type checker and the code generator.
#[derive(Debug, Clone, PartialEq)]
pub enum CompileError {
    /// No complete program could be derived from the input.
    ParseFailure,
    /// Two types had to agree and did not.
    TypeMismatch { expected: Type, actual: Type },
    /// An identifier was used without a declaration in scope.
    UndefinedVariable(String),
    /// A call referred to a function with no known signature.
    UndefinedFunction(String),
    /// An array operation was applied to a non-array operand.
    NotAnArray(Type),
    /// A `Function` node carried a signature that is not a function type, or
    /// a call resolved to one.
    NotAFunction(Type),
    /// An array literal without elements has no inferable element type.
    EmptyArrayLiteral,
    /// A `return` statement stood outside every function body.
    ReturnOutsideFunction,
    /// More than four call arguments or function parameters.
    TooManyArguments,
}

/// The mathematical form of a `CompileError`.
pub enum SpecCompileError {
    ParseFailure,
    TypeMismatch(SpecType, SpecType),
    UndefinedVariable(Seq<char>),
    UndefinedFunction(Seq<char>),
    NotAnArray(SpecType),
    NotAFunction(SpecType),
    EmptyArrayLiteral,
    ReturnOutsideFunction,
    TooManyArguments,
}

#[verifier::inline]
pub open spec fn error_view(e: CompileError) -> SpecCompileError {
    match e {
        CompileError::ParseFailure => SpecCompileError::ParseFailure,
        CompileError::TypeMismatch { expected, actual } => SpecCompileError::TypeMismatch(
            type_view(expected),
            type_view(actual),
        ),
        CompileError::UndefinedVariable(n) => SpecCompileError::UndefinedVariable(n@),
        CompileError::UndefinedFunction(n) => SpecCompileError::UndefinedFunction(n@),
        CompileError::NotAnArray(t) => SpecCompileError::NotAnArray(type_view(t)),
        CompileError::NotAFunction(t) => SpecCompileError::NotAFunction(type_view(t)),
        CompileError::EmptyArrayLiteral => SpecCompileError::EmptyArrayLiteral,
        CompileError::ReturnOutsideFunction => SpecCompileError::ReturnOutsideFunction,
        CompileError::TooManyArguments => SpecCompileError::TooManyArguments,
    }
}

} // verus!
