//! The code generator: a recursive lowering of the checked tree to 32-bit
//! ARM assembly text. Every expression leaves its value in `r0`; binary
//! operators park the left value on the stack; calls marshal up to four
//! arguments; branch targets come from a counter threaded through the walk.

use vstd::prelude::*;

use crate::ast::Ast;
use crate::ast::SpecAst;
use crate::ast::ast_view;
use crate::ast::asts_view;
use crate::types::CompileError;
use crate::types::SpecCompileError;
use crate::types::SpecType;
use crate::types::Type;
use crate::types::error_view;
use crate::types::params_view;
use crate::types::type_view;

verus! {

// ---------------------------------------------------------------------------
// Decimal rendering
// ---------------------------------------------------------------------------

pub open spec fn dec_digit(d: int) -> char {
    if d == 0 {
        '0'
    } else if d == 1 {
        '1'
    } else if d == 2 {
        '2'
    } else if d == 3 {
        '3'
    } else if d == 4 {
        '4'
    } else if d == 5 {
        '5'
    } else if d == 6 {
        '6'
    } else if d == 7 {
        '7'
    } else if d == 8 {
        '8'
    } else {
        '9'
    }
}

/// The decimal digits of a non-negative integer.
pub open spec fn dec_u(n: int) -> Seq<char>
    decreases n,
    when n >= 0
{
    if n < 10 {
        seq![dec_digit(n)]
    } else {
        dec_u(n / 10) + seq![dec_digit(n % 10)]
    }
}

/// The decimal form of an integer, with a leading minus sign if negative.
pub open spec fn dec_i(n: int) -> Seq<char> {
    if n < 0 {
        seq!['-'] + dec_u(-n)
    } else {
        dec_u(n)
    }
}

fn push_digit(buffer: &mut String, d: u128)
    requires
        d < 10,
    ensures
        final(buffer)@ == old(buffer)@ + seq![dec_digit(d as int)],
{
    if d == 0 {
        buffer.append("0");
        proof {
            reveal_strlit("0");
            assert("0"@ =~= seq![dec_digit(d as int)]);
        }
    } else if d == 1 {
        buffer.append("1");
        proof {
            reveal_strlit("1");
            assert("1"@ =~= seq![dec_digit(d as int)]);
        }
    } else if d == 2 {
        buffer.append("2");
        proof {
            reveal_strlit("2");
            assert("2"@ =~= seq![dec_digit(d as int)]);
        }
    } else if d == 3 {
        buffer.append("3");
        proof {
            reveal_strlit("3");
            assert("3"@ =~= seq![dec_digit(d as int)]);
        }
    } else if d == 4 {
        buffer.append("4");
        proof {
            reveal_strlit("4");
            assert("4"@ =~= seq![dec_digit(d as int)]);
        }
    } else if d == 5 {
        buffer.append("5");
        proof {
            reveal_strlit("5");
            assert("5"@ =~= seq![dec_digit(d as int)]);
        }
    } else if d == 6 {
        buffer.append("6");
        proof {
            reveal_strlit("6");
            assert("6"@ =~= seq![dec_digit(d as int)]);
        }
    } else if d == 7 {
        buffer.append("7");
        proof {
            reveal_strlit("7");
            assert("7"@ =~= seq![dec_digit(d as int)]);
        }
    } else if d == 8 {
        buffer.append("8");
        proof {
            reveal_strlit("8");
            assert("8"@ =~= seq![dec_digit(d as int)]);
        }
    } else {
        buffer.append("9");
        proof {
            reveal_strlit("9");
            assert("9"@ =~= seq![dec_digit(d as int)]);
        }
    }
}

fn push_dec_u128(buffer: &mut String, n: u128)
    ensures
        final(buffer)@ == old(buffer)@ + dec_u(n as int),
    decreases n,
{
    if n < 10 {
        push_digit(buffer, n);
    } else {
        let ghost pre = buffer@;
        push_dec_u128(buffer, n / 10);
        push_digit(buffer, n % 10);
        proof {
            assert((pre + dec_u(n as int / 10)) + seq![dec_digit(n as int % 10)] =~= pre + (dec_u(
                n as int / 10,
            ) + seq![dec_digit(n as int % 10)]));
        }
    }
}

fn push_dec_i128(buffer: &mut String, n: i128)
    requires
        n > i128::MIN,
    ensures
        final(buffer)@ == old(buffer)@ + dec_i(n as int),
    decreases n,
{
    if n < 0 {
        let ghost pre = buffer@;
        buffer.append("-");
        proof {
            reveal_strlit("-");
            assert("-"@ =~= seq!['-']);
        }
        push_dec_u128(buffer, (-n) as u128);
        proof {
            assert((pre + seq!['-']) + dec_u(-n as int) =~= pre + (seq!['-'] + dec_u(-n as int)));
        }
    } else {
        push_dec_u128(buffer, n as u128);
    }
}

// ---------------------------------------------------------------------------
// The emitted lines
// ---------------------------------------------------------------------------

/// One emitted piece of assembly text, at the granularity the generator
/// writes it. `render` gives the exact text of each.
pub enum AsmLine {
    Blank,
    MovR0Zero,
    MovR0One,
    LdrR0Const(int),
    BlMalloc,
    PushR4Ip,
    MovR4R0,
    StrR0R4,
    StrR0R4Off(int),
    MovR0R4,
    PopR4Ip,
    PushR0Ip,
    PopR1Ip,
    LdrR2R1,
    CmpR0R2,
    MovHsR0Zero,
    AddLoR1Four,
    LslLoR0Two,
    LdrLoR0,
    LdrR0R0,
    CmpR0Zero,
    CmpR0R1,
    MovEqR0One,
    MovEqR0Zero,
    MovNeR0One,
    MovNeR0Zero,
    AddR0R0R1,
    SubR0R1R0,
    MulR0R0R1,
    UdivR0R1R0,
    Bl(Seq<char>),
    SubSp16,
    StrR0Sp(int),
    PopArgs,
    StrR0Fp(int),
    LdrR0Fp(int),
    Global(Seq<char>),
    NameLabel(Seq<char>),
    PushFpLr,
    MovFpSp,
    PushArgs,
    MovSpFp,
    PopFpPc,
    BranchEq(int),
    Branch(int),
    NumLabelLine(int),
    NumLabel(int),
}

/// The exact text of one emitted line.
pub open spec fn render(l: AsmLine) -> Seq<char> {
    match l {
        AsmLine::Blank => "\n"@,
        AsmLine::MovR0Zero => "    mov r0, #0\n"@,
        AsmLine::MovR0One => "    mov r0, #1\n"@,
        AsmLine::LdrR0Const(n) => "    ldr r0, ="@ + dec_i(n) + "\n"@,
        AsmLine::BlMalloc => "    bl malloc\n"@,
        AsmLine::PushR4Ip => "    push {r4, ip}\n"@,
        AsmLine::MovR4R0 => "    mov r4, r0\n"@,
        AsmLine::StrR0R4 => "    str r0, [r4]\n"@,
        AsmLine::StrR0R4Off(n) => "    str r0, [r4, #"@ + dec_i(n) + "]\n"@,
        AsmLine::MovR0R4 => "    mov r0, r4\n"@,
        AsmLine::PopR4Ip => "    pop {r4, ip}\n"@,
        AsmLine::PushR0Ip => "    push {r0, ip}\n"@,
        AsmLine::PopR1Ip => "    pop {r1, ip}\n"@,
        AsmLine::LdrR2R1 => "    ldr r2, [r1]\n"@,
        AsmLine::CmpR0R2 => "    cmp r0, r2\n"@,
        AsmLine::MovHsR0Zero => "    movhs r0, #0\n"@,
        AsmLine::AddLoR1Four => "    addlo r1, r1, #4\n"@,
        AsmLine::LslLoR0Two => "    lsllo r0, r0, #2\n"@,
        AsmLine::LdrLoR0 => "    ldrlo r0, [r1, r0]\n"@,
        AsmLine::LdrR0R0 => "    ldr r0, [r0, #0]\n"@,
        AsmLine::CmpR0Zero => "    cmp r0, #0\n"@,
        AsmLine::CmpR0R1 => "    cmp r0, r1\n"@,
        AsmLine::MovEqR0One => "    moveq r0, #1\n"@,
        AsmLine::MovEqR0Zero => "    moveq r0, #0\n"@,
        AsmLine::MovNeR0One => "    movne r0, #1\n"@,
        AsmLine::MovNeR0Zero => "    movne r0, #0\n"@,
        AsmLine::AddR0R0R1 => "    add r0, r0, r1\n"@,
        AsmLine::SubR0R1R0 => "    sub r0, r1, r0\n"@,
        AsmLine::MulR0R0R1 => "    mul r0, r0, r1\n"@,
        AsmLine::UdivR0R1R0 => "    udiv r0, r1, r0\n"@,
        AsmLine::Bl(name) => "    bl "@ + name + "\n"@,
        AsmLine::SubSp16 => "    sub sp, sp, #16\n"@,
        AsmLine::StrR0Sp(n) => "    str r0, [sp, #"@ + dec_i(n) + "]\n"@,
        AsmLine::PopArgs => "    pop {r0, r1, r2, r3}\n"@,
        AsmLine::StrR0Fp(n) => "    str r0, [fp, #"@ + dec_i(n) + "]\n"@,
        AsmLine::LdrR0Fp(n) => "    ldr r0, [fp, #"@ + dec_i(n) + "]\n"@,
        AsmLine::Global(name) => ".global "@ + name + "\n"@,
        AsmLine::NameLabel(name) => name + ":\n"@,
        AsmLine::PushFpLr => "    push {fp, lr}\n"@,
        AsmLine::MovFpSp => "    mov fp, sp\n"@,
        AsmLine::PushArgs => "    push {r0, r1, r2, r3}\n"@,
        AsmLine::MovSpFp => "    mov sp, fp\n"@,
        AsmLine::PopFpPc => "    pop {fp, pc}\n"@,
        AsmLine::BranchEq(n) => "    beq .L"@ + dec_i(n) + "\n"@,
        AsmLine::Branch(n) => "    b .L"@ + dec_i(n) + "\n"@,
        AsmLine::NumLabelLine(n) => ".L"@ + dec_i(n) + ":\n"@,
        AsmLine::NumLabel(n) => ".L"@ + dec_i(n) + ":"@,
    }
}

/// The text of a sequence of emitted lines.
pub open spec fn render_all(ls: Seq<AsmLine>) -> Seq<char>
    decreases ls,
{
    if ls.len() == 0 {
        Seq::empty()
    } else {
        render(ls[0]) + render_all(ls.subrange(1, ls.len() as int))
    }
}

pub proof fn lemma_render_all_concat(a: Seq<AsmLine>, b: Seq<AsmLine>)
    ensures
        render_all(a + b) == render_all(a) + render_all(b),
    decreases a,
{
    if a.len() == 0 {
        assert(a + b =~= b);
        assert(render_all(a) =~= Seq::<char>::empty());
        assert(render_all(a) + render_all(b) =~= render_all(b));
    } else {
        let whole = a + b;
        assert(whole.subrange(1, whole.len() as int) =~= a.subrange(1, a.len() as int) + b);
        lemma_render_all_concat(a.subrange(1, a.len() as int), b);
        assert(whole[0] == a[0]);
        assert(render_all(whole) == render(whole[0]) + render_all(
            whole.subrange(1, whole.len() as int),
        ));
        assert(render_all(a) == render(a[0]) + render_all(a.subrange(1, a.len() as int)));
        assert((render(a[0]) + render_all(a.subrange(1, a.len() as int))) + render_all(b)
            =~= render(a[0]) + (render_all(a.subrange(1, a.len() as int)) + render_all(b)));
    }
}

pub proof fn lemma_render_all_one(a: AsmLine)
    ensures
        render_all(seq![a]) == render(a),
{
    let s = seq![a];
    assert(s.subrange(1, 1) =~= Seq::<AsmLine>::empty());
    assert(render_all(s) == render(a) + render_all(s.subrange(1, 1)));
    assert(render(a) + Seq::<char>::empty() =~= render(a));
}

pub proof fn lemma_render_all_push(ls: Seq<AsmLine>, l: AsmLine)
    ensures
        render_all(ls.push(l)) == render_all(ls) + render(l),
{
    assert(ls.push(l) =~= ls + seq![l]);
    lemma_render_all_concat(ls, seq![l]);
    lemma_render_all_one(l);
}

// ---------------------------------------------------------------------------
// The generation environment
// ---------------------------------------------------------------------------

/// A per-function symbol table: each local's and parameter's frame-pointer
/// offset, and the offset for the next declared local.
#[derive(Debug)]
pub struct Environment {
    pub locals: Vec<(String, isize)>,
    pub next_local_offset: isize,
}

/// The mathematical value of the symbol table's entries.
pub open spec fn offsets_view(entries: Seq<(String, isize)>) -> Seq<(Seq<char>, int)>
    decreases entries,
{
    if entries.len() == 0 {
        Seq::empty()
    } else {
        seq![(entries[0].0@, entries[0].1 as int)] + offsets_view(
            entries.subrange(1, entries.len() as int),
        )
    }
}

pub proof fn lemma_offsets_view_len(entries: Seq<(String, isize)>)
    ensures
        offsets_view(entries).len() == entries.len(),
        forall|k: int|
            0 <= k < entries.len() ==> #[trigger] offsets_view(entries)[k] == (
                entries[k].0@,
                entries[k].1 as int,
            ),
    decreases entries,
{
    if entries.len() > 0 {
        lemma_offsets_view_len(entries.subrange(1, entries.len() as int));
    }
}

pub proof fn lemma_offsets_view_push(entries: Seq<(String, isize)>, x: (String, isize))
    ensures
        offsets_view(entries.push(x)) == offsets_view(entries).push((x.0@, x.1 as int)),
    decreases entries,
{
    let whole = entries.push(x);
    if entries.len() == 0 {
        assert(whole.subrange(1, whole.len() as int) =~= Seq::<(String, isize)>::empty());
        assert(whole[0] == x);
        assert(offsets_view(whole) == seq![(whole[0].0@, whole[0].1 as int)] + offsets_view(
            whole.subrange(1, whole.len() as int),
        ));
        assert(offsets_view(whole) =~~= offsets_view(entries).push((x.0@, x.1 as int)));
    } else {
        let tail = entries.subrange(1, entries.len() as int);
        assert(whole.subrange(1, whole.len() as int) =~= tail.push(x));
        lemma_offsets_view_push(tail, x);
        assert(offsets_view(whole) == seq![(whole[0].0@, whole[0].1 as int)] + offsets_view(
            whole.subrange(1, whole.len() as int),
        ));
        assert(whole[0] == entries[0]);
        assert(offsets_view(entries) == seq![(entries[0].0@, entries[0].1 as int)] + offsets_view(
            tail,
        ));
        assert(offsets_view(whole) =~~= offsets_view(entries).push((x.0@, x.1 as int)));
    }
}

/// The newest offset recorded under `name`, if any.
pub open spec fn spec_offset_get(env: Seq<(Seq<char>, int)>, name: Seq<char>) -> Option<int>
    decreases env,
{
    if env.len() == 0 {
        Option::None
    } else if env.last().0 == name {
        Option::Some(env.last().1)
    } else {
        spec_offset_get(env.drop_last(), name)
    }
}

impl Environment {
    /// The symbol table's mathematical value.
    pub open spec fn table(&self) -> Seq<(Seq<char>, int)> {
        offsets_view(self.locals@)
    }

    /// An environment with the given locals and next free offset.
    pub fn new(locals: Vec<(String, isize)>, next_local_offset: isize) -> (r: Environment)
        ensures
            r.table() == offsets_view(locals@),
            r.next_local_offset == next_local_offset,
    {
        Environment { locals, next_local_offset }
    }
}

impl Default for Environment {
    /// An empty symbol table with the next local at offset zero.
    fn default() -> (r: Environment)
        ensures
            r.table() == Seq::<(Seq<char>, int)>::empty(),
            r.next_local_offset == 0,
    {
        Environment { locals: Vec::new(), next_local_offset: 0 }
    }
}

fn env_get_at(entries: &Vec<(String, isize)>, name: &String, i: usize) -> (r: Option<isize>)
    requires
        i <= entries@.len(),
    ensures
        match r {
            Some(off) => spec_offset_get(offsets_view(entries@.subrange(0, i as int)), name@)
                == Some(off as int),
            None => spec_offset_get(offsets_view(entries@.subrange(0, i as int)), name@) is None,
        },
    decreases i,
{
    proof {
        lemma_offsets_view_len(entries@.subrange(0, i as int));
    }
    if i == 0 {
        None
    } else {
        let e = &entries[i - 1];
        proof {
            let sub = entries@.subrange(0, i as int);
            let v = offsets_view(sub);
            assert(v.last() == (entries@[i - 1].0@, entries@[i - 1].1 as int));
            lemma_offsets_view_len(entries@.subrange(0, i - 1));
            assert(v.drop_last() =~~= offsets_view(entries@.subrange(0, i - 1)));
        }
        if e.0.eq(name) {
            Some(e.1)
        } else {
            env_get_at(entries, name, i - 1)
        }
    }
}

fn env_get(env: &Environment, name: &String) -> (r: Option<isize>)
    ensures
        match r {
            Some(off) => spec_offset_get(env.table(), name@) == Some(off as int),
            None => spec_offset_get(env.table(), name@) is None,
        },
{
    let n = env.locals.len();
    proof {
        assert(env.locals@.subrange(0, n as int) =~= env.locals@);
    }
    env_get_at(&env.locals, name, n)
}

// ---------------------------------------------------------------------------
// Labels and frame offsets
// ---------------------------------------------------------------------------

/// The label counter only ever counts up; at the far end of its range it
/// stops, which no real program reaches.
pub open spec fn bump_label(l: int) -> int {
    if l < 0xffff_ffff_ffff_ffff {
        l + 1
    } else {
        l
    }
}

/// A declared local takes the next 8-byte slot below the frame pointer; at
/// the far end of the range the offsets stop moving, which no real frame
/// reaches. Yields the local's offset and the next free offset.
pub open spec fn bump_offset(next: int) -> (int, int) {
    if next - 8 >= isize::MIN {
        (next - 4, next - 8)
    } else {
        (next, next)
    }
}

/// The branch-target name minted for counter value `n`.
pub open spec fn spec_label_name(n: int) -> Seq<char> {
    ".L"@ + dec_i(n)
}

/// The text of the branch-target label for counter value `n`.
pub fn make_label(n: u64) -> (r: String)
    ensures
        r@ == spec_label_name(n as int),
{
    let mut s = ".L".to_owned();
    push_dec_u128(&mut s, n as u128);
    s
}


// ---------------------------------------------------------------------------
// What the generator emits
// ---------------------------------------------------------------------------

/// The outcome of lowering one node: the emitted lines, the symbol table and
/// next-local offset after it, and the label counter after it.
pub type SpecEmitOutcome = Result<
    (Seq<AsmLine>, Seq<(Seq<char>, int)>, int, int),
    SpecCompileError,
>;

/// The lowering rules, one case per node kind. The symbol table, the
/// next-local offset and the label counter thread left to right through
/// every child.
#[verifier::opaque]
pub open spec fn spec_emit(
    a: SpecAst,
    table: Seq<(Seq<char>, int)>,
    next: int,
    label: int,
) -> SpecEmitOutcome
    decreases a, 1int, 0int,
{
    match a {
        SpecAst::Block(ss) => match spec_emit_all(ss, table, next, label) {
            Ok(m) => Ok((seq![AsmLine::Blank] + m.0, m.1, m.2, m.3)),
            Err(e) => Err(e),
        },
        SpecAst::Undefined => Ok(
            (seq![AsmLine::Blank, AsmLine::MovR0Zero], table, next, label),
        ),
        SpecAst::Null => Ok((seq![AsmLine::Blank, AsmLine::MovR0Zero], table, next, label)),
        SpecAst::Number(v) => Ok(
            (seq![AsmLine::Blank, AsmLine::LdrR0Const(v)], table, next, label),
        ),
        SpecAst::Bool(b) => if b {
            Ok((seq![AsmLine::Blank, AsmLine::MovR0One], table, next, label))
        } else {
            Ok((seq![AsmLine::Blank, AsmLine::MovR0Zero], table, next, label))
        },
        SpecAst::ArrayLiteral(es) => match spec_emit_elements(es, table, next, label, 0) {
            Ok(m) => Ok(
                (
                    seq![
                        AsmLine::Blank,
                        AsmLine::LdrR0Const(4 * (es.len() as int + 1)),
                        AsmLine::BlMalloc,
                        AsmLine::PushR4Ip,
                        AsmLine::MovR4R0,
                        AsmLine::LdrR0Const(es.len() as int),
                        AsmLine::StrR0R4,
                    ] + m.0 + seq![AsmLine::MovR0R4, AsmLine::PopR4Ip],
                    m.1,
                    m.2,
                    m.3,
                ),
            ),
            Err(e) => Err(e),
        },
        SpecAst::ArrayLookup(arr, ix) => match spec_emit(*arr, table, next, label) {
            Ok(ma) => match spec_emit(*ix, ma.1, ma.2, ma.3) {
                Ok(mi) => Ok(
                    (
                        ma.0 + seq![AsmLine::PushR0Ip] + mi.0 + seq![
                            AsmLine::PopR1Ip,
                            AsmLine::LdrR2R1,
                            AsmLine::CmpR0R2,
                            AsmLine::MovHsR0Zero,
                            AsmLine::AddLoR1Four,
                            AsmLine::LslLoR0Two,
                            AsmLine::LdrLoR0,
                        ],
                        mi.1,
                        mi.2,
                        mi.3,
                    ),
                ),
                Err(e) => Err(e),
            },
            Err(e) => Err(e),
        },
        SpecAst::ArrayLength(arr) => match spec_emit(*arr, table, next, label) {
            Ok(m) => Ok((m.0 + seq![AsmLine::LdrR0R0], m.1, m.2, m.3)),
            Err(e) => Err(e),
        },
        SpecAst::Not(e) => match spec_emit(*e, table, next, label) {
            Ok(m) => Ok(
                (
                    seq![AsmLine::Blank] + m.0 + seq![
                        AsmLine::CmpR0Zero,
                        AsmLine::MovEqR0One,
                        AsmLine::MovNeR0Zero,
                    ],
                    m.1,
                    m.2,
                    m.3,
                ),
            ),
            Err(e) => Err(e),
        },
        SpecAst::Addition(x, y) => spec_emit_binary(
            a,
            *x,
            *y,
            seq![AsmLine::AddR0R0R1],
            table,
            next,
            label,
        ),
        SpecAst::Subtraction(x, y) => spec_emit_binary(
            a,
            *x,
            *y,
            seq![AsmLine::SubR0R1R0],
            table,
            next,
            label,
        ),
        SpecAst::Multiplication(x, y) => spec_emit_binary(
            a,
            *x,
            *y,
            seq![AsmLine::MulR0R0R1],
            table,
            next,
            label,
        ),
        SpecAst::Division(x, y) => spec_emit_binary(
            a,
            *x,
            *y,
            seq![AsmLine::UdivR0R1R0],
            table,
            next,
            label,
        ),
        SpecAst::Equal(x, y) => spec_emit_binary(
            a,
            *x,
            *y,
            seq![AsmLine::CmpR0R1, AsmLine::MovEqR0One, AsmLine::MovNeR0Zero],
            table,
            next,
            label,
        ),
        SpecAst::NotEqual(x, y) => spec_emit_binary(
            a,
            *x,
            *y,
            seq![AsmLine::CmpR0R1, AsmLine::MovEqR0Zero, AsmLine::MovNeR0One],
            table,
            next,
            label,
        ),
        SpecAst::Call(name, args) => if args.len() == 0 {
            Ok((seq![AsmLine::Blank, AsmLine::Bl(name)], table, next, label))
        } else if args.len() == 1 {
            match spec_emit(args[0], table, next, label) {
                Ok(m) => Ok(
                    (seq![AsmLine::Blank] + m.0 + seq![AsmLine::Bl(name)], m.1, m.2, m.3),
                ),
                Err(e) => Err(e),
            }
        } else if args.len() < 5 {
            match spec_emit_arguments(args, table, next, label, 0) {
                Ok(m) => Ok(
                    (
                        seq![AsmLine::Blank, AsmLine::SubSp16] + m.0 + seq![
                            AsmLine::PopArgs,
                            AsmLine::Bl(name),
                        ],
                        m.1,
                        m.2,
                        m.3,
                    ),
                ),
                Err(e) => Err(e),
            }
        } else {
            Err(SpecCompileError::TooManyArguments)
        },
        SpecAst::Var(name, e) => match spec_emit(*e, table, next, label) {
            Ok(m) => {
                let b = bump_offset(m.2);
                Ok(
                    (
                        seq![AsmLine::Blank] + m.0 + seq![AsmLine::PushR0Ip],
                        m.1.push((name, b.0)),
                        b.1,
                        m.3,
                    ),
                )
            },
            Err(e) => Err(e),
        },
        SpecAst::Assignment(name, e) => match spec_offset_get(table, name) {
            Option::Some(off) => match spec_emit(*e, table, next, label) {
                Ok(m) => Ok((m.0 + seq![AsmLine::StrR0Fp(off)], m.1, m.2, m.3)),
                Err(err) => Err(err),
            },
            Option::None => Err(SpecCompileError::UndefinedVariable(name)),
        },
        SpecAst::Identifier(name) => match spec_offset_get(table, name) {
            Option::Some(off) => Ok(
                (seq![AsmLine::Blank, AsmLine::LdrR0Fp(off)], table, next, label),
            ),
            Option::None => Err(SpecCompileError::UndefinedVariable(name)),
        },
        SpecAst::Function(name, signature, body) => match signature {
            SpecType::Function(params, _) => if params.len() > 4 {
                Err(SpecCompileError::TooManyArguments)
            } else {
                match spec_emit(*body, spec_param_offsets(params), -20, label) {
                    Ok(m) => Ok(
                        (
                            seq![
                                AsmLine::Blank,
                                AsmLine::Blank,
                                AsmLine::Global(name),
                                AsmLine::NameLabel(name),
                                AsmLine::PushFpLr,
                                AsmLine::MovFpSp,
                                AsmLine::PushArgs,
                            ] + m.0 + seq![
                                AsmLine::MovSpFp,
                                AsmLine::MovR0Zero,
                                AsmLine::PopFpPc,
                            ],
                            table,
                            next,
                            m.3,
                        ),
                    ),
                    Err(e) => Err(e),
                }
            },
            _ => Err(SpecCompileError::NotAFunction(signature)),
        },
        SpecAst::Return(e) => match spec_emit(*e, table, next, label) {
            Ok(m) => Ok(
                (m.0 + seq![AsmLine::MovSpFp, AsmLine::PopFpPc], m.1, m.2, m.3),
            ),
            Err(e) => Err(e),
        },
        SpecAst::If(c, t, e) => {
            let l1 = label;
            let l2 = bump_label(label);
            let label3 = bump_label(l2);
            match spec_emit(*c, table, next, label3) {
                Ok(mc) => match spec_emit(*t, mc.1, mc.2, mc.3) {
                    Ok(mt) => match spec_emit(*e, mt.1, mt.2, mt.3) {
                        Ok(me) => Ok(
                            (
                                seq![AsmLine::Blank] + mc.0 + seq![
                                    AsmLine::CmpR0Zero,
                                    AsmLine::BranchEq(l1),
                                ] + mt.0 + seq![
                                    AsmLine::Branch(l2),
                                    AsmLine::Blank,
                                    AsmLine::NumLabel(l1),
                                ] + me.0 + seq![AsmLine::Blank, AsmLine::NumLabel(l2)],
                                me.1,
                                me.2,
                                me.3,
                            ),
                        ),
                        Err(err) => Err(err),
                    },
                    Err(err) => Err(err),
                },
                Err(err) => Err(err),
            }
        },
        SpecAst::While(c, b) => {
            let l1 = label;
            let l2 = bump_label(label);
            let label3 = bump_label(l2);
            match spec_emit(*c, table, next, label3) {
                Ok(mc) => match spec_emit(*b, mc.1, mc.2, mc.3) {
                    Ok(mb) => Ok(
                        (
                            seq![AsmLine::Blank, AsmLine::NumLabelLine(l1)] + mc.0 + seq![
                                AsmLine::CmpR0Zero,
                                AsmLine::BranchEq(l2),
                            ] + mb.0 + seq![AsmLine::Branch(l1), AsmLine::NumLabel(l2)],
                            mb.1,
                            mb.2,
                            mb.3,
                        ),
                    ),
                    Err(err) => Err(err),
                },
                Err(err) => Err(err),
            }
        },
    }
}

/// The fixed slots parameters are preserved into: the i-th parameter sits at
/// offset `4 * i - 16` below the frame pointer.
pub open spec fn spec_param_offsets(params: Seq<(Seq<char>, SpecType)>) -> Seq<
    (Seq<char>, int),
> {
    Seq::new(params.len(), |i: int| (params[i].0, 4 * i - 16))
}

/// Lowers the operands of a binary operator: left, park on the stack, right,
/// restore the left into `r1`, then the combining instructions. `parent` is
/// the operator node; it only bounds the recursion.
#[verifier::opaque]
pub open spec fn spec_emit_binary(
    parent: SpecAst,
    x: SpecAst,
    y: SpecAst,
    combine: Seq<AsmLine>,
    table: Seq<(Seq<char>, int)>,
    next: int,
    label: int,
) -> SpecEmitOutcome
    decreases parent, 0int, 0int,
    when decreases_to!(parent => x) && decreases_to!(parent => y)
{
    match spec_emit(x, table, next, label) {
        Ok(mx) => match spec_emit(y, mx.1, mx.2, mx.3) {
            Ok(my) => Ok(
                (
                    seq![AsmLine::Blank] + mx.0 + seq![AsmLine::PushR0Ip] + my.0 + seq![
                        AsmLine::PopR1Ip,
                    ] + combine,
                    my.1,
                    my.2,
                    my.3,
                ),
            ),
            Err(e) => Err(e),
        },
        Err(e) => Err(e),
    }
}

/// Lowers a sequence of statements in order.
#[verifier::opaque]
pub open spec fn spec_emit_all(
    elements: Seq<SpecAst>,
    table: Seq<(Seq<char>, int)>,
    next: int,
    label: int,
) -> SpecEmitOutcome
    decreases elements, 1int, 0int,
{
    if elements.len() == 0 {
        Ok((Seq::empty(), table, next, label))
    } else {
        match spec_emit(elements[0], table, next, label) {
            Ok(m) => match spec_emit_all(
                elements.subrange(1, elements.len() as int),
                m.1,
                m.2,
                m.3,
            ) {
                Ok(rest) => Ok((m.0 + rest.0, rest.1, rest.2, rest.3)),
                Err(e) => Err(e),
            },
            Err(e) => Err(e),
        }
    }
}

/// Lowers array literal elements: each value is stored to its slot in the
/// fresh block, one word past the stored length.
#[verifier::opaque]
pub open spec fn spec_emit_elements(
    elements: Seq<SpecAst>,
    table: Seq<(Seq<char>, int)>,
    next: int,
    label: int,
    k: int,
) -> SpecEmitOutcome
    decreases elements, 1int, 0int,
{
    if elements.len() == 0 {
        Ok((Seq::empty(), table, next, label))
    } else {
        match spec_emit(elements[0], table, next, label) {
            Ok(m) => match spec_emit_elements(
                elements.subrange(1, elements.len() as int),
                m.1,
                m.2,
                m.3,
                k + 1,
            ) {
                Ok(rest) => Ok(
                    (
                        m.0 + seq![AsmLine::StrR0R4Off(4 * (k + 1))] + rest.0,
                        rest.1,
                        rest.2,
                        rest.3,
                    ),
                ),
                Err(e) => Err(e),
            },
            Err(e) => Err(e),
        }
    }
}

/// Lowers call arguments: each value is stored to its scratch slot before
/// the argument registers are bulk-loaded.
#[verifier::opaque]
pub open spec fn spec_emit_arguments(
    args: Seq<SpecAst>,
    table: Seq<(Seq<char>, int)>,
    next: int,
    label: int,
    k: int,
) -> SpecEmitOutcome
    decreases args, 1int, 0int,
{
    if args.len() == 0 {
        Ok((Seq::empty(), table, next, label))
    } else {
        match spec_emit(args[0], table, next, label) {
            Ok(m) => match spec_emit_arguments(
                args.subrange(1, args.len() as int),
                m.1,
                m.2,
                m.3,
                k + 1,
            ) {
                Ok(rest) => Ok(
                    (
                        m.0 + seq![AsmLine::StrR0Sp(4 * k)] + rest.0,
                        rest.1,
                        rest.2,
                        rest.3,
                    ),
                ),
                Err(e) => Err(e),
            },
            Err(e) => Err(e),
        }
    }
}


// ---------------------------------------------------------------------------
// Running the generator
// ---------------------------------------------------------------------------

pub proof fn lemma_render2(a: AsmLine, b: AsmLine)
    ensures
        render_all(seq![a, b]) == render(a) + render(b),
{
    assert(seq![a, b] =~= seq![a].push(b));
    lemma_render_all_one(a);
    lemma_render_all_push(seq![a], b);
}

pub proof fn lemma_render3(a: AsmLine, b: AsmLine, c: AsmLine)
    ensures
        render_all(seq![a, b, c]) == render(a) + render(b) + render(c),
{
    assert(seq![a, b, c] =~= seq![a, b].push(c));
    lemma_render2(a, b);
    lemma_render_all_push(seq![a, b], c);
}

pub proof fn lemma_render7(
    a: AsmLine,
    b: AsmLine,
    c: AsmLine,
    d: AsmLine,
    e: AsmLine,
    f: AsmLine,
    g: AsmLine,
)
    ensures
        render_all(seq![a, b, c, d, e, f, g]) == render(a) + render(b) + render(c) + render(d)
            + render(e) + render(f) + render(g),
{
    assert(seq![a, b, c, d] =~= seq![a, b, c].push(d));
    assert(seq![a, b, c, d, e] =~= seq![a, b, c, d].push(e));
    assert(seq![a, b, c, d, e, f] =~= seq![a, b, c, d, e].push(f));
    assert(seq![a, b, c, d, e, f, g] =~= seq![a, b, c, d, e, f].push(g));
    lemma_render3(a, b, c);
    lemma_render_all_push(seq![a, b, c], d);
    lemma_render_all_push(seq![a, b, c, d], e);
    lemma_render_all_push(seq![a, b, c, d, e], f);
    lemma_render_all_push(seq![a, b, c, d, e, f], g);
}

fn put(buffer: &mut String, text: &str, Ghost(l): Ghost<AsmLine>)
    requires
        render(l) == text@,
    ensures
        final(buffer)@ == old(buffer)@ + render(l),
{
    buffer.append(text);
}

fn put_ldr_const_i32(buffer: &mut String, v: i32)
    ensures
        final(buffer)@ == old(buffer)@ + render(AsmLine::LdrR0Const(v as int)),
{
    let ghost pre = buffer@;
    buffer.append("    ldr r0, =");
    push_dec_i128(buffer, v as i128);
    buffer.append("\n");
    proof {
        assert(((pre + "    ldr r0, ="@) + dec_i(v as int)) + "\n"@ =~= pre + (("    ldr r0, ="@
            + dec_i(v as int)) + "\n"@));
    }
}

fn put_ldr_const_u128(buffer: &mut String, v: u128)
    ensures
        final(buffer)@ == old(buffer)@ + render(AsmLine::LdrR0Const(v as int)),
{
    let ghost pre = buffer@;
    buffer.append("    ldr r0, =");
    push_dec_u128(buffer, v);
    buffer.append("\n");
    proof {
        assert(dec_i(v as int) == dec_u(v as int));
        assert(((pre + "    ldr r0, ="@) + dec_u(v as int)) + "\n"@ =~= pre + (("    ldr r0, ="@
            + dec_i(v as int)) + "\n"@));
    }
}

fn put_str_r4_off(buffer: &mut String, v: u128)
    ensures
        final(buffer)@ == old(buffer)@ + render(AsmLine::StrR0R4Off(v as int)),
{
    let ghost pre = buffer@;
    buffer.append("    str r0, [r4, #");
    push_dec_u128(buffer, v);
    buffer.append("]\n");
    proof {
        assert(dec_i(v as int) == dec_u(v as int));
        assert(((pre + "    str r0, [r4, #"@) + dec_u(v as int)) + "]\n"@ =~= pre + (("    str r0, [r4, #"@
            + dec_i(v as int)) + "]\n"@));
    }
}

fn put_str_sp(buffer: &mut String, v: u128)
    ensures
        final(buffer)@ == old(buffer)@ + render(AsmLine::StrR0Sp(v as int)),
{
    let ghost pre = buffer@;
    buffer.append("    str r0, [sp, #");
    push_dec_u128(buffer, v);
    buffer.append("]\n");
    proof {
        assert(dec_i(v as int) == dec_u(v as int));
        assert(((pre + "    str r0, [sp, #"@) + dec_u(v as int)) + "]\n"@ =~= pre + (("    str r0, [sp, #"@
            + dec_i(v as int)) + "]\n"@));
    }
}

fn put_str_fp(buffer: &mut String, v: isize)
    ensures
        final(buffer)@ == old(buffer)@ + render(AsmLine::StrR0Fp(v as int)),
{
    let ghost pre = buffer@;
    buffer.append("    str r0, [fp, #");
    push_dec_i128(buffer, v as i128);
    buffer.append("]\n");
    proof {
        assert(((pre + "    str r0, [fp, #"@) + dec_i(v as int)) + "]\n"@ =~= pre + (("    str r0, [fp, #"@
            + dec_i(v as int)) + "]\n"@));
    }
}

fn put_ldr_fp(buffer: &mut String, v: isize)
    ensures
        final(buffer)@ == old(buffer)@ + render(AsmLine::LdrR0Fp(v as int)),
{
    let ghost pre = buffer@;
    buffer.append("    ldr r0, [fp, #");
    push_dec_i128(buffer, v as i128);
    buffer.append("]\n");
    proof {
        assert(((pre + "    ldr r0, [fp, #"@) + dec_i(v as int)) + "]\n"@ =~= pre + (("    ldr r0, [fp, #"@
            + dec_i(v as int)) + "]\n"@));
    }
}

fn put_bl(buffer: &mut String, name: &String)
    ensures
        final(buffer)@ == old(buffer)@ + render(AsmLine::Bl(name@)),
{
    let ghost pre = buffer@;
    buffer.append("    bl ");
    buffer.append(name.as_str());
    buffer.append("\n");
    proof {
        assert(((pre + "    bl "@) + name@) + "\n"@ =~= pre + (("    bl "@ + name@) + "\n"@));
    }
}

fn put_global(buffer: &mut String, name: &String)
    ensures
        final(buffer)@ == old(buffer)@ + render(AsmLine::Global(name@)),
{
    let ghost pre = buffer@;
    buffer.append(".global ");
    buffer.append(name.as_str());
    buffer.append("\n");
    proof {
        assert(((pre + ".global "@) + name@) + "\n"@ =~= pre + ((".global "@ + name@) + "\n"@));
    }
}

fn put_name_label(buffer: &mut String, name: &String)
    ensures
        final(buffer)@ == old(buffer)@ + render(AsmLine::NameLabel(name@)),
{
    let ghost pre = buffer@;
    buffer.append(name.as_str());
    buffer.append(":\n");
    proof {
        assert((pre + name@) + ":\n"@ =~= pre + (name@ + ":\n"@));
    }
}

fn put_branch_eq(buffer: &mut String, l: u64)
    ensures
        final(buffer)@ == old(buffer)@ + render(AsmLine::BranchEq(l as int)),
{
    let ghost pre = buffer@;
    buffer.append("    beq .L");
    push_dec_u128(buffer, l as u128);
    buffer.append("\n");
    proof {
        assert(dec_i(l as int) == dec_u(l as int));
        assert(((pre + "    beq .L"@) + dec_u(l as int)) + "\n"@ =~= pre + (("    beq .L"@
            + dec_i(l as int)) + "\n"@));
    }
}

fn put_branch(buffer: &mut String, l: u64)
    ensures
        final(buffer)@ == old(buffer)@ + render(AsmLine::Branch(l as int)),
{
    let ghost pre = buffer@;
    buffer.append("    b .L");
    push_dec_u128(buffer, l as u128);
    buffer.append("\n");
    proof {
        assert(dec_i(l as int) == dec_u(l as int));
        assert(((pre + "    b .L"@) + dec_u(l as int)) + "\n"@ =~= pre + (("    b .L"@ + dec_i(
            l as int,
        )) + "\n"@));
    }
}

fn put_num_label_line(buffer: &mut String, l: u64)
    ensures
        final(buffer)@ == old(buffer)@ + render(AsmLine::NumLabelLine(l as int)),
{
    let ghost pre = buffer@;
    buffer.append(".L");
    push_dec_u128(buffer, l as u128);
    buffer.append(":\n");
    proof {
        assert(dec_i(l as int) == dec_u(l as int));
        assert(((pre + ".L"@) + dec_u(l as int)) + ":\n"@ =~= pre + ((".L"@ + dec_i(l as int))
            + ":\n"@));
    }
}

fn put_num_label(buffer: &mut String, l: u64)
    ensures
        final(buffer)@ == old(buffer)@ + render(AsmLine::NumLabel(l as int)),
{
    let ghost pre = buffer@;
    buffer.append(".L");
    push_dec_u128(buffer, l as u128);
    buffer.append(":");
    proof {
        assert(dec_i(l as int) == dec_u(l as int));
        assert(((pre + ".L"@) + dec_u(l as int)) + ":"@ =~= pre + ((".L"@ + dec_i(l as int))
            + ":"@));
    }
}

/// Mints the next branch-target number: the current counter value, counting
/// up.
fn alloc_label(labels: &mut u64) -> (r: u64)
    ensures
        r == *old(labels),
        *final(labels) as int == bump_label(*old(labels) as int),
{
    let cur = *labels;
    if *labels < u64::MAX {
        *labels = *labels + 1;
    }
    cur
}


/// The code generator for the 32-bit ARM target: it owns the tree it lowers.
#[derive(Debug)]
pub struct Arm32Generator {
    ast: Ast,
}

/// A lowering pass from a checked tree to assembly text.
pub trait CodeGenerator {
    /// The tree the generator will lower.
    spec fn program(&self) -> SpecAst;

    /// Lowers the whole tree into `buffer`, with branch targets counted from
    /// zero and the caller's symbol table.
    fn emit(&self, buffer: &mut String, env: &mut Environment) -> (r: Result<(), CompileError>)
        ensures
            ({
                let m = spec_emit(
                    self.program(),
                    old(env).table(),
                    old(env).next_local_offset as int,
                    0,
                );
                match r {
                    Ok(_) => {
                        &&& m matches Ok(mm)
                        &&& final(buffer)@ == old(buffer)@ + render_all(mm.0)
                        &&& final(env).table() == mm.1
                        &&& final(env).next_local_offset as int == mm.2
                    },
                    Err(e) => m matches Err(me) && me == error_view(e),
                }
            }),
    ;
}

impl Arm32Generator {
    /// A generator for the given tree.
    pub fn new(ast: Ast) -> (r: Arm32Generator)
        ensures
            r.program() == ast_view(ast),
    {
        Arm32Generator { ast }
    }

    /// The fixed slots of up to four parameters, and the first local's slot
    /// below them.
    pub fn make_initial_function_environment(params: &Vec<(String, Type)>) -> (r: Environment)
        requires
            params@.len() <= 4,
        ensures
            r.table() == spec_param_offsets(params_view(params@)),
            r.next_local_offset == -20,
    {
        proof {
            crate::types::lemma_params_view_len(params@);
        }
        let mut locals: Vec<(String, isize)> = Vec::new();
        let mut i: usize = 0;
        while i < params.len()
            invariant
                i <= params@.len() <= 4,
                offsets_view(locals@) =~~= spec_param_offsets(params_view(params@)).subrange(
                    0,
                    i as int,
                ),
                locals@.len() == i,
            decreases params@.len() - i,
        {
            proof {
                crate::types::lemma_params_view_len(params@);
                lemma_offsets_view_push(
                    locals@,
                    (params@[i as int].0, (4 * i - 16) as isize),
                );
            }
            let name = params[i].0.clone();
            let off: isize = 4 * (i as isize) - 16;
            locals.push((name, off));
            proof {
                assert(offsets_view(locals@) =~~= spec_param_offsets(
                    params_view(params@),
                ).subrange(0, i + 1));
            }
            i = i + 1;
        }
        proof {
            assert(spec_param_offsets(params_view(params@)).subrange(
                0,
                params@.len() as int,
            ) =~= spec_param_offsets(params_view(params@)));
        }
        Environment::new(locals, -20)
    }

    /// The prologue every function starts with: save the frame pointer and
    /// return link, establish the frame, preserve the argument registers.
    pub fn emit_prologue(buffer: &mut String)
        ensures
            final(buffer)@ == old(buffer)@ + render_all(
                seq![AsmLine::PushFpLr, AsmLine::MovFpSp, AsmLine::PushArgs],
            ),
    {
        put(buffer, "    push {fp, lr}\n", Ghost(AsmLine::PushFpLr));
        put(buffer, "    mov fp, sp\n", Ghost(AsmLine::MovFpSp));
        put(buffer, "    push {r0, r1, r2, r3}\n", Ghost(AsmLine::PushArgs));
        proof {
            lemma_render3(AsmLine::PushFpLr, AsmLine::MovFpSp, AsmLine::PushArgs);
            assert(final(buffer)@ =~= old(buffer)@ + render_all(
                seq![AsmLine::PushFpLr, AsmLine::MovFpSp, AsmLine::PushArgs],
            ));
        }
    }

    /// The default epilogue: restore the stack pointer, zero the result
    /// register, pop the frame pointer and program counter.
    pub fn emit_epilogue(buffer: &mut String)
        ensures
            final(buffer)@ == old(buffer)@ + render_all(
                seq![AsmLine::MovSpFp, AsmLine::MovR0Zero, AsmLine::PopFpPc],
            ),
    {
        put(buffer, "    mov sp, fp\n", Ghost(AsmLine::MovSpFp));
        put(buffer, "    mov r0, #0\n", Ghost(AsmLine::MovR0Zero));
        put(buffer, "    pop {fp, pc}\n", Ghost(AsmLine::PopFpPc));
        proof {
            lemma_render3(AsmLine::MovSpFp, AsmLine::MovR0Zero, AsmLine::PopFpPc);
            assert(final(buffer)@ =~= old(buffer)@ + render_all(
                seq![AsmLine::MovSpFp, AsmLine::MovR0Zero, AsmLine::PopFpPc],
            ));
        }
    }

}

impl CodeGenerator for Arm32Generator {
    closed spec fn program(&self) -> SpecAst {
        ast_view(self.ast)
    }

    fn emit(&self, buffer: &mut String, env: &mut Environment) -> (r: Result<(), CompileError>) {
        let mut labels: u64 = 0;
        self.emit_ast(&self.ast, buffer, env, &mut labels)
    }
}


impl Arm32Generator {
    /// Lowers one node into `buffer`, threading the symbol table and the
    /// label counter exactly as `spec_emit` states.
    #[verifier::rlimit(100)]
    #[verifier::spinoff_prover]
    pub fn emit_ast(
        &self,
        ast: &Ast,
        buffer: &mut String,
        env: &mut Environment,
        labels: &mut u64,
    ) -> (r: Result<(), CompileError>)
        ensures
            ({
                let m = spec_emit(
                    ast_view(*ast),
                    old(env).table(),
                    old(env).next_local_offset as int,
                    *old(labels) as int,
                );
                match r {
                    Ok(_) => {
                        &&& m matches Ok(mm)
                        &&& final(buffer)@ == old(buffer)@ + render_all(mm.0)
                        &&& final(env).table() == mm.1
                        &&& final(env).next_local_offset as int == mm.2
                        &&& *final(labels) as int == mm.3
                    },
                    Err(e) => m matches Err(me) && me == error_view(e),
                }
            }),
        decreases *ast, 1int, 0int,
    {
        proof {
            reveal(spec_emit);
        }
        let ghost table0 = env.table();
        let ghost next0 = env.next_local_offset as int;
        let ghost label0 = *labels as int;
        let ghost buf0 = buffer@;
        match ast {
            Ast::Block(ss) => {
                put(buffer, "\n", Ghost(AsmLine::Blank));
                proof {
                    assert(ss@.subrange(0, ss@.len() as int) =~= ss@);
                }
                match self.emit_all(ss, 0, buffer, env, labels) {
                    Ok(_) => {
                        proof {
                            let m = spec_emit_all(asts_view(ss@), table0, next0, label0);
                            lemma_render_all_one(AsmLine::Blank);
                            lemma_render_all_concat(seq![AsmLine::Blank], m->Ok_0.0);
                            assert((buf0 + render(AsmLine::Blank)) + render_all(m->Ok_0.0)
                                =~= buf0 + render_all(seq![AsmLine::Blank] + m->Ok_0.0));
                        }
                        Ok(())
                    },
                    Err(e) => Err(e),
                }
            },
            Ast::Undefined => {
                put(buffer, "\n", Ghost(AsmLine::Blank));
                put(buffer, "    mov r0, #0\n", Ghost(AsmLine::MovR0Zero));
                proof {
                    lemma_render2(AsmLine::Blank, AsmLine::MovR0Zero);
                    assert((buf0 + render(AsmLine::Blank)) + render(AsmLine::MovR0Zero) =~= buf0
                        + render_all(seq![AsmLine::Blank, AsmLine::MovR0Zero]));
                }
                Ok(())
            },
            Ast::Null => {
                put(buffer, "\n", Ghost(AsmLine::Blank));
                put(buffer, "    mov r0, #0\n", Ghost(AsmLine::MovR0Zero));
                proof {
                    lemma_render2(AsmLine::Blank, AsmLine::MovR0Zero);
                    assert((buf0 + render(AsmLine::Blank)) + render(AsmLine::MovR0Zero) =~= buf0
                        + render_all(seq![AsmLine::Blank, AsmLine::MovR0Zero]));
                }
                Ok(())
            },
            Ast::Number(v) => {
                put(buffer, "\n", Ghost(AsmLine::Blank));
                put_ldr_const_i32(buffer, *v);
                proof {
                    lemma_render2(AsmLine::Blank, AsmLine::LdrR0Const(*v as int));
                    assert((buf0 + render(AsmLine::Blank)) + render(AsmLine::LdrR0Const(*v as int))
                        =~= buf0 + render_all(
                        seq![AsmLine::Blank, AsmLine::LdrR0Const(*v as int)],
                    ));
                }
                Ok(())
            },
            Ast::Bool(b) => {
                put(buffer, "\n", Ghost(AsmLine::Blank));
                if *b {
                    put(buffer, "    mov r0, #1\n", Ghost(AsmLine::MovR0One));
                    proof {
                        lemma_render2(AsmLine::Blank, AsmLine::MovR0One);
                        assert((buf0 + render(AsmLine::Blank)) + render(AsmLine::MovR0One) =~= buf0
                            + render_all(seq![AsmLine::Blank, AsmLine::MovR0One]));
                    }
                } else {
                    put(buffer, "    mov r0, #0\n", Ghost(AsmLine::MovR0Zero));
                    proof {
                        lemma_render2(AsmLine::Blank, AsmLine::MovR0Zero);
                        assert((buf0 + render(AsmLine::Blank)) + render(AsmLine::MovR0Zero)
                            =~= buf0 + render_all(seq![AsmLine::Blank, AsmLine::MovR0Zero]));
                    }
                }
                Ok(())
            },
            Ast::ArrayLiteral(es) => {
                proof {
                    assert(decreases_to!(*ast => *es));
                    assert(decreases_to!(*es => es@));
                    assert(ast_view(*ast) == SpecAst::ArrayLiteral(asts_view(es@)));
                }
                self.emit_array_literal(ast, es, buffer, env, labels)
            },
            Ast::ArrayLookup(arr, ix) => {
                proof {
                    assert(decreases_to!(*ast => **arr));
                    assert(decreases_to!(*ast => **ix));
                    assert(ast_view(*ast) == SpecAst::ArrayLookup(
                        Box::new(ast_view(**arr)),
                        Box::new(ast_view(**ix)),
                    ));
                }
                self.emit_array_lookup(ast, arr, ix, buffer, env, labels)
            },
            Ast::ArrayLength(arr) => {
                match self.emit_ast(arr, buffer, env, labels) {
                    Ok(_) => {
                        put(buffer, "    ldr r0, [r0, #0]\n", Ghost(AsmLine::LdrR0R0));
                        proof {
                            let m = spec_emit(ast_view(**arr), table0, next0, label0);
                            lemma_render_all_one(AsmLine::LdrR0R0);
                            lemma_render_all_concat(m->Ok_0.0, seq![AsmLine::LdrR0R0]);
                            assert(final(buffer)@ =~= buf0 + render_all(
                                m->Ok_0.0 + seq![AsmLine::LdrR0R0],
                            ));
                        }
                        Ok(())
                    },
                    Err(e) => Err(e),
                }
            },
            Ast::Not(e) => {
                put(buffer, "\n", Ghost(AsmLine::Blank));
                match self.emit_ast(e, buffer, env, labels) {
                    Ok(_) => {
                        put(buffer, "    cmp r0, #0\n", Ghost(AsmLine::CmpR0Zero));
                        put(buffer, "    moveq r0, #1\n", Ghost(AsmLine::MovEqR0One));
                        put(buffer, "    movne r0, #0\n", Ghost(AsmLine::MovNeR0Zero));
                        proof {
                            let m = spec_emit(ast_view(**e), table0, next0, label0);
                            let tailseq = seq![
                                AsmLine::CmpR0Zero,
                                AsmLine::MovEqR0One,
                                AsmLine::MovNeR0Zero,
                            ];
                            lemma_render_all_one(AsmLine::Blank);
                            lemma_render3(
                                AsmLine::CmpR0Zero,
                                AsmLine::MovEqR0One,
                                AsmLine::MovNeR0Zero,
                            );
                            lemma_render_all_concat(seq![AsmLine::Blank], m->Ok_0.0);
                            lemma_render_all_concat(seq![AsmLine::Blank] + m->Ok_0.0, tailseq);
                            assert(final(buffer)@ =~= buf0 + render_all(
                                seq![AsmLine::Blank] + m->Ok_0.0 + tailseq,
                            ));
                        }
                        Ok(())
                    },
                    Err(e) => Err(e),
                }
            },
            Ast::Addition(x, y) => {
                proof {
                    assert(decreases_to!(*ast => **x));
                    assert(decreases_to!(*ast => **y));
                    assert(decreases_to!(ast_view(*ast) => ast_view(**x)));
                    assert(decreases_to!(ast_view(*ast) => ast_view(**y)));
                }
                self.emit_binary(ast, x, y, 0, buffer, env, labels)
            },
            Ast::Subtraction(x, y) => {
                proof {
                    assert(decreases_to!(*ast => **x));
                    assert(decreases_to!(*ast => **y));
                    assert(decreases_to!(ast_view(*ast) => ast_view(**x)));
                    assert(decreases_to!(ast_view(*ast) => ast_view(**y)));
                }
                self.emit_binary(ast, x, y, 1, buffer, env, labels)
            },
            Ast::Multiplication(x, y) => {
                proof {
                    assert(decreases_to!(*ast => **x));
                    assert(decreases_to!(*ast => **y));
                    assert(decreases_to!(ast_view(*ast) => ast_view(**x)));
                    assert(decreases_to!(ast_view(*ast) => ast_view(**y)));
                }
                self.emit_binary(ast, x, y, 2, buffer, env, labels)
            },
            Ast::Division(x, y) => {
                proof {
                    assert(decreases_to!(*ast => **x));
                    assert(decreases_to!(*ast => **y));
                    assert(decreases_to!(ast_view(*ast) => ast_view(**x)));
                    assert(decreases_to!(ast_view(*ast) => ast_view(**y)));
                }
                self.emit_binary(ast, x, y, 3, buffer, env, labels)
            },
            Ast::Equal(x, y) => {
                proof {
                    assert(decreases_to!(*ast => **x));
                    assert(decreases_to!(*ast => **y));
                    assert(decreases_to!(ast_view(*ast) => ast_view(**x)));
                    assert(decreases_to!(ast_view(*ast) => ast_view(**y)));
                }
                self.emit_binary(ast, x, y, 4, buffer, env, labels)
            },
            Ast::NotEqual(x, y) => {
                proof {
                    assert(decreases_to!(*ast => **x));
                    assert(decreases_to!(*ast => **y));
                    assert(decreases_to!(ast_view(*ast) => ast_view(**x)));
                    assert(decreases_to!(ast_view(*ast) => ast_view(**y)));
                }
                self.emit_binary(ast, x, y, 5, buffer, env, labels)
            },
            Ast::Call(name, args) => {
                proof {
                    assert(decreases_to!(*ast => *args));
                    assert(decreases_to!(*args => args@));
                    assert(ast_view(*ast) == SpecAst::Call(name@, asts_view(args@)));
                }
                self.emit_call(ast, name, args, buffer, env, labels)
            },
            Ast::Var(name, e) => {
                put(buffer, "\n", Ghost(AsmLine::Blank));
                match self.emit_ast(e, buffer, env, labels) {
                    Ok(_) => {
                        put(buffer, "    push {r0, ip}\n", Ghost(AsmLine::PushR0Ip));
                        let ghost m = spec_emit(ast_view(**e), table0, next0, label0);
                        let ghost pretable = env.table();
                        let next = env.next_local_offset;
                        if next >= isize::MIN + 8 {
                            let off = next - 4;
                            let n2 = name.clone();
                            proof {
                                lemma_offsets_view_push(env.locals@, (n2, off));
                            }
                            env.locals.push((n2, off));
                            env.next_local_offset = next - 8;
                        } else {
                            let off = next;
                            let n2 = name.clone();
                            proof {
                                lemma_offsets_view_push(env.locals@, (n2, off));
                            }
                            env.locals.push((n2, off));
                        }
                        proof {
                            lemma_render_all_one(AsmLine::Blank);
                            lemma_render_all_one(AsmLine::PushR0Ip);
                            lemma_render_all_concat(seq![AsmLine::Blank], m->Ok_0.0);
                            lemma_render_all_concat(
                                seq![AsmLine::Blank] + m->Ok_0.0,
                                seq![AsmLine::PushR0Ip],
                            );
                            assert(final(buffer)@ =~= buf0 + render_all(
                                seq![AsmLine::Blank] + m->Ok_0.0 + seq![AsmLine::PushR0Ip],
                            ));
                            assert(final(env).table() =~~= m->Ok_0.1.push(
                                (name@, bump_offset(m->Ok_0.2).0),
                            ));
                        }
                        Ok(())
                    },
                    Err(e) => Err(e),
                }
            },
            Ast::Assignment(name, e) => {
                let off = match env_get(env, name) {
                    Some(off) => off,
                    None => {
                        return Err(CompileError::UndefinedVariable(name.clone()));
                    },
                };
                match self.emit_ast(e, buffer, env, labels) {
                    Ok(_) => {
                        put_str_fp(buffer, off);
                        proof {
                            let m = spec_emit(ast_view(**e), table0, next0, label0);
                            lemma_render_all_one(AsmLine::StrR0Fp(off as int));
                            lemma_render_all_concat(
                                m->Ok_0.0,
                                seq![AsmLine::StrR0Fp(off as int)],
                            );
                            assert(final(buffer)@ =~= buf0 + render_all(
                                m->Ok_0.0 + seq![AsmLine::StrR0Fp(off as int)],
                            ));
                        }
                        Ok(())
                    },
                    Err(e) => Err(e),
                }
            },
            Ast::Identifier(name) => {
                put(buffer, "\n", Ghost(AsmLine::Blank));
                match env_get(env, name) {
                    Some(off) => {
                        put_ldr_fp(buffer, off);
                        proof {
                            lemma_render2(AsmLine::Blank, AsmLine::LdrR0Fp(off as int));
                            assert(final(buffer)@ =~= buf0 + render_all(
                                seq![AsmLine::Blank, AsmLine::LdrR0Fp(off as int)],
                            ));
                        }
                        Ok(())
                    },
                    None => Err(CompileError::UndefinedVariable(name.clone())),
                }
            },
            Ast::Function(name, signature, body) => {
                proof {
                    assert(decreases_to!(*ast => **body));
                    assert(ast_view(*ast) == SpecAst::Function(
                        name@,
                        type_view(*signature),
                        Box::new(ast_view(**body)),
                    ));
                }
                self.emit_function(ast, name, signature, body, buffer, env, labels)
            },
            Ast::Return(e) => {
                match self.emit_ast(e, buffer, env, labels) {
                    Ok(_) => {
                        put(buffer, "    mov sp, fp\n", Ghost(AsmLine::MovSpFp));
                        put(buffer, "    pop {fp, pc}\n", Ghost(AsmLine::PopFpPc));
                        proof {
                            let m = spec_emit(ast_view(**e), table0, next0, label0);
                            lemma_render2(AsmLine::MovSpFp, AsmLine::PopFpPc);
                            lemma_render_all_concat(
                                m->Ok_0.0,
                                seq![AsmLine::MovSpFp, AsmLine::PopFpPc],
                            );
                            assert(final(buffer)@ =~= buf0 + render_all(
                                m->Ok_0.0 + seq![AsmLine::MovSpFp, AsmLine::PopFpPc],
                            ));
                        }
                        Ok(())
                    },
                    Err(e) => Err(e),
                }
            },
            Ast::If(c, t, e) => {
                proof {
                    assert(decreases_to!(*ast => **c));
                    assert(decreases_to!(*ast => **t));
                    assert(decreases_to!(*ast => **e));
                    assert(ast_view(*ast) == SpecAst::If(
                        Box::new(ast_view(**c)),
                        Box::new(ast_view(**t)),
                        Box::new(ast_view(**e)),
                    ));
                }
                self.emit_if(ast, c, t, e, buffer, env, labels)
            },
            Ast::While(c, b) => {
                proof {
                    assert(decreases_to!(*ast => **c));
                    assert(decreases_to!(*ast => **b));
                    assert(ast_view(*ast) == SpecAst::While(
                        Box::new(ast_view(**c)),
                        Box::new(ast_view(**b)),
                    ));
                }
                self.emit_while(ast, c, b, buffer, env, labels)
            },
        }
    }
}


/// The combining instructions of each binary operator, keyed by a small
/// code: add, subtract, multiply, divide, equal, not-equal.
pub open spec fn combine_of(op: int) -> Seq<AsmLine> {
    if op == 0 {
        seq![AsmLine::AddR0R0R1]
    } else if op == 1 {
        seq![AsmLine::SubR0R1R0]
    } else if op == 2 {
        seq![AsmLine::MulR0R0R1]
    } else if op == 3 {
        seq![AsmLine::UdivR0R1R0]
    } else if op == 4 {
        seq![AsmLine::CmpR0R1, AsmLine::MovEqR0One, AsmLine::MovNeR0Zero]
    } else {
        seq![AsmLine::CmpR0R1, AsmLine::MovEqR0Zero, AsmLine::MovNeR0One]
    }
}

impl Arm32Generator {

    #[verifier::rlimit(100)]
    #[verifier::spinoff_prover]
    fn emit_array_literal(
        &self,
        parent: &Ast,
        es: &Vec<Ast>,
        buffer: &mut String,
        env: &mut Environment,
        labels: &mut u64,
    ) -> (r: Result<(), CompileError>)
        requires
            ast_view(*parent) == SpecAst::ArrayLiteral(asts_view(es@)),
            decreases_to!(*parent => es@),
        ensures
            ({
                let m = spec_emit(
                    ast_view(*parent),
                    old(env).table(),
                    old(env).next_local_offset as int,
                    *old(labels) as int,
                );
                match r {
                    Ok(_) => {
                        &&& m matches Ok(mm)
                        &&& final(buffer)@ == old(buffer)@ + render_all(mm.0)
                        &&& final(env).table() == mm.1
                        &&& final(env).next_local_offset as int == mm.2
                        &&& *final(labels) as int == mm.3
                    },
                    Err(e) => m matches Err(me) && me == error_view(e),
                }
            }),
        decreases *parent, 0int, 0int,
    {
        proof {
            reveal(spec_emit);
        }
        let ghost table0 = env.table();
        let ghost next0 = env.next_local_offset as int;
        let ghost label0 = *labels as int;
        let ghost buf0 = buffer@;

                let n = es.len();
                let size: u128 = 4 * (n as u128 + 1);
                put(buffer, "\n", Ghost(AsmLine::Blank));
                put_ldr_const_u128(buffer, size);
                put(buffer, "    bl malloc\n", Ghost(AsmLine::BlMalloc));
                put(buffer, "    push {r4, ip}\n", Ghost(AsmLine::PushR4Ip));
                put(buffer, "    mov r4, r0\n", Ghost(AsmLine::MovR4R0));
                put_ldr_const_u128(buffer, n as u128);
                put(buffer, "    str r0, [r4]\n", Ghost(AsmLine::StrR0R4));
                proof {
                    assert(es@.subrange(0, es@.len() as int) =~= es@);
                    crate::ast::lemma_asts_view_len(es@);
                }
                let ghost head = seq![
                    AsmLine::Blank,
                    AsmLine::LdrR0Const(es@.len() as int * 4 + 4),
                    AsmLine::BlMalloc,
                    AsmLine::PushR4Ip,
                    AsmLine::MovR4R0,
                    AsmLine::LdrR0Const(es@.len() as int),
                    AsmLine::StrR0R4,
                ];
                let ghost buf1 = buffer@;
                match self.emit_elements(es, 0, buffer, env, labels) {
                    Ok(_) => {
                        put(buffer, "    mov r0, r4\n", Ghost(AsmLine::MovR0R4));
                        put(buffer, "    pop {r4, ip}\n", Ghost(AsmLine::PopR4Ip));
                        proof {
                            let m = spec_emit_elements(
                                asts_view(es@),
                                table0,
                                next0,
                                label0,
                                0,
                            );
                            let lines = seq![
                                AsmLine::Blank,
                                AsmLine::LdrR0Const(4 * (asts_view(es@).len() as int + 1)),
                                AsmLine::BlMalloc,
                                AsmLine::PushR4Ip,
                                AsmLine::MovR4R0,
                                AsmLine::LdrR0Const(asts_view(es@).len() as int),
                                AsmLine::StrR0R4,
                            ] + m->Ok_0.0 + seq![AsmLine::MovR0R4, AsmLine::PopR4Ip];
                            lemma_render7(
                                AsmLine::Blank,
                                AsmLine::LdrR0Const(size as int),
                                AsmLine::BlMalloc,
                                AsmLine::PushR4Ip,
                                AsmLine::MovR4R0,
                                AsmLine::LdrR0Const(es@.len() as int),
                                AsmLine::StrR0R4,
                            );
                            assert(head =~= seq![
                                AsmLine::Blank,
                                AsmLine::LdrR0Const(4 * (asts_view(es@).len() as int + 1)),
                                AsmLine::BlMalloc,
                                AsmLine::PushR4Ip,
                                AsmLine::MovR4R0,
                                AsmLine::LdrR0Const(asts_view(es@).len() as int),
                                AsmLine::StrR0R4,
                            ]);
                            assert(buf1 =~= buf0 + render_all(head));
                            lemma_render2(AsmLine::MovR0R4, AsmLine::PopR4Ip);
                            lemma_render_all_concat(head, m->Ok_0.0);
                            lemma_render_all_concat(
                                head + m->Ok_0.0,
                                seq![AsmLine::MovR0R4, AsmLine::PopR4Ip],
                            );
                            assert(((buf0 + render_all(head)) + render_all(m->Ok_0.0)) + (render(
                                AsmLine::MovR0R4,
                            ) + render(AsmLine::PopR4Ip)) =~= buf0 + render_all(lines));
                        }
                        Ok(())
                    },
                    Err(e) => Err(e),
                }
            
    }

    #[verifier::rlimit(100)]
    #[verifier::spinoff_prover]
    fn emit_array_lookup(
        &self,
        parent: &Ast,
        arr: &Ast,
        ix: &Ast,
        buffer: &mut String,
        env: &mut Environment,
        labels: &mut u64,
    ) -> (r: Result<(), CompileError>)
        requires
            ast_view(*parent) == SpecAst::ArrayLookup(
                Box::new(ast_view(*arr)),
                Box::new(ast_view(*ix)),
            ),
            decreases_to!(*parent => *arr),
            decreases_to!(*parent => *ix),
        ensures
            ({
                let m = spec_emit(
                    ast_view(*parent),
                    old(env).table(),
                    old(env).next_local_offset as int,
                    *old(labels) as int,
                );
                match r {
                    Ok(_) => {
                        &&& m matches Ok(mm)
                        &&& final(buffer)@ == old(buffer)@ + render_all(mm.0)
                        &&& final(env).table() == mm.1
                        &&& final(env).next_local_offset as int == mm.2
                        &&& *final(labels) as int == mm.3
                    },
                    Err(e) => m matches Err(me) && me == error_view(e),
                }
            }),
        decreases *parent, 0int, 0int,
    {
        proof {
            reveal(spec_emit);
        }
        let ghost table0 = env.table();
        let ghost next0 = env.next_local_offset as int;
        let ghost label0 = *labels as int;
        let ghost buf0 = buffer@;

                match self.emit_ast(arr, buffer, env, labels) {
                    Ok(_) => {
                        put(buffer, "    push {r0, ip}\n", Ghost(AsmLine::PushR0Ip));
                        match self.emit_ast(ix, buffer, env, labels) {
                            Ok(_) => {
                                put(buffer, "    pop {r1, ip}\n", Ghost(AsmLine::PopR1Ip));
                                put(buffer, "    ldr r2, [r1]\n", Ghost(AsmLine::LdrR2R1));
                                put(buffer, "    cmp r0, r2\n", Ghost(AsmLine::CmpR0R2));
                                put(buffer, "    movhs r0, #0\n", Ghost(AsmLine::MovHsR0Zero));
                                put(
                                    buffer,
                                    "    addlo r1, r1, #4\n",
                                    Ghost(AsmLine::AddLoR1Four),
                                );
                                put(buffer, "    lsllo r0, r0, #2\n", Ghost(AsmLine::LslLoR0Two));
                                put(buffer, "    ldrlo r0, [r1, r0]\n", Ghost(AsmLine::LdrLoR0));
                                proof {
                                    let ma = spec_emit(ast_view(*arr), table0, next0, label0);
                                    let mi = spec_emit(
                                        ast_view(*ix),
                                        ma->Ok_0.1,
                                        ma->Ok_0.2,
                                        ma->Ok_0.3,
                                    );
                                    let tailseq = seq![
                                        AsmLine::PopR1Ip,
                                        AsmLine::LdrR2R1,
                                        AsmLine::CmpR0R2,
                                        AsmLine::MovHsR0Zero,
                                        AsmLine::AddLoR1Four,
                                        AsmLine::LslLoR0Two,
                                        AsmLine::LdrLoR0,
                                    ];
                                    lemma_render7(
                                        AsmLine::PopR1Ip,
                                        AsmLine::LdrR2R1,
                                        AsmLine::CmpR0R2,
                                        AsmLine::MovHsR0Zero,
                                        AsmLine::AddLoR1Four,
                                        AsmLine::LslLoR0Two,
                                        AsmLine::LdrLoR0,
                                    );
                                    lemma_render_all_one(AsmLine::PushR0Ip);
                                    lemma_render_all_concat(ma->Ok_0.0, seq![AsmLine::PushR0Ip]);
                                    lemma_render_all_concat(
                                        ma->Ok_0.0 + seq![AsmLine::PushR0Ip],
                                        mi->Ok_0.0,
                                    );
                                    lemma_render_all_concat(
                                        ma->Ok_0.0 + seq![AsmLine::PushR0Ip] + mi->Ok_0.0,
                                        tailseq,
                                    );
                                    assert(final(buffer)@ =~= buf0 + render_all(
                                        ma->Ok_0.0 + seq![AsmLine::PushR0Ip] + mi->Ok_0.0
                                            + tailseq,
                                    ));
                                }
                                Ok(())
                            },
                            Err(e) => Err(e),
                        }
                    },
                    Err(e) => Err(e),
                }
            
    }

    #[verifier::rlimit(100)]
    #[verifier::spinoff_prover]
    fn emit_call(
        &self,
        parent: &Ast,
        name: &String,
        args: &Vec<Ast>,
        buffer: &mut String,
        env: &mut Environment,
        labels: &mut u64,
    ) -> (r: Result<(), CompileError>)
        requires
            ast_view(*parent) == SpecAst::Call(name@, asts_view(args@)),
            decreases_to!(*parent => args@),
        ensures
            ({
                let m = spec_emit(
                    ast_view(*parent),
                    old(env).table(),
                    old(env).next_local_offset as int,
                    *old(labels) as int,
                );
                match r {
                    Ok(_) => {
                        &&& m matches Ok(mm)
                        &&& final(buffer)@ == old(buffer)@ + render_all(mm.0)
                        &&& final(env).table() == mm.1
                        &&& final(env).next_local_offset as int == mm.2
                        &&& *final(labels) as int == mm.3
                    },
                    Err(e) => m matches Err(me) && me == error_view(e),
                }
            }),
        decreases *parent, 0int, 0int,
    {
        proof {
            reveal(spec_emit);
        }
        let ghost table0 = env.table();
        let ghost next0 = env.next_local_offset as int;
        let ghost label0 = *labels as int;
        let ghost buf0 = buffer@;
        proof {
            crate::ast::lemma_asts_view_len(args@);
        }

                put(buffer, "\n", Ghost(AsmLine::Blank));
                if args.len() == 0 {
                    put_bl(buffer, name);
                    proof {
                        lemma_render2(AsmLine::Blank, AsmLine::Bl(name@));
                        assert(final(buffer)@ =~= buf0 + render_all(
                            seq![AsmLine::Blank, AsmLine::Bl(name@)],
                        ));
                    }
                    Ok(())
                } else if args.len() == 1 {
                    proof {
                        crate::ast::lemma_asts_view_len(args@);
                        assert(decreases_to!(args@ => args@[0]));
                    }
                    match self.emit_ast(&args[0], buffer, env, labels) {
                        Ok(_) => {
                            put_bl(buffer, name);
                            proof {
                                let m = spec_emit(
                                    ast_view(args@[0]),
                                    table0,
                                    next0,
                                    label0,
                                );
                                assert(asts_view(args@)[0] == ast_view(args@[0]));
                                lemma_render_all_one(AsmLine::Blank);
                                lemma_render_all_one(AsmLine::Bl(name@));
                                lemma_render_all_concat(seq![AsmLine::Blank], m->Ok_0.0);
                                lemma_render_all_concat(
                                    seq![AsmLine::Blank] + m->Ok_0.0,
                                    seq![AsmLine::Bl(name@)],
                                );
                                assert(final(buffer)@ =~= buf0 + render_all(
                                    seq![AsmLine::Blank] + m->Ok_0.0 + seq![AsmLine::Bl(name@)],
                                ));
                            }
                            Ok(())
                        },
                        Err(e) => Err(e),
                    }
                } else if args.len() < 5 {
                    put(buffer, "    sub sp, sp, #16\n", Ghost(AsmLine::SubSp16));
                    proof {
                        assert(args@.subrange(0, args@.len() as int) =~= args@);
                    }
                    match self.emit_arguments(args, 0, buffer, env, labels) {
                        Ok(_) => {
                            put(buffer, "    pop {r0, r1, r2, r3}\n", Ghost(AsmLine::PopArgs));
                            put_bl(buffer, name);
                            proof {
                                let m = spec_emit_arguments(
                                    asts_view(args@),
                                    table0,
                                    next0,
                                    label0,
                                    0,
                                );
                                crate::ast::lemma_asts_view_len(args@);
                                lemma_render2(AsmLine::Blank, AsmLine::SubSp16);
                                lemma_render2(AsmLine::PopArgs, AsmLine::Bl(name@));
                                lemma_render_all_concat(
                                    seq![AsmLine::Blank, AsmLine::SubSp16],
                                    m->Ok_0.0,
                                );
                                lemma_render_all_concat(
                                    seq![AsmLine::Blank, AsmLine::SubSp16] + m->Ok_0.0,
                                    seq![AsmLine::PopArgs, AsmLine::Bl(name@)],
                                );
                                assert(final(buffer)@ =~= buf0 + render_all(
                                    seq![AsmLine::Blank, AsmLine::SubSp16] + m->Ok_0.0 + seq![
                                        AsmLine::PopArgs,
                                        AsmLine::Bl(name@),
                                    ],
                                ));
                            }
                            Ok(())
                        },
                        Err(e) => Err(e),
                    }
                } else {
                    proof {
                        crate::ast::lemma_asts_view_len(args@);
                    }
                    Err(CompileError::TooManyArguments)
                }
            
    }

    #[verifier::rlimit(100)]
    #[verifier::spinoff_prover]
    fn emit_function(
        &self,
        parent: &Ast,
        name: &String,
        signature: &Type,
        body: &Ast,
        buffer: &mut String,
        env: &mut Environment,
        labels: &mut u64,
    ) -> (r: Result<(), CompileError>)
        requires
            ast_view(*parent) == SpecAst::Function(
                name@,
                type_view(*signature),
                Box::new(ast_view(*body)),
            ),
            decreases_to!(*parent => *body),
        ensures
            ({
                let m = spec_emit(
                    ast_view(*parent),
                    old(env).table(),
                    old(env).next_local_offset as int,
                    *old(labels) as int,
                );
                match r {
                    Ok(_) => {
                        &&& m matches Ok(mm)
                        &&& final(buffer)@ == old(buffer)@ + render_all(mm.0)
                        &&& final(env).table() == mm.1
                        &&& final(env).next_local_offset as int == mm.2
                        &&& *final(labels) as int == mm.3
                    },
                    Err(e) => m matches Err(me) && me == error_view(e),
                }
            }),
        decreases *parent, 0int, 0int,
    {
        proof {
            reveal(spec_emit);
        }
        let ghost table0 = env.table();
        let ghost next0 = env.next_local_offset as int;
        let ghost label0 = *labels as int;
        let ghost buf0 = buffer@;

                match signature {
                    Type::Function { parameter_types, return_type } => {
                        proof {
                            assert(type_view(*signature) == SpecType::Function(
                                params_view(parameter_types@),
                                Box::new(type_view(**return_type)),
                            ));
                            crate::types::lemma_params_view_len(parameter_types@);
                        }
                        if parameter_types.len() > 4 {
                            Err(CompileError::TooManyArguments)
                        } else {
                            put(buffer, "\n", Ghost(AsmLine::Blank));
                            put(buffer, "\n", Ghost(AsmLine::Blank));
                            put_global(buffer, name);
                            put_name_label(buffer, name);
                            Arm32Generator::emit_prologue(buffer);
                            let mut fenv = Arm32Generator::make_initial_function_environment(
                                parameter_types,
                            );
                            match self.emit_ast(body, buffer, &mut fenv, labels) {
                                Ok(_) => {
                                    Arm32Generator::emit_epilogue(buffer);
                                    proof {
                                        let m = spec_emit(
                                            ast_view(*body),
                                            spec_param_offsets(params_view(parameter_types@)),
                                            -20,
                                            label0,
                                        );
                                        let head = seq![
                                            AsmLine::Blank,
                                            AsmLine::Blank,
                                            AsmLine::Global(name@),
                                            AsmLine::NameLabel(name@),
                                            AsmLine::PushFpLr,
                                            AsmLine::MovFpSp,
                                            AsmLine::PushArgs,
                                        ];
                                        let tailseq = seq![
                                            AsmLine::MovSpFp,
                                            AsmLine::MovR0Zero,
                                            AsmLine::PopFpPc,
                                        ];
                                        lemma_render7(
                                            AsmLine::Blank,
                                            AsmLine::Blank,
                                            AsmLine::Global(name@),
                                            AsmLine::NameLabel(name@),
                                            AsmLine::PushFpLr,
                                            AsmLine::MovFpSp,
                                            AsmLine::PushArgs,
                                        );
                                        lemma_render3(
                                            AsmLine::PushFpLr,
                                            AsmLine::MovFpSp,
                                            AsmLine::PushArgs,
                                        );
                                        lemma_render3(
                                            AsmLine::MovSpFp,
                                            AsmLine::MovR0Zero,
                                            AsmLine::PopFpPc,
                                        );
                                        lemma_render_all_concat(head, m->Ok_0.0);
                                        lemma_render_all_concat(head + m->Ok_0.0, tailseq);
                                        assert(final(buffer)@ =~= buf0 + render_all(
                                            head + m->Ok_0.0 + tailseq,
                                        ));
                                    }
                                    Ok(())
                                },
                                Err(e) => Err(e),
                            }
                        }
                    },
                    _ => Err(CompileError::NotAFunction(signature.clone())),
                }
            
    }

    #[verifier::rlimit(100)]
    #[verifier::spinoff_prover]
    fn emit_if(
        &self,
        parent: &Ast,
        c: &Ast,
        t: &Ast,
        e: &Ast,
        buffer: &mut String,
        env: &mut Environment,
        labels: &mut u64,
    ) -> (r: Result<(), CompileError>)
        requires
            ast_view(*parent) == SpecAst::If(
                Box::new(ast_view(*c)),
                Box::new(ast_view(*t)),
                Box::new(ast_view(*e)),
            ),
            decreases_to!(*parent => *c),
            decreases_to!(*parent => *t),
            decreases_to!(*parent => *e),
        ensures
            ({
                let m = spec_emit(
                    ast_view(*parent),
                    old(env).table(),
                    old(env).next_local_offset as int,
                    *old(labels) as int,
                );
                match r {
                    Ok(_) => {
                        &&& m matches Ok(mm)
                        &&& final(buffer)@ == old(buffer)@ + render_all(mm.0)
                        &&& final(env).table() == mm.1
                        &&& final(env).next_local_offset as int == mm.2
                        &&& *final(labels) as int == mm.3
                    },
                    Err(e) => m matches Err(me) && me == error_view(e),
                }
            }),
        decreases *parent, 0int, 0int,
    {
        proof {
            reveal(spec_emit);
        }
        let ghost table0 = env.table();
        let ghost next0 = env.next_local_offset as int;
        let ghost label0 = *labels as int;
        let ghost buf0 = buffer@;

                let l1 = alloc_label(labels);
                let l2 = alloc_label(labels);
                put(buffer, "\n", Ghost(AsmLine::Blank));
                match self.emit_ast(c, buffer, env, labels) {
                    Ok(_) => {
                        put(buffer, "    cmp r0, #0\n", Ghost(AsmLine::CmpR0Zero));
                        put_branch_eq(buffer, l1);
                        match self.emit_ast(t, buffer, env, labels) {
                            Ok(_) => {
                                put_branch(buffer, l2);
                                put(buffer, "\n", Ghost(AsmLine::Blank));
                                put_num_label(buffer, l1);
                                match self.emit_ast(e, buffer, env, labels) {
                                    Ok(_) => {
                                        put(buffer, "\n", Ghost(AsmLine::Blank));
                                        put_num_label(buffer, l2);
                                        proof {
                                            let label3 = bump_label(bump_label(label0));
                                            let mc = spec_emit(
                                                ast_view(*c),
                                                table0,
                                                next0,
                                                label3,
                                            );
                                            let mt = spec_emit(
                                                ast_view(*t),
                                                mc->Ok_0.1,
                                                mc->Ok_0.2,
                                                mc->Ok_0.3,
                                            );
                                            let me = spec_emit(
                                                ast_view(*e),
                                                mt->Ok_0.1,
                                                mt->Ok_0.2,
                                                mt->Ok_0.3,
                                            );
                                            let s1 = seq![
                                                AsmLine::CmpR0Zero,
                                                AsmLine::BranchEq(l1 as int),
                                            ];
                                            let s2 = seq![
                                                AsmLine::Branch(l2 as int),
                                                AsmLine::Blank,
                                                AsmLine::NumLabel(l1 as int),
                                            ];
                                            let s3 = seq![
                                                AsmLine::Blank,
                                                AsmLine::NumLabel(l2 as int),
                                            ];
                                            lemma_render_all_one(AsmLine::Blank);
                                            lemma_render2(
                                                AsmLine::CmpR0Zero,
                                                AsmLine::BranchEq(l1 as int),
                                            );
                                            lemma_render3(
                                                AsmLine::Branch(l2 as int),
                                                AsmLine::Blank,
                                                AsmLine::NumLabel(l1 as int),
                                            );
                                            lemma_render2(
                                                AsmLine::Blank,
                                                AsmLine::NumLabel(l2 as int),
                                            );
                                            lemma_render_all_concat(
                                                seq![AsmLine::Blank],
                                                mc->Ok_0.0,
                                            );
                                            lemma_render_all_concat(
                                                seq![AsmLine::Blank] + mc->Ok_0.0,
                                                s1,
                                            );
                                            lemma_render_all_concat(
                                                seq![AsmLine::Blank] + mc->Ok_0.0 + s1,
                                                mt->Ok_0.0,
                                            );
                                            lemma_render_all_concat(
                                                seq![AsmLine::Blank] + mc->Ok_0.0 + s1
                                                    + mt->Ok_0.0,
                                                s2,
                                            );
                                            lemma_render_all_concat(
                                                seq![AsmLine::Blank] + mc->Ok_0.0 + s1
                                                    + mt->Ok_0.0 + s2,
                                                me->Ok_0.0,
                                            );
                                            lemma_render_all_concat(
                                                seq![AsmLine::Blank] + mc->Ok_0.0 + s1
                                                    + mt->Ok_0.0 + s2 + me->Ok_0.0,
                                                s3,
                                            );
                                            assert(final(buffer)@ =~= buf0 + render_all(
                                                seq![AsmLine::Blank] + mc->Ok_0.0 + s1
                                                    + mt->Ok_0.0 + s2 + me->Ok_0.0 + s3,
                                            ));
                                        }
                                        Ok(())
                                    },
                                    Err(err) => Err(err),
                                }
                            },
                            Err(err) => Err(err),
                        }
                    },
                    Err(err) => Err(err),
                }
            
    }

    #[verifier::rlimit(100)]
    #[verifier::spinoff_prover]
    fn emit_while(
        &self,
        parent: &Ast,
        c: &Ast,
        b: &Ast,
        buffer: &mut String,
        env: &mut Environment,
        labels: &mut u64,
    ) -> (r: Result<(), CompileError>)
        requires
            ast_view(*parent) == SpecAst::While(
                Box::new(ast_view(*c)),
                Box::new(ast_view(*b)),
            ),
            decreases_to!(*parent => *c),
            decreases_to!(*parent => *b),
        ensures
            ({
                let m = spec_emit(
                    ast_view(*parent),
                    old(env).table(),
                    old(env).next_local_offset as int,
                    *old(labels) as int,
                );
                match r {
                    Ok(_) => {
                        &&& m matches Ok(mm)
                        &&& final(buffer)@ == old(buffer)@ + render_all(mm.0)
                        &&& final(env).table() == mm.1
                        &&& final(env).next_local_offset as int == mm.2
                        &&& *final(labels) as int == mm.3
                    },
                    Err(e) => m matches Err(me) && me == error_view(e),
                }
            }),
        decreases *parent, 0int, 0int,
    {
        proof {
            reveal(spec_emit);
        }
        let ghost table0 = env.table();
        let ghost next0 = env.next_local_offset as int;
        let ghost label0 = *labels as int;
        let ghost buf0 = buffer@;

                let l1 = alloc_label(labels);
                let l2 = alloc_label(labels);
                put(buffer, "\n", Ghost(AsmLine::Blank));
                put_num_label_line(buffer, l1);
                match self.emit_ast(c, buffer, env, labels) {
                    Ok(_) => {
                        put(buffer, "    cmp r0, #0\n", Ghost(AsmLine::CmpR0Zero));
                        put_branch_eq(buffer, l2);
                        match self.emit_ast(b, buffer, env, labels) {
                            Ok(_) => {
                                put_branch(buffer, l1);
                                put_num_label(buffer, l2);
                                proof {
                                    let label3 = bump_label(bump_label(label0));
                                    let mc = spec_emit(ast_view(*c), table0, next0, label3);
                                    let mb = spec_emit(
                                        ast_view(*b),
                                        mc->Ok_0.1,
                                        mc->Ok_0.2,
                                        mc->Ok_0.3,
                                    );
                                    let s0 = seq![
                                        AsmLine::Blank,
                                        AsmLine::NumLabelLine(l1 as int),
                                    ];
                                    let s1 = seq![
                                        AsmLine::CmpR0Zero,
                                        AsmLine::BranchEq(l2 as int),
                                    ];
                                    let s2 = seq![
                                        AsmLine::Branch(l1 as int),
                                        AsmLine::NumLabel(l2 as int),
                                    ];
                                    lemma_render2(
                                        AsmLine::Blank,
                                        AsmLine::NumLabelLine(l1 as int),
                                    );
                                    lemma_render2(AsmLine::CmpR0Zero, AsmLine::BranchEq(l2 as int));
                                    lemma_render2(
                                        AsmLine::Branch(l1 as int),
                                        AsmLine::NumLabel(l2 as int),
                                    );
                                    lemma_render_all_concat(s0, mc->Ok_0.0);
                                    lemma_render_all_concat(s0 + mc->Ok_0.0, s1);
                                    lemma_render_all_concat(s0 + mc->Ok_0.0 + s1, mb->Ok_0.0);
                                    lemma_render_all_concat(
                                        s0 + mc->Ok_0.0 + s1 + mb->Ok_0.0,
                                        s2,
                                    );
                                    assert(final(buffer)@ =~= buf0 + render_all(
                                        s0 + mc->Ok_0.0 + s1 + mb->Ok_0.0 + s2,
                                    ));
                                }
                                Ok(())
                            },
                            Err(err) => Err(err),
                        }
                    },
                    Err(err) => Err(err),
                }
            
    }

    #[verifier::rlimit(100)]
    #[verifier::spinoff_prover]
    fn emit_binary(
        &self,
        parent: &Ast,
        x: &Ast,
        y: &Ast,
        op: u8,
        buffer: &mut String,
        env: &mut Environment,
        labels: &mut u64,
    ) -> (r: Result<(), CompileError>)
        requires
            op <= 5,
            decreases_to!(*parent => *x),
            decreases_to!(*parent => *y),
            decreases_to!(ast_view(*parent) => ast_view(*x)),
            decreases_to!(ast_view(*parent) => ast_view(*y)),
        ensures
            ({
                let m = spec_emit_binary(
                    ast_view(*parent),
                    ast_view(*x),
                    ast_view(*y),
                    combine_of(op as int),
                    old(env).table(),
                    old(env).next_local_offset as int,
                    *old(labels) as int,
                );
                match r {
                    Ok(_) => {
                        &&& m matches Ok(mm)
                        &&& final(buffer)@ == old(buffer)@ + render_all(mm.0)
                        &&& final(env).table() == mm.1
                        &&& final(env).next_local_offset as int == mm.2
                        &&& *final(labels) as int == mm.3
                    },
                    Err(e) => m matches Err(me) && me == error_view(e),
                }
            }),
        decreases *parent, 0int, 0int,
    {
        proof {
            reveal(spec_emit_binary);
        }
        let ghost table0 = env.table();
        let ghost next0 = env.next_local_offset as int;
        let ghost label0 = *labels as int;
        let ghost buf0 = buffer@;
        put(buffer, "\n", Ghost(AsmLine::Blank));
        match self.emit_ast(x, buffer, env, labels) {
            Ok(_) => {
                put(buffer, "    push {r0, ip}\n", Ghost(AsmLine::PushR0Ip));
                match self.emit_ast(y, buffer, env, labels) {
                    Ok(_) => {
                        put(buffer, "    pop {r1, ip}\n", Ghost(AsmLine::PopR1Ip));
                        if op == 0 {
                            put(buffer, "    add r0, r0, r1\n", Ghost(AsmLine::AddR0R0R1));
                            proof {
                                lemma_render_all_one(AsmLine::AddR0R0R1);
                            }
                        } else if op == 1 {
                            put(buffer, "    sub r0, r1, r0\n", Ghost(AsmLine::SubR0R1R0));
                            proof {
                                lemma_render_all_one(AsmLine::SubR0R1R0);
                            }
                        } else if op == 2 {
                            put(buffer, "    mul r0, r0, r1\n", Ghost(AsmLine::MulR0R0R1));
                            proof {
                                lemma_render_all_one(AsmLine::MulR0R0R1);
                            }
                        } else if op == 3 {
                            put(buffer, "    udiv r0, r1, r0\n", Ghost(AsmLine::UdivR0R1R0));
                            proof {
                                lemma_render_all_one(AsmLine::UdivR0R1R0);
                            }
                        } else if op == 4 {
                            put(buffer, "    cmp r0, r1\n", Ghost(AsmLine::CmpR0R1));
                            put(buffer, "    moveq r0, #1\n", Ghost(AsmLine::MovEqR0One));
                            put(buffer, "    movne r0, #0\n", Ghost(AsmLine::MovNeR0Zero));
                            proof {
                                lemma_render3(
                                    AsmLine::CmpR0R1,
                                    AsmLine::MovEqR0One,
                                    AsmLine::MovNeR0Zero,
                                );
                            }
                        } else {
                            put(buffer, "    cmp r0, r1\n", Ghost(AsmLine::CmpR0R1));
                            put(buffer, "    moveq r0, #0\n", Ghost(AsmLine::MovEqR0Zero));
                            put(buffer, "    movne r0, #1\n", Ghost(AsmLine::MovNeR0One));
                            proof {
                                lemma_render3(
                                    AsmLine::CmpR0R1,
                                    AsmLine::MovEqR0Zero,
                                    AsmLine::MovNeR0One,
                                );
                            }
                        }
                        proof {
                            let mx = spec_emit(ast_view(*x), table0, next0, label0);
                            let my = spec_emit(
                                ast_view(*y),
                                mx->Ok_0.1,
                                mx->Ok_0.2,
                                mx->Ok_0.3,
                            );
                            let lines = seq![AsmLine::Blank] + mx->Ok_0.0 + seq![
                                AsmLine::PushR0Ip,
                            ] + my->Ok_0.0 + seq![AsmLine::PopR1Ip] + combine_of(op as int);
                            lemma_render_all_one(AsmLine::Blank);
                            lemma_render_all_one(AsmLine::PushR0Ip);
                            lemma_render_all_one(AsmLine::PopR1Ip);
                            lemma_render_all_concat(seq![AsmLine::Blank], mx->Ok_0.0);
                            lemma_render_all_concat(
                                seq![AsmLine::Blank] + mx->Ok_0.0,
                                seq![AsmLine::PushR0Ip],
                            );
                            lemma_render_all_concat(
                                seq![AsmLine::Blank] + mx->Ok_0.0 + seq![AsmLine::PushR0Ip],
                                my->Ok_0.0,
                            );
                            lemma_render_all_concat(
                                seq![AsmLine::Blank] + mx->Ok_0.0 + seq![AsmLine::PushR0Ip]
                                    + my->Ok_0.0,
                                seq![AsmLine::PopR1Ip],
                            );
                            lemma_render_all_concat(
                                seq![AsmLine::Blank] + mx->Ok_0.0 + seq![AsmLine::PushR0Ip]
                                    + my->Ok_0.0 + seq![AsmLine::PopR1Ip],
                                combine_of(op as int),
                            );
                            assert(final(buffer)@ =~= buf0 + render_all(lines));
                        }
                        Ok(())
                    },
                    Err(e) => Err(e),
                }
            },
            Err(e) => Err(e),
        }
    }

    #[verifier::rlimit(100)]
    #[verifier::spinoff_prover]
    fn emit_all(
        &self,
        elements: &Vec<Ast>,
        k: usize,
        buffer: &mut String,
        env: &mut Environment,
        labels: &mut u64,
    ) -> (r: Result<(), CompileError>)
        requires
            k <= elements@.len(),
        ensures
            ({
                let m = spec_emit_all(
                    asts_view(elements@.subrange(k as int, elements@.len() as int)),
                    old(env).table(),
                    old(env).next_local_offset as int,
                    *old(labels) as int,
                );
                match r {
                    Ok(_) => {
                        &&& m matches Ok(mm)
                        &&& final(buffer)@ == old(buffer)@ + render_all(mm.0)
                        &&& final(env).table() == mm.1
                        &&& final(env).next_local_offset as int == mm.2
                        &&& *final(labels) as int == mm.3
                    },
                    Err(e) => m matches Err(me) && me == error_view(e),
                }
            }),
        decreases elements@, 1int, elements@.len() - k,
    {
        proof {
            reveal_with_fuel(spec_emit_all, 2);
        }
        let ghost sub = elements@.subrange(k as int, elements@.len() as int);
        proof {
            crate::ast::lemma_asts_view_len(sub);
        }
        if k == elements.len() {
            proof {
                assert(asts_view(sub).len() == 0);
                assert(render_all(Seq::<AsmLine>::empty()) =~= Seq::<char>::empty());
                assert(final(buffer)@ =~= old(buffer)@ + render_all(Seq::<AsmLine>::empty()));
            }
            Ok(())
        } else {
            let ghost buf0 = buffer@;
            proof {
                assert(sub[0] == elements@[k as int]);
                assert(sub.subrange(1, sub.len() as int) =~= elements@.subrange(
                    k + 1,
                    elements@.len() as int,
                ));
                assert(asts_view(sub) == seq![ast_view(sub[0])] + asts_view(
                    sub.subrange(1, sub.len() as int),
                ));
                assert(asts_view(sub)[0] == ast_view(elements@[k as int]));
                assert(asts_view(sub).subrange(1, asts_view(sub).len() as int) =~~= asts_view(
                    elements@.subrange(k + 1, elements@.len() as int),
                ));
            }
            match self.emit_ast(&elements[k], buffer, env, labels) {
                Ok(_) => {
                    let ghost m0 = spec_emit(
                        ast_view(elements@[k as int]),
                        old(env).table(),
                        old(env).next_local_offset as int,
                        *old(labels) as int,
                    );
                    proof {
                        reveal_with_fuel(spec_emit_all, 2);
                        assert(m0 is Ok);
                    }
                    match self.emit_all(elements, k + 1, buffer, env, labels) {
                        Ok(_) => {
                            proof {
                                let rest = spec_emit_all(
                                    asts_view(
                                        elements@.subrange(k + 1, elements@.len() as int),
                                    ),
                                    m0->Ok_0.1,
                                    m0->Ok_0.2,
                                    m0->Ok_0.3,
                                );
                                lemma_render_all_concat(m0->Ok_0.0, rest->Ok_0.0);
                                assert(final(buffer)@ =~= old(buffer)@ + render_all(
                                    m0->Ok_0.0 + rest->Ok_0.0,
                                ));
                                let m = spec_emit_all(
                                    asts_view(sub),
                                    old(env).table(),
                                    old(env).next_local_offset as int,
                                    *old(labels) as int,
                                );
                                assert(spec_emit(
                                    asts_view(sub)[0],
                                    old(env).table(),
                                    old(env).next_local_offset as int,
                                    *old(labels) as int,
                                ) == m0);
                                assert(rest matches Ok(rr));
                                assert(asts_view(sub).len() > 0);
                                assert(spec_emit_all(
                                    asts_view(sub).subrange(1, asts_view(sub).len() as int),
                                    m0->Ok_0.1,
                                    m0->Ok_0.2,
                                    m0->Ok_0.3,
                                ) == rest);
                                reveal_with_fuel(spec_emit_all, 2);
                                assert(m is Ok);
                                assert(m matches Ok(mm) && mm.0 == m0->Ok_0.0 + rest->Ok_0.0
                                    && mm.1 == rest->Ok_0.1 && mm.2 == rest->Ok_0.2 && mm.3
                                    == rest->Ok_0.3);
                            }
                            Ok(())
                        },
                        Err(e) => {
                            proof {
                                reveal_with_fuel(spec_emit_all, 2);
                                let m = spec_emit_all(
                                    asts_view(sub),
                                    old(env).table(),
                                    old(env).next_local_offset as int,
                                    *old(labels) as int,
                                );
                                assert(m matches Err(me) && me == error_view(e));
                            }
                            Err(e)
                        },
                    }
                },
                Err(e) => {
                    proof {
                        reveal_with_fuel(spec_emit_all, 2);
                        let m = spec_emit_all(
                            asts_view(sub),
                            old(env).table(),
                            old(env).next_local_offset as int,
                            *old(labels) as int,
                        );
                        assert(m matches Err(me) && me == error_view(e));
                    }
                    Err(e)
                },
            }
        }
    }

    #[verifier::rlimit(100)]
    #[verifier::spinoff_prover]
    fn emit_elements(
        &self,
        elements: &Vec<Ast>,
        k: usize,
        buffer: &mut String,
        env: &mut Environment,
        labels: &mut u64,
    ) -> (r: Result<(), CompileError>)
        requires
            k <= elements@.len(),
        ensures
            ({
                let m = spec_emit_elements(
                    asts_view(elements@.subrange(k as int, elements@.len() as int)),
                    old(env).table(),
                    old(env).next_local_offset as int,
                    *old(labels) as int,
                    k as int,
                );
                match r {
                    Ok(_) => {
                        &&& m matches Ok(mm)
                        &&& final(buffer)@ == old(buffer)@ + render_all(mm.0)
                        &&& final(env).table() == mm.1
                        &&& final(env).next_local_offset as int == mm.2
                        &&& *final(labels) as int == mm.3
                    },
                    Err(e) => m matches Err(me) && me == error_view(e),
                }
            }),
        decreases elements@, 1int, elements@.len() - k,
    {
        proof {
            reveal_with_fuel(spec_emit_elements, 2);
        }
        let ghost sub = elements@.subrange(k as int, elements@.len() as int);
        proof {
            crate::ast::lemma_asts_view_len(sub);
        }
        if k == elements.len() {
            proof {
                assert(asts_view(sub).len() == 0);
                assert(render_all(Seq::<AsmLine>::empty()) =~= Seq::<char>::empty());
                assert(final(buffer)@ =~= old(buffer)@ + render_all(Seq::<AsmLine>::empty()));
            }
            Ok(())
        } else {
            proof {
                assert(sub[0] == elements@[k as int]);
                assert(sub.subrange(1, sub.len() as int) =~= elements@.subrange(
                    k + 1,
                    elements@.len() as int,
                ));
                assert(asts_view(sub) == seq![ast_view(sub[0])] + asts_view(
                    sub.subrange(1, sub.len() as int),
                ));
                assert(asts_view(sub)[0] == ast_view(elements@[k as int]));
                assert(asts_view(sub).subrange(1, asts_view(sub).len() as int) =~~= asts_view(
                    elements@.subrange(k + 1, elements@.len() as int),
                ));
            }
            match self.emit_ast(&elements[k], buffer, env, labels) {
                Ok(_) => {
                    let ghost m0 = spec_emit(
                        ast_view(elements@[k as int]),
                        old(env).table(),
                        old(env).next_local_offset as int,
                        *old(labels) as int,
                    );
                    let off: u128 = 4 * (k as u128 + 1);
                    put_str_r4_off(buffer, off);
                    match self.emit_elements(elements, k + 1, buffer, env, labels) {
                        Ok(_) => {
                            proof {
                                let rest = spec_emit_elements(
                                    asts_view(
                                        elements@.subrange(k + 1, elements@.len() as int),
                                    ),
                                    m0->Ok_0.1,
                                    m0->Ok_0.2,
                                    m0->Ok_0.3,
                                    k + 1,
                                );
                                lemma_render_all_one(AsmLine::StrR0R4Off(4 * (k as int + 1)));
                                lemma_render_all_concat(
                                    m0->Ok_0.0,
                                    seq![AsmLine::StrR0R4Off(4 * (k as int + 1))],
                                );
                                lemma_render_all_concat(
                                    m0->Ok_0.0 + seq![AsmLine::StrR0R4Off(4 * (k as int + 1))],
                                    rest->Ok_0.0,
                                );
                                assert(final(buffer)@ =~= old(buffer)@ + render_all(
                                    m0->Ok_0.0 + seq![AsmLine::StrR0R4Off(4 * (k as int + 1))]
                                        + rest->Ok_0.0,
                                ));
                            }
                            Ok(())
                        },
                        Err(e) => Err(e),
                    }
                },
                Err(e) => Err(e),
            }
        }
    }

    #[verifier::rlimit(100)]
    #[verifier::spinoff_prover]
    fn emit_arguments(
        &self,
        args: &Vec<Ast>,
        k: usize,
        buffer: &mut String,
        env: &mut Environment,
        labels: &mut u64,
    ) -> (r: Result<(), CompileError>)
        requires
            k <= args@.len(),
            args@.len() <= 4,
        ensures
            ({
                let m = spec_emit_arguments(
                    asts_view(args@.subrange(k as int, args@.len() as int)),
                    old(env).table(),
                    old(env).next_local_offset as int,
                    *old(labels) as int,
                    k as int,
                );
                match r {
                    Ok(_) => {
                        &&& m matches Ok(mm)
                        &&& final(buffer)@ == old(buffer)@ + render_all(mm.0)
                        &&& final(env).table() == mm.1
                        &&& final(env).next_local_offset as int == mm.2
                        &&& *final(labels) as int == mm.3
                    },
                    Err(e) => m matches Err(me) && me == error_view(e),
                }
            }),
        decreases args@, 1int, args@.len() - k,
    {
        proof {
            reveal_with_fuel(spec_emit_arguments, 2);
        }
        let ghost sub = args@.subrange(k as int, args@.len() as int);
        proof {
            crate::ast::lemma_asts_view_len(sub);
        }
        if k == args.len() {
            proof {
                assert(asts_view(sub).len() == 0);
                assert(render_all(Seq::<AsmLine>::empty()) =~= Seq::<char>::empty());
                assert(final(buffer)@ =~= old(buffer)@ + render_all(Seq::<AsmLine>::empty()));
            }
            Ok(())
        } else {
            proof {
                assert(sub[0] == args@[k as int]);
                assert(sub.subrange(1, sub.len() as int) =~= args@.subrange(
                    k + 1,
                    args@.len() as int,
                ));
                assert(asts_view(sub) == seq![ast_view(sub[0])] + asts_view(
                    sub.subrange(1, sub.len() as int),
                ));
                assert(asts_view(sub)[0] == ast_view(args@[k as int]));
                assert(asts_view(sub).subrange(1, asts_view(sub).len() as int) =~~= asts_view(
                    args@.subrange(k + 1, args@.len() as int),
                ));
            }
            match self.emit_ast(&args[k], buffer, env, labels) {
                Ok(_) => {
                    let ghost m0 = spec_emit(
                        ast_view(args@[k as int]),
                        old(env).table(),
                        old(env).next_local_offset as int,
                        *old(labels) as int,
                    );
                    let off: u128 = 4 * (k as u128);
                    put_str_sp(buffer, off);
                    match self.emit_arguments(args, k + 1, buffer, env, labels) {
                        Ok(_) => {
                            proof {
                                let rest = spec_emit_arguments(
                                    asts_view(args@.subrange(k + 1, args@.len() as int)),
                                    m0->Ok_0.1,
                                    m0->Ok_0.2,
                                    m0->Ok_0.3,
                                    k + 1,
                                );
                                lemma_render_all_one(AsmLine::StrR0Sp(4 * (k as int)));
                                lemma_render_all_concat(
                                    m0->Ok_0.0,
                                    seq![AsmLine::StrR0Sp(4 * (k as int))],
                                );
                                lemma_render_all_concat(
                                    m0->Ok_0.0 + seq![AsmLine::StrR0Sp(4 * (k as int))],
                                    rest->Ok_0.0,
                                );
                                assert(final(buffer)@ =~= old(buffer)@ + render_all(
                                    m0->Ok_0.0 + seq![AsmLine::StrR0Sp(4 * (k as int))]
                                        + rest->Ok_0.0,
                                ));
                            }
                            Ok(())
                        },
                        Err(e) => Err(e),
                    }
                },
                Err(e) => Err(e),
            }
        }
    }
}

} // verus!
