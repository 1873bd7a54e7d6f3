//! What the generated code does when it runs.
use vstd::prelude::*;
use crate::assembly_builder::{
    binary_code, function_code, goto_code, if_goto_code, label_code, preamble, unary_code, zeros_code,
    at_num, at_reg, at_sym, call_code, call_setup_code, compare_code, compare_tags, jump, pop_code,
    pop_d_code, push_code, push_d_code, restore_code, return_code, return_setup_code, save_code,
    sub_code, top_code, Compare,
};
use crate::command::Command;
use crate::hack::{gen_prefix, sym_text, Addr, Comp, Dest, GenTag, Instr, InstrV, Jump, Reg, Sym, SymV};
use crate::lexer::{digits_value, is_digit};
use crate::machine::{
    exec, find_label, group_run, is_word, jump_free, reg_addr, run, sp, words_ok, Machine,
};
use crate::segment::{address_code, at, cell_addr, cmp, segment_named, SegmentV};
use crate::text::{dec, digit_char};
use crate::token::TokenType;
use crate::translator::{commands_effect, command_effect, index_of, is_jump_name, jump_code, TState};

verus! {

broadcast use group_run;

/// The address code points A at the segment's cell and leaves memory alone.
pub proof fn lemma_address(s: SegmentV, i: u16, m: Machine)
    requires
        words_ok(m),
        !(s is Constant),
        i < 0x8000,
    ensures
        run(address_code(s, i), m).a == cell_addr(s, i, m),
        run(address_code(s, i), m).mem == m.mem,
        run(address_code(s, i), m).syms == m.syms,
        is_word(run(address_code(s, i), m).d),
        jump_free(address_code(s, i)),
{
}

/// Pushing D writes it at SP and moves SP up by one.
pub proof fn lemma_push_d(m: Machine)
    requires
        words_ok(m),
        16 <= sp(m) < 0x7fff,
    ensures
        ({
            let r = run(push_d_code(), m);
            &&& words_ok(r)
            &&& r.d == m.d
            &&& r.syms == m.syms
            &&& sp(r) == sp(m) + 1
            &&& (r.mem)(sp(m)) == m.d
            &&& forall|x: int| x != 0 && x != sp(m) ==> #[trigger] (r.mem)(x) == (m.mem)(x)
        }),
        jump_free(push_d_code()),
{
}

/// Popping into D moves SP down by one and reads the cell it then points at.
pub proof fn lemma_pop_d(m: Machine)
    requires
        words_ok(m),
        17 <= sp(m) <= 0x7fff,
    ensures
        ({
            let r = run(pop_d_code(), m);
            &&& words_ok(r)
            &&& r.d == (m.mem)(sp(m) - 1)
            &&& r.syms == m.syms
            &&& sp(r) == sp(m) - 1
            &&& forall|x: int| x != 0 ==> #[trigger] (r.mem)(x) == (m.mem)(x)
        }),
        jump_free(pop_d_code()),
{
}

/// Pushing cell `i` of a segment other than the constant one and popping it
/// straight back leaves that cell and the stack pointer as they were, on a
/// machine whose SP points above the sixteen registers with room to push.
pub proof fn lemma_push_pop_same_cell(s: SegmentV, i: u16, m: Machine)
    requires
        words_ok(m),
        16 <= sp(m) < 0x7fff,
        !(s is Constant),
        i < 0x8000,
    ensures
        jump_free(push_code(s, i) + pop_code(s, i)),
        ({
            let r = run(push_code(s, i) + pop_code(s, i), m);
            &&& (r.mem)(cell_addr(s, i, m)) == (m.mem)(cell_addr(s, i, m))
            &&& sp(r) == sp(m)
        }),
{
    let t = cell_addr(s, i, m);
    let v = (m.mem)(t);
    lemma_address(s, i, m);
    let m1 = run(address_code(s, i) + Seq::empty().push(cmp(Dest::D, Comp::M)), m);
    assert(m1.d == v);
    lemma_push_d(m1);
    let m2 = run(push_d_code(), m1);
    assert(run(push_code(s, i), m) == m2) by {
        assert(push_code(s, i) == address_code(s, i) + Seq::empty().push(cmp(Dest::D, Comp::M)) + push_d_code());
    }
    assert(cell_addr(s, i, m2) == t);
    lemma_address(s, i, m2);
    let pre = Seq::empty().push(cmp(Dest::D, Comp::A)).push(at(Addr::Reg(Reg::R13))).push(cmp(Dest::M, Comp::D));
    let m3 = run(address_code(s, i) + pre, m2);
    assert((m3.mem)(13) == t);
    lemma_pop_d(m3);
    let m4 = run(pop_d_code(), m3);
    assert(m4.d == v);
    let post = Seq::empty().push(at(Addr::Reg(Reg::R13))).push(cmp(Dest::A, Comp::M)).push(cmp(Dest::M, Comp::D));
    let m5 = run(post, m4);
    assert(pop_code(s, i) == address_code(s, i) + pre + pop_d_code() + post);
    assert(run(pop_code(s, i), m2) == m5);
    assert(jump_free(pop_code(s, i)));
    assert(jump_free(push_code(s, i)));
}

/// The value that `push s i` puts on the stack.
pub open spec fn pushed_value(s: SegmentV, i: u16, m: Machine) -> int {
    if s is Constant {
        i as int
    } else {
        (m.mem)(cell_addr(s, i, m))
    }
}

/// `push s i` writes the cell's value (or the constant) at SP and moves SP up.
pub proof fn lemma_push(s: SegmentV, i: u16, m: Machine)
    requires
        words_ok(m),
        16 <= sp(m) < 0x7fff,
        i < 0x8000,
    ensures
        ({
            let r = run(push_code(s, i), m);
            &&& words_ok(r)
            &&& r.syms == m.syms
            &&& sp(r) == sp(m) + 1
            &&& (r.mem)(sp(m)) == pushed_value(s, i, m)
            &&& forall|x: int| x != 0 && x != sp(m) ==> #[trigger] (r.mem)(x) == (m.mem)(x)
        }),
        jump_free(push_code(s, i)),
{
    if s is Constant {
        let m1 = run(Seq::empty().push(at(Addr::Num(i))).push(cmp(Dest::D, Comp::A)), m);
        lemma_push_d(m1);
    } else {
        lemma_address(s, i, m);
        let m1 = run(address_code(s, i) + Seq::empty().push(cmp(Dest::D, Comp::M)), m);
        lemma_push_d(m1);
        assert(push_code(s, i) == address_code(s, i) + Seq::empty().push(cmp(Dest::D, Comp::M)) + push_d_code());
    }
}

/// `pop s i` moves SP down and stores the value it pointed at into the cell,
/// using R13 to hold the cell's address.
pub proof fn lemma_pop(s: SegmentV, i: u16, m: Machine)
    requires
        words_ok(m),
        17 <= sp(m) <= 0x7fff,
        !(s is Constant),
        i < 0x8000,
    ensures
        ({
            let r = run(pop_code(s, i), m);
            let t = cell_addr(s, i, m);
            &&& words_ok(r)
            &&& r.syms == m.syms
            &&& forall|x: int| #[trigger] (r.mem)(x) == if x == t {
                (m.mem)(sp(m) - 1)
            } else if x == 0 {
                sp(m) - 1
            } else if x == 13 {
                t
            } else {
                (m.mem)(x)
            }
        }),
        jump_free(pop_code(s, i)),
{
    let t = cell_addr(s, i, m);
    lemma_address(s, i, m);
    let pre = Seq::empty().push(cmp(Dest::D, Comp::A)).push(at(Addr::Reg(Reg::R13))).push(cmp(Dest::M, Comp::D));
    let m3 = run(address_code(s, i) + pre, m);
    lemma_pop_d(m3);
    let m4 = run(pop_d_code(), m3);
    let post = Seq::empty().push(at(Addr::Reg(Reg::R13))).push(cmp(Dest::A, Comp::M)).push(cmp(Dest::M, Comp::D));
    assert(pop_code(s, i) == address_code(s, i) + pre + pop_d_code() + post);
}

/// `push constant v; pop local 0; push local 0` leaves SP one above where it
/// was, with `v` on top. The local segment's base must not be the address of
/// SP or of LCL itself, where the pop would overwrite the pointer it goes by.
pub proof fn lemma_constant_through_local(v: u16, m: Machine)
    requires
        words_ok(m),
        16 <= sp(m) < 0x7fff,
        v < 0x8000,
        (m.mem)(1) != 0,
        (m.mem)(1) != 1,
    ensures
        ({
            let r = run(
                push_code(SegmentV::Constant, v) + pop_code(SegmentV::Local, 0) + push_code(SegmentV::Local, 0),
                m,
            );
            &&& sp(r) == sp(m) + 1
            &&& (r.mem)(sp(m)) == v
        }),
{
    lemma_push(SegmentV::Constant, v, m);
    let m1 = run(push_code(SegmentV::Constant, v), m);
    lemma_pop(SegmentV::Local, 0, m1);
    let m2 = run(pop_code(SegmentV::Local, 0), m1);
    assert(cell_addr(SegmentV::Local, 0, m1) == (m.mem)(1));
    assert(cell_addr(SegmentV::Local, 0, m2) == (m.mem)(1));
    lemma_push(SegmentV::Local, 0, m2);
}

/// `sub` pops the top value `y`, and replaces the value `x` below it with `x - y`.
pub proof fn lemma_sub(m: Machine)
    requires
        words_ok(m),
        18 <= sp(m) <= 0x7fff,
        is_word((m.mem)(sp(m) - 2) - (m.mem)(sp(m) - 1)),
    ensures
        ({
            let r = run(sub_code(), m);
            &&& words_ok(r)
            &&& sp(r) == sp(m) - 1
            &&& (r.mem)(sp(m) - 2) == (m.mem)(sp(m) - 2) - (m.mem)(sp(m) - 1)
        }),
        jump_free(sub_code()),
{
    lemma_pop_d(m);
    let m1 = run(pop_d_code(), m);
    let rest = top_code() + Seq::empty().push(cmp(Dest::M, Comp::DMinusM)).push(cmp(Dest::M, Comp::NegM));
    assert(sub_code() == pop_d_code() + rest);
}

/// `push constant a; push constant b; sub` leaves `a - b` on top, one cell
/// above where SP was, on a machine whose SP points above the sixteen
/// registers with room for two pushes.
pub proof fn lemma_sub_order(a: u16, b: u16, m: Machine)
    requires
        words_ok(m),
        16 <= sp(m) < 0x7ffe,
        a < 0x8000,
        b < 0x8000,
    ensures
        ({
            let r = run(push_code(SegmentV::Constant, a) + push_code(SegmentV::Constant, b) + sub_code(), m);
            &&& sp(r) == sp(m) + 1
            &&& (r.mem)(sp(m)) == a - b
        }),
{
    lemma_push(SegmentV::Constant, a, m);
    let m1 = run(push_code(SegmentV::Constant, a), m);
    lemma_push(SegmentV::Constant, b, m1);
    let m2 = run(push_code(SegmentV::Constant, b), m1);
    lemma_sub(m2);
}

/// Two texts that end alike are equal when what comes before is.
pub proof fn lemma_suffix_cancel(a: Seq<char>, b: Seq<char>, t: Seq<char>)
    requires
        a + t == b + t,
    ensures
        a == b,
{
    assert(a =~= (a + t).subrange(0, a.len() as int));
    assert(b =~= (b + t).subrange(0, b.len() as int));
}

/// The line names the symbol, as a definition or as an address.
pub open spec fn names_sym(i: InstrV, s: SymV) -> bool {
    i == Instr::Label(s) || i == Instr::At(Addr::Sym(s))
}

/// Labels are scoped by function: inside the body of `f`, `label l`,
/// `goto l` and `if-goto l` name the symbol `f$l` and no other function's
/// label; the same label in another function `g` is another symbol, with
/// another text.
pub proof fn lemma_label_scoping(st: TState, unit: Seq<char>, c: Command, g: Seq<char>)
    requires
        st.current is Some,
        is_jump_name(c.name.lexeme@),
        c.args@.len() == 1,
        c.args@[0].type_ == TokenType::Identifier,
    ensures
        ({
            let f = st.current->Some_0;
            let l = c.args@[0].lexeme@;
            let code = jump_code(c.name.lexeme@, f, l);
            &&& command_effect(st, unit, c) == Ok::<TState, Seq<char>>(TState { code: st.code + code, ..st })
            &&& exists|k: int| 0 <= k < code.len() && names_sym(#[trigger] code[k], Sym::Scoped(f, l))
            &&& forall|k: int, s: SymV| 0 <= k < code.len() && #[trigger] names_sym(code[k], s) && s is Scoped
                ==> s == Sym::Scoped(f, l)
            &&& g != f ==> Sym::Scoped(g, l) != Sym::Scoped(f, l)
            &&& g != f ==> sym_text(Sym::Scoped(g, l)) != sym_text(Sym::Scoped(f, l))
        }),
{
    let f = st.current->Some_0;
    let l = c.args@[0].lexeme@;
    let n = c.name.lexeme@;
    let code = jump_code(n, f, l);
    reveal_strlit("label");
    reveal_strlit("goto");
    reveal_strlit("if-goto");
    reveal_strlit("push");
    reveal_strlit("pop");
    reveal_strlit("add");
    reveal_strlit("sub");
    reveal_strlit("neg");
    reveal_strlit("eq");
    reveal_strlit("gt");
    reveal_strlit("lt");
    reveal_strlit("and");
    reveal_strlit("or");
    reveal_strlit("not");
    assert("label"@.len() == 5 && "goto"@.len() == 4 && "if-goto"@.len() == 7);
    assert("push"@.len() == 4 && "pop"@.len() == 3 && "add"@.len() == 3 && "sub"@.len() == 3);
    assert("neg"@.len() == 3 && "eq"@.len() == 2 && "gt"@.len() == 2 && "lt"@.len() == 2);
    assert("and"@.len() == 3 && "or"@.len() == 2 && "not"@.len() == 3);
    assert("goto"@[0] == 'g' && "push"@[0] == 'p');
    if n == "label"@ {
        assert(names_sym(code[0], Sym::Scoped(f, l)));
    } else if n == "goto"@ {
        assert(names_sym(code[0], Sym::Scoped(f, l)));
    } else {
        assert(names_sym(code[3], Sym::Scoped(f, l)));
    }
    if g != f && sym_text(Sym::Scoped(g, l)) == sym_text(Sym::Scoped(f, l)) {
        assert(g + ("$"@ + l) == f + ("$"@ + l)) by {
            assert(g + ("$"@ + l) =~= g + "$"@ + l);
            assert(f + ("$"@ + l) =~= f + "$"@ + l);
        }
        lemma_suffix_cancel(g, f, "$"@ + l);
    }
}

/// Static variables belong to their unit: `static` in units `u1` and `u2`
/// addresses cell `i` through the symbols `u1.i` and `u2.i`, which differ,
/// in value and in text, when the units do.
pub proof fn lemma_static_namespacing(u1: Seq<char>, u2: Seq<char>, i: u16)
    requires
        u1 != u2,
    ensures
        segment_named("static"@, u1) == Some(SegmentV::Static(u1)),
        segment_named("static"@, u2) == Some(SegmentV::Static(u2)),
        address_code(SegmentV::Static(u1), i) == Seq::empty().push(at(Addr::Sym(Sym::Static(u1, i)))),
        address_code(SegmentV::Static(u2), i) == Seq::empty().push(at(Addr::Sym(Sym::Static(u2, i)))),
        Sym::Static(u1, i) != Sym::Static(u2, i),
        sym_text(Sym::Static(u1, i)) != sym_text(Sym::Static(u2, i)),
{
    let t = "."@ + dec(i as nat);
    reveal_strlit("static");
    reveal_strlit("argument");
    reveal_strlit("constant");
    reveal_strlit("local");
    reveal_strlit("pointer");
    assert("static"@.len() == 6 && "argument"@.len() == 8 && "constant"@.len() == 8);
    assert("local"@.len() == 5 && "pointer"@.len() == 7);
    if sym_text(Sym::Static(u1, i)) == sym_text(Sym::Static(u2, i)) {
        assert(u1 + t =~= u1 + "."@ + dec(i as nat));
        assert(u2 + t =~= u2 + "."@ + dec(i as nat));
        lemma_suffix_cancel(u1, u2, t);
    }
}

/// Pushing a base register saves its value on the stack.
pub proof fn lemma_save(r: Reg, m: Machine)
    requires
        words_ok(m),
        16 <= sp(m) < 0x7fff,
    ensures
        ({
            let q = run(save_code(r), m);
            &&& words_ok(q)
            &&& q.syms == m.syms
            &&& sp(q) == sp(m) + 1
            &&& (q.mem)(sp(m)) == (m.mem)(reg_addr(r))
            &&& forall|x: int| x != 0 && x != sp(m) ==> #[trigger] (q.mem)(x) == (m.mem)(x)
        }),
        jump_free(save_code(r)),
{
    let m1 = run(Seq::empty().push(at(Addr::Reg(r))).push(cmp(Dest::D, Comp::M)), m);
    lemma_push_d(m1);
}

/// The call sequence up to its jump: it pushes the return address and the
/// caller's LCL, ARG, THIS and THAT, points ARG at the first of the `n`
/// arguments below them, and LCL at the new top of the stack.
pub proof fn lemma_call_setup(n: u16, c: u64, m: Machine)
    requires
        words_ok(m),
        16 + n <= sp(m),
        sp(m) + 5 < 0x7fff,
    ensures
        ({
            let q = run(call_setup_code(n, c), m);
            let s0 = sp(m);
            &&& words_ok(q)
            &&& q.syms == m.syms
            &&& sp(q) == s0 + 5
            &&& (q.mem)(1) == s0 + 5
            &&& (q.mem)(2) == s0 - n
            &&& (q.mem)(3) == (m.mem)(3)
            &&& (q.mem)(4) == (m.mem)(4)
            &&& (q.mem)(s0) == (m.syms)(Sym::Gen(GenTag::Return, c))
            &&& (q.mem)(s0 + 1) == (m.mem)(1)
            &&& (q.mem)(s0 + 2) == (m.mem)(2)
            &&& (q.mem)(s0 + 3) == (m.mem)(3)
            &&& (q.mem)(s0 + 4) == (m.mem)(4)
            &&& forall|x: int| 5 <= x < s0 ==> #[trigger] (q.mem)(x) == (m.mem)(x)
        }),
        jump_free(call_setup_code(n, c)),
{
    let s0 = sp(m);
    let ret = Seq::empty().push(at_sym(Sym::Gen(GenTag::Return, c))).push(cmp(Dest::D, Comp::A));
    let m1 = run(ret, m);
    lemma_push_d(m1);
    let m2 = run(push_d_code(), m1);
    lemma_save(Reg::LCL, m2);
    let m3 = run(save_code(Reg::LCL), m2);
    lemma_save(Reg::ARG, m3);
    let m4 = run(save_code(Reg::ARG), m3);
    lemma_save(Reg::THIS, m4);
    let m5 = run(save_code(Reg::THIS), m4);
    lemma_save(Reg::THAT, m5);
    let m6 = run(save_code(Reg::THAT), m5);
    let tail = Seq::empty()
        .push(at_reg(Reg::SP))
        .push(cmp(Dest::D, Comp::M))
        .push(at_num(n))
        .push(cmp(Dest::D, Comp::DMinusA))
        .push(at_num(5))
        .push(cmp(Dest::D, Comp::DMinusA))
        .push(at_reg(Reg::ARG))
        .push(cmp(Dest::M, Comp::D))
        .push(at_reg(Reg::SP))
        .push(cmp(Dest::D, Comp::M))
        .push(at_reg(Reg::LCL))
        .push(cmp(Dest::M, Comp::D));
    assert(call_setup_code(n, c) == ret + push_d_code() + save_code(Reg::LCL) + save_code(Reg::ARG)
        + save_code(Reg::THIS) + save_code(Reg::THAT) + tail);
    assert((m6.mem)(s0) == (m.syms)(Sym::Gen(GenTag::Return, c)));
}

/// Restoring a base register moves R13 down one cell and copies that cell.
pub proof fn lemma_restore(r: Reg, m: Machine)
    requires
        words_ok(m),
        17 <= (m.mem)(13) <= 0x7fff,
        reg_addr(r) < 5,
    ensures
        ({
            let q = run(restore_code(r), m);
            let f = (m.mem)(13);
            &&& words_ok(q)
            &&& q.syms == m.syms
            &&& (q.mem)(13) == f - 1
            &&& (q.mem)(reg_addr(r)) == (m.mem)(f - 1)
            &&& forall|x: int| x != 13 && x != reg_addr(r) ==> #[trigger] (q.mem)(x) == (m.mem)(x)
        }),
        jump_free(restore_code(r)),
{
}

/// The return sequence up to its jump, with the frame found through LCL: it
/// keeps the return address in R14, moves the top value to where ARG points,
/// sets SP just above it, and restores THAT, THIS, ARG and LCL from the frame.
pub proof fn lemma_return_setup(m: Machine)
    requires
        words_ok(m),
        21 <= (m.mem)(1) < sp(m) <= 0x7fff,
        16 <= (m.mem)(2) <= (m.mem)(1) - 5,
    ensures
        ({
            let q = run(return_setup_code(), m);
            let f = (m.mem)(1);
            let a = (m.mem)(2);
            &&& words_ok(q)
            &&& q.syms == m.syms
            &&& (q.mem)(14) == (m.mem)(f - 5)
            &&& (q.mem)(a) == (m.mem)(sp(m) - 1)
            &&& sp(q) == a + 1
            &&& (q.mem)(4) == (m.mem)(f - 1)
            &&& (q.mem)(3) == (m.mem)(f - 2)
            &&& (q.mem)(2) == (m.mem)(f - 3)
            &&& (q.mem)(1) == (m.mem)(f - 4)
            &&& forall|x: int| 16 <= x && x != a ==> #[trigger] (q.mem)(x) == (m.mem)(x)
        }),
        jump_free(return_setup_code()),
{
    let f = (m.mem)(1);
    let a = (m.mem)(2);
    let keep = Seq::empty()
        .push(at_reg(Reg::LCL))
        .push(cmp(Dest::D, Comp::M))
        .push(at_reg(Reg::R13))
        .push(cmp(Dest::M, Comp::D))
        .push(at_num(5))
        .push(cmp(Dest::A, Comp::DMinusA))
        .push(cmp(Dest::D, Comp::M))
        .push(at_reg(Reg::R14))
        .push(cmp(Dest::M, Comp::D));
    let m1 = run(keep, m);
    assert((m1.mem)(13) == f);
    assert((m1.mem)(14) == (m.mem)(f - 5));
    lemma_pop_d(m1);
    let m2 = run(pop_d_code(), m1);
    let result = Seq::empty()
        .push(at_reg(Reg::ARG))
        .push(cmp(Dest::A, Comp::M))
        .push(cmp(Dest::M, Comp::D))
        .push(at_reg(Reg::ARG))
        .push(cmp(Dest::D, Comp::MPlusOne))
        .push(at_reg(Reg::SP))
        .push(cmp(Dest::M, Comp::D));
    let m3 = run(result, m2);
    assert((m3.mem)(a) == (m.mem)(sp(m) - 1));
    assert(sp(m3) == a + 1);
    lemma_restore(Reg::THAT, m3);
    let m4 = run(restore_code(Reg::THAT), m3);
    lemma_restore(Reg::THIS, m4);
    let m5 = run(restore_code(Reg::THIS), m4);
    lemma_restore(Reg::ARG, m5);
    let m6 = run(restore_code(Reg::ARG), m5);
    lemma_restore(Reg::LCL, m6);
    assert(return_setup_code() == keep + pop_d_code() + result + restore_code(Reg::THAT) + restore_code(Reg::THIS)
        + restore_code(Reg::ARG) + restore_code(Reg::LCL));
}

/// What a callee must keep from the frame that `call` built in `m1`, in the
/// state `m2` in which it returns: LCL, ARG and the five saved cells below
/// LCL, with at least its result on the stack above them.
pub open spec fn keeps_frame(m1: Machine, m2: Machine) -> bool {
    let f = (m1.mem)(1);
    &&& words_ok(m2)
    &&& m2.syms == m1.syms
    &&& (m2.mem)(1) == f
    &&& (m2.mem)(2) == (m1.mem)(2)
    &&& forall|k: int| 1 <= k <= 5 ==> #[trigger] (m2.mem)(f - k) == (m1.mem)(f - k)
    &&& f < sp(m2) <= 0x7fff
}

/// Call and return: the code of `call f n` is its setup, a jump to `f`, and
/// the return label. After the setup runs from state `m0`, a callee that keeps its
/// frame and returns from state `m2` gives back the caller's LCL, ARG, THIS
/// and THAT, leaves exactly its result where the `n` arguments began, with SP
/// just above it, jumps to the return label that the call placed after its
/// own jump, and leaves the memory below the arguments as the callee left it.
pub proof fn lemma_call_return(f: Seq<char>, n: u16, c: u64, m0: Machine, m2: Machine)
    requires
        words_ok(m0),
        16 + n <= sp(m0),
        sp(m0) + 6 <= 0x7fff,
        keeps_frame(run(call_setup_code(n, c), m0), m2),
    ensures
        ({
            let s0 = sp(m0);
            let m3 = run(return_setup_code(), m2);
            &&& (m3.mem)(1) == (m0.mem)(1)
            &&& (m3.mem)(2) == (m0.mem)(2)
            &&& (m3.mem)(3) == (m0.mem)(3)
            &&& (m3.mem)(4) == (m0.mem)(4)
            &&& sp(m3) == s0 - n + 1
            &&& (m3.mem)(s0 - n) == (m2.mem)(sp(m2) - 1)
            &&& (m3.mem)(14) == (m0.syms)(Sym::Gen(GenTag::Return, c))
            &&& forall|x: int| 16 <= x < s0 - n ==> #[trigger] (m3.mem)(x) == (m2.mem)(x)
        }),
        call_code(f, n, c) == call_setup_code(n, c) + Seq::empty().push(at_sym(Sym::Func(f))).push(
            jump(Comp::Zero, Jump::JMP),
        ).push(Instr::Label(Sym::Gen(GenTag::Return, c))),
        return_code() == return_setup_code() + Seq::empty().push(at_reg(Reg::R14)).push(cmp(Dest::A, Comp::M)).push(
            jump(Comp::Zero, Jump::JMP),
        ),
{
    let s0 = sp(m0);
    lemma_call_setup(n, c, m0);
    let m1 = run(call_setup_code(n, c), m0);
    assert((m2.mem)(s0) == (m1.mem)(s0 + 5 - 5));
    assert((m2.mem)(s0 + 1) == (m1.mem)(s0 + 5 - 4));
    assert((m2.mem)(s0 + 2) == (m1.mem)(s0 + 5 - 3));
    assert((m2.mem)(s0 + 3) == (m1.mem)(s0 + 5 - 2));
    assert((m2.mem)(s0 + 4) == (m1.mem)(s0 + 5 - 1));
    lemma_return_setup(m2);
}

/// A nested call: a callee of the call set up in `m1` makes a call of its
/// own from state `m2`, with its arguments above its frame; that inner callee
/// keeps its frame and leaves the memory below its arguments alone, and
/// returns from `m4`. After the inner return the outer frame is intact, so
/// the outer return restores the outer caller, and the inner return goes
/// back through its own return label.
pub proof fn lemma_nested_call_return(n2: u16, c2: u64, m1: Machine, m2: Machine, m4: Machine)
    requires
        keeps_frame(m1, m2),
        21 <= (m1.mem)(1),
        (m1.mem)(1) + n2 <= sp(m2),
        sp(m2) + 6 <= 0x7fff,
        keeps_frame(run(call_setup_code(n2, c2), m2), m4),
        forall|x: int| 16 <= x < sp(m2) - n2 ==> #[trigger] (m4.mem)(x) == (m2.mem)(x),
    ensures
        ({
            let m5 = run(return_setup_code(), m4);
            &&& keeps_frame(m1, m5)
            &&& sp(m5) == sp(m2) - n2 + 1
            &&& (m5.mem)(14) == (m1.syms)(Sym::Gen(GenTag::Return, c2))
        }),
{
    let f = (m1.mem)(1);
    lemma_call_return(Seq::empty(), n2, c2, m2, m4);
    lemma_call_setup(n2, c2, m2);
    let m5 = run(return_setup_code(), m4);
    assert forall|k: int| 1 <= k <= 5 implies #[trigger] (m5.mem)(f - k) == (m1.mem)(f - k) by {
        assert(16 <= f - k < sp(m2) - n2);
        assert((m5.mem)(f - k) == (m4.mem)(f - k));
        assert((m2.mem)(f - k) == (m1.mem)(f - k));
    }
}

/// The digit character of `d` stands for `d`.
pub proof fn lemma_digit(d: nat)
    requires
        d < 10,
    ensures
        digit_char(d) as int - '0' as int == d,
        is_digit(digit_char(d)),
{
}

/// The value of the decimal form of `n` is `n`.
pub proof fn lemma_dec_value(n: nat)
    ensures
        digits_value(dec(n)) == n,
    decreases n,
{
    lemma_digit(n % 10);
    if n < 10 {
        assert(dec(n).drop_last() =~= Seq::<char>::empty());
        assert(dec(n).last() == digit_char(n));
        assert(digits_value(dec(n)) == digits_value(dec(n).drop_last()) * 10 + (dec(n).last() as int - '0' as int));
        assert(digits_value(Seq::<char>::empty()) == 0);
    } else {
        lemma_dec_value(n / 10);
        assert(dec(n).drop_last() == dec(n / 10));
        assert(dec(n).last() == digit_char(n % 10));
        assert(n == (n / 10) * 10 + n % 10) by (nonlinear_arith);
        assert(digits_value(dec(n)) == digits_value(dec(n).drop_last()) * 10 + (dec(n).last() as int - '0' as int));
    }
}

/// Two calls translated one after the other get the return labels of two
/// successive counter values, which differ as symbols and as text.
pub proof fn lemma_calls_distinct_labels(st: TState, unit: Seq<char>, c1: Command, c2: Command)
    requires
        c1.name.lexeme@ == "call"@,
        c2.name.lexeme@ == "call"@,
        command_effect(st, unit, c1) is Ok,
    ensures
        ({
            let st1 = command_effect(st, unit, c1)->Ok_0;
            let f1 = c1.args@[0].lexeme@;
            let k1 = index_of(c1.args@[1])->Some_0;
            &&& st1 == (TState { code: st.code + call_code(f1, k1, (st.count + 1) as u64), count: st.count + 1, ..st })
            &&& command_effect(st1, unit, c2) is Ok ==> {
                let f2 = c2.args@[0].lexeme@;
                let k2 = index_of(c2.args@[1])->Some_0;
                command_effect(st1, unit, c2) == Ok::<TState, Seq<char>>(TState {
                    code: st1.code + call_code(f2, k2, (st.count + 2) as u64),
                    count: st.count + 2,
                    ..st1
                })
            }
            &&& st.count + 2 <= u64::MAX ==> Sym::<Seq<char>>::Gen(GenTag::Return, (st.count + 1) as u64)
                != Sym::<Seq<char>>::Gen(GenTag::Return, (st.count + 2) as u64)
            &&& st.count + 2 <= u64::MAX ==> sym_text(Sym::Gen(GenTag::Return, (st.count + 1) as u64))
                != sym_text(Sym::Gen(GenTag::Return, (st.count + 2) as u64))
        }),
{
    reveal_strlit("call");
    reveal_strlit("push");
    reveal_strlit("pop");
    reveal_strlit("add");
    reveal_strlit("sub");
    reveal_strlit("neg");
    reveal_strlit("eq");
    reveal_strlit("gt");
    reveal_strlit("lt");
    reveal_strlit("and");
    reveal_strlit("or");
    reveal_strlit("not");
    reveal_strlit("label");
    reveal_strlit("goto");
    reveal_strlit("if-goto");
    reveal_strlit("function");
    assert("call"@.len() == 4 && "push"@.len() == 4 && "goto"@.len() == 4 && "pop"@.len() == 3);
    assert("add"@.len() == 3 && "sub"@.len() == 3 && "neg"@.len() == 3 && "eq"@.len() == 2);
    assert("gt"@.len() == 2 && "lt"@.len() == 2 && "and"@.len() == 3 && "or"@.len() == 2);
    assert("not"@.len() == 3 && "label"@.len() == 5 && "if-goto"@.len() == 7 && "function"@.len() == 8);
    assert("call"@[0] == 'c' && "push"@[0] == 'p' && "goto"@[0] == 'g');
    if st.count + 2 <= u64::MAX {
        let a = (st.count + 1) as u64;
        let b = (st.count + 2) as u64;
        if sym_text(Sym::Gen(GenTag::Return, a)) == sym_text(Sym::Gen(GenTag::Return, b)) {
            let p = gen_prefix(GenTag::Return);
            assert(dec(a as nat) =~= (p + dec(a as nat)).subrange(p.len() as int, (p + dec(a as nat)).len() as int));
            assert(dec(b as nat) =~= (p + dec(b as nat)).subrange(p.len() as int, (p + dec(b as nat)).len() as int));
            lemma_dec_value(a as nat);
            lemma_dec_value(b as nat);
        }
    }
}

/// Whether comparison `k` holds of `a` and `b`.
pub open spec fn compare_holds(k: Compare, a: int, b: int) -> bool {
    match k {
        Compare::Eq => a == b,
        Compare::Gt => a > b,
        Compare::Lt => a < b,
    }
}

/// Comparisons give canonical booleans: `push constant a; push constant b`
/// and then `eq`, `gt` or `lt`, run to its end, leaves -1 on top when `a`
/// equals, is greater than, or is less than `b` respectively, and 0 when not,
/// one cell above where SP was, on a machine whose SP points above the
/// sixteen registers with room for two pushes. The comparison's two labels
/// must be at two different addresses.
#[verifier::rlimit(50)]
pub proof fn lemma_compare(k: Compare, n: u64, a: u16, b: u16, m: Machine)
    requires
        words_ok(m),
        16 <= sp(m) < 0x7ffe,
        a < 0x8000,
        b < 0x8000,
        (m.syms)(Sym::Gen(compare_tags(k).0, n)) != (m.syms)(Sym::Gen(compare_tags(k).1, n)),
    ensures
        ({
            let m2 = run(push_code(SegmentV::Constant, a) + push_code(SegmentV::Constant, b), m);
            let code = compare_code(k, n);
            let (r, pc) = exec(code, 0, m2, code.len());
            &&& pc == code.len()
            &&& sp(r) == sp(m) + 1
            &&& (r.mem)(sp(m)) == if compare_holds(k, a as int, b as int) { -1int } else { 0 }
        }),
{
    lemma_push(SegmentV::Constant, a, m);
    let m1 = run(push_code(SegmentV::Constant, a), m);
    lemma_push(SegmentV::Constant, b, m1);
    let m2 = run(push_code(SegmentV::Constant, b), m1);
    let code = compare_code(k, n);
    assert(code.len() == 18);
    reveal_with_fuel(exec, 19);
    reveal_with_fuel(find_label, 19);
    match k {
        Compare::Eq => {},
        Compare::Gt => {},
        Compare::Lt => {},
    }
}

/// No line of the code names a generated label.
pub open spec fn gen_free(code: Seq<InstrV>) -> bool {
    forall|k: int, s: SymV| 0 <= k < code.len() && #[trigger] names_sym(code[k], s) ==> !(s is Gen)
}

/// Every generated label that the code names has a counter value from `lo` to `hi`.
pub open spec fn gens_within(code: Seq<InstrV>, lo: int, hi: int) -> bool {
    forall|k: int, s: SymV| 0 <= k < code.len() && #[trigger] names_sym(code[k], s) && s is Gen
        ==> lo <= s->Gen_1 <= hi
}

/// No generated label is defined twice.
pub open spec fn defined_once(code: Seq<InstrV>) -> bool {
    forall|i: int, j: int| 0 <= i < j < code.len() && #[trigger] code[i] is Label && code[i] == #[trigger] code[j]
        ==> !(code[i]->Label_0 is Gen)
}

pub broadcast proof fn lemma_gen_free_concat(a: Seq<InstrV>, b: Seq<InstrV>)
    requires
        gen_free(a),
        gen_free(b),
    ensures
        #[trigger] gen_free(a + b),
{
    let c = a + b;
    assert forall|k: int, s: SymV| 0 <= k < c.len() && #[trigger] names_sym(c[k], s) implies !(s is Gen) by {
        if k < a.len() {
            assert(c[k] == a[k]);
        } else {
            assert(c[k] == b[k - a.len()]);
        }
    }
}

/// Code that names no generated label defines none twice.
pub broadcast proof fn lemma_gen_free_defined_once(c: Seq<InstrV>)
    requires
        gen_free(c),
    ensures
        #[trigger] defined_once(c),
{
    assert forall|i: int, j: int| 0 <= i < j < c.len() && #[trigger] c[i] is Label && c[i] == #[trigger] c[j]
        implies !(c[i]->Label_0 is Gen) by {
        assert(names_sym(c[i], c[i]->Label_0));
    }
}

pub proof fn lemma_zeros_gen_free(k: nat)
    ensures
        gen_free(zeros_code(k)),
    decreases k,
{
    broadcast use lemma_gen_free_concat;
    if k > 0 {
        lemma_zeros_gen_free((k - 1) as nat);
    }
}

/// The code of every instruction but the comparisons and `call` names no
/// generated label.
pub proof fn lemma_plain_code_gen_free(s: SegmentV, i: u16, c: Comp, f: Seq<char>, l: Seq<char>, k: nat)
    ensures
        gen_free(preamble()),
        gen_free(push_code(s, i)),
        gen_free(pop_code(s, i)),
        gen_free(binary_code(c)),
        gen_free(sub_code()),
        gen_free(unary_code(c)),
        gen_free(label_code(f, l)),
        gen_free(goto_code(f, l)),
        gen_free(if_goto_code(f, l)),
        gen_free(function_code(f, k)),
        gen_free(return_code()),
{
    broadcast use lemma_gen_free_concat;
    lemma_zeros_gen_free(k);
}

pub broadcast proof fn lemma_gens_within_concat(a: Seq<InstrV>, b: Seq<InstrV>, lo: int, hi: int)
    requires
        gens_within(a, lo, hi),
        gens_within(b, lo, hi),
    ensures
        #[trigger] gens_within(a + b, lo, hi),
{
    let c = a + b;
    assert forall|k: int, s: SymV| 0 <= k < c.len() && #[trigger] names_sym(c[k], s) && s is Gen
        implies lo <= s->Gen_1 <= hi by {
        if k < a.len() {
            assert(c[k] == a[k]);
        } else {
            assert(c[k] == b[k - a.len()]);
        }
    }
}

pub broadcast proof fn lemma_gen_free_within(c: Seq<InstrV>, lo: int, hi: int)
    requires
        gen_free(c),
    ensures
        #[trigger] gens_within(c, lo, hi),
{
}

/// A comparison and a call name only generated labels of their own counter
/// value, and define each at most once.
pub proof fn lemma_counted_code(k: Compare, f: Seq<char>, a: u16, n: u64)
    ensures
        gens_within(compare_code(k, n), n as int, n as int),
        defined_once(compare_code(k, n)),
        gens_within(call_code(f, a, n), n as int, n as int),
        defined_once(call_code(f, a, n)),
{
    broadcast use lemma_gen_free_concat, lemma_gens_within_concat, lemma_gen_free_within;
    let code = compare_code(k, n);
    assert(code.len() == 18);
    let setup = call_setup_code(a, n);
    let saves = save_code(Reg::LCL) + save_code(Reg::ARG) + save_code(Reg::THIS) + save_code(Reg::THAT);
    assert(gen_free(saves));
    let call = call_code(f, a, n);
    assert forall|i: int, j: int| 0 <= i < j < call.len() && #[trigger] call[i] is Label && call[i] == #[trigger] call[j]
        implies !(call[i]->Label_0 is Gen) by {
        if i < setup.len() {
            assert(call[i] == setup[i]);
        }
    }
}

pub proof fn lemma_defined_once_concat(a: Seq<InstrV>, b: Seq<InstrV>, hi: int)
    requires
        hi >= 0,
        gens_within(a, 1, hi),
        defined_once(a),
        gens_within(b, hi + 1, hi + 1),
        defined_once(b),
    ensures
        defined_once(a + b),
        gens_within(a + b, 1, hi + 1),
{
    let c = a + b;
    assert forall|i: int, j: int| 0 <= i < j < c.len() && #[trigger] c[i] is Label && c[i] == #[trigger] c[j]
        implies !(c[i]->Label_0 is Gen) by {
        if j < a.len() {
            assert(c[i] == a[i] && c[j] == a[j]);
        } else if i >= a.len() {
            assert(c[i] == b[i - a.len()] && c[j] == b[j - a.len()]);
        } else {
            assert(c[i] == a[i] && c[j] == b[j - a.len()]);
            assert(names_sym(a[i], a[i]->Label_0));
            assert(names_sym(b[j - a.len()], a[i]->Label_0));
        }
    }
    lemma_gens_widen(a, 1, hi, 1, hi + 1);
    lemma_gens_widen(b, hi + 1, hi + 1, 1, hi + 1);
    lemma_gens_within_concat(a, b, 1, hi + 1);
}

pub proof fn lemma_gens_widen(c: Seq<InstrV>, lo: int, hi: int, lo2: int, hi2: int)
    requires
        gens_within(c, lo, hi),
        lo2 <= lo,
        hi <= hi2,
    ensures
        gens_within(c, lo2, hi2),
{
}

/// Translating a command keeps every generated label of the program numbered
/// from 1 to the label counter, and defined at most once.
pub proof fn lemma_command_keeps_labels_unique(st: TState, unit: Seq<char>, c: Command)
    requires
        gens_within(st.code, 1, st.count as int),
        defined_once(st.code),
        st.count < u64::MAX,
        command_effect(st, unit, c) is Ok,
    ensures
        ({
            let next = command_effect(st, unit, c)->Ok_0;
            &&& gens_within(next.code, 1, next.count as int)
            &&& defined_once(next.code)
            &&& st.count <= next.count <= st.count + 1
        }),
{
    broadcast use lemma_gen_free_within, lemma_gen_free_defined_once;
    let args = c.args@;
    let seg = segment_named(args[0].lexeme@, unit)->Some_0;
    let i = index_of(args[1])->Some_0;
    let f = st.current->Some_0;
    let l = args[0].lexeme@;
    lemma_plain_code_gen_free(seg, i, Comp::DPlusM, f, l, i as nat);
    lemma_plain_code_gen_free(seg, i, Comp::DAndM, l, l, i as nat);
    lemma_plain_code_gen_free(seg, i, Comp::DOrM, f, l, i as nat);
    lemma_plain_code_gen_free(seg, i, Comp::NegM, f, l, i as nat);
    lemma_plain_code_gen_free(seg, i, Comp::NotM, f, l, i as nat);
    let n = (st.count + 1) as u64;
    lemma_counted_code(Compare::Eq, l, i, n);
    lemma_counted_code(Compare::Gt, l, i, n);
    lemma_counted_code(Compare::Lt, l, i, n);
    let next = command_effect(st, unit, c)->Ok_0;
    let chunk = next.code.subrange(st.code.len() as int, next.code.len() as int);
    assert(next.code =~= st.code + chunk);
    assert(gens_within(chunk, st.count + 1 as int, st.count + 1 as int) && defined_once(chunk));
    lemma_defined_once_concat(st.code, chunk, st.count as int);
}

/// A fresh program names no generated label.
pub proof fn lemma_preamble_labels()
    ensures
        gens_within(preamble(), 1, 0),
        defined_once(preamble()),
{
    broadcast use lemma_gen_free_within, lemma_gen_free_defined_once;
    lemma_plain_code_gen_free(SegmentV::Local, 0, Comp::D, Seq::empty(), Seq::empty(), 0);
}

/// Generated labels are unique across a whole program: translating commands,
/// one compilation unit after another, keeps every generated label numbered
/// from 1 to the label counter and defined at most once, up to the end or up
/// to the command that fails.
pub proof fn lemma_translation_labels_unique(st: TState, unit: Seq<char>, cs: Seq<Command>)
    requires
        gens_within(st.code, 1, st.count as int),
        defined_once(st.code),
        st.count + cs.len() < u64::MAX,
    ensures
        match commands_effect(st, unit, cs) {
            Ok(next) => gens_within(next.code, 1, next.count as int) && defined_once(next.code)
                && next.count <= st.count + cs.len(),
            Err((at, _)) => gens_within(at.code, 1, at.count as int) && defined_once(at.code)
                && at.count <= st.count + cs.len(),
        },
    decreases cs.len(),
{
    if cs.len() > 0 {
        if command_effect(st, unit, cs[0]) is Ok {
            lemma_command_keeps_labels_unique(st, unit, cs[0]);
            let next = command_effect(st, unit, cs[0])->Ok_0;
            lemma_translation_labels_unique(next, unit, cs.drop_first());
        }
    }
}

} // verus!
