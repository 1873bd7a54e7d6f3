//! A model of the target machine: registers A and D, a word-addressed memory,
//! and straight-line execution of instructions on 16-bit words.
use vstd::prelude::*;
use crate::hack::{Addr, Comp, Dest, Instr, InstrV, Jump, Reg, SymV};

verus! {

/// The state that instructions act on. `syms` gives the address that the
/// assembler assigned to each symbol; it never changes while code runs.
pub struct Machine {
    pub a: int,
    pub d: int,
    pub mem: spec_fn(int) -> int,
    pub syms: spec_fn(SymV) -> int,
}

/// Reduces an integer to a signed 16-bit word.
pub open spec fn w16(x: int) -> int {
    if -0x8000 <= x < 0x8000 {
        x
    } else {
        (x + 0x8000) % 0x10000 - 0x8000
    }
}

pub open spec fn is_word(x: int) -> bool {
    -0x8000 <= x < 0x8000
}

/// The fixed address of a predefined symbol.
pub open spec fn reg_addr(r: Reg) -> int {
    match r {
        Reg::SP => 0,
        Reg::LCL => 1,
        Reg::ARG => 2,
        Reg::THIS => 3,
        Reg::THAT => 4,
        Reg::R13 => 13,
        Reg::R14 => 14,
    }
}

/// Bitwise operations on words, as the machine's ALU computes them.
pub open spec fn word_and(x: int, y: int) -> int {
    ((x as i16) & (y as i16)) as int
}

pub open spec fn word_or(x: int, y: int) -> int {
    ((x as i16) | (y as i16)) as int
}

pub open spec fn word_not(x: int) -> int {
    (!(x as i16)) as int
}

pub open spec fn mem_at(m: Machine) -> int {
    (m.mem)(m.a)
}

/// The value a computation yields before it is reduced to a word.
pub open spec fn comp_val(c: Comp, m: Machine) -> int {
    match c {
        Comp::Zero => 0,
        Comp::MinusOne => -1,
        Comp::D => m.d,
        Comp::A => m.a,
        Comp::M => mem_at(m),
        Comp::NegM => -mem_at(m),
        Comp::NotM => word_not(mem_at(m)),
        Comp::MPlusOne => mem_at(m) + 1,
        Comp::MMinusOne => mem_at(m) - 1,
        Comp::DPlusM => m.d + mem_at(m),
        Comp::DMinusM => m.d - mem_at(m),
        Comp::DAndM => word_and(m.d, mem_at(m)),
        Comp::DOrM => word_or(m.d, mem_at(m)),
        Comp::DPlusA => m.d + m.a,
        Comp::DMinusA => m.d - m.a,
    }
}

pub open spec fn writes_a(d: Dest) -> bool {
    d == Dest::A || d == Dest::AM
}

pub open spec fn writes_m(d: Dest) -> bool {
    d == Dest::M || d == Dest::AM
}

pub open spec fn update(f: spec_fn(int) -> int, k: int, v: int) -> spec_fn(int) -> int {
    |i: int| if i == k { v } else { f(i) }
}

/// The value that an address instruction loads into A.
pub open spec fn addr_val(a: crate::hack::AddrV, m: Machine) -> int {
    match a {
        Addr::Num(n) => n as int,
        Addr::Reg(r) => reg_addr(r),
        Addr::Sym(s) => (m.syms)(s),
    }
}

/// The effect of one instruction on the state, with any jump not taken.
pub open spec fn step(i: InstrV, m: Machine) -> Machine {
    match i {
        Instr::At(a) => Machine { a: addr_val(a, m), ..m },
        Instr::C(dest, comp, _) => {
            let v = w16(comp_val(comp, m));
            Machine {
                a: if writes_a(dest) { v } else { m.a },
                d: if dest == Dest::D { v } else { m.d },
                mem: if writes_m(dest) { update(m.mem, m.a, v) } else { m.mem },
                syms: m.syms,
            }
        },
        Instr::Label(_) => m,
    }
}

/// Runs a sequence of instructions from first to last.
pub open spec fn run(code: Seq<InstrV>, m: Machine) -> Machine
    decreases code.len(),
{
    if code.len() == 0 {
        m
    } else {
        step(code.last(), run(code.drop_last(), m))
    }
}

/// No instruction of the code can jump.
pub open spec fn jump_free(code: Seq<InstrV>) -> bool {
    forall|k: int| 0 <= k < code.len() ==> !(code[k] is C && code[k]->C_2 != Jump::Never)
}

/// Running two pieces of code one after the other is running their concatenation.
pub proof fn lemma_run_append(c1: Seq<InstrV>, c2: Seq<InstrV>, m: Machine)
    ensures
        run(c1 + c2, m) == run(c2, run(c1, m)),
    decreases c2.len(),
{
    if c2.len() == 0 {
        assert(c1 + c2 =~= c1);
    } else {
        lemma_run_append(c1, c2.drop_last(), m);
        assert((c1 + c2).drop_last() =~= c1 + c2.drop_last());
    }
}

/// Running one more instruction is one more step.
pub broadcast proof fn lemma_run_push(code: Seq<InstrV>, i: InstrV, m: Machine)
    ensures
        #[trigger] run(code.push(i), m) == step(i, run(code, m)),
{
    assert(code.push(i).drop_last() =~= code);
}

pub broadcast proof fn lemma_run_empty(m: Machine)
    ensures
        #[trigger] run(Seq::<InstrV>::empty(), m) == m,
{
}

pub broadcast proof fn lemma_run_concat(c1: Seq<InstrV>, c2: Seq<InstrV>, m: Machine)
    ensures
        #[trigger] run(c1 + c2, m) == run(c2, run(c1, m)),
{
    lemma_run_append(c1, c2, m);
}

pub broadcast group group_run {
    lemma_jump_free_concat,
    lemma_run_push,
    lemma_run_empty,
    lemma_run_concat,
}

/// A state of the 16-bit machine: registers, memory and symbol addresses
/// hold words.
pub open spec fn words_ok(m: Machine) -> bool {
    &&& is_word(m.a)
    &&& is_word(m.d)
    &&& forall|x: int| is_word(#[trigger] (m.mem)(x))
    &&& forall|s: SymV| is_word(#[trigger] (m.syms)(s))
}

/// The stack pointer, held in memory cell 0.
pub open spec fn sp(m: Machine) -> int {
    (m.mem)(0)
}

/// Whether a jump condition holds of a computed value.
pub open spec fn taken(j: Jump, v: int) -> bool {
    match j {
        Jump::Never => false,
        Jump::JNE => v != 0,
        Jump::JLT => v < 0,
        Jump::JGT => v > 0,
        Jump::JMP => true,
    }
}

/// The position of the first label of `code`, from position `k` on, whose
/// symbol has address `a`; the end of the code if there is none.
pub open spec fn find_label(code: Seq<InstrV>, syms: spec_fn(SymV) -> int, a: int, k: int) -> int
    decreases code.len() - k,
{
    if k < 0 || k >= code.len() {
        code.len() as int
    } else if code[k] is Label && syms(code[k]->Label_0) == a {
        k
    } else {
        find_label(code, syms, a, k + 1)
    }
}

/// Runs `code` from position `pc` for at most `fuel` instructions, taking
/// jumps to the labels of the code; gives the final state and position.
pub open spec fn exec(code: Seq<InstrV>, pc: int, m: Machine, fuel: nat) -> (Machine, int)
    decreases fuel,
{
    if fuel == 0 || pc < 0 || pc >= code.len() {
        (m, pc)
    } else {
        let i = code[pc];
        let next = match i {
            Instr::C(_, c, j) => if taken(j, w16(comp_val(c, m))) {
                find_label(code, m.syms, m.a, 0)
            } else {
                pc + 1
            },
            _ => pc + 1,
        };
        exec(code, next, step(i, m), (fuel - 1) as nat)
    }
}

/// Code made of two jump-free pieces has no jump.
pub broadcast proof fn lemma_jump_free_concat(c1: Seq<InstrV>, c2: Seq<InstrV>)
    requires
        jump_free(c1),
        jump_free(c2),
    ensures
        #[trigger] jump_free(c1 + c2),
{
    let c = c1 + c2;
    assert forall|k: int| 0 <= k < c.len() implies !(c[k] is C && c[k]->C_2 != Jump::Never) by {
        if k < c1.len() {
            assert(c[k] == c1[k]);
        } else {
            assert(c[k] == c2[k - c1.len()]);
        }
    }
}

} // verus!
