//! Structured instructions of the target machine and their textual form.
use vstd::prelude::*;
use crate::text::{dec, push_decimal};

verus! {

/// The machine's predefined address symbols.
#[derive(PartialEq, Eq, Structural, Clone, Copy, Debug)]
pub enum Reg {
    SP,
    LCL,
    ARG,
    THIS,
    THAT,
    R13,
    R14,
}

/// The kind of an internally generated label.
#[derive(PartialEq, Eq, Structural, Clone, Copy, Debug)]
pub enum GenTag {
    Return,
    EqFalse,
    EqEnd,
    GtTrue,
    GtEnd,
    LtTrue,
    LtEnd,
}

/// A symbolic name, with its names held as `N` (`String` in code, `Seq<char>` in specs).
#[derive(Debug)]
pub enum Sym<N> {
    /// A static variable: owning compilation unit and index.
    Static(N, u16),
    /// A user label scoped to a function: function name and label.
    Scoped(N, N),
    /// A function's entry point.
    Func(N),
    /// A generated label, unique by its counter value.
    Gen(GenTag, u64),
}

/// The operand of an address instruction.
#[derive(Debug)]
pub enum Addr<N> {
    Num(u16),
    Reg(Reg),
    Sym(Sym<N>),
}

/// Destination registers of a compute instruction.
#[derive(PartialEq, Eq, Structural, Clone, Copy, Debug)]
pub enum Dest {
    Null,
    A,
    D,
    M,
    AM,
}

/// The computations used by the code generator.
#[derive(PartialEq, Eq, Structural, Clone, Copy, Debug)]
pub enum Comp {
    Zero,
    MinusOne,
    D,
    A,
    M,
    NegM,
    NotM,
    MPlusOne,
    MMinusOne,
    DPlusM,
    DMinusM,
    DAndM,
    DOrM,
    DPlusA,
    DMinusA,
}

/// Jump conditions on the computed value.
#[derive(PartialEq, Eq, Structural, Clone, Copy, Debug)]
pub enum Jump {
    Never,
    JNE,
    JLT,
    JGT,
    JMP,
}

/// One line of assembly.
#[derive(Debug)]
pub enum Instr<N> {
    /// `@operand`
    At(Addr<N>),
    /// `dest=comp;jump`
    C(Dest, Comp, Jump),
    /// `(name)`
    Label(Sym<N>),
}

pub type SymV = Sym<Seq<char>>;

pub type AddrV = Addr<Seq<char>>;

pub type InstrV = Instr<Seq<char>>;

impl View for Sym<String> {
    type V = SymV;

    open spec fn view(&self) -> SymV {
        match self {
            Sym::Static(m, i) => Sym::Static(m@, *i),
            Sym::Scoped(f, l) => Sym::Scoped(f@, l@),
            Sym::Func(f) => Sym::Func(f@),
            Sym::Gen(t, n) => Sym::Gen(*t, *n),
        }
    }
}

impl View for Addr<String> {
    type V = AddrV;

    open spec fn view(&self) -> AddrV {
        match self {
            Addr::Num(n) => Addr::Num(*n),
            Addr::Reg(r) => Addr::Reg(*r),
            Addr::Sym(s) => Addr::Sym(s@),
        }
    }
}

impl View for Instr<String> {
    type V = InstrV;

    open spec fn view(&self) -> InstrV {
        match self {
            Instr::At(a) => Instr::At(a@),
            Instr::C(d, c, j) => Instr::C(*d, *c, *j),
            Instr::Label(s) => Instr::Label(s@),
        }
    }
}

/// The abstract form of a sequence of lines.
pub open spec fn lines_view(v: Seq<Instr<String>>) -> Seq<InstrV> {
    v.map_values(|l: Instr<String>| l@)
}

pub open spec fn reg_text(r: Reg) -> Seq<char> {
    match r {
        Reg::SP => "SP"@,
        Reg::LCL => "LCL"@,
        Reg::ARG => "ARG"@,
        Reg::THIS => "THIS"@,
        Reg::THAT => "THAT"@,
        Reg::R13 => "R13"@,
        Reg::R14 => "R14"@,
    }
}

pub open spec fn gen_prefix(t: GenTag) -> Seq<char> {
    match t {
        GenTag::Return => "__VM_RETURN_"@,
        GenTag::EqFalse => "__VM_EQ_FALSE_"@,
        GenTag::EqEnd => "__VM_EQ_END_"@,
        GenTag::GtTrue => "__VM_GT_TRUE_"@,
        GenTag::GtEnd => "__VM_GT_END_"@,
        GenTag::LtTrue => "__VM_LT_TRUE_"@,
        GenTag::LtEnd => "__VM_LT_END_"@,
    }
}

/// The text of a symbol: `unit.index`, `function$label`, `function`, or a
/// generated name ending in its counter value.
pub open spec fn sym_text(s: SymV) -> Seq<char> {
    match s {
        Sym::Static(m, i) => m + "."@ + dec(i as nat),
        Sym::Scoped(f, l) => f + "$"@ + l,
        Sym::Func(f) => f,
        Sym::Gen(t, n) => gen_prefix(t) + dec(n as nat),
    }
}

pub open spec fn addr_text(a: AddrV) -> Seq<char> {
    match a {
        Addr::Num(n) => dec(n as nat),
        Addr::Reg(r) => reg_text(r),
        Addr::Sym(s) => sym_text(s),
    }
}

pub open spec fn dest_text(d: Dest) -> Seq<char> {
    match d {
        Dest::Null => ""@,
        Dest::A => "A="@,
        Dest::D => "D="@,
        Dest::M => "M="@,
        Dest::AM => "AM="@,
    }
}

pub open spec fn comp_text(c: Comp) -> Seq<char> {
    match c {
        Comp::Zero => "0"@,
        Comp::MinusOne => "-1"@,
        Comp::D => "D"@,
        Comp::A => "A"@,
        Comp::M => "M"@,
        Comp::NegM => "-M"@,
        Comp::NotM => "!M"@,
        Comp::MPlusOne => "M+1"@,
        Comp::MMinusOne => "M-1"@,
        Comp::DPlusM => "D+M"@,
        Comp::DMinusM => "D-M"@,
        Comp::DAndM => "D&M"@,
        Comp::DOrM => "D|M"@,
        Comp::DPlusA => "D+A"@,
        Comp::DMinusA => "D-A"@,
    }
}

pub open spec fn jump_text(j: Jump) -> Seq<char> {
    match j {
        Jump::Never => ""@,
        Jump::JNE => ";JNE"@,
        Jump::JLT => ";JLT"@,
        Jump::JGT => ";JGT"@,
        Jump::JMP => ";JMP"@,
    }
}

/// One line of assembly text: instructions are indented, labels are not.
pub open spec fn line_text(i: InstrV) -> Seq<char> {
    match i {
        Instr::At(a) => "  @"@ + addr_text(a) + "\n"@,
        Instr::C(d, c, j) => "  "@ + dest_text(d) + comp_text(c) + jump_text(j) + "\n"@,
        Instr::Label(s) => "("@ + sym_text(s) + ")\n"@,
    }
}

/// The text of a sequence of lines.
pub open spec fn render(code: Seq<InstrV>) -> Seq<char>
    decreases code.len(),
{
    if code.len() == 0 {
        Seq::empty()
    } else {
        render(code.drop_last()) + line_text(code.last())
    }
}

fn reg_str(r: Reg) -> (t: &'static str)
    ensures
        t@ == reg_text(r),
{
    match r {
        Reg::SP => "SP",
        Reg::LCL => "LCL",
        Reg::ARG => "ARG",
        Reg::THIS => "THIS",
        Reg::THAT => "THAT",
        Reg::R13 => "R13",
        Reg::R14 => "R14",
    }
}

fn gen_prefix_str(t: GenTag) -> (r: &'static str)
    ensures
        r@ == gen_prefix(t),
{
    match t {
        GenTag::Return => "__VM_RETURN_",
        GenTag::EqFalse => "__VM_EQ_FALSE_",
        GenTag::EqEnd => "__VM_EQ_END_",
        GenTag::GtTrue => "__VM_GT_TRUE_",
        GenTag::GtEnd => "__VM_GT_END_",
        GenTag::LtTrue => "__VM_LT_TRUE_",
        GenTag::LtEnd => "__VM_LT_END_",
    }
}

fn dest_str(d: Dest) -> (r: &'static str)
    ensures
        r@ == dest_text(d),
{
    match d {
        Dest::Null => "",
        Dest::A => "A=",
        Dest::D => "D=",
        Dest::M => "M=",
        Dest::AM => "AM=",
    }
}

fn comp_str(c: Comp) -> (r: &'static str)
    ensures
        r@ == comp_text(c),
{
    match c {
        Comp::Zero => "0",
        Comp::MinusOne => "-1",
        Comp::D => "D",
        Comp::A => "A",
        Comp::M => "M",
        Comp::NegM => "-M",
        Comp::NotM => "!M",
        Comp::MPlusOne => "M+1",
        Comp::MMinusOne => "M-1",
        Comp::DPlusM => "D+M",
        Comp::DMinusM => "D-M",
        Comp::DAndM => "D&M",
        Comp::DOrM => "D|M",
        Comp::DPlusA => "D+A",
        Comp::DMinusA => "D-A",
    }
}

fn jump_str(j: Jump) -> (r: &'static str)
    ensures
        r@ == jump_text(j),
{
    match j {
        Jump::Never => "",
        Jump::JNE => ";JNE",
        Jump::JLT => ";JLT",
        Jump::JGT => ";JGT",
        Jump::JMP => ";JMP",
    }
}

/// Appends the text of a symbol.
pub fn write_sym(out: &mut String, s: &Sym<String>)
    ensures
        final(out)@ == old(out)@ + sym_text(s@),
{
    match s {
        Sym::Static(m, i) => {
            out.append(m.as_str());
            out.append(".");
            push_decimal(out, *i as u64);
        },
        Sym::Scoped(f, l) => {
            out.append(f.as_str());
            out.append("$");
            out.append(l.as_str());
        },
        Sym::Func(f) => {
            out.append(f.as_str());
        },
        Sym::Gen(t, n) => {
            out.append(gen_prefix_str(*t));
            push_decimal(out, *n);
        },
    }
    assert(final(out)@ =~= old(out)@ + sym_text(s@));
}

/// Appends the text of one line.
pub fn write_line(out: &mut String, i: &Instr<String>)
    ensures
        final(out)@ == old(out)@ + line_text(i@),
{
    match i {
        Instr::At(a) => {
            out.append("  @");
            match a {
                Addr::Num(n) => push_decimal(out, *n as u64),
                Addr::Reg(r) => out.append(reg_str(*r)),
                Addr::Sym(s) => write_sym(out, s),
            }
            out.append("\n");
        },
        Instr::C(d, c, j) => {
            out.append("  ");
            out.append(dest_str(*d));
            out.append(comp_str(*c));
            out.append(jump_str(*j));
            out.append("\n");
        },
        Instr::Label(s) => {
            out.append("(");
            write_sym(out, s);
            out.append(")\n");
        },
    }
    assert(final(out)@ =~= old(out)@ + line_text(i@));
}

/// Appends the text of all the lines, in order.
pub fn write_lines(out: &mut String, lines: &Vec<Instr<String>>)
    ensures
        final(out)@ == old(out)@ + render(lines_view(lines@)),
{
    let mut k: usize = 0;
    while k < lines.len()
        invariant
            k <= lines@.len(),
            out@ == old(out)@ + render(lines_view(lines@.subrange(0, k as int))),
        decreases lines@.len() - k,
    {
        write_line(out, &lines[k]);
        proof {
            let v = lines_view(lines@.subrange(0, k + 1));
            assert(v.drop_last() =~= lines_view(lines@.subrange(0, k as int)));
            assert(v.last() == lines@[k as int]@);
        }
        k = k + 1;
    }
    assert(lines@.subrange(0, k as int) =~= lines@);
}

} // verus!
