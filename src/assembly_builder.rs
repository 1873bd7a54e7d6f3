//! The output buffer, the label counter, and the code of each instruction.
use vstd::prelude::*;
use crate::hack::{lines_view, render, write_lines, Addr, Comp, Dest, GenTag, Instr, InstrV, Jump, Reg, Sym, SymV};
use crate::segment::{address_code, at, cmp, Segment, SegmentV};

verus! {

pub open spec fn at_reg(r: Reg) -> InstrV {
    at(Addr::Reg(r))
}

pub open spec fn at_num(n: u16) -> InstrV {
    at(Addr::Num(n))
}

pub open spec fn at_sym(s: SymV) -> InstrV {
    at(Addr::Sym(s))
}

pub open spec fn jump(c: Comp, j: Jump) -> InstrV {
    Instr::C(Dest::Null, c, j)
}

/// The code that every program starts with: SP = 256.
pub open spec fn preamble() -> Seq<InstrV> {
    Seq::empty()
        .push(at_num(256))
        .push(cmp(Dest::D, Comp::A))
        .push(at_reg(Reg::SP))
        .push(cmp(Dest::M, Comp::D))
}

/// Pushes D onto the stack.
pub open spec fn push_d_code() -> Seq<InstrV> {
    Seq::empty()
        .push(at_reg(Reg::SP))
        .push(cmp(Dest::A, Comp::M))
        .push(cmp(Dest::M, Comp::D))
        .push(at_reg(Reg::SP))
        .push(cmp(Dest::M, Comp::MPlusOne))
}

/// Pops the top of the stack into D.
pub open spec fn pop_d_code() -> Seq<InstrV> {
    Seq::empty()
        .push(at_reg(Reg::SP))
        .push(cmp(Dest::AM, Comp::MMinusOne))
        .push(cmp(Dest::D, Comp::M))
}

/// Points A at the top cell of the stack.
pub open spec fn top_code() -> Seq<InstrV> {
    Seq::empty()
        .push(at_reg(Reg::SP))
        .push(cmp(Dest::A, Comp::MMinusOne))
}

pub open spec fn push_constant_code(v: u16) -> Seq<InstrV> {
    Seq::empty()
        .push(at_num(v))
        .push(cmp(Dest::D, Comp::A)) + push_d_code()
}

pub open spec fn push_code(s: SegmentV, i: u16) -> Seq<InstrV> {
    if s is Constant {
        push_constant_code(i)
    } else {
        address_code(s, i) + seq![cmp(Dest::D, Comp::M)] + push_d_code()
    }
}

pub open spec fn pop_code(s: SegmentV, i: u16) -> Seq<InstrV> {
    let keep = Seq::empty()
        .push(cmp(Dest::D, Comp::A))
        .push(at_reg(Reg::R13))
        .push(cmp(Dest::M, Comp::D));
    let store = Seq::empty()
        .push(at_reg(Reg::R13))
        .push(cmp(Dest::A, Comp::M))
        .push(cmp(Dest::M, Comp::D));
    address_code(s, i) + keep + pop_d_code() + store
}

/// A binary operation that combines D with the top cell: `add`, `and`, `or`.
pub open spec fn binary_code(c: Comp) -> Seq<InstrV> {
    pop_d_code() + top_code() + seq![cmp(Dest::M, c)]
}

/// `sub`: D - M gives top minus second, so the result is negated.
pub open spec fn sub_code() -> Seq<InstrV> {
    pop_d_code() + top_code() + Seq::empty()
        .push(cmp(Dest::M, Comp::DMinusM))
        .push(cmp(Dest::M, Comp::NegM))
}

/// A unary operation on the top cell: `neg`, `not`.
pub open spec fn unary_code(c: Comp) -> Seq<InstrV> {
    top_code() + seq![cmp(Dest::M, c)]
}

/// The three comparisons.
#[derive(PartialEq, Eq, Structural, Clone, Copy, Debug)]
pub enum Compare {
    Eq,
    Gt,
    Lt,
}

/// The label that a comparison jumps to, and the label of its end.
pub open spec fn compare_tags(k: Compare) -> (GenTag, GenTag) {
    match k {
        Compare::Eq => (GenTag::EqFalse, GenTag::EqEnd),
        Compare::Gt => (GenTag::GtTrue, GenTag::GtEnd),
        Compare::Lt => (GenTag::LtTrue, GenTag::LtEnd),
    }
}

/// On D = top - second: the jump taken, the value written when it is not
/// taken, and the value written when it is.
pub open spec fn compare_branch(k: Compare) -> (Jump, Comp, Comp) {
    match k {
        Compare::Eq => (Jump::JNE, Comp::MinusOne, Comp::Zero),
        Compare::Gt => (Jump::JLT, Comp::Zero, Comp::MinusOne),
        Compare::Lt => (Jump::JGT, Comp::Zero, Comp::MinusOne),
    }
}

pub open spec fn compare_code(k: Compare, n: u64) -> Seq<InstrV> {
    let (taken, end) = compare_tags(k);
    let (j, fall, branch) = compare_branch(k);
    let test = Seq::empty()
        .push(cmp(Dest::D, Comp::DMinusM))
        .push(at_sym(Sym::Gen(taken, n)))
        .push(jump(Comp::D, j));
    let not_taken = Seq::empty()
        .push(cmp(Dest::M, fall))
        .push(at_sym(Sym::Gen(end, n)))
        .push(jump(Comp::Zero, Jump::JMP))
        .push(Instr::Label(Sym::Gen(taken, n)));
    let on_taken = Seq::empty()
        .push(cmp(Dest::M, branch))
        .push(Instr::Label(Sym::Gen(end, n)));
    pop_d_code() + top_code() + test + top_code() + not_taken + top_code() + on_taken
}

pub open spec fn label_code(f: Seq<char>, l: Seq<char>) -> Seq<InstrV> {
    seq![Instr::Label(Sym::Scoped(f, l))]
}

pub open spec fn goto_code(f: Seq<char>, l: Seq<char>) -> Seq<InstrV> {
    Seq::empty()
        .push(at_sym(Sym::Scoped(f, l)))
        .push(jump(Comp::Zero, Jump::JMP))
}

pub open spec fn if_goto_code(f: Seq<char>, l: Seq<char>) -> Seq<InstrV> {
    pop_d_code() + Seq::empty()
        .push(at_sym(Sym::Scoped(f, l)))
        .push(jump(Comp::D, Jump::JNE))
}

/// `k` pushes of the constant 0.
pub open spec fn zeros_code(k: nat) -> Seq<InstrV>
    decreases k,
{
    if k == 0 {
        Seq::empty()
    } else {
        zeros_code((k - 1) as nat) + push_constant_code(0)
    }
}

pub open spec fn function_code(name: Seq<char>, k: nat) -> Seq<InstrV> {
    seq![Instr::Label(Sym::Func(name))] + zeros_code(k)
}

/// Pushes the value of a base register.
pub open spec fn save_code(r: Reg) -> Seq<InstrV> {
    Seq::empty().push(at_reg(r)).push(cmp(Dest::D, Comp::M)) + push_d_code()
}

/// The part of a call that runs before the jump to the callee: it saves
/// the frame and moves ARG and LCL.
pub open spec fn call_setup_code(n_args: u16, c: u64) -> Seq<InstrV> {
    let ret = Seq::empty().push(at_sym(Sym::Gen(GenTag::Return, c))).push(cmp(Dest::D, Comp::A));
    let saves = save_code(Reg::LCL) + save_code(Reg::ARG) + save_code(Reg::THIS) + save_code(Reg::THAT);
    let moves = Seq::empty()
        .push(at_reg(Reg::SP))
        .push(cmp(Dest::D, Comp::M))
        .push(at_num(n_args))
        .push(cmp(Dest::D, Comp::DMinusA))
        .push(at_num(5))
        .push(cmp(Dest::D, Comp::DMinusA))
        .push(at_reg(Reg::ARG))
        .push(cmp(Dest::M, Comp::D))
        .push(at_reg(Reg::SP))
        .push(cmp(Dest::D, Comp::M))
        .push(at_reg(Reg::LCL))
        .push(cmp(Dest::M, Comp::D));
    ret + push_d_code() + saves + moves
}

pub open spec fn call_code(name: Seq<char>, n_args: u16, c: u64) -> Seq<InstrV> {
    call_setup_code(n_args, c) + Seq::empty()
        .push(at_sym(Sym::Func(name)))
        .push(jump(Comp::Zero, Jump::JMP))
        .push(Instr::Label(Sym::Gen(GenTag::Return, c)))
}

/// Restores one base register from the next lower cell of the saved frame.
pub open spec fn restore_code(r: Reg) -> Seq<InstrV> {
    Seq::empty()
        .push(at_reg(Reg::R13))
        .push(cmp(Dest::AM, Comp::MMinusOne))
        .push(cmp(Dest::D, Comp::M))
        .push(at_reg(r))
        .push(cmp(Dest::M, Comp::D))
}

/// The part of a return that runs before the jump back to the caller.
pub open spec fn return_setup_code() -> Seq<InstrV> {
    let keep = Seq::empty()
        .push(at_reg(Reg::LCL))
        .push(cmp(Dest::D, Comp::M))
        .push(at_reg(Reg::R13))
        .push(cmp(Dest::M, Comp::D))
        .push(at_num(5))
        .push(cmp(Dest::A, Comp::DMinusA))
        .push(cmp(Dest::D, Comp::M))
        .push(at_reg(Reg::R14))
        .push(cmp(Dest::M, Comp::D));
    let result = Seq::empty()
        .push(at_reg(Reg::ARG))
        .push(cmp(Dest::A, Comp::M))
        .push(cmp(Dest::M, Comp::D))
        .push(at_reg(Reg::ARG))
        .push(cmp(Dest::D, Comp::MPlusOne))
        .push(at_reg(Reg::SP))
        .push(cmp(Dest::M, Comp::D));
    keep + pop_d_code() + result + restore_code(Reg::THAT) + restore_code(Reg::THIS) + restore_code(Reg::ARG)
        + restore_code(Reg::LCL)
}

pub open spec fn return_code() -> Seq<InstrV> {
    return_setup_code() + Seq::empty()
        .push(at_reg(Reg::R14))
        .push(cmp(Dest::A, Comp::M))
        .push(jump(Comp::Zero, Jump::JMP))
}

/// The program preamble.
pub fn initial_code() -> (r: Vec<Instr<String>>)
    ensures
        lines_view(r@) == preamble(),
{
    let r = vec![
        Instr::At(Addr::Num(256)),
        Instr::C(Dest::D, Comp::A, Jump::Never),
        Instr::At(Addr::Reg(Reg::SP)),
        Instr::C(Dest::M, Comp::D, Jump::Never),
    ];
    assert(lines_view(r@) =~= preamble());
    r
}

/// The assembly written so far and the count of generated labels.
pub struct AssemblyBuilder {
    pub lines: Vec<Instr<String>>,
    pub label_count: u64,
}

impl AssemblyBuilder {
    pub open spec fn code(&self) -> Seq<InstrV> {
        lines_view(self.lines@)
    }

    /// A buffer that holds the preamble, with no label generated yet.
    pub fn new() -> (r: AssemblyBuilder)
        ensures
            r.code() == preamble(),
            r.label_count == 0,
    {
        AssemblyBuilder { lines: initial_code(), label_count: 0 }
    }

    /// Takes the next value of the label counter.
    pub fn next_label_count(&mut self) -> (r: u64)
        requires
            old(self).label_count < u64::MAX,
        ensures
            r == old(self).label_count + 1,
            final(self).label_count == r,
            final(self).code() == old(self).code(),
    {
        self.label_count = self.label_count + 1;
        self.label_count
    }

    /// Appends one line.
    pub fn emit(&mut self, i: Instr<String>)
        ensures
            final(self).code() == old(self).code().push(i@),
            final(self).label_count == old(self).label_count,
    {
        self.lines.push(i);
        assert(self.code() =~= old(self).code().push(i@));
    }

    /// Appends the lines of `v` in order.
    pub fn emit_all(&mut self, v: Vec<Instr<String>>)
        ensures
            final(self).code() == old(self).code() + lines_view(v@),
            final(self).label_count == old(self).label_count,
    {
        let mut v = v;
        let ghost added = v@;
        self.lines.append(&mut v);
        assert(self.code() =~= old(self).code() + lines_view(added));
    }

    fn emit_at_reg(&mut self, r: Reg)
        ensures
            final(self).code() == old(self).code().push(at_reg(r)),
            final(self).label_count == old(self).label_count,
    {
        self.emit(Instr::At(Addr::Reg(r)));
    }

    fn emit_at_num(&mut self, n: u16)
        ensures
            final(self).code() == old(self).code().push(at_num(n)),
            final(self).label_count == old(self).label_count,
    {
        self.emit(Instr::At(Addr::Num(n)));
    }

    fn emit_c(&mut self, d: Dest, c: Comp)
        ensures
            final(self).code() == old(self).code().push(cmp(d, c)),
            final(self).label_count == old(self).label_count,
    {
        self.emit(Instr::C(d, c, Jump::Never));
    }

    fn emit_jump(&mut self, c: Comp, j: Jump)
        ensures
            final(self).code() == old(self).code().push(jump(c, j)),
            final(self).label_count == old(self).label_count,
    {
        self.emit(Instr::C(Dest::Null, c, j));
    }

    /// Pushes the D register.
    pub fn push_d(&mut self)
        ensures
            final(self).code() == old(self).code() + push_d_code(),
            final(self).label_count == old(self).label_count,
    {
        self.emit_at_reg(Reg::SP);
        self.emit_c(Dest::A, Comp::M);
        self.emit_c(Dest::M, Comp::D);
        self.emit_at_reg(Reg::SP);
        self.emit_c(Dest::M, Comp::MPlusOne);
        assert(self.code() =~= old(self).code() + push_d_code());
    }

    /// Pops the top of the stack into the D register.
    pub fn pop_d(&mut self)
        ensures
            final(self).code() == old(self).code() + pop_d_code(),
            final(self).label_count == old(self).label_count,
    {
        self.emit_at_reg(Reg::SP);
        self.emit_c(Dest::AM, Comp::MMinusOne);
        self.emit_c(Dest::D, Comp::M);
        assert(self.code() =~= old(self).code() + pop_d_code());
    }

    fn top(&mut self)
        ensures
            final(self).code() == old(self).code() + top_code(),
            final(self).label_count == old(self).label_count,
    {
        self.emit_at_reg(Reg::SP);
        self.emit_c(Dest::A, Comp::MMinusOne);
        assert(self.code() =~= old(self).code() + top_code());
    }

    /// `push constant v`.
    pub fn push_constant(&mut self, v: u16)
        ensures
            final(self).code() == old(self).code() + push_constant_code(v),
            final(self).label_count == old(self).label_count,
    {
        self.emit_at_num(v);
        self.emit_c(Dest::D, Comp::A);
        self.push_d();
        assert(self.code() =~= old(self).code() + push_constant_code(v));
    }

    /// `push segment index`.
    pub fn push(&mut self, segment: &Segment, index: i16)
        requires
            index >= 0,
        ensures
            final(self).code() == old(self).code() + push_code(segment@, index as u16),
            final(self).label_count == old(self).label_count,
    {
        if let Segment::Constant = segment {
            self.push_constant(index as u16);
        } else {
            self.emit_all(segment.resolve_address(index));
            self.emit_c(Dest::D, Comp::M);
            self.push_d();
            assert(self.code() =~= old(self).code() + push_code(segment@, index as u16));
        }
    }

    /// `pop segment index`, through R13 since D holds the popped value.
    pub fn pop(&mut self, segment: &Segment, index: i16)
        requires
            index >= 0,
            !(segment@ is Constant),
        ensures
            final(self).code() == old(self).code() + pop_code(segment@, index as u16),
            final(self).label_count == old(self).label_count,
    {
        self.emit_all(segment.resolve_address(index));
        self.emit_c(Dest::D, Comp::A);
        self.emit_at_reg(Reg::R13);
        self.emit_c(Dest::M, Comp::D);
        self.pop_d();
        self.emit_at_reg(Reg::R13);
        self.emit_c(Dest::A, Comp::M);
        self.emit_c(Dest::M, Comp::D);
        assert(self.code() =~= old(self).code() + pop_code(segment@, index as u16));
    }

    /// `add` (`D+M`), `and` (`D&M`) or `or` (`D|M`).
    pub fn binary(&mut self, c: Comp)
        ensures
            final(self).code() == old(self).code() + binary_code(c),
            final(self).label_count == old(self).label_count,
    {
        self.pop_d();
        self.top();
        self.emit_c(Dest::M, c);
        assert(self.code() =~= old(self).code() + binary_code(c));
    }

    /// `sub`.
    pub fn sub(&mut self)
        ensures
            final(self).code() == old(self).code() + sub_code(),
            final(self).label_count == old(self).label_count,
    {
        self.pop_d();
        self.top();
        self.emit_c(Dest::M, Comp::DMinusM);
        self.emit_c(Dest::M, Comp::NegM);
        assert(self.code() =~= old(self).code() + sub_code());
    }

    /// `neg` (`-M`) or `not` (`!M`).
    pub fn unary(&mut self, c: Comp)
        ensures
            final(self).code() == old(self).code() + unary_code(c),
            final(self).label_count == old(self).label_count,
    {
        self.top();
        self.emit_c(Dest::M, c);
        assert(self.code() =~= old(self).code() + unary_code(c));
    }

    /// `eq`, `gt` or `lt`, with a fresh pair of labels.
    pub fn compare(&mut self, k: Compare)
        requires
            old(self).label_count < u64::MAX,
        ensures
            final(self).label_count == old(self).label_count + 1,
            final(self).code() == old(self).code() + compare_code(k, final(self).label_count),
    {
        let n = self.next_label_count();
        let (taken, end) = match k {
            Compare::Eq => (GenTag::EqFalse, GenTag::EqEnd),
            Compare::Gt => (GenTag::GtTrue, GenTag::GtEnd),
            Compare::Lt => (GenTag::LtTrue, GenTag::LtEnd),
        };
        let (j, fall, branch) = match k {
            Compare::Eq => (Jump::JNE, Comp::MinusOne, Comp::Zero),
            Compare::Gt => (Jump::JLT, Comp::Zero, Comp::MinusOne),
            Compare::Lt => (Jump::JGT, Comp::Zero, Comp::MinusOne),
        };
        self.pop_d();
        self.top();
        self.emit_c(Dest::D, Comp::DMinusM);
        self.emit(Instr::At(Addr::Sym(Sym::Gen(taken, n))));
        self.emit_jump(Comp::D, j);
        self.top();
        self.emit_c(Dest::M, fall);
        self.emit(Instr::At(Addr::Sym(Sym::Gen(end, n))));
        self.emit_jump(Comp::Zero, Jump::JMP);
        self.emit(Instr::Label(Sym::Gen(taken, n)));
        self.top();
        self.emit_c(Dest::M, branch);
        self.emit(Instr::Label(Sym::Gen(end, n)));
        assert(self.code() =~= old(self).code() + compare_code(k, n));
    }

    /// `label l` inside function `f`.
    pub fn label(&mut self, f: &str, l: &str)
        ensures
            final(self).code() == old(self).code() + label_code(f@, l@),
            final(self).label_count == old(self).label_count,
    {
        self.emit(Instr::Label(Sym::Scoped(String::from_str(f), String::from_str(l))));
        assert(self.code() =~= old(self).code() + label_code(f@, l@));
    }

    /// `goto l` inside function `f`.
    pub fn goto(&mut self, f: &str, l: &str)
        ensures
            final(self).code() == old(self).code() + goto_code(f@, l@),
            final(self).label_count == old(self).label_count,
    {
        self.emit(Instr::At(Addr::Sym(Sym::Scoped(String::from_str(f), String::from_str(l)))));
        self.emit_jump(Comp::Zero, Jump::JMP);
        assert(self.code() =~= old(self).code() + goto_code(f@, l@));
    }

    /// `if-goto l` inside function `f`: pops, and jumps if the value is not zero.
    pub fn if_goto(&mut self, f: &str, l: &str)
        ensures
            final(self).code() == old(self).code() + if_goto_code(f@, l@),
            final(self).label_count == old(self).label_count,
    {
        self.pop_d();
        self.emit(Instr::At(Addr::Sym(Sym::Scoped(String::from_str(f), String::from_str(l)))));
        self.emit_jump(Comp::D, Jump::JNE);
        assert(self.code() =~= old(self).code() + if_goto_code(f@, l@));
    }

    /// `function name n_vars`: the entry label, then `n_vars` zeroed locals.
    pub fn function(&mut self, name: &str, n_vars: u16)
        ensures
            final(self).code() == old(self).code() + function_code(name@, n_vars as nat),
            final(self).label_count == old(self).label_count,
    {
        self.emit(Instr::Label(Sym::Func(String::from_str(name))));
        let mut k: u16 = 0;
        while k < n_vars
            invariant
                k <= n_vars,
                self.code() == old(self).code() + seq![Instr::Label(Sym::Func(name@))] + zeros_code(k as nat),
                self.label_count == old(self).label_count,
            decreases n_vars - k,
        {
            self.push_constant(0);
            k = k + 1;
        }
        assert(self.code() =~= old(self).code() + function_code(name@, n_vars as nat));
    }

    fn save(&mut self, r: Reg)
        ensures
            final(self).code() == old(self).code() + save_code(r),
            final(self).label_count == old(self).label_count,
    {
        self.emit_at_reg(r);
        self.emit_c(Dest::D, Comp::M);
        self.push_d();
        assert(self.code() =~= old(self).code() + save_code(r));
    }

    /// `call name n_args`, with a fresh return label.
    pub fn call(&mut self, name: &str, n_args: u16)
        requires
            old(self).label_count < u64::MAX,
        ensures
            final(self).label_count == old(self).label_count + 1,
            final(self).code() == old(self).code() + call_code(name@, n_args, final(self).label_count),
    {
        let c = self.next_label_count();
        self.emit(Instr::At(Addr::Sym(Sym::Gen(GenTag::Return, c))));
        self.emit_c(Dest::D, Comp::A);
        self.push_d();
        self.save(Reg::LCL);
        self.save(Reg::ARG);
        self.save(Reg::THIS);
        self.save(Reg::THAT);
        self.emit_at_reg(Reg::SP);
        self.emit_c(Dest::D, Comp::M);
        self.emit_at_num(n_args);
        self.emit_c(Dest::D, Comp::DMinusA);
        self.emit_at_num(5);
        self.emit_c(Dest::D, Comp::DMinusA);
        self.emit_at_reg(Reg::ARG);
        self.emit_c(Dest::M, Comp::D);
        self.emit_at_reg(Reg::SP);
        self.emit_c(Dest::D, Comp::M);
        self.emit_at_reg(Reg::LCL);
        self.emit_c(Dest::M, Comp::D);
        self.emit(Instr::At(Addr::Sym(Sym::Func(String::from_str(name)))));
        self.emit_jump(Comp::Zero, Jump::JMP);
        self.emit(Instr::Label(Sym::Gen(GenTag::Return, c)));
        assert(self.code() =~= old(self).code() + call_code(name@, n_args, c));
    }

    fn restore(&mut self, r: Reg)
        ensures
            final(self).code() == old(self).code() + restore_code(r),
            final(self).label_count == old(self).label_count,
    {
        self.emit_at_reg(Reg::R13);
        self.emit_c(Dest::AM, Comp::MMinusOne);
        self.emit_c(Dest::D, Comp::M);
        self.emit_at_reg(r);
        self.emit_c(Dest::M, Comp::D);
        assert(self.code() =~= old(self).code() + restore_code(r));
    }

    /// `return`: the frame is found through LCL, held in R13; the return
    /// address is kept in R14.
    pub fn return_(&mut self)
        ensures
            final(self).code() == old(self).code() + return_code(),
            final(self).label_count == old(self).label_count,
    {
        self.emit_at_reg(Reg::LCL);
        self.emit_c(Dest::D, Comp::M);
        self.emit_at_reg(Reg::R13);
        self.emit_c(Dest::M, Comp::D);
        self.emit_at_num(5);
        self.emit_c(Dest::A, Comp::DMinusA);
        self.emit_c(Dest::D, Comp::M);
        self.emit_at_reg(Reg::R14);
        self.emit_c(Dest::M, Comp::D);
        self.pop_d();
        self.emit_at_reg(Reg::ARG);
        self.emit_c(Dest::A, Comp::M);
        self.emit_c(Dest::M, Comp::D);
        self.emit_at_reg(Reg::ARG);
        self.emit_c(Dest::D, Comp::MPlusOne);
        self.emit_at_reg(Reg::SP);
        self.emit_c(Dest::M, Comp::D);
        self.restore(Reg::THAT);
        self.restore(Reg::THIS);
        self.restore(Reg::ARG);
        self.restore(Reg::LCL);
        self.emit_at_reg(Reg::R14);
        self.emit_c(Dest::A, Comp::M);
        self.emit_jump(Comp::Zero, Jump::JMP);
        assert(self.code() =~= old(self).code() + return_code());
    }

    /// Appends the program's text.
    pub fn write(&self, out: &mut String)
        ensures
            final(out)@ == old(out)@ + render(self.code()),
    {
        write_lines(out, &self.lines);
    }
}

} // verus!
