//! Virtual memory segments and how their cells are addressed.
use vstd::prelude::*;
use crate::hack::{lines_view, Addr, Comp, Dest, Instr, InstrV, Jump, Reg, Sym};
use crate::text::same_text;
use crate::machine::{w16, Machine};

verus! {

/// A named region of the virtual machine's memory.
#[derive(Debug)]
pub enum Segment {
    Argument,
    Constant,
    Local,
    Pointer,
    /// Static variables of the named compilation unit.
    Static(String),
    Temp,
    This,
    That,
}

/// The abstract form of a segment.
pub enum SegmentV {
    Argument,
    Constant,
    Local,
    Pointer,
    Static(Seq<char>),
    Temp,
    This,
    That,
}

impl View for Segment {
    type V = SegmentV;

    open spec fn view(&self) -> SegmentV {
        match self {
            Segment::Argument => SegmentV::Argument,
            Segment::Constant => SegmentV::Constant,
            Segment::Local => SegmentV::Local,
            Segment::Pointer => SegmentV::Pointer,
            Segment::Static(m) => SegmentV::Static(m@),
            Segment::Temp => SegmentV::Temp,
            Segment::This => SegmentV::This,
            Segment::That => SegmentV::That,
        }
    }
}

/// The segment that source code names `name` in compilation unit `unit`.
pub open spec fn segment_named(name: Seq<char>, unit: Seq<char>) -> Option<SegmentV> {
    if name == "argument"@ {
        Some(SegmentV::Argument)
    } else if name == "constant"@ {
        Some(SegmentV::Constant)
    } else if name == "local"@ {
        Some(SegmentV::Local)
    } else if name == "pointer"@ {
        Some(SegmentV::Pointer)
    } else if name == "static"@ {
        Some(SegmentV::Static(unit))
    } else if name == "temp"@ {
        Some(SegmentV::Temp)
    } else if name == "this"@ {
        Some(SegmentV::This)
    } else if name == "that"@ {
        Some(SegmentV::That)
    } else {
        None
    }
}

/// The register that holds the base address of an indirectly addressed segment.
pub open spec fn base_reg(s: SegmentV) -> Option<Reg> {
    match s {
        SegmentV::Local => Some(Reg::LCL),
        SegmentV::Argument => Some(Reg::ARG),
        SegmentV::This => Some(Reg::THIS),
        SegmentV::That => Some(Reg::THAT),
        _ => None,
    }
}

/// The fixed base address of a directly addressed segment.
pub open spec fn fixed_base(s: SegmentV) -> Option<u16> {
    match s {
        SegmentV::Pointer => Some(3u16),
        SegmentV::Temp => Some(5u16),
        _ => None,
    }
}

pub open spec fn at(a: Addr<Seq<char>>) -> InstrV {
    Instr::At(a)
}

pub open spec fn cmp(d: Dest, c: Comp) -> InstrV {
    Instr::C(d, c, Jump::Never)
}

/// The code that leaves A holding the address of cell `i` of segment `s`.
pub open spec fn address_code(s: SegmentV, i: u16) -> Seq<InstrV> {
    match s {
        SegmentV::Static(m) => seq![at(Addr::Sym(Sym::Static(m, i)))],
        SegmentV::Pointer => if i == 0 {
            seq![at(Addr::Reg(Reg::THIS))]
        } else {
            Seq::empty()
                .push(at(Addr::Reg(Reg::THIS)))
                .push(cmp(Dest::D, Comp::A))
                .push(at(Addr::Num(i)))
                .push(cmp(Dest::A, Comp::DPlusA))
        },
        SegmentV::Temp => if i == 0 {
            seq![at(Addr::Num(5))]
        } else {
            Seq::empty()
                .push(at(Addr::Num(5)))
                .push(cmp(Dest::D, Comp::A))
                .push(at(Addr::Num(i)))
                .push(cmp(Dest::A, Comp::DPlusA))
        },
        _ => {
            let r = base_reg(s)->Some_0;
            if i == 0 {
                Seq::empty()
                    .push(at(Addr::Reg(r)))
                    .push(cmp(Dest::A, Comp::M))
            } else {
                Seq::empty()
                    .push(at(Addr::Num(i)))
                    .push(cmp(Dest::D, Comp::A))
                    .push(at(Addr::Reg(r)))
                    .push(cmp(Dest::A, Comp::DPlusM))
            }
        },
    }
}

/// The address of cell `i` of segment `s` in machine state `m`.
pub open spec fn cell_addr(s: SegmentV, i: u16, m: Machine) -> int {
    match s {
        SegmentV::Static(u) => (m.syms)(Sym::Static(u, i)),
        SegmentV::Pointer => w16(3 + i),
        SegmentV::Temp => w16(5 + i),
        _ => w16((m.mem)(crate::machine::reg_addr(base_reg(s)->Some_0)) + i),
    }
}

/// How a segment is shown: its base symbol, or its unit for a static segment.
pub open spec fn segment_text(s: SegmentV) -> Seq<char> {
    match s {
        SegmentV::Argument => "ARG"@,
        SegmentV::Constant => "CONST"@,
        SegmentV::Local => "LCL"@,
        SegmentV::Pointer => "POINTER"@,
        SegmentV::Static(u) => u,
        SegmentV::Temp => "TEMP"@,
        SegmentV::This => "THIS"@,
        SegmentV::That => "THAT"@,
    }
}

pub open spec fn is_segment_name(name: Seq<char>) -> bool {
    segment_named(name, Seq::empty()) is Some
}

impl Segment {
    /// The segment named `name`; a static segment belongs to unit `filename`.
    pub fn from_name(name: &str, filename: &str) -> (r: Result<Segment, String>)
        ensures
            match segment_named(name@, filename@) {
                Some(s) => r matches Ok(seg) && seg@ == s,
                None => r matches Err(e) && e@ == "Invalid segment "@ + name@,
            },
    {
        if same_text(name, "argument") {
            Ok(Segment::Argument)
        } else if same_text(name, "constant") {
            Ok(Segment::Constant)
        } else if same_text(name, "local") {
            Ok(Segment::Local)
        } else if same_text(name, "pointer") {
            Ok(Segment::Pointer)
        } else if same_text(name, "static") {
            Ok(Segment::Static(String::from_str(filename)))
        } else if same_text(name, "temp") {
            Ok(Segment::Temp)
        } else if same_text(name, "this") {
            Ok(Segment::This)
        } else if same_text(name, "that") {
            Ok(Segment::That)
        } else {
            Err(String::from_str("Invalid segment ").concat(name))
        }
    }

    /// The segment's text, as error messages show it.
    pub fn to_string(&self) -> (r: String)
        ensures
            r@ == segment_text(self@),
    {
        match self {
            Segment::Argument => String::from_str("ARG"),
            Segment::Constant => String::from_str("CONST"),
            Segment::Local => String::from_str("LCL"),
            Segment::Pointer => String::from_str("POINTER"),
            Segment::Static(u) => u.clone(),
            Segment::Temp => String::from_str("TEMP"),
            Segment::This => String::from_str("THIS"),
            Segment::That => String::from_str("THAT"),
        }
    }

    /// Whether `name` names a segment.
    pub fn is_valid_name(name: &str) -> (r: bool)
        ensures
            r == is_segment_name(name@),
    {
        same_text(name, "argument") || same_text(name, "constant") || same_text(name, "local")
            || same_text(name, "pointer") || same_text(name, "static") || same_text(name, "temp")
            || same_text(name, "this") || same_text(name, "that")
    }

    /// Whether values can be stored into the segment: all but the constant one.
    pub fn is_writable(&self) -> (r: bool)
        ensures
            r == !(self@ is Constant),
    {
        match self {
            Segment::Constant => false,
            _ => true,
        }
    }

    /// The code that points A at cell `index` of this segment.
    pub fn resolve_address(&self, index: i16) -> (r: Vec<Instr<String>>)
        requires
            !(self@ is Constant),
            index >= 0,
        ensures
            lines_view(r@) == address_code(self@, index as u16),
    {
        let i = index as u16;
        let mut r: Vec<Instr<String>> = Vec::new();
        match self {
            Segment::Constant => {},
            Segment::Static(m) => {
                r.push(Instr::At(Addr::Sym(Sym::Static(m.clone(), i))));
            },
            Segment::Pointer | Segment::Temp => {
                let base = match self {
                    Segment::Pointer => Addr::Reg(Reg::THIS),
                    _ => Addr::Num(5),
                };
                r.push(Instr::At(base));
                if i != 0 {
                    r.push(Instr::C(Dest::D, Comp::A, Jump::Never));
                    r.push(Instr::At(Addr::Num(i)));
                    r.push(Instr::C(Dest::A, Comp::DPlusA, Jump::Never));
                }
            },
            _ => {
                let reg = match self {
                    Segment::Local => Reg::LCL,
                    Segment::Argument => Reg::ARG,
                    Segment::This => Reg::THIS,
                    _ => Reg::THAT,
                };
                if i == 0 {
                    r.push(Instr::At(Addr::Reg(reg)));
                    r.push(Instr::C(Dest::A, Comp::M, Jump::Never));
                } else {
                    r.push(Instr::At(Addr::Num(i)));
                    r.push(Instr::C(Dest::D, Comp::A, Jump::Never));
                    r.push(Instr::At(Addr::Reg(reg)));
                    r.push(Instr::C(Dest::A, Comp::DPlusM, Jump::Never));
                }
            },
        }
        assert(lines_view(r@) =~= address_code(self@, i));
        r
    }
}

} // verus!
