//! Registers, memory operands, and the storage locations an instruction
//! operand can name.

use crate::text::{dec_string, spec_dec_digits};
use vstd::prelude::*;

verus! {

/// One of the sixteen 8086 general registers: eight byte registers and eight
/// word registers.
#[derive(Clone, Copy, Debug, PartialEq, Eq, Structural)]
pub enum Register {
    AL,
    AX,
    CL,
    CX,
    DL,
    DX,
    BL,
    BX,
    AH,
    SP,
    CH,
    BP,
    DH,
    SI,
    BH,
    DI,
}

/// The register selected by a 3-bit field code together with the width flag.
/// Total over all sixteen (code, wide) combinations.
pub open spec fn spec_from_reg(code: u8, w: bool) -> Register {
    if w {
        if code == 0 {
            Register::AX
        } else if code == 1 {
            Register::CX
        } else if code == 2 {
            Register::DX
        } else if code == 3 {
            Register::BX
        } else if code == 4 {
            Register::SP
        } else if code == 5 {
            Register::BP
        } else if code == 6 {
            Register::SI
        } else {
            Register::DI
        }
    } else {
        if code == 0 {
            Register::AL
        } else if code == 1 {
            Register::CL
        } else if code == 2 {
            Register::DL
        } else if code == 3 {
            Register::BL
        } else if code == 4 {
            Register::AH
        } else if code == 5 {
            Register::CH
        } else if code == 6 {
            Register::DH
        } else {
            Register::BH
        }
    }
}

impl Register {
    /// Looks up the register named by a 3-bit field code and the width flag.
    pub fn from_reg(item: u8, w: bool) -> (r: Register)
        requires
            item < 8,
        ensures
            r == spec_from_reg(item, w),
    {
        if w {
            match item {
                0 => Register::AX,
                1 => Register::CX,
                2 => Register::DX,
                3 => Register::BX,
                4 => Register::SP,
                5 => Register::BP,
                6 => Register::SI,
                _ => Register::DI,
            }
        } else {
            match item {
                0 => Register::AL,
                1 => Register::CL,
                2 => Register::DL,
                3 => Register::BL,
                4 => Register::AH,
                5 => Register::CH,
                6 => Register::DH,
                _ => Register::BH,
            }
        }
    }
}

/// Within one width partition, no two field codes name the same register.
pub proof fn lemma_from_reg_injective(a: u8, b: u8, w: bool)
    requires
        a < 8,
        b < 8,
        spec_from_reg(a, w) == spec_from_reg(b, w),
    ensures
        a == b,
{
}

/// The canonical two-letter lowercase name of a register.
pub open spec fn spec_register_name(r: Register) -> Seq<char> {
    match r {
        Register::AL => "al"@,
        Register::AX => "ax"@,
        Register::CL => "cl"@,
        Register::CX => "cx"@,
        Register::DL => "dl"@,
        Register::DX => "dx"@,
        Register::BL => "bl"@,
        Register::BX => "bx"@,
        Register::AH => "ah"@,
        Register::SP => "sp"@,
        Register::CH => "ch"@,
        Register::BP => "bp"@,
        Register::DH => "dh"@,
        Register::SI => "si"@,
        Register::BH => "bh"@,
        Register::DI => "di"@,
    }
}

impl Register {
    /// Renders the register as its canonical two-letter lowercase name.
    pub fn render(&self) -> (r: String)
        ensures
            r@ == spec_register_name(*self),
    {
        match self {
            Register::AL => String::from_str("al"),
            Register::AX => String::from_str("ax"),
            Register::CL => String::from_str("cl"),
            Register::CX => String::from_str("cx"),
            Register::DL => String::from_str("dl"),
            Register::DX => String::from_str("dx"),
            Register::BL => String::from_str("bl"),
            Register::BX => String::from_str("bx"),
            Register::AH => String::from_str("ah"),
            Register::SP => String::from_str("sp"),
            Register::CH => String::from_str("ch"),
            Register::BP => String::from_str("bp"),
            Register::DH => String::from_str("dh"),
            Register::SI => String::from_str("si"),
            Register::BH => String::from_str("bh"),
            Register::DI => String::from_str("di"),
        }
    }
}

/// One or two base registers of a memory operand.
#[derive(Clone, Copy, Debug, PartialEq, Eq, Structural)]
pub struct BaseRegisters {
    /// The first (or only) base register.
    pub first: Register,
    /// The second base register, where the addressing form uses a pair.
    pub second: Option<Register>,
}

/// A displacement or direct address, assembled little-endian: the low byte,
/// and a high byte where the value is 16 bits wide.
#[derive(Clone, Copy, Debug, PartialEq, Eq, Structural)]
pub struct Displacement {
    /// The low (or only) byte.
    pub low: u8,
    /// The high byte, present for a 16-bit value.
    pub high: Option<u8>,
}

/// The value of a little-endian byte pair: the low byte, plus the high byte
/// (where present) times 256.
pub open spec fn spec_word_value(lo: u8, hi: Option<u8>) -> nat {
    match hi {
        Some(h) => lo as nat + 256 * (h as nat),
        None => lo as nat,
    }
}

/// Combines a low byte and an optional high byte into a 16-bit value.
pub fn word_value(lo: u8, hi: Option<u8>) -> (r: u16)
    ensures
        r as nat == spec_word_value(lo, hi),
{
    match hi {
        Some(h) => (lo as u16) + 256 * (h as u16),
        None => lo as u16,
    }
}

/// A memory operand: base registers and an optional displacement, or — with
/// no base registers — a standalone direct address.
#[derive(Clone, Copy, Debug, PartialEq, Eq, Structural)]
pub struct Memory {
    /// The base registers, absent for a direct address.
    pub registers: Option<BaseRegisters>,
    /// The displacement, or the direct address when no base register is set.
    pub displacements: Option<Displacement>,
}

impl Memory {
    /// Exactly one of base-register set and direct address is meaningful:
    /// at least one of the two fields is present.
    pub open spec fn wf(self) -> bool {
        self.registers is Some || self.displacements is Some
    }
}

/// The base registers joined with `+`.
pub open spec fn spec_render_bases(b: BaseRegisters) -> Seq<char> {
    match b.second {
        Some(r2) => spec_register_name(b.first) + "+"@ + spec_register_name(r2),
        None => spec_register_name(b.first),
    }
}

/// The text of a memory operand: the base registers joined with `+`, followed
/// by `+` and the displacement value when one is present, inside brackets; a
/// direct address is the bracketed value alone.
pub open spec fn spec_render_memory(m: Memory) -> Seq<char> {
    match (m.registers, m.displacements) {
        (Some(b), Some(d)) => "["@ + spec_render_bases(b) + "+"@ + spec_dec_digits(
            spec_word_value(d.low, d.high),
        ) + "]"@,
        (Some(b), None) => "["@ + spec_render_bases(b) + "]"@,
        (None, Some(d)) => "["@ + spec_dec_digits(spec_word_value(d.low, d.high)) + "]"@,
        (None, None) => Seq::<char>::empty(),
    }
}

impl Memory {
    /// Renders the memory operand as bracketed assembly text.
    pub fn render(&self) -> (r: String)
        requires
            self.wf(),
        ensures
            r@ == spec_render_memory(*self),
    {
        match (self.registers, self.displacements) {
            (Some(b), Some(d)) => {
                let mut s = String::from_str("[");
                let n1 = b.first.render();
                s.append(n1.as_str());
                match b.second {
                    Some(r2) => {
                        s.append("+");
                        let n2 = r2.render();
                        s.append(n2.as_str());
                    },
                    None => {},
                }
                s.append("+");
                let ds = dec_string(word_value(d.low, d.high));
                s.append(ds.as_str());
                s.append("]");
                proof {
                    assert(s@ =~= spec_render_memory(*self));
                }
                s
            },
            (Some(b), None) => {
                let mut s = String::from_str("[");
                let n1 = b.first.render();
                s.append(n1.as_str());
                match b.second {
                    Some(r2) => {
                        s.append("+");
                        let n2 = r2.render();
                        s.append(n2.as_str());
                    },
                    None => {},
                }
                s.append("]");
                proof {
                    assert(s@ =~= spec_render_memory(*self));
                }
                s
            },
            (None, Some(d)) => {
                let mut s = String::from_str("[");
                let ds = dec_string(word_value(d.low, d.high));
                s.append(ds.as_str());
                s.append("]");
                proof {
                    assert(s@ =~= spec_render_memory(*self));
                }
                s
            },
            (None, None) => String::new(),
        }
    }
}

/// A storage location an operand can name: a memory operand, a register, or
/// an immediate value held as its little-endian bytes.
#[derive(Clone, Copy, Debug, PartialEq, Eq, Structural)]
pub enum Storage {
    /// A memory operand.
    Mem(Memory),
    /// A register operand.
    Reg(Register),
    /// An immediate value: low byte, and a high byte when 16 bits wide.
    Data(u8, Option<u8>),
}

impl Storage {
    /// A storage location is well formed when any memory operand in it is.
    pub open spec fn wf(self) -> bool {
        match self {
            Storage::Mem(m) => m.wf(),
            _ => true,
        }
    }
}

/// The text of a storage location: a memory operand renders bracketed, a
/// register by name, an immediate as its decimal value.
pub open spec fn spec_render_storage(s: Storage) -> Seq<char> {
    match s {
        Storage::Mem(m) => spec_render_memory(m),
        Storage::Reg(r) => spec_register_name(r),
        Storage::Data(lo, hi) => spec_dec_digits(spec_word_value(lo, hi)),
    }
}

impl Storage {
    /// Renders the storage location as assembly text.
    pub fn render(&self) -> (r: String)
        requires
            self.wf(),
        ensures
            r@ == spec_render_storage(*self),
    {
        match self {
            Storage::Mem(m) => m.render(),
            Storage::Reg(r) => r.render(),
            Storage::Data(lo, hi) => dec_string(word_value(*lo, *hi)),
        }
    }
}

} // verus!
