//! Opcode classification, addressing-mode resolution, the instruction
//! assembler, and the formatter.

use crate::storage::{
    spec_from_reg, spec_render_storage, BaseRegisters, Displacement, Memory, Register, Storage,
};
use vstd::prelude::*;

verus! {

/// The five binary encodings of the MOV family.
#[derive(Clone, Copy, Debug, PartialEq, Eq, Structural)]
pub enum MovVariant {
    /// Register to or from register or memory (direction and width bits in
    /// the opcode byte, a mode byte follows).
    ToFromReg,
    /// Immediate to register or memory (a mode byte follows).
    ImmediateToStorage,
    /// Immediate to a register named in the opcode byte.
    ImmediateToReg,
    /// Direct-addressed memory to the accumulator.
    MemToAcc,
    /// The accumulator to direct-addressed memory.
    AccToMem,
}

/// The mnemonic kind of an instruction: a MOV sub-encoding, or unrecognized.
#[derive(Clone, Copy, Debug, PartialEq, Eq, Structural)]
pub enum Instruction {
    /// A MOV instruction, tagged with its sub-encoding.
    Mov(MovVariant),
    /// A leading byte that matches no known encoding.
    Nan,
}

/// Classifies a leading byte by bit pattern, the most specific (longest)
/// patterns first: the 7-bit patterns, then the 6-bit one, then the 4-bit
/// one. A byte that matches none is unrecognized.
pub open spec fn spec_classify(b: u8) -> Instruction {
    if b & 0xfe == 0xa0 {
        Instruction::Mov(MovVariant::MemToAcc)
    } else if b & 0xfe == 0xa2 {
        Instruction::Mov(MovVariant::AccToMem)
    } else if b & 0xfe == 0xc6 {
        Instruction::Mov(MovVariant::ImmediateToStorage)
    } else if b & 0xfc == 0x88 {
        Instruction::Mov(MovVariant::ToFromReg)
    } else if b & 0xf0 == 0xb0 {
        Instruction::Mov(MovVariant::ImmediateToReg)
    } else {
        Instruction::Nan
    }
}

/// The mnemonic text of an instruction kind.
pub open spec fn spec_mnemonic(i: Instruction) -> Seq<char> {
    match i {
        Instruction::Mov(_) => "mov"@,
        Instruction::Nan => "n/a"@,
    }
}

impl Instruction {
    /// Classifies a leading byte, testing the longest bit patterns first.
    pub fn from(item: u8) -> (r: Instruction)
        ensures
            r == spec_classify(item),
    {
        if item & 0xfe == 0xa0 {
            Instruction::Mov(MovVariant::MemToAcc)
        } else if item & 0xfe == 0xa2 {
            Instruction::Mov(MovVariant::AccToMem)
        } else if item & 0xfe == 0xc6 {
            Instruction::Mov(MovVariant::ImmediateToStorage)
        } else if item & 0xfc == 0x88 {
            Instruction::Mov(MovVariant::ToFromReg)
        } else if item & 0xf0 == 0xb0 {
            Instruction::Mov(MovVariant::ImmediateToReg)
        } else {
            Instruction::Nan
        }
    }

    /// Renders the mnemonic.
    pub fn render(&self) -> (r: String)
        ensures
            r@ == spec_mnemonic(*self),
    {
        match self {
            Instruction::Mov(_) => String::from_str("mov"),
            Instruction::Nan => String::from_str("n/a"),
        }
    }
}

/// The addressing mode selected by the 2-bit mode field of a mode byte.
#[derive(Clone, Copy, Debug, PartialEq, Eq, Structural)]
pub enum Mode {
    /// A memory operand with no displacement bytes (with one exception, see
    /// [`spec_mem_registers`]).
    MemNoDisplacement,
    /// A memory operand followed by one displacement byte.
    Mem8BitDisplacement,
    /// A memory operand followed by two displacement bytes, little-endian.
    Mem16BitDisplacement,
    /// A register operand; no displacement bytes.
    Reg,
}

/// The addressing mode named by a 2-bit field value.
pub open spec fn spec_mode(item: u8) -> Mode {
    if item == 0 {
        Mode::MemNoDisplacement
    } else if item == 1 {
        Mode::Mem8BitDisplacement
    } else if item == 2 {
        Mode::Mem16BitDisplacement
    } else {
        Mode::Reg
    }
}

impl Mode {
    /// Resolves the 2-bit mode field of a mode byte.
    pub fn from(item: u8) -> (r: Mode)
        requires
            item < 4,
        ensures
            r == spec_mode(item),
    {
        match item {
            0 => Mode::MemNoDisplacement,
            1 => Mode::Mem8BitDisplacement,
            2 => Mode::Mem16BitDisplacement,
            _ => Mode::Reg,
        }
    }
}

/// How many displacement bytes follow the mode byte: none for register mode;
/// none, one, or two for the memory modes — except that the r/m value 6 under
/// no-displacement mode names a direct address and still consumes two bytes.
pub open spec fn spec_disp_len(mode: Mode, rm: u8) -> nat {
    match mode {
        Mode::MemNoDisplacement => if rm == 6 {
            2
        } else {
            0
        },
        Mode::Mem8BitDisplacement => 1,
        Mode::Mem16BitDisplacement => 2,
        Mode::Reg => 0,
    }
}

/// Counts the displacement bytes that the mode and r/m fields demand.
pub fn disp_len(mode: Mode, rm: u8) -> (n: usize)
    ensures
        n == spec_disp_len(mode, rm),
{
    match mode {
        Mode::MemNoDisplacement => if rm == 6 {
            2
        } else {
            0
        },
        Mode::Mem8BitDisplacement => 1,
        Mode::Mem16BitDisplacement => 2,
        Mode::Reg => 0,
    }
}

/// The base registers that a 3-bit r/m field names, with no displacement
/// filled in yet. The r/m value 6 is the architectural special case: under
/// no-displacement mode it means a direct address (no base registers); under
/// either displacement mode it means BP.
pub open spec fn spec_mem_registers(rm: u8, mode: Mode) -> Memory {
    let registers = if rm == 0 {
        Some(BaseRegisters { first: Register::BX, second: Some(Register::SI) })
    } else if rm == 1 {
        Some(BaseRegisters { first: Register::BX, second: Some(Register::DI) })
    } else if rm == 2 {
        Some(BaseRegisters { first: Register::BP, second: Some(Register::SI) })
    } else if rm == 3 {
        Some(BaseRegisters { first: Register::BP, second: Some(Register::DI) })
    } else if rm == 4 {
        Some(BaseRegisters { first: Register::SI, second: None })
    } else if rm == 5 {
        Some(BaseRegisters { first: Register::DI, second: None })
    } else if rm == 6 {
        if mode is MemNoDisplacement {
            None
        } else {
            Some(BaseRegisters { first: Register::BP, second: None })
        }
    } else {
        Some(BaseRegisters { first: Register::BX, second: None })
    };
    Memory { registers, displacements: None }
}

/// A decoded instruction record: the mnemonic kind, and the destination and
/// source operands.
#[derive(Clone, Copy, Debug, PartialEq, Eq, Structural)]
pub struct Command {
    /// The mnemonic kind.
    pub instruction: Instruction,
    /// The source operand.
    pub source: Storage,
    /// The destination operand.
    pub destination: Storage,
}

impl Command {
    /// A record is well formed when both operands are.
    pub open spec fn wf(self) -> bool {
        self.source.wf() && self.destination.wf()
    }

    /// Resolves the base registers named by the low three bits of a mode
    /// byte, honoring the direct-address special case.
    pub fn get_mem_registers(item: u8, mode: Mode) -> (r: Memory)
        ensures
            r == spec_mem_registers(item & 0x07, mode),
    {
        let rm = item & 0x07;
        match rm {
            0 => Memory {
                registers: Some(BaseRegisters { first: Register::BX, second: Some(Register::SI) }),
                displacements: None,
            },
            1 => Memory {
                registers: Some(BaseRegisters { first: Register::BX, second: Some(Register::DI) }),
                displacements: None,
            },
            2 => Memory {
                registers: Some(BaseRegisters { first: Register::BP, second: Some(Register::SI) }),
                displacements: None,
            },
            3 => Memory {
                registers: Some(BaseRegisters { first: Register::BP, second: Some(Register::DI) }),
                displacements: None,
            },
            4 => Memory {
                registers: Some(BaseRegisters { first: Register::SI, second: None }),
                displacements: None,
            },
            5 => Memory {
                registers: Some(BaseRegisters { first: Register::DI, second: None }),
                displacements: None,
            },
            6 => match mode {
                Mode::MemNoDisplacement => Memory { registers: None, displacements: None },
                _ => Memory {
                    registers: Some(BaseRegisters { first: Register::BP, second: None }),
                    displacements: None,
                },
            },
            _ => Memory {
                registers: Some(BaseRegisters { first: Register::BX, second: None }),
                displacements: None,
            },
        }
    }
}

impl Default for Command {
    /// The placeholder record decoding starts from: no recognized
    /// instruction, both operands the 16-bit accumulator.
    fn default() -> (r: Self)
        ensures
            r == (Command {
                instruction: Instruction::Nan,
                source: Storage::Reg(Register::AX),
                destination: Storage::Reg(Register::AX),
            }),
    {
        Command {
            instruction: Instruction::Nan,
            source: Storage::Reg(Register::AX),
            destination: Storage::Reg(Register::AX),
        }
    }
}

/// The text of an instruction record: the mnemonic, a space, the destination,
/// a comma and space, the source.
pub open spec fn spec_render_command(c: Command) -> Seq<char> {
    spec_mnemonic(c.instruction) + " "@ + spec_render_storage(c.destination) + ", "@
        + spec_render_storage(c.source)
}

impl Command {
    /// Renders the record as one assembly text line.
    pub fn render(&self) -> (r: String)
        requires
            self.wf(),
        ensures
            r@ == spec_render_command(*self),
    {
        let mut s = self.instruction.render();
        s.append(" ");
        let dst = self.destination.render();
        s.append(dst.as_str());
        s.append(", ");
        let src = self.source.render();
        s.append(src.as_str());
        proof {
            assert(s@ =~= spec_render_command(*self));
        }
        s
    }
}

/// Why a decode call failed.
#[derive(Clone, Copy, Debug, PartialEq, Eq, Structural)]
pub enum DecodeError {
    /// The leading byte of a would-be instruction matches no encoding; the
    /// whole remaining buffer is abandoned. Carries the byte offset.
    UnrecognizedOpcode {
        /// The offset of the unrecognized byte.
        offset: usize,
    },
    /// The buffer ends in the middle of an instruction.
    TruncatedInstruction,
    /// The buffer length is not a whole number of minimum-instruction-size
    /// units; reported before decoding begins.
    InvalidInputLength,
}

/// The memory operand whose base registers come from the r/m field and whose
/// displacement bytes (if the mode demands any) start at `dpos`.
pub open spec fn spec_mem_operand(bytes: Seq<u8>, dpos: int, mode: Mode, rm: u8) -> Memory
    recommends
        0 <= dpos,
        dpos + spec_disp_len(mode, rm) <= bytes.len(),
{
    let base = spec_mem_registers(rm, mode);
    let n = spec_disp_len(mode, rm);
    Memory {
        registers: base.registers,
        displacements: if n == 2 {
            Some(Displacement { low: bytes[dpos], high: Some(bytes[dpos + 1]) })
        } else if n == 1 {
            Some(Displacement { low: bytes[dpos], high: None })
        } else {
            None
        },
    }
}

/// Reads the displacement bytes that the mode demands and builds the memory
/// operand.
fn mem_operand(items: &[u8], dpos: usize, mode: Mode, rm: u8) -> (r: Memory)
    requires
        rm < 8,
        dpos + spec_disp_len(mode, rm) <= items@.len(),
    ensures
        r == spec_mem_operand(items@, dpos as int, mode, rm),
{
    proof {
        assert(rm & 0x07 == rm) by (bit_vector)
            requires
                rm < 8,
        ;
    }
    let base = Command::get_mem_registers(rm, mode);
    let n = disp_len(mode, rm);
    let displacements = if n == 2 {
        Some(Displacement { low: items[dpos], high: Some(items[dpos + 1]) })
    } else if n == 1 {
        Some(Displacement { low: items[dpos], high: None })
    } else {
        None
    };
    Memory { registers: base.registers, displacements }
}

/// One step of decoding: the record that starts at `pos` and how many bytes
/// its encoding occupies, or the error met there. Unrecognized opcodes carry
/// the offset; a buffer that ends before every byte the selected encoding
/// demands is truncated.
pub open spec fn spec_decode_one(bytes: Seq<u8>, pos: int) -> Result<(Command, nat), DecodeError>
    recommends
        0 <= pos < bytes.len(),
{
    let b0 = bytes[pos];
    match spec_classify(b0) {
        Instruction::Nan => Err(DecodeError::UnrecognizedOpcode { offset: pos as usize }),
        Instruction::Mov(v) => match v {
            MovVariant::ToFromReg => {
                if bytes.len() < pos + 2 {
                    Err(DecodeError::TruncatedInstruction)
                } else {
                    let w = b0 & 0x01 == 0x01;
                    let d = b0 & 0x02 == 0x02;
                    let b1 = bytes[pos + 1];
                    let mode = spec_mode(b1 >> 6);
                    let reg = (b1 >> 3) & 0x07;
                    let rm = b1 & 0x07;
                    let n = 2 + spec_disp_len(mode, rm);
                    if bytes.len() < pos + n {
                        Err(DecodeError::TruncatedInstruction)
                    } else {
                        let first = Storage::Reg(spec_from_reg(reg, w));
                        let second = if mode is Reg {
                            Storage::Reg(spec_from_reg(rm, w))
                        } else {
                            Storage::Mem(spec_mem_operand(bytes, pos + 2, mode, rm))
                        };
                        let cmd = if d {
                            Command {
                                instruction: Instruction::Mov(MovVariant::ToFromReg),
                                source: second,
                                destination: first,
                            }
                        } else {
                            Command {
                                instruction: Instruction::Mov(MovVariant::ToFromReg),
                                source: first,
                                destination: second,
                            }
                        };
                        Ok((cmd, n))
                    }
                }
            },
            MovVariant::ImmediateToStorage => {
                if bytes.len() < pos + 2 {
                    Err(DecodeError::TruncatedInstruction)
                } else {
                    let w = b0 & 0x01 == 0x01;
                    let b1 = bytes[pos + 1];
                    let mode = spec_mode(b1 >> 6);
                    let rm = b1 & 0x07;
                    let dn = spec_disp_len(mode, rm);
                    let n = 2 + dn + (if w {
                        2nat
                    } else {
                        1nat
                    });
                    if bytes.len() < pos + n {
                        Err(DecodeError::TruncatedInstruction)
                    } else {
                        let dest = if mode is Reg {
                            Storage::Reg(spec_from_reg(rm, w))
                        } else {
                            Storage::Mem(spec_mem_operand(bytes, pos + 2, mode, rm))
                        };
                        let src = Storage::Data(
                            bytes[pos + 2 + dn],
                            if w {
                                Some(bytes[pos + 3 + dn])
                            } else {
                                None
                            },
                        );
                        let cmd = Command {
                            instruction: Instruction::Mov(MovVariant::ImmediateToStorage),
                            source: src,
                            destination: dest,
                        };
                        Ok((cmd, n))
                    }
                }
            },
            MovVariant::ImmediateToReg => {
                let w = b0 & 0x08 == 0x08;
                let n: nat = if w {
                    3
                } else {
                    2
                };
                if bytes.len() < pos + n {
                    Err(DecodeError::TruncatedInstruction)
                } else {
                    let cmd = Command {
                        instruction: Instruction::Mov(MovVariant::ImmediateToReg),
                        source: Storage::Data(
                            bytes[pos + 1],
                            if w {
                                Some(bytes[pos + 2])
                            } else {
                                None
                            },
                        ),
                        destination: Storage::Reg(spec_from_reg(b0 & 0x07, w)),
                    };
                    Ok((cmd, n))
                }
            },
            MovVariant::MemToAcc => {
                if bytes.len() < pos + 3 {
                    Err(DecodeError::TruncatedInstruction)
                } else {
                    let w = b0 & 0x01 == 0x01;
                    let mem = Memory {
                        registers: None,
                        displacements: Some(
                            Displacement { low: bytes[pos + 1], high: Some(bytes[pos + 2]) },
                        ),
                    };
                    let cmd = Command {
                        instruction: Instruction::Mov(MovVariant::MemToAcc),
                        source: Storage::Mem(mem),
                        destination: Storage::Reg(spec_from_reg(0, w)),
                    };
                    Ok((cmd, 3))
                }
            },
            MovVariant::AccToMem => {
                if bytes.len() < pos + 3 {
                    Err(DecodeError::TruncatedInstruction)
                } else {
                    let w = b0 & 0x01 == 0x01;
                    let mem = Memory {
                        registers: None,
                        displacements: Some(
                            Displacement { low: bytes[pos + 1], high: Some(bytes[pos + 2]) },
                        ),
                    };
                    let cmd = Command {
                        instruction: Instruction::Mov(MovVariant::AccToMem),
                        source: Storage::Reg(spec_from_reg(0, w)),
                        destination: Storage::Mem(mem),
                    };
                    Ok((cmd, 3))
                }
            },
        },
    }
}

impl Command {
    /// Decodes the one instruction that starts at `pos`, returning the
    /// record and the number of bytes its encoding occupies.
    fn decode_one(items: &[u8], pos: usize) -> (r: Result<(Command, usize), DecodeError>)
        requires
            pos < items@.len(),
        ensures
            match r {
                Ok(p) => spec_decode_one(items@, pos as int) == Ok::<(Command, nat), DecodeError>(
                    (p.0, p.1 as nat),
                ) && 1 <= p.1 && pos + p.1 <= items@.len(),
                Err(e) => spec_decode_one(items@, pos as int) == Err::<
                    (Command, nat),
                    DecodeError,
                >(e),
            },
    {
        let b0 = items[pos];
        let avail = items.len() - pos;
        match Instruction::from(b0) {
            Instruction::Nan => Err(DecodeError::UnrecognizedOpcode { offset: pos }),
            Instruction::Mov(v) => match v {
                MovVariant::ToFromReg => {
                    if avail < 2 {
                        return Err(DecodeError::TruncatedInstruction);
                    }
                    let w = b0 & 0x01 == 0x01;
                    let d = b0 & 0x02 == 0x02;
                    let b1 = items[pos + 1];
                    proof {
                        assert(b1 >> 6 < 4) by (bit_vector);
                        assert((b1 >> 3) & 0x07 < 8) by (bit_vector);
                        assert(b1 & 0x07 < 8) by (bit_vector);
                    }
                    let mode = Mode::from(b1 >> 6);
                    let reg = (b1 >> 3) & 0x07;
                    let rm = b1 & 0x07;
                    let dn = disp_len(mode, rm);
                    if avail < 2 + dn {
                        return Err(DecodeError::TruncatedInstruction);
                    }
                    let first = Storage::Reg(Register::from_reg(reg, w));
                    let second = match mode {
                        Mode::Reg => Storage::Reg(Register::from_reg(rm, w)),
                        _ => Storage::Mem(mem_operand(items, pos + 2, mode, rm)),
                    };
                    let cmd = if d {
                        Command {
                            instruction: Instruction::Mov(MovVariant::ToFromReg),
                            source: second,
                            destination: first,
                        }
                    } else {
                        Command {
                            instruction: Instruction::Mov(MovVariant::ToFromReg),
                            source: first,
                            destination: second,
                        }
                    };
                    Ok((cmd, 2 + dn))
                },
                MovVariant::ImmediateToStorage => {
                    if avail < 2 {
                        return Err(DecodeError::TruncatedInstruction);
                    }
                    let w = b0 & 0x01 == 0x01;
                    let b1 = items[pos + 1];
                    proof {
                        assert(b1 >> 6 < 4) by (bit_vector);
                        assert(b1 & 0x07 < 8) by (bit_vector);
                    }
                    let mode = Mode::from(b1 >> 6);
                    let rm = b1 & 0x07;
                    let dn = disp_len(mode, rm);
                    let imm: usize = if w {
                        2
                    } else {
                        1
                    };
                    if avail < 2 + dn + imm {
                        return Err(DecodeError::TruncatedInstruction);
                    }
                    let dest = match mode {
                        Mode::Reg => Storage::Reg(Register::from_reg(rm, w)),
                        _ => Storage::Mem(mem_operand(items, pos + 2, mode, rm)),
                    };
                    let src = Storage::Data(
                        items[pos + 2 + dn],
                        if w {
                            Some(items[pos + 3 + dn])
                        } else {
                            None
                        },
                    );
                    let cmd = Command {
                        instruction: Instruction::Mov(MovVariant::ImmediateToStorage),
                        source: src,
                        destination: dest,
                    };
                    Ok((cmd, 2 + dn + imm))
                },
                MovVariant::ImmediateToReg => {
                    let w = b0 & 0x08 == 0x08;
                    let n: usize = if w {
                        3
                    } else {
                        2
                    };
                    if avail < n {
                        return Err(DecodeError::TruncatedInstruction);
                    }
                    proof {
                        assert(b0 & 0x07 < 8) by (bit_vector);
                    }
                    let dest = Storage::Reg(Register::from_reg(b0 & 0x07, w));
                    let src = Storage::Data(
                        items[pos + 1],
                        if w {
                            Some(items[pos + 2])
                        } else {
                            None
                        },
                    );
                    let cmd = Command {
                        instruction: Instruction::Mov(MovVariant::ImmediateToReg),
                        source: src,
                        destination: dest,
                    };
                    Ok((cmd, n))
                },
                MovVariant::MemToAcc => {
                    if avail < 3 {
                        return Err(DecodeError::TruncatedInstruction);
                    }
                    let w = b0 & 0x01 == 0x01;
                    let mem = Memory {
                        registers: None,
                        displacements: Some(
                            Displacement { low: items[pos + 1], high: Some(items[pos + 2]) },
                        ),
                    };
                    let cmd = Command {
                        instruction: Instruction::Mov(MovVariant::MemToAcc),
                        source: Storage::Mem(mem),
                        destination: Storage::Reg(Register::from_reg(0, w)),
                    };
                    Ok((cmd, 3))
                },
                MovVariant::AccToMem => {
                    if avail < 3 {
                        return Err(DecodeError::TruncatedInstruction);
                    }
                    let w = b0 & 0x01 == 0x01;
                    let mem = Memory {
                        registers: None,
                        displacements: Some(
                            Displacement { low: items[pos + 1], high: Some(items[pos + 2]) },
                        ),
                    };
                    let cmd = Command {
                        instruction: Instruction::Mov(MovVariant::AccToMem),
                        source: Storage::Reg(Register::from_reg(0, w)),
                        destination: Storage::Mem(mem),
                    };
                    Ok((cmd, 3))
                },
            },
        }
    }
}

/// Decoding from `pos` to the end of the buffer: the records of the
/// instructions met, in encounter order, or the first error. An error leaves
/// no partial result.
pub open spec fn spec_decode_from(bytes: Seq<u8>, pos: int) -> Result<Seq<Command>, DecodeError>
    decreases bytes.len() - pos,
    when 0 <= pos <= bytes.len()
{
    if pos >= bytes.len() {
        Ok(Seq::<Command>::empty())
    } else {
        match spec_decode_one(bytes, pos) {
            Err(e) => Err(e),
            Ok(p) => match spec_decode_from(bytes, pos + p.1) {
                Err(e) => Err(e),
                Ok(rest) => Ok(seq![p.0] + rest),
            },
        }
    }
}

/// Decoding a whole buffer, one left-to-right pass starting at its first
/// byte.
pub open spec fn spec_decode(bytes: Seq<u8>) -> Result<Seq<Command>, DecodeError> {
    spec_decode_from(bytes, 0)
}

/// A successful remainder extends the records decoded so far; an error
/// stands alone.
pub open spec fn spec_prepend(s: Seq<Command>, r: Result<Seq<Command>, DecodeError>) -> Result<
    Seq<Command>,
    DecodeError,
> {
    match r {
        Ok(t) => Ok(s + t),
        Err(e) => Err(e),
    }
}

impl Command {
    /// Decodes a raw byte buffer into the sequence of instruction records
    /// its encodings spell, in encounter order, or reports the first error.
    pub fn from(items: &[u8]) -> (r: Result<Vec<Command>, DecodeError>)
        ensures
            match r {
                Ok(v) => spec_decode(items@) matches Ok(s) && v@ == s,
                Err(e) => spec_decode(items@) == Err::<Seq<Command>, DecodeError>(e),
            },
    {
        let mut res: Vec<Command> = Vec::new();
        let mut pos: usize = 0;
        proof {
            match spec_decode_from(items@, 0) {
                Ok(t) => {
                    assert(Seq::<Command>::empty() + t =~= t);
                },
                Err(_) => {},
            }
        }
        while pos < items.len()
            invariant
                pos <= items@.len(),
                spec_decode(items@) == spec_prepend(res@, spec_decode_from(items@, pos as int)),
            decreases items@.len() - pos,
        {
            match Self::decode_one(items, pos) {
                Err(e) => {
                    return Err(e);
                },
                Ok(p) => {
                    let ghost old_res = res@;
                    let ghost old_pos = pos as int;
                    res.push(p.0);
                    pos = pos + p.1;
                    proof {
                        match spec_decode_from(items@, old_pos + p.1) {
                            Ok(rest) => {
                                assert(spec_decode_from(items@, old_pos) == Ok::<
                                    Seq<Command>,
                                    DecodeError,
                                >(seq![p.0] + rest));
                                assert(old_res + (seq![p.0] + rest) =~= res@ + rest);
                            },
                            Err(e) => {
                                assert(spec_decode_from(items@, old_pos) == Err::<
                                    Seq<Command>,
                                    DecodeError,
                                >(e));
                            },
                        }
                    }
                },
            }
        }
        proof {
            assert(res@ + Seq::<Command>::empty() =~= res@);
        }
        Ok(res)
    }
}

/// Every record that one decode step yields is well formed: a memory operand
/// always carries base registers or a direct address.
pub proof fn lemma_decode_one_wf(bytes: Seq<u8>, pos: int, p: (Command, nat))
    requires
        0 <= pos < bytes.len(),
        spec_decode_one(bytes, pos) == Ok::<(Command, nat), DecodeError>(p),
    ensures
        p.0.wf(),
{
}

/// Every record in a successful decode is well formed.
pub proof fn lemma_decode_from_wf(bytes: Seq<u8>, pos: int, s: Seq<Command>)
    requires
        0 <= pos <= bytes.len(),
        spec_decode_from(bytes, pos) == Ok::<Seq<Command>, DecodeError>(s),
    ensures
        forall|k: int| 0 <= k < s.len() ==> (#[trigger] s[k]).wf(),
    decreases bytes.len() - pos,
{
    if pos < bytes.len() {
        match spec_decode_one(bytes, pos) {
            Ok(p) => {
                lemma_decode_one_wf(bytes, pos, p);
                match spec_decode_from(bytes, pos + p.1) {
                    Ok(rest) => {
                        lemma_decode_from_wf(bytes, pos + p.1, rest);
                        assert(s == seq![p.0] + rest);
                        assert forall|k: int| 0 <= k < s.len() implies (#[trigger] s[k]).wf() by {
                            if k == 0 {
                                assert(s[0] == p.0);
                            } else {
                                assert(s[k] == rest[k - 1]);
                            }
                        }
                    },
                    Err(_) => {
                        assert(false);
                    },
                }
            },
            Err(_) => {
                assert(false);
            },
        }
    }
}

/// The rendered text of each record, in order.
pub open spec fn spec_render_all(cmds: Seq<Command>) -> Seq<Seq<char>> {
    Seq::new(cmds.len(), |i: int| spec_render_command(cmds[i]))
}

/// The whole pass over a buffer: a buffer whose length is not a whole number
/// of minimum-instruction-size units is rejected before decoding begins;
/// otherwise the buffer is decoded and each record rendered, in order.
pub open spec fn spec_decode_and_render(bytes: Seq<u8>) -> Result<Seq<Seq<char>>, DecodeError> {
    if bytes.len() % 2 != 0 {
        Err(DecodeError::InvalidInputLength)
    } else {
        match spec_decode(bytes) {
            Err(e) => Err(e),
            Ok(cmds) => Ok(spec_render_all(cmds)),
        }
    }
}

/// Decodes a raw byte buffer and renders each instruction as one assembly
/// text line, in encounter order.
pub fn decode_and_render(items: &[u8]) -> (r: Result<Vec<String>, DecodeError>)
    ensures
        match r {
            Ok(lines) => spec_decode_and_render(items@) matches Ok(t) && lines@.len() == t.len()
                && (forall|k: int| 0 <= k < t.len() ==> (#[trigger] lines@[k])@ == t[k]),
            Err(e) => spec_decode_and_render(items@) == Err::<Seq<Seq<char>>, DecodeError>(e),
        },
{
    if items.len() % 2 != 0 {
        return Err(DecodeError::InvalidInputLength);
    }
    let cmds = match Command::from(items) {
        Ok(c) => c,
        Err(e) => {
            return Err(e);
        },
    };
    proof {
        lemma_decode_from_wf(items@, 0, cmds@);
    }
    let mut lines: Vec<String> = Vec::new();
    let mut i: usize = 0;
    while i < cmds.len()
        invariant
            i <= cmds@.len(),
            forall|k: int| 0 <= k < cmds@.len() ==> (#[trigger] cmds@[k]).wf(),
            lines@.len() == i,
            forall|k: int|
                0 <= k < i ==> (#[trigger] lines@[k])@ == spec_render_command(cmds@[k]),
        decreases cmds@.len() - i,
    {
        let line = cmds[i].render();
        lines.push(line);
        i = i + 1;
    }
    Ok(lines)
}

/// A buffer whose first byte matches no encoding yields `UnrecognizedOpcode`
/// at offset zero, and no instructions at all.
pub proof fn lemma_unrecognized_halts(bytes: Seq<u8>)
    requires
        bytes.len() >= 1,
        spec_classify(bytes[0]) is Nan,
    ensures
        spec_decode(bytes) == Err::<Seq<Command>, DecodeError>(
            DecodeError::UnrecognizedOpcode { offset: 0 },
        ),
{
}

/// Cutting the last byte off a buffer that holds exactly one complete
/// instruction makes the decode report `TruncatedInstruction` instead of
/// fabricating a record from the short encoding.
pub proof fn lemma_truncation_detected(bytes: Seq<u8>, p: (Command, nat))
    requires
        spec_decode_one(bytes, 0) == Ok::<(Command, nat), DecodeError>(p),
        p.1 == bytes.len(),
    ensures
        spec_decode(bytes.take(bytes.len() - 1)) == Err::<Seq<Command>, DecodeError>(
            DecodeError::TruncatedInstruction,
        ),
{
    let t = bytes.take(bytes.len() - 1);
    assert(bytes.len() >= 2);
    assert(t[0] == bytes[0]);
    if t.len() >= 2 {
        assert(t[1] == bytes[1]);
    }
    assert(spec_decode_one(t, 0) == Err::<(Command, nat), DecodeError>(
        DecodeError::TruncatedInstruction,
    ));
}

} // verus!
