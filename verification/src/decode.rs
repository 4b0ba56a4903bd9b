//! The decode pipeline: opcode classification, ModR&M operand decoding
//! with its special cases, and the driver that turns a byte buffer into
//! an instruction sequence.
//!
//! `spec_decode` is the mathematical statement of the whole pipeline; the
//! executable functions are proved to return exactly what it says.

use vstd::prelude::*;

use crate::input::{word_le, Input};
use crate::instr::{DecodeError, EffectiveAddressFormula, Instruction, Opcode, Operand, Register};

verus! {

/// Sign-extend a displacement byte to 16 bits.
pub open spec fn sign_extend8(b: u8) -> i16 {
    if b < 128 {
        b as i16
    } else {
        (b - 256) as i16
    }
}

/// Reinterpret a 16-bit word as a signed displacement.
pub open spec fn as_signed16(w: u16) -> i16 {
    if w < 32768 {
        w as i16
    } else {
        (w - 65536) as i16
    }
}

/// The accumulator register selected by the width bit.
pub open spec fn spec_accumulator(wide: bool) -> Register {
    if wide {
        Register::AX
    } else {
        Register::AL
    }
}

/// Ordered first-byte classifier: the first mask/pattern rule that
/// matches decides the family; rule order resolves overlapping masks.
pub open spec fn spec_opcode(byte: u8) -> Option<Opcode> {
    if byte & 0b1111_1100 == 0b1000_1000 {
        Some(Opcode::MovRegToRegOrRegToMem)
    } else if byte & 0b1111_1110 == 0b1100_0110 {
        Some(Opcode::MovImmediateToMem)
    } else if byte & 0b1111_0000 == 0b1011_0000 {
        Some(Opcode::MovImmediateToReg)
    } else if byte & 0b1111_1110 == 0b1010_0000 {
        Some(Opcode::MovMemToAcc)
    } else if byte & 0b1111_1110 == 0b1010_0010 {
        Some(Opcode::MovAccToMem)
    } else {
        None
    }
}

impl Opcode {
    /// Classify the first byte of an instruction, `None` when no rule
    /// matches (an unrecognized opcode).
    pub fn parse(byte: u8) -> (r: Option<Opcode>)
        ensures
            r == spec_opcode(byte),
    {
        if byte & 0b1111_1100 == 0b1000_1000 {
            Some(Opcode::MovRegToRegOrRegToMem)
        } else if byte & 0b1111_1110 == 0b1100_0110 {
            Some(Opcode::MovImmediateToMem)
        } else if byte & 0b1111_0000 == 0b1011_0000 {
            Some(Opcode::MovImmediateToReg)
        } else if byte & 0b1111_1110 == 0b1010_0000 {
            Some(Opcode::MovMemToAcc)
        } else if byte & 0b1111_1110 == 0b1010_0010 {
            Some(Opcode::MovAccToMem)
        } else {
            None
        }
    }
}

/// ModR&M memory/register operand at `pos` (the position right after the
/// ModR&M byte `b2`), shared by the register↔memory and the
/// immediate-to-memory families. Returns the operand and the position
/// after its displacement bytes. `start` is the offset of the first byte
/// of the instruction, carried into any error.
pub open spec fn spec_modrm(bytes: Seq<u8>, pos: int, start: int, w: u8, b2: u8) -> Result<
    (Operand, int),
    DecodeError,
> {
    let mode = b2 >> 6;
    let rm = b2 & 0b111;
    if mode == 0b00 {
        if rm == 0b110 {
            // direct address overrides the BP-only formula in mode 00
            if pos + 2 <= bytes.len() {
                Ok((Operand::MemDirect(word_le(bytes[pos], bytes[pos + 1])), pos + 2))
            } else {
                Err(DecodeError::Truncated { offset: start as usize })
            }
        } else {
            match EffectiveAddressFormula::spec_from_code(rm) {
                Some(formula) => Ok((Operand::Mem { formula, displacement: None }, pos)),
                None => Err(DecodeError::InvalidFormula { code: rm, offset: start as usize }),
            }
        }
    } else if mode == 0b01 {
        match EffectiveAddressFormula::spec_from_code(rm) {
            Some(formula) => if pos + 1 <= bytes.len() {
                Ok(
                    (
                        Operand::Mem { formula, displacement: Some(sign_extend8(bytes[pos])) },
                        pos + 1,
                    ),
                )
            } else {
                Err(DecodeError::Truncated { offset: start as usize })
            },
            None => Err(DecodeError::InvalidFormula { code: rm, offset: start as usize }),
        }
    } else if mode == 0b10 {
        match EffectiveAddressFormula::spec_from_code(rm) {
            Some(formula) => if pos + 2 <= bytes.len() {
                Ok(
                    (
                        Operand::Mem {
                            formula,
                            displacement: Some(as_signed16(word_le(bytes[pos], bytes[pos + 1]))),
                        },
                        pos + 2,
                    ),
                )
            } else {
                Err(DecodeError::Truncated { offset: start as usize })
            },
            None => Err(DecodeError::InvalidFormula { code: rm, offset: start as usize }),
        }
    } else {
        let code = (w << 3) | rm;
        match Register::spec_from_code(code) {
            Some(r) => Ok((Operand::Register(r), pos)),
            None => Err(DecodeError::InvalidRegister { code, offset: start as usize }),
        }
    }
}

/// Immediate data at `pos`: one byte when narrow, a little-endian word
/// when wide. Returns the value and the position after it.
pub open spec fn spec_read_data(bytes: Seq<u8>, pos: int, start: int, wide: bool) -> Result<
    (u16, int),
    DecodeError,
> {
    if wide {
        if pos + 2 <= bytes.len() {
            Ok((word_le(bytes[pos], bytes[pos + 1]), pos + 2))
        } else {
            Err(DecodeError::Truncated { offset: start as usize })
        }
    } else {
        if pos + 1 <= bytes.len() {
            Ok((bytes[pos] as u16, pos + 1))
        } else {
            Err(DecodeError::Truncated { offset: start as usize })
        }
    }
}

/// Decode the single instruction that starts at `pos`. Returns the
/// instruction and the position of the byte after it.
pub open spec fn spec_decode_one(bytes: Seq<u8>, pos: int) -> Result<
    (Instruction, int),
    DecodeError,
> {
    let b1 = bytes[pos];
    match spec_opcode(b1) {
        None => Err(DecodeError::UnrecognizedOpcode { byte: b1, offset: pos as usize }),
        Some(Opcode::MovRegToRegOrRegToMem) => {
            if pos + 2 <= bytes.len() {
                let b2 = bytes[pos + 1];
                let d = (b1 >> 1) & 0b1;
                let w = b1 & 0b1;
                let reg_code = (w << 3) | ((b2 >> 3) & 0b111);
                match Register::spec_from_code(reg_code) {
                    None => Err(DecodeError::InvalidRegister { code: reg_code, offset: pos as usize }),
                    Some(reg1) => match spec_modrm(bytes, pos + 2, pos, w, b2) {
                        Err(e) => Err(e),
                        Ok(res) => if d != 0 {
                            Ok(
                                (
                                    Instruction::Mov {
                                        dst: Operand::Register(reg1),
                                        src: res.0,
                                    },
                                    res.1,
                                ),
                            )
                        } else {
                            Ok(
                                (
                                    Instruction::Mov {
                                        dst: res.0,
                                        src: Operand::Register(reg1),
                                    },
                                    res.1,
                                ),
                            )
                        },
                    },
                }
            } else {
                Err(DecodeError::Truncated { offset: pos as usize })
            }
        },
        Some(Opcode::MovImmediateToMem) => {
            if pos + 2 <= bytes.len() {
                let b2 = bytes[pos + 1];
                let w = b1 & 0b1;
                match spec_modrm(bytes, pos + 2, pos, w, b2) {
                    Err(e) => Err(e),
                    Ok(res) => match spec_read_data(bytes, res.1, pos, w != 0) {
                        Err(e) => Err(e),
                        Ok(data) => Ok(
                            (
                                Instruction::Mov {
                                    dst: res.0,
                                    src: Operand::Immediate {
                                        value: data.0,
                                        needs_explicit_size: true,
                                    },
                                },
                                data.1,
                            ),
                        ),
                    },
                }
            } else {
                Err(DecodeError::Truncated { offset: pos as usize })
            }
        },
        Some(Opcode::MovImmediateToReg) => {
            let wreg = b1 & 0b1111;
            match Register::spec_from_code(wreg) {
                None => Err(DecodeError::InvalidRegister { code: wreg, offset: pos as usize }),
                Some(dst) => match spec_read_data(bytes, pos + 1, pos, wreg & 0b1000 != 0) {
                    Err(e) => Err(e),
                    Ok(data) => Ok(
                        (
                            Instruction::Mov {
                                dst: Operand::Register(dst),
                                src: Operand::Immediate {
                                    value: data.0,
                                    needs_explicit_size: false,
                                },
                            },
                            data.1,
                        ),
                    ),
                },
            }
        },
        Some(Opcode::MovMemToAcc) => {
            let w = b1 & 0b1;
            if pos + 3 <= bytes.len() {
                Ok(
                    (
                        Instruction::Mov {
                            dst: Operand::Register(spec_accumulator(w != 0)),
                            src: Operand::MemDirect(word_le(bytes[pos + 1], bytes[pos + 2])),
                        },
                        pos + 3,
                    ),
                )
            } else {
                Err(DecodeError::Truncated { offset: pos as usize })
            }
        },
        Some(Opcode::MovAccToMem) => {
            let w = b1 & 0b1;
            if pos + 3 <= bytes.len() {
                Ok(
                    (
                        Instruction::Mov {
                            dst: Operand::MemDirect(word_le(bytes[pos + 1], bytes[pos + 2])),
                            src: Operand::Register(spec_accumulator(w != 0)),
                        },
                        pos + 3,
                    ),
                )
            } else {
                Err(DecodeError::Truncated { offset: pos as usize })
            }
        },
    }
}

/// Decode every instruction from `pos` to the end of the buffer.
pub open spec fn spec_decode_from(bytes: Seq<u8>, pos: int) -> Result<Seq<Instruction>, DecodeError>
    decreases bytes.len() - pos
    when 0 <= pos <= bytes.len()
{
    if pos == bytes.len() {
        Ok(Seq::empty())
    } else {
        match spec_decode_one(bytes, pos) {
            Err(e) => Err(e),
            Ok(res) => if pos < res.1 <= bytes.len() {
                match spec_decode_from(bytes, res.1) {
                    Ok(rest) => Ok(seq![res.0] + rest),
                    Err(e) => Err(e),
                }
            } else {
                // a decoded instruction always consumes between 2 and 6
                // bytes of the buffer, so this branch is never reached
                Err(DecodeError::Truncated { offset: pos as usize })
            },
        }
    }
}

/// The whole decode pipeline on a byte buffer.
pub open spec fn spec_decode(bytes: Seq<u8>) -> Result<Seq<Instruction>, DecodeError> {
    spec_decode_from(bytes, 0)
}

/// Sign-extend a displacement byte to 16 bits.
fn sign_extend_byte(b: u8) -> (r: i16)
    ensures
        r == sign_extend8(b),
{
    if b < 128 {
        b as i16
    } else {
        (b as i16) - 256
    }
}

/// Reinterpret a 16-bit word as a signed displacement.
fn to_signed_word(w: u16) -> (r: i16)
    ensures
        r == as_signed16(w),
{
    if w < 32768 {
        w as i16
    } else {
        -1 - ((65535 - w) as i16)
    }
}

/// The accumulator register selected by the width bit.
fn accumulator(wide: bool) -> (r: Register)
    ensures
        r == spec_accumulator(wide),
{
    if wide {
        Register::AX
    } else {
        Register::AL
    }
}

/// Decode the ModR&M memory/register operand whose ModR&M byte is `b2`,
/// consuming its displacement or direct-address bytes from the cursor.
fn decode_modrm(input: &mut Input, start: usize, w: u8, b2: u8) -> (r: Result<Operand, DecodeError>)
    requires
        old(input).wf(),
    ensures
        final(input).bytes() == old(input).bytes(),
        final(input).wf(),
        final(input).pos() >= old(input).pos(),
        match spec_modrm(old(input).bytes(), old(input).pos(), start as int, w, b2) {
            Ok(res) => r == Ok::<Operand, DecodeError>(res.0) && final(input).pos() == res.1,
            Err(e) => r == Err::<Operand, DecodeError>(e),
        },
{
    let mode = b2 >> 6;
    let rm = b2 & 0b111;
    if mode == 0b00 {
        if rm == 0b110 {
            if input.remaining() >= 2 {
                let address = input.next_word();
                Ok(Operand::MemDirect(address))
            } else {
                Err(DecodeError::Truncated { offset: start })
            }
        } else {
            match EffectiveAddressFormula::from_code(rm) {
                Some(formula) => Ok(Operand::Mem { formula, displacement: None }),
                None => Err(DecodeError::InvalidFormula { code: rm, offset: start }),
            }
        }
    } else if mode == 0b01 {
        match EffectiveAddressFormula::from_code(rm) {
            Some(formula) => {
                if input.remaining() >= 1 {
                    let b = input.next_byte();
                    Ok(Operand::Mem { formula, displacement: Some(sign_extend_byte(b)) })
                } else {
                    Err(DecodeError::Truncated { offset: start })
                }
            },
            None => Err(DecodeError::InvalidFormula { code: rm, offset: start }),
        }
    } else if mode == 0b10 {
        match EffectiveAddressFormula::from_code(rm) {
            Some(formula) => {
                if input.remaining() >= 2 {
                    let word = input.next_word();
                    Ok(Operand::Mem { formula, displacement: Some(to_signed_word(word)) })
                } else {
                    Err(DecodeError::Truncated { offset: start })
                }
            },
            None => Err(DecodeError::InvalidFormula { code: rm, offset: start }),
        }
    } else {
        let code = (w << 3) | rm;
        match Register::from_code(code) {
            Some(reg) => Ok(Operand::Register(reg)),
            None => Err(DecodeError::InvalidRegister { code, offset: start }),
        }
    }
}

/// Read an immediate value: one byte when narrow, a word when wide.
fn read_data(input: &mut Input, start: usize, wide: bool) -> (r: Result<u16, DecodeError>)
    requires
        old(input).wf(),
    ensures
        final(input).bytes() == old(input).bytes(),
        final(input).wf(),
        final(input).pos() >= old(input).pos(),
        match spec_read_data(old(input).bytes(), old(input).pos(), start as int, wide) {
            Ok(res) => r == Ok::<u16, DecodeError>(res.0) && final(input).pos() == res.1,
            Err(e) => r == Err::<u16, DecodeError>(e),
        },
{
    if wide {
        if input.remaining() >= 2 {
            Ok(input.next_word())
        } else {
            Err(DecodeError::Truncated { offset: start })
        }
    } else {
        if input.remaining() >= 1 {
            Ok(input.next_byte() as u16)
        } else {
            Err(DecodeError::Truncated { offset: start })
        }
    }
}

/// Decode one instruction at the cursor.
fn decode_one(input: &mut Input) -> (r: Result<Instruction, DecodeError>)
    requires
        old(input).wf(),
        old(input).pos() < old(input).bytes().len(),
    ensures
        final(input).bytes() == old(input).bytes(),
        final(input).wf(),
        match spec_decode_one(old(input).bytes(), old(input).pos()) {
            Ok(res) => r == Ok::<Instruction, DecodeError>(res.0) && final(input).pos() == res.1
                && old(input).pos() < res.1,
            Err(e) => r == Err::<Instruction, DecodeError>(e),
        },
{
    let start = input.position();
    let b1 = input.next_byte();
    match Opcode::parse(b1) {
        None => Err(DecodeError::UnrecognizedOpcode { byte: b1, offset: start }),
        Some(Opcode::MovRegToRegOrRegToMem) => {
            if input.is_empty() {
                return Err(DecodeError::Truncated { offset: start });
            }
            let b2 = input.next_byte();
            let d = (b1 >> 1) & 0b1;
            let w = b1 & 0b1;
            let reg_code = (w << 3) | ((b2 >> 3) & 0b111);
            match Register::from_code(reg_code) {
                None => Err(DecodeError::InvalidRegister { code: reg_code, offset: start }),
                Some(reg1) => match decode_modrm(input, start, w, b2) {
                    Err(e) => Err(e),
                    Ok(operand) => if d != 0 {
                        Ok(Instruction::Mov { dst: Operand::Register(reg1), src: operand })
                    } else {
                        Ok(Instruction::Mov { dst: operand, src: Operand::Register(reg1) })
                    },
                },
            }
        },
        Some(Opcode::MovImmediateToMem) => {
            if input.is_empty() {
                return Err(DecodeError::Truncated { offset: start });
            }
            let b2 = input.next_byte();
            let w = b1 & 0b1;
            match decode_modrm(input, start, w, b2) {
                Err(e) => Err(e),
                Ok(dst) => match read_data(input, start, w != 0) {
                    Err(e) => Err(e),
                    Ok(value) => Ok(
                        Instruction::Mov {
                            dst,
                            src: Operand::Immediate { value, needs_explicit_size: true },
                        },
                    ),
                },
            }
        },
        Some(Opcode::MovImmediateToReg) => {
            let wreg = b1 & 0b1111;
            match Register::from_code(wreg) {
                None => Err(DecodeError::InvalidRegister { code: wreg, offset: start }),
                Some(dst) => match read_data(input, start, wreg & 0b1000 != 0) {
                    Err(e) => Err(e),
                    Ok(value) => Ok(
                        Instruction::Mov {
                            dst: Operand::Register(dst),
                            src: Operand::Immediate { value, needs_explicit_size: false },
                        },
                    ),
                },
            }
        },
        Some(Opcode::MovMemToAcc) => {
            let w = b1 & 0b1;
            if input.remaining() >= 2 {
                let address = input.next_word();
                Ok(
                    Instruction::Mov {
                        dst: Operand::Register(accumulator(w != 0)),
                        src: Operand::MemDirect(address),
                    },
                )
            } else {
                Err(DecodeError::Truncated { offset: start })
            }
        },
        Some(Opcode::MovAccToMem) => {
            let w = b1 & 0b1;
            if input.remaining() >= 2 {
                let address = input.next_word();
                Ok(
                    Instruction::Mov {
                        dst: Operand::MemDirect(address),
                        src: Operand::Register(accumulator(w != 0)),
                    },
                )
            } else {
                Err(DecodeError::Truncated { offset: start })
            }
        },
    }
}

/// Decode a whole buffer of machine code into its instruction sequence.
///
/// Returns exactly what `spec_decode` says: the full instruction
/// sequence when every byte belongs to a recognized, complete MOV
/// encoding, and otherwise the error of the first instruction whose
/// decoding failed, carrying that instruction's start offset.
pub fn decode(input: &[u8]) -> (r: Result<Vec<Instruction>, DecodeError>)
    ensures
        match spec_decode(input@) {
            Ok(instrs) => r matches Ok(v) && v@ == instrs,
            Err(e) => r matches Err(e2) && e2 == e,
        },
{
    let mut cur = Input::new(input);
    let mut res: Vec<Instruction> = Vec::new();
    while !cur.is_empty()
        invariant
            cur.wf(),
            cur.bytes() == input@,
            match spec_decode_from(input@, cur.pos()) {
                Ok(rest) => spec_decode(input@) == Ok::<Seq<Instruction>, DecodeError>(res@ + rest),
                Err(e) => spec_decode(input@) == Err::<Seq<Instruction>, DecodeError>(e),
            },
        decreases input@.len() - cur.pos(),
    {
        let ghost pos_before = cur.pos();
        match decode_one(&mut cur) {
            Ok(instruction) => {
                proof {
                    let res1 = spec_decode_one(input@, pos_before)->Ok_0;
                    assert(forall|rest: Seq<Instruction>|
                        (res@ + (seq![res1.0] + rest)) =~= ((res@ + seq![res1.0]) + rest));
                    assert(res@ + seq![res1.0] =~= res@.push(res1.0));
                }
                res.push(instruction);
            },
            Err(e) => {
                return Err(e);
            },
        }
    }
    proof {
        assert(res@ + Seq::<Instruction>::empty() =~= res@);
    }
    Ok(res)
}

} // verus!
