//! Data model of the decoder: registers, effective-address formulas,
//! opcode families, operands, instructions and decode errors, together
//! with the two lookup tables that turn encoded field values into
//! registers and formulas.

use vstd::prelude::*;

verus! {

/// One of the sixteen 8086 general registers, keyed by the 4-bit
/// `W:REG` encoding (width bit, then 3-bit register code).
#[derive(Copy, Clone, Debug, PartialEq, Eq)]
pub enum Register {
    AL,
    CL,
    DL,
    BL,
    AH,
    CH,
    DH,
    BH,
    AX,
    CX,
    DX,
    BX,
    SP,
    BP,
    SI,
    DI,
}

impl Register {
    /// The 4-bit `W:REG` code of this register.
    pub open spec fn code(self) -> u8 {
        match self {
            Register::AL => 0,
            Register::CL => 1,
            Register::DL => 2,
            Register::BL => 3,
            Register::AH => 4,
            Register::CH => 5,
            Register::DH => 6,
            Register::BH => 7,
            Register::AX => 8,
            Register::CX => 9,
            Register::DX => 10,
            Register::BX => 11,
            Register::SP => 12,
            Register::BP => 13,
            Register::SI => 14,
            Register::DI => 15,
        }
    }

    /// Whether this is a 16-bit register (the `W` bit of its code).
    pub open spec fn is_wide(self) -> bool {
        self.code() >= 8
    }

    /// The register named by a 4-bit `W:REG` code, if the code is in range.
    pub open spec fn spec_from_code(code: u8) -> Option<Register> {
        if code == 0 {
            Some(Register::AL)
        } else if code == 1 {
            Some(Register::CL)
        } else if code == 2 {
            Some(Register::DL)
        } else if code == 3 {
            Some(Register::BL)
        } else if code == 4 {
            Some(Register::AH)
        } else if code == 5 {
            Some(Register::CH)
        } else if code == 6 {
            Some(Register::DH)
        } else if code == 7 {
            Some(Register::BH)
        } else if code == 8 {
            Some(Register::AX)
        } else if code == 9 {
            Some(Register::CX)
        } else if code == 10 {
            Some(Register::DX)
        } else if code == 11 {
            Some(Register::BX)
        } else if code == 12 {
            Some(Register::SP)
        } else if code == 13 {
            Some(Register::BP)
        } else if code == 14 {
            Some(Register::SI)
        } else if code == 15 {
            Some(Register::DI)
        } else {
            None
        }
    }

    /// Register Table lookup: the register for a 4-bit `W:REG` code.
    pub fn from_code(code: u8) -> (r: Option<Register>)
        ensures
            r == Register::spec_from_code(code),
    {
        if code == 0 {
            Some(Register::AL)
        } else if code == 1 {
            Some(Register::CL)
        } else if code == 2 {
            Some(Register::DL)
        } else if code == 3 {
            Some(Register::BL)
        } else if code == 4 {
            Some(Register::AH)
        } else if code == 5 {
            Some(Register::CH)
        } else if code == 6 {
            Some(Register::DH)
        } else if code == 7 {
            Some(Register::BH)
        } else if code == 8 {
            Some(Register::AX)
        } else if code == 9 {
            Some(Register::CX)
        } else if code == 10 {
            Some(Register::DX)
        } else if code == 11 {
            Some(Register::BX)
        } else if code == 12 {
            Some(Register::SP)
        } else if code == 13 {
            Some(Register::BP)
        } else if code == 14 {
            Some(Register::SI)
        } else if code == 15 {
            Some(Register::DI)
        } else {
            None
        }
    }
}

/// The Register Table is exhaustive: every 4-bit `W:REG` code built from a
/// width bit `w <= 1` and a register code `reg <= 7` names a register, and
/// the named register carries exactly that code back.
pub proof fn lemma_register_table_total()
    ensures
        forall|code: u8| code <= 15 ==> #[trigger] Register::spec_from_code(code) is Some,
        forall|w: u8, reg: u8|
            w <= 1 && reg <= 7 ==> #[trigger] Register::spec_from_code((w << 3) | reg) is Some,
        forall|r: Register| #[trigger] Register::spec_from_code(r.code()) == Some(r),
{
    assert forall|w: u8, reg: u8| w <= 1 && reg <= 7 implies #[trigger] Register::spec_from_code(
        (w << 3) | reg,
    ) is Some by {
        assert(w <= 1 && reg <= 7 ==> ((w << 3) | reg) <= 15) by (bit_vector);
    }
}

/// One of the eight effective-address formulas selected by a 3-bit
/// `r/m` field (base and/or index registers, no displacement).
#[derive(Copy, Clone, Debug, PartialEq, Eq)]
pub enum EffectiveAddressFormula {
    BxPlusSi,
    BxPlusDi,
    BpPlusSi,
    BpPlusDi,
    Si,
    Di,
    Bp,
    Bx,
}

impl EffectiveAddressFormula {
    /// The 3-bit `r/m` code of this formula.
    pub open spec fn code(self) -> u8 {
        match self {
            EffectiveAddressFormula::BxPlusSi => 0,
            EffectiveAddressFormula::BxPlusDi => 1,
            EffectiveAddressFormula::BpPlusSi => 2,
            EffectiveAddressFormula::BpPlusDi => 3,
            EffectiveAddressFormula::Si => 4,
            EffectiveAddressFormula::Di => 5,
            EffectiveAddressFormula::Bp => 6,
            EffectiveAddressFormula::Bx => 7,
        }
    }

    /// The formula named by a 3-bit `r/m` code, if the code is in range.
    pub open spec fn spec_from_code(code: u8) -> Option<EffectiveAddressFormula> {
        if code == 0 {
            Some(EffectiveAddressFormula::BxPlusSi)
        } else if code == 1 {
            Some(EffectiveAddressFormula::BxPlusDi)
        } else if code == 2 {
            Some(EffectiveAddressFormula::BpPlusSi)
        } else if code == 3 {
            Some(EffectiveAddressFormula::BpPlusDi)
        } else if code == 4 {
            Some(EffectiveAddressFormula::Si)
        } else if code == 5 {
            Some(EffectiveAddressFormula::Di)
        } else if code == 6 {
            Some(EffectiveAddressFormula::Bp)
        } else if code == 7 {
            Some(EffectiveAddressFormula::Bx)
        } else {
            None
        }
    }

    /// Formula Table lookup: the formula for a 3-bit `r/m` code.
    pub fn from_code(code: u8) -> (r: Option<EffectiveAddressFormula>)
        ensures
            r == EffectiveAddressFormula::spec_from_code(code),
    {
        if code == 0 {
            Some(EffectiveAddressFormula::BxPlusSi)
        } else if code == 1 {
            Some(EffectiveAddressFormula::BxPlusDi)
        } else if code == 2 {
            Some(EffectiveAddressFormula::BpPlusSi)
        } else if code == 3 {
            Some(EffectiveAddressFormula::BpPlusDi)
        } else if code == 4 {
            Some(EffectiveAddressFormula::Si)
        } else if code == 5 {
            Some(EffectiveAddressFormula::Di)
        } else if code == 6 {
            Some(EffectiveAddressFormula::Bp)
        } else if code == 7 {
            Some(EffectiveAddressFormula::Bx)
        } else {
            None
        }
    }
}

/// The Formula Table is exhaustive: every 3-bit `r/m` value names a
/// formula, and the named formula carries exactly that code back.
pub proof fn lemma_formula_table_total()
    ensures
        forall|code: u8| code <= 7 ==> #[trigger] EffectiveAddressFormula::spec_from_code(
            code,
        ) is Some,
        forall|f: EffectiveAddressFormula| #[trigger] EffectiveAddressFormula::spec_from_code(
            f.code(),
        ) == Some(f),
{
}

/// The MOV encoding family selected by the first instruction byte.
#[derive(Copy, Clone, Debug, PartialEq, Eq)]
pub enum Opcode {
    MovRegToRegOrRegToMem,
    MovImmediateToMem,
    MovImmediateToReg,
    MovMemToAcc,
    MovAccToMem,
}

/// One operand of a decoded instruction.
///
/// A `Mem` displacement, when present, is already sign-extended to 16
/// bits whether it was encoded in one byte or two. `needs_explicit_size`
/// is true exactly for immediates decoded from the immediate-to-memory
/// family, whose destination does not convey the operand width.
#[derive(Copy, Clone, Debug, PartialEq, Eq)]
pub enum Operand {
    Register(Register),
    Mem { formula: EffectiveAddressFormula, displacement: Option<i16> },
    MemDirect(u16),
    Immediate { value: u16, needs_explicit_size: bool },
}

/// A decoded instruction. MOV is the only mnemonic covered; further
/// mnemonics would stand beside it as sibling variants.
#[derive(Copy, Clone, Debug, PartialEq, Eq)]
pub enum Instruction {
    Mov { dst: Operand, src: Operand },
}

/// Why decoding failed. Every variant carries the offset of the first
/// byte of the instruction whose decoding detected the anomaly.
///
/// `InvalidRegister` and `InvalidFormula` exist to defend against an
/// incomplete lookup table; both tables are total over the field values
/// the decoder extracts, so `decode` is proved never to return them.
#[derive(Copy, Clone, Debug, PartialEq, Eq)]
pub enum DecodeError {
    Truncated { offset: usize },
    UnrecognizedOpcode { byte: u8, offset: usize },
    InvalidRegister { code: u8, offset: usize },
    InvalidFormula { code: u8, offset: usize },
}

} // verus!
