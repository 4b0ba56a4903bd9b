//! The renderer: canonical assembler text for decoded instructions.
//!
//! Each executable function returns exactly the character sequence that
//! its spec function describes: lowercase register mnemonics,
//! `[formula]` with a ` + N` / ` - N` suffix only for a nonzero
//! displacement, direct addresses in unsigned decimal, and a `byte ` or
//! `word ` prefix only for immediates whose destination does not convey
//! their width.

use vstd::prelude::*;

use crate::instr::{EffectiveAddressFormula, Instruction, Operand, Register};

verus! {

/// The decimal digit character for one digit value.
pub open spec fn digit_char(d: int) -> char {
    if d == 0 {
        '0'
    } else if d == 1 {
        '1'
    } else if d == 2 {
        '2'
    } else if d == 3 {
        '3'
    } else if d == 4 {
        '4'
    } else if d == 5 {
        '5'
    } else if d == 6 {
        '6'
    } else if d == 7 {
        '7'
    } else if d == 8 {
        '8'
    } else {
        '9'
    }
}

/// The unsigned decimal text of `n`, most significant digit first,
/// without leading zeros (a single `0` for zero).
pub open spec fn spec_dec(n: nat) -> Seq<char>
    decreases n,
{
    if n < 10 {
        seq![digit_char(n as int)]
    } else {
        spec_dec(n / 10) + seq![digit_char((n % 10) as int)]
    }
}

impl Register {
    /// The lowercase mnemonic of this register.
    pub open spec fn spec_name(self) -> Seq<char> {
        match self {
            Register::AL => "al"@,
            Register::CL => "cl"@,
            Register::DL => "dl"@,
            Register::BL => "bl"@,
            Register::AH => "ah"@,
            Register::CH => "ch"@,
            Register::DH => "dh"@,
            Register::BH => "bh"@,
            Register::AX => "ax"@,
            Register::CX => "cx"@,
            Register::DX => "dx"@,
            Register::BX => "bx"@,
            Register::SP => "sp"@,
            Register::BP => "bp"@,
            Register::SI => "si"@,
            Register::DI => "di"@,
        }
    }

    /// The lowercase mnemonic of this register.
    pub fn name(&self) -> (r: &'static str)
        ensures
            r@ == self.spec_name(),
    {
        match self {
            Register::AL => "al",
            Register::CL => "cl",
            Register::DL => "dl",
            Register::BL => "bl",
            Register::AH => "ah",
            Register::CH => "ch",
            Register::DH => "dh",
            Register::BH => "bh",
            Register::AX => "ax",
            Register::CX => "cx",
            Register::DX => "dx",
            Register::BX => "bx",
            Register::SP => "sp",
            Register::BP => "bp",
            Register::SI => "si",
            Register::DI => "di",
        }
    }
}

impl EffectiveAddressFormula {
    /// The text of the base/index register combination.
    pub open spec fn spec_text(self) -> Seq<char> {
        match self {
            EffectiveAddressFormula::BxPlusSi => "bx + si"@,
            EffectiveAddressFormula::BxPlusDi => "bx + di"@,
            EffectiveAddressFormula::BpPlusSi => "bp + si"@,
            EffectiveAddressFormula::BpPlusDi => "bp + di"@,
            EffectiveAddressFormula::Si => "si"@,
            EffectiveAddressFormula::Di => "di"@,
            EffectiveAddressFormula::Bp => "bp"@,
            EffectiveAddressFormula::Bx => "bx"@,
        }
    }

    /// The text of the base/index register combination.
    pub fn text(&self) -> (r: &'static str)
        ensures
            r@ == self.spec_text(),
    {
        match self {
            EffectiveAddressFormula::BxPlusSi => "bx + si",
            EffectiveAddressFormula::BxPlusDi => "bx + di",
            EffectiveAddressFormula::BpPlusSi => "bp + si",
            EffectiveAddressFormula::BpPlusDi => "bp + di",
            EffectiveAddressFormula::Si => "si",
            EffectiveAddressFormula::Di => "di",
            EffectiveAddressFormula::Bp => "bp",
            EffectiveAddressFormula::Bx => "bx",
        }
    }
}

/// The displacement suffix inside a memory operand: empty for an absent
/// or zero displacement, otherwise ` + N` or ` - N` with N the absolute
/// value.
pub open spec fn spec_disp_suffix(displacement: Option<i16>) -> Seq<char> {
    match displacement {
        None => Seq::empty(),
        Some(d) => if d > 0 {
            " + "@ + spec_dec(d as nat)
        } else if d < 0 {
            " - "@ + spec_dec((-d) as nat)
        } else {
            Seq::empty()
        },
    }
}

/// The canonical text of one operand.
pub open spec fn spec_operand_text(op: Operand) -> Seq<char> {
    match op {
        Operand::Register(r) => r.spec_name(),
        Operand::Mem { formula, displacement } => "["@ + formula.spec_text() + spec_disp_suffix(
            displacement,
        ) + "]"@,
        Operand::MemDirect(address) => "["@ + spec_dec(address as nat) + "]"@,
        Operand::Immediate { value, needs_explicit_size } => if !needs_explicit_size {
            spec_dec(value as nat)
        } else if value <= 255 {
            "byte "@ + spec_dec(value as nat)
        } else {
            "word "@ + spec_dec(value as nat)
        },
    }
}

impl Instruction {
    /// The canonical text of one instruction line, without a newline.
    pub open spec fn spec_text(self) -> Seq<char> {
        match self {
            Instruction::Mov { dst, src } => "mov "@ + spec_operand_text(dst) + ", "@
                + spec_operand_text(src),
        }
    }
}

/// The instruction lines of the output, each followed by a newline.
pub open spec fn spec_lines(instrs: Seq<Instruction>) -> Seq<char>
    decreases instrs.len(),
{
    if instrs.len() == 0 {
        Seq::empty()
    } else {
        spec_lines(instrs.drop_last()) + instrs.last().spec_text() + "\n"@
    }
}

/// The whole output text: the `bits 16` mode header, then one line per
/// instruction.
pub open spec fn spec_output(instrs: Seq<Instruction>) -> Seq<char> {
    "bits 16\n"@ + spec_lines(instrs)
}

/// The one-character string for a decimal digit value.
fn digit_str(d: u8) -> (r: &'static str)
    requires
        d < 10,
    ensures
        r@ == seq![digit_char(d as int)],
{
    proof {
        reveal_strlit("0");
        reveal_strlit("1");
        reveal_strlit("2");
        reveal_strlit("3");
        reveal_strlit("4");
        reveal_strlit("5");
        reveal_strlit("6");
        reveal_strlit("7");
        reveal_strlit("8");
        reveal_strlit("9");
    }
    let r = if d == 0 {
        "0"
    } else if d == 1 {
        "1"
    } else if d == 2 {
        "2"
    } else if d == 3 {
        "3"
    } else if d == 4 {
        "4"
    } else if d == 5 {
        "5"
    } else if d == 6 {
        "6"
    } else if d == 7 {
        "7"
    } else if d == 8 {
        "8"
    } else {
        "9"
    };
    proof {
        assert(r@ =~= seq![digit_char(d as int)]);
    }
    r
}

/// The unsigned decimal text of `n`.
fn dec_u16(n: u16) -> (s: String)
    ensures
        s@ == spec_dec(n as nat),
    decreases n,
{
    if n < 10 {
        String::from_str(digit_str(n as u8))
    } else {
        let mut s = dec_u16(n / 10);
        s.append(digit_str((n % 10) as u8));
        s
    }
}

/// The displacement suffix of a memory operand.
fn disp_suffix(displacement: Option<i16>) -> (s: String)
    ensures
        s@ == spec_disp_suffix(displacement),
{
    match displacement {
        None => String::new(),
        Some(d) => {
            if d > 0 {
                let mut s = String::from_str(" + ");
                let digits = dec_u16(d as u16);
                s.append(digits.as_str());
                s
            } else if d < 0 {
                let magnitude32: i32 = -(d as i32);
                assert(0 <= magnitude32 <= 65535);
                let magnitude: u16 = magnitude32 as u16;
                let mut s = String::from_str(" - ");
                let digits = dec_u16(magnitude);
                s.append(digits.as_str());
                s
            } else {
                String::new()
            }
        },
    }
}

/// The canonical text of one operand.
pub fn operand_text(op: Operand) -> (s: String)
    ensures
        s@ == spec_operand_text(op),
{
    match op {
        Operand::Register(r) => String::from_str(r.name()),
        Operand::Mem { formula, displacement } => {
            let mut s = String::from_str("[");
            s.append(formula.text());
            let suffix = disp_suffix(displacement);
            s.append(suffix.as_str());
            s.append("]");
            s
        },
        Operand::MemDirect(address) => {
            let mut s = String::from_str("[");
            let digits = dec_u16(address);
            s.append(digits.as_str());
            s.append("]");
            s
        },
        Operand::Immediate { value, needs_explicit_size } => {
            if !needs_explicit_size {
                dec_u16(value)
            } else {
                let mut s = String::from_str(if value > 255 {
                    "word "
                } else {
                    "byte "
                });
                let digits = dec_u16(value);
                s.append(digits.as_str());
                s
            }
        },
    }
}

impl Instruction {
    /// The canonical text of this instruction, without a newline.
    pub fn text(&self) -> (s: String)
        ensures
            s@ == self.spec_text(),
    {
        match self {
            Instruction::Mov { dst, src } => {
                let mut s = String::from_str("mov ");
                let dst_text = operand_text(*dst);
                s.append(dst_text.as_str());
                s.append(", ");
                let src_text = operand_text(*src);
                s.append(src_text.as_str());
                s
            },
        }
    }
}

/// The whole output text for a decoded instruction sequence: the
/// `bits 16` mode header, then one canonical line per instruction.
pub fn output(instructions: &[Instruction]) -> (s: String)
    ensures
        s@ == spec_output(instructions@),
{
    let mut s = String::from_str("bits 16\n");
    let mut i: usize = 0;
    while i < instructions.len()
        invariant
            i <= instructions.len(),
            s@ == "bits 16\n"@ + spec_lines(instructions@.take(i as int)),
        decreases instructions.len() - i,
    {
        let line = instructions[i].text();
        s.append(line.as_str());
        s.append("\n");
        proof {
            let taken = instructions@.take(i + 1int);
            assert(taken.drop_last() =~= instructions@.take(i as int));
            assert(taken.last() == instructions@[i as int]);
        }
        i += 1;
    }
    proof {
        assert(instructions@.take(instructions@.len() as int) =~= instructions@);
    }
    s
}

} // verus!
