//! Laws of the decoder and renderer that relate several functions:
//! determinism, displacement sign handling, zero-displacement
//! suppression, immediate size annotation, and the direct-address
//! override. The round-trip law stands beside the canonical encoder in
//! `encoding`, and the exhaustiveness of the two lookup tables beside
//! the tables in `instr`.

use vstd::prelude::*;

use crate::decode::{
    sign_extend8, spec_decode, spec_decode_from, spec_decode_one, spec_modrm, spec_opcode,
};
use crate::input::word_le;
use crate::instr::{
    lemma_formula_table_total, lemma_register_table_total, DecodeError, EffectiveAddressFormula,
    Opcode, Operand,
};
use crate::render::{spec_dec, spec_operand_text, spec_output};

verus! {

/// Determinism: what `decode` returns and what `output` prints are
/// functions of the input bytes alone (`decode` ensures its result
/// equals `spec_decode(input@)` and `output` ensures its text equals
/// `spec_output` of its instructions), so equal inputs give equal
/// instruction sequences and equal text.
pub proof fn lemma_decode_deterministic(bytes1: Seq<u8>, bytes2: Seq<u8>)
    requires
        bytes1 == bytes2,
    ensures
        spec_decode(bytes1) == spec_decode(bytes2),
        spec_decode(bytes1) matches Ok(instrs) ==> spec_decode(bytes2) == Ok::<
            _,
            DecodeError,
        >(instrs) && spec_output(instrs) == spec_output(spec_decode(bytes2)->Ok_0),
{
}

/// Sign correctness of the one-byte displacement: a high byte decodes
/// to its negative 16-bit value, never to the unsigned one; in
/// particular `0xff` decodes to -1.
pub proof fn lemma_sign_extension(b: u8)
    ensures
        b < 128 ==> sign_extend8(b) == b,
        b >= 128 ==> sign_extend8(b) == b - 256 && sign_extend8(b) < 0,
        sign_extend8(0xff) == -1,
{
}

/// Sign correctness of rendering: a positive displacement renders as
/// ` + N`, a negative one as ` - N` with N its absolute value, never
/// as the unsigned 16-bit reading.
pub proof fn lemma_displacement_sign_rendering(formula: EffectiveAddressFormula, d: i16)
    ensures
        d > 0 ==> spec_operand_text(Operand::Mem { formula, displacement: Some(d) }) == "["@
            + formula.spec_text() + " + "@ + spec_dec(d as nat) + "]"@,
        d < 0 ==> spec_operand_text(Operand::Mem { formula, displacement: Some(d) }) == "["@
            + formula.spec_text() + " - "@ + spec_dec((-d) as nat) + "]"@,
{
    if d > 0 {
        assert("["@ + formula.spec_text() + (" + "@ + spec_dec(d as nat)) + "]"@ =~= "["@
            + formula.spec_text() + " + "@ + spec_dec(d as nat) + "]"@);
    }
    if d < 0 {
        assert("["@ + formula.spec_text() + (" - "@ + spec_dec((-d) as nat)) + "]"@ =~= "["@
            + formula.spec_text() + " - "@ + spec_dec((-d) as nat) + "]"@);
    }
}

/// Zero-displacement suppression: a displacement of exactly zero
/// renders like an absent one, as `[formula]` with no ` + 0` suffix.
pub proof fn lemma_zero_displacement_suppressed(formula: EffectiveAddressFormula)
    ensures
        spec_operand_text(Operand::Mem { formula, displacement: Some(0) }) == spec_operand_text(
            Operand::Mem { formula, displacement: None },
        ),
        spec_operand_text(Operand::Mem { formula, displacement: None }) == "["@
            + formula.spec_text() + "]"@,
{
    assert("["@ + formula.spec_text() + Seq::<char>::empty() + "]"@ =~= "["@ + formula.spec_text()
        + "]"@);
}

/// Immediate size annotation: an immediate that needs an explicit size
/// carries `byte ` exactly when its value fits in 8 bits and `word `
/// otherwise, and one that does not need it renders as the plain
/// decimal value with no prefix.
pub proof fn lemma_immediate_size_annotation(value: u16)
    ensures
        value <= 255 ==> spec_operand_text(
            Operand::Immediate { value, needs_explicit_size: true },
        ) == "byte "@ + spec_dec(value as nat),
        value > 255 ==> spec_operand_text(
            Operand::Immediate { value, needs_explicit_size: true },
        ) == "word "@ + spec_dec(value as nat),
        spec_operand_text(Operand::Immediate { value, needs_explicit_size: false }) == spec_dec(
            value as nat,
        ),
{
}

/// Direct-address override: in mode 00 the r/m value 110 never selects
/// the BP-only formula; it always reads a 16-bit direct address.
pub proof fn lemma_direct_address_override(
    bytes: Seq<u8>,
    pos: int,
    start: int,
    w: u8,
    b2: u8,
)
    requires
        b2 >> 6 == 0b00,
        b2 & 0b111 == 0b110,
        0 <= pos,
        pos + 2 <= bytes.len(),
    ensures
        spec_modrm(bytes, pos, start, w, b2) == Ok::<(Operand, int), DecodeError>(
            (Operand::MemDirect(word_le(bytes[pos], bytes[pos + 1])), pos + 2),
        ),
{
}

/// Bounds on the bit fields the decoder extracts: each masked field
/// fits its table's domain.
proof fn lemma_field_bounds(b1: u8, b2: u8)
    by (bit_vector)
    ensures
        (b1 & 0b1) <= 1,
        (b1 & 0b1111) <= 15,
        ((b2 >> 3) & 0b111) <= 7,
        (b2 & 0b111) <= 7,
        (((b1 & 0b1) << 3) | ((b2 >> 3) & 0b111)) <= 15,
{
}

/// A width bit combined with a 3-bit field stays inside the Register
/// Table's domain.
proof fn lemma_w_field_bound(w: u8, b2: u8)
    by (bit_vector)
    requires
        w <= 1,
    ensures
        ((w << 3) | (b2 & 0b111)) <= 15,
{
}

/// The ModR&M decoder consumes at most two further bytes, and with a
/// one-bit width value its table lookups cannot fail: its only error
/// is truncation.
pub proof fn lemma_modrm_bounds(bytes: Seq<u8>, pos: int, start: int, w: u8, b2: u8)
    requires
        0 <= pos <= bytes.len(),
        w <= 1,
    ensures
        match spec_modrm(bytes, pos, start, w, b2) {
            Ok(res) => pos <= res.1 <= pos + 2 && res.1 <= bytes.len(),
            Err(e) => e is Truncated,
        },
{
    lemma_field_bounds(w, b2);
    lemma_w_field_bound(w, b2);
    lemma_formula_table_total();
    lemma_register_table_total();
}

/// One decoded instruction consumes between 2 and 6 bytes of the
/// buffer, and the only decoding failures are a truncated instruction
/// and an unrecognized opcode: both lookup tables are exhaustive over
/// the fields the decoder extracts, so the defensive
/// `InvalidRegister` / `InvalidFormula` errors never occur.
pub proof fn lemma_decode_one_bounds(bytes: Seq<u8>, pos: int)
    requires
        0 <= pos < bytes.len(),
    ensures
        match spec_decode_one(bytes, pos) {
            Ok(res) => pos + 2 <= res.1 <= pos + 6 && res.1 <= bytes.len(),
            Err(e) => e is Truncated || e is UnrecognizedOpcode,
        },
{
    let b1 = bytes[pos];
    lemma_register_table_total();
    match spec_opcode(b1) {
        None => {},
        Some(Opcode::MovRegToRegOrRegToMem) => {
            if pos + 2 <= bytes.len() {
                let b2 = bytes[pos + 1];
                lemma_field_bounds(b1, b2);
                lemma_modrm_bounds(bytes, pos + 2, pos, b1 & 0b1, b2);
            }
        },
        Some(Opcode::MovImmediateToMem) => {
            if pos + 2 <= bytes.len() {
                let b2 = bytes[pos + 1];
                lemma_field_bounds(b1, b2);
                lemma_modrm_bounds(bytes, pos + 2, pos, b1 & 0b1, b2);
            }
        },
        Some(Opcode::MovImmediateToReg) => {
            lemma_field_bounds(b1, b1);
        },
        Some(Opcode::MovMemToAcc) => {},
        Some(Opcode::MovAccToMem) => {},
    }
}

/// The whole decode pipeline fails only on a truncated instruction or
/// an unrecognized opcode, never on a table lookup.
pub proof fn lemma_decode_errors(bytes: Seq<u8>)
    ensures
        spec_decode(bytes) matches Err(e) ==> e is Truncated || e is UnrecognizedOpcode,
{
    lemma_decode_from_errors(bytes, 0);
}

proof fn lemma_decode_from_errors(bytes: Seq<u8>, pos: int)
    requires
        0 <= pos <= bytes.len(),
    ensures
        spec_decode_from(bytes, pos) matches Err(e) ==> e is Truncated || e is UnrecognizedOpcode,
    decreases bytes.len() - pos,
{
    if pos < bytes.len() {
        lemma_decode_one_bounds(bytes, pos);
        match spec_decode_one(bytes, pos) {
            Ok(res) => {
                lemma_decode_from_errors(bytes, res.1);
            },
            Err(e) => {},
        }
    }
}

} // verus!
