//! The canonical encoding of instructions, and the round-trip law.
//!
//! `spec_encode` gives, for each encodable instruction, the byte
//! sequence that a standards-compliant assembler emits for the
//! instruction's canonical text: shortest displacement, immediate width
//! from the size annotation or the register width, the short
//! accumulator forms for the accumulator, and the `D = 0` direction for
//! register-to-register moves. The round-trip law proves that decoding
//! a buffer built from such encodings yields exactly the encoded
//! instructions, so re-encoding the decoded sequence reproduces the
//! buffer byte for byte.
//!
//! An instruction whose canonical text loses a distinction has no
//! canonical encoding: a memory operand with displacement `Some(0)`
//! renders exactly like one with no displacement, so of such a pair
//! only the form the assembler reproduces is encodable (`None` for
//! every formula but BP, whose formula-only form does not exist in the
//! encoding, and `Some(0)` for BP itself).

use vstd::prelude::*;

use crate::decode::{
    as_signed16, sign_extend8, spec_decode, spec_decode_from, spec_decode_one, spec_modrm,
    spec_read_data,
};
use crate::input::word_le;
use crate::instr::{
    lemma_formula_table_total, lemma_register_table_total, DecodeError, EffectiveAddressFormula,
    Instruction, Operand, Register,
};

verus! {

/// The low byte of a 16-bit word.
pub open spec fn u16_lo(v: u16) -> u8 {
    (v & 0xff) as u8
}

/// The high byte of a 16-bit word.
pub open spec fn u16_hi(v: u16) -> u8 {
    (v >> 8) as u8
}

/// The unsigned 16-bit representation of a signed displacement.
pub open spec fn u16_of_i16(d: i16) -> u16 {
    if d >= 0 {
        d as u16
    } else {
        (d + 65536) as u16
    }
}

/// The single-byte representation of a short displacement.
pub open spec fn byte_of_disp8(d: i16) -> u8 {
    if d >= 0 {
        d as u8
    } else {
        (d + 256) as u8
    }
}

/// The immediate data bytes: little-endian word when wide, one byte
/// otherwise.
pub open spec fn spec_data_bytes(v: u16, wide: bool) -> Seq<u8> {
    if wide {
        seq![u16_lo(v), u16_hi(v)]
    } else {
        seq![v as u8]
    }
}

/// Splitting a word into its bytes and reading them back little-endian
/// is the identity.
pub proof fn lemma_word_split(v: u16)
    ensures
        word_le(u16_lo(v), u16_hi(v)) == v,
{
    assert((((((v >> 8) as u8) as u16) << 8) | (((v & 0xff) as u8) as u16)) == v) by (bit_vector);
}

/// A short displacement survives the trip through its byte encoding.
pub proof fn lemma_disp8_round_trip(d: i16)
    requires
        -128 <= d <= 127,
    ensures
        sign_extend8(byte_of_disp8(d)) == d,
{
}

/// A displacement survives the trip through its word encoding.
pub proof fn lemma_disp16_round_trip(d: i16)
    ensures
        as_signed16(u16_of_i16(d)) == d,
{
}

/// A 4-bit register code is rebuilt exactly from its width bit and its
/// low three bits, as the decoder does.
pub proof fn lemma_code_recombine(code: u8)
    requires
        code <= 15,
    ensures
        code >= 8 ==> ((1u8 << 3) | (code & 7)) == code,
        code < 8 ==> ((0u8 << 3) | (code & 7)) == code && (code & 7) == code,
        code & 7 <= 7,
{
    assert(code <= 15 && code >= 8 ==> ((1u8 << 3) | (code & 7)) == code) by (bit_vector);
    assert(code < 8 ==> ((0u8 << 3) | (code & 7)) == code && (code & 7) == code) by (bit_vector);
    assert(code & 7 <= 7) by (bit_vector);
}

/// The ModR&M byte and displacement bytes for a memory operand, when
/// the operand's canonical text reassembles to exactly one encoding.
/// `mid` is the 3-bit value of the middle (register) field.
pub open spec fn spec_modrm_enc(mid: u8, formula: EffectiveAddressFormula, disp: Option<i16>)
    -> Option<Seq<u8>> {
    match disp {
        None => if formula != EffectiveAddressFormula::Bp {
            Some(seq![(mid << 3) | formula.code()])
        } else {
            None
        },
        Some(d) => if d == 0 && formula != EffectiveAddressFormula::Bp {
            None
        } else if -128 <= d <= 127 {
            Some(seq![0x40 | (mid << 3) | formula.code(), byte_of_disp8(d)])
        } else {
            Some(
                seq![
                    0x80 | (mid << 3) | formula.code(),
                    u16_lo(u16_of_i16(d)),
                    u16_hi(u16_of_i16(d)),
                ],
            )
        },
    }
}

/// The canonical encoding of an instruction, `None` when the
/// instruction has none (an operand pair no MOV form encodes, an
/// immediate too wide for a byte register, a size annotation that
/// contradicts the register width, or a memory operand whose text
/// reassembles to a different encoding).
pub open spec fn spec_encode(i: Instruction) -> Option<Seq<u8>> {
    match i {
        Instruction::Mov { dst, src } => match (dst, src) {
            (Operand::Register(d), Operand::Register(s)) => if d.is_wide() == s.is_wide() {
                Some(
                    seq![
                        if d.is_wide() { 0x89u8 } else { 0x88u8 },
                        0xc0 | ((s.code() & 7) << 3) | (d.code() & 7),
                    ],
                )
            } else {
                None
            },
            (Operand::Register(d), Operand::Mem { formula, displacement }) => match spec_modrm_enc(
                d.code() & 7,
                formula,
                displacement,
            ) {
                Some(mb) => Some(seq![if d.is_wide() { 0x8bu8 } else { 0x8au8 }] + mb),
                None => None,
            },
            (Operand::Mem { formula, displacement }, Operand::Register(s)) => match spec_modrm_enc(
                s.code() & 7,
                formula,
                displacement,
            ) {
                Some(mb) => Some(seq![if s.is_wide() { 0x89u8 } else { 0x88u8 }] + mb),
                None => None,
            },
            (Operand::Register(d), Operand::MemDirect(address)) => if d == Register::AX {
                Some(seq![0xa1, u16_lo(address), u16_hi(address)])
            } else if d == Register::AL {
                Some(seq![0xa0, u16_lo(address), u16_hi(address)])
            } else {
                Some(
                    seq![
                        if d.is_wide() { 0x8bu8 } else { 0x8au8 },
                        ((d.code() & 7) << 3) | 6,
                        u16_lo(address),
                        u16_hi(address),
                    ],
                )
            },
            (Operand::MemDirect(address), Operand::Register(s)) => if s == Register::AX {
                Some(seq![0xa3, u16_lo(address), u16_hi(address)])
            } else if s == Register::AL {
                Some(seq![0xa2, u16_lo(address), u16_hi(address)])
            } else {
                Some(
                    seq![
                        if s.is_wide() { 0x89u8 } else { 0x88u8 },
                        ((s.code() & 7) << 3) | 6,
                        u16_lo(address),
                        u16_hi(address),
                    ],
                )
            },
            (
                Operand::Mem { formula, displacement },
                Operand::Immediate { value, needs_explicit_size },
            ) => if needs_explicit_size {
                match spec_modrm_enc(0, formula, displacement) {
                    Some(mb) => Some(
                        seq![if value > 255 { 0xc7u8 } else { 0xc6u8 }] + mb + spec_data_bytes(
                            value,
                            value > 255,
                        ),
                    ),
                    None => None,
                }
            } else {
                None
            },
            (
                Operand::MemDirect(address),
                Operand::Immediate { value, needs_explicit_size },
            ) => if needs_explicit_size {
                Some(
                    seq![
                        if value > 255 { 0xc7u8 } else { 0xc6u8 },
                        6u8,
                        u16_lo(address),
                        u16_hi(address),
                    ] + spec_data_bytes(value, value > 255),
                )
            } else {
                None
            },
            (Operand::Register(d), Operand::Immediate { value, needs_explicit_size }) => {
                if needs_explicit_size {
                    // the size annotation in the text must agree with the
                    // register's width for the text to reassemble at all
                    if (value > 255) == d.is_wide() {
                        Some(
                            seq![
                                if d.is_wide() { 0xc7u8 } else { 0xc6u8 },
                                0xc0 | (d.code() & 7),
                            ] + spec_data_bytes(value, d.is_wide()),
                        )
                    } else {
                        None
                    }
                } else {
                    if d.is_wide() {
                        Some(seq![0xb0 | d.code(), u16_lo(value), u16_hi(value)])
                    } else if value <= 255 {
                        Some(seq![0xb0 | d.code(), value as u8])
                    } else {
                        None
                    }
                }
            },
            _ => None,
        },
    }
}

/// Decoding the ModR&M byte and displacement bytes that
/// `spec_modrm_enc` produced yields exactly the encoded memory operand.
pub proof fn lemma_modrm_enc_decode(
    bytes: Seq<u8>,
    pos: int,
    start: int,
    w: u8,
    mid: u8,
    formula: EffectiveAddressFormula,
    disp: Option<i16>,
)
    requires
        mid <= 7,
        spec_modrm_enc(mid, formula, disp) is Some,
        0 <= pos,
        pos + spec_modrm_enc(mid, formula, disp)->Some_0.len() - 1 <= bytes.len(),
        bytes.subrange(pos, pos + spec_modrm_enc(mid, formula, disp)->Some_0.len() - 1)
            == spec_modrm_enc(mid, formula, disp)->Some_0.skip(1),
    ensures
        spec_modrm(bytes, pos, start, w, spec_modrm_enc(mid, formula, disp)->Some_0[0])
            == Ok::<(Operand, int), DecodeError>(
            (
                Operand::Mem { formula, displacement: disp },
                pos + spec_modrm_enc(mid, formula, disp)->Some_0.len() - 1,
            ),
        ),
        ((spec_modrm_enc(mid, formula, disp)->Some_0[0] >> 3) & 0b111) == mid,
{
    let mb = spec_modrm_enc(mid, formula, disp)->Some_0;
    let c = formula.code();
    assert(c <= 7);
    lemma_formula_table_total();
    assert(formula != EffectiveAddressFormula::Bp ==> c != 6);
    match disp {
        None => {
            let b2 = (mid << 3) | c;
            assert(mb == seq![b2]);
            assert(mid <= 7 && c <= 7 ==> (b2 >> 6) == 0 && (b2 & 0b111) == c && ((b2 >> 3)
                & 0b111) == mid) by (bit_vector)
                requires
                    b2 == (mid << 3) | c,
            ;
        },
        Some(d) => {
            if -128 <= d <= 127 {
                let b2 = 0x40 | (mid << 3) | c;
                assert(mb == seq![b2, byte_of_disp8(d)]);
                assert(mid <= 7 && c <= 7 ==> (b2 >> 6) == 1 && (b2 & 0b111) == c && ((b2 >> 3)
                    & 0b111) == mid) by (bit_vector)
                    requires
                        b2 == 0x40 | (mid << 3) | c,
                ;
                assert(bytes[pos] == bytes.subrange(pos, pos + 1)[0]);
                assert(mb.skip(1)[0] == byte_of_disp8(d));
                lemma_disp8_round_trip(d);
            } else {
                let b2 = 0x80 | (mid << 3) | c;
                let v = u16_of_i16(d);
                assert(mb == seq![b2, u16_lo(v), u16_hi(v)]);
                assert(mid <= 7 && c <= 7 ==> (b2 >> 6) == 2 && (b2 & 0b111) == c && ((b2 >> 3)
                    & 0b111) == mid) by (bit_vector)
                    requires
                        b2 == 0x80 | (mid << 3) | c,
                ;
                assert(bytes[pos] == bytes.subrange(pos, pos + 2)[0]);
                assert(bytes[pos + 1] == bytes.subrange(pos, pos + 2)[1]);
                assert(mb.skip(1)[0] == u16_lo(v));
                assert(mb.skip(1)[1] == u16_hi(v));
                lemma_word_split(v);
                lemma_disp16_round_trip(d);
            }
        },
    }
}

/// Decoding the immediate bytes that `spec_data_bytes` produced yields
/// exactly the encoded value.
pub proof fn lemma_data_enc_decode(bytes: Seq<u8>, pos: int, start: int, v: u16, wide: bool)
    requires
        !wide ==> v <= 255,
        0 <= pos,
        pos + spec_data_bytes(v, wide).len() <= bytes.len(),
        bytes.subrange(pos, pos + spec_data_bytes(v, wide).len()) == spec_data_bytes(v, wide),
    ensures
        spec_read_data(bytes, pos, start, wide) == Ok::<(u16, int), DecodeError>(
            (v, pos + spec_data_bytes(v, wide).len()),
        ),
{
    if wide {
        assert(bytes[pos] == bytes.subrange(pos, pos + 2)[0]);
        assert(bytes[pos + 1] == bytes.subrange(pos, pos + 2)[1]);
        lemma_word_split(v);
    } else {
        assert(bytes[pos] == bytes.subrange(pos, pos + 1)[0]);
        assert((v as u8) as u16 == v);
    }
}

/// Bit facts about the literal opcode bytes the canonical encoder
/// emits, as the classifier and the field extractions read them.
proof fn lemma_opcode_literal_bits()
    by (bit_vector)
    ensures
        0x88u8 & 0xfc == 0x88 && 0x89u8 & 0xfc == 0x88 && 0x8au8 & 0xfc == 0x88 && 0x8bu8 & 0xfc
            == 0x88,
        (0x88u8 >> 1) & 1 == 0 && (0x89u8 >> 1) & 1 == 0 && (0x8au8 >> 1) & 1 == 1 && (0x8bu8 >> 1)
            & 1 == 1,
        0x88u8 & 1 == 0 && 0x89u8 & 1 == 1 && 0x8au8 & 1 == 0 && 0x8bu8 & 1 == 1,
        0xc6u8 & 0xfc != 0x88 && 0xc7u8 & 0xfc != 0x88,
        0xc6u8 & 0xfe == 0xc6 && 0xc7u8 & 0xfe == 0xc6,
        0xc6u8 & 1 == 0 && 0xc7u8 & 1 == 1,
        0xa0u8 & 0xfc != 0x88 && 0xa1u8 & 0xfc != 0x88 && 0xa2u8 & 0xfc != 0x88 && 0xa3u8 & 0xfc
            != 0x88,
        0xa0u8 & 0xfe != 0xc6 && 0xa1u8 & 0xfe != 0xc6 && 0xa2u8 & 0xfe != 0xc6 && 0xa3u8 & 0xfe
            != 0xc6,
        0xa0u8 & 0xf0 != 0xb0 && 0xa1u8 & 0xf0 != 0xb0 && 0xa2u8 & 0xf0 != 0xb0 && 0xa3u8 & 0xf0
            != 0xb0,
        0xa0u8 & 0xfe == 0xa0 && 0xa1u8 & 0xfe == 0xa0,
        0xa2u8 & 0xfe != 0xa0 && 0xa3u8 & 0xfe != 0xa0,
        0xa2u8 & 0xfe == 0xa2 && 0xa3u8 & 0xfe == 0xa2,
        0xa0u8 & 1 == 0 && 0xa1u8 & 1 == 1 && 0xa2u8 & 1 == 0 && 0xa3u8 & 1 == 1,
{
}

/// Field extraction from a mode-11 ModR&M byte built from two 3-bit
/// fields.
proof fn lemma_mode3_byte(s3: u8, d3: u8)
    by (bit_vector)
    requires
        s3 <= 7,
        d3 <= 7,
    ensures
        ((0xc0 | (s3 << 3) | d3) >> 6) == 3,
        (((0xc0 | (s3 << 3) | d3) >> 3) & 0b111) == s3,
        ((0xc0 | (s3 << 3) | d3) & 0b111) == d3,
{
}

/// Field extraction from the mode-00 ModR&M byte of a direct address.
proof fn lemma_direct_byte(mid: u8)
    by (bit_vector)
    requires
        mid <= 7,
    ensures
        (((mid << 3) | 6) >> 6) == 0,
        (((mid << 3) | 6) & 0b111) == 6,
        ((((mid << 3) | 6) >> 3) & 0b111) == mid,
{
}

/// Field extraction from an immediate-to-register opcode byte, which
/// carries the whole 4-bit register code.
proof fn lemma_imm_reg_byte(code: u8)
    by (bit_vector)
    requires
        code <= 15,
    ensures
        (0xb0 | code) & 0xfc != 0x88,
        (0xb0 | code) & 0xfe != 0xc6,
        (0xb0 | code) & 0xf0 == 0xb0,
        (0xb0 | code) & 0b1111 == code,
        ((code & 0b1000) != 0) == (code >= 8),
{
}

/// The bytes of an encoding placed at `pos` are read back one by one.
proof fn lemma_bytes_at(bytes: Seq<u8>, pos: int, enc: Seq<u8>)
    requires
        0 <= pos,
        pos + enc.len() <= bytes.len(),
        bytes.subrange(pos, pos + enc.len()) == enc,
    ensures
        forall|k: int| 0 <= k < enc.len() ==> bytes[pos + k] == #[trigger] enc[k],
{
    assert forall|k: int| 0 <= k < enc.len() implies bytes[pos + k] == #[trigger] enc[k] by {
        assert(bytes.subrange(pos, pos + enc.len())[k] == bytes[pos + k]);
    }
}

/// Decoding the canonical encoding of an instruction, wherever it
/// stands in a buffer, yields exactly that instruction and consumes
/// exactly its bytes.
#[verifier::rlimit(100)]
pub proof fn lemma_encode_decode_one(i: Instruction, bytes: Seq<u8>, pos: int)
    requires
        spec_encode(i) is Some,
        0 <= pos,
        pos + spec_encode(i)->Some_0.len() <= bytes.len(),
        bytes.subrange(pos, pos + spec_encode(i)->Some_0.len()) == spec_encode(i)->Some_0,
    ensures
        2 <= spec_encode(i)->Some_0.len() <= 6,
        spec_decode_one(bytes, pos) == Ok::<(Instruction, int), DecodeError>(
            (i, pos + spec_encode(i)->Some_0.len()),
        ),
{
    let enc = spec_encode(i)->Some_0;
    lemma_bytes_at(bytes, pos, enc);
    lemma_register_table_total();
    lemma_opcode_literal_bits();
    match i {
        Instruction::Mov { dst, src } => match (dst, src) {
            (Operand::Register(d), Operand::Register(s)) => {
                let b1: u8 = if d.is_wide() { 0x89 } else { 0x88 };
                let s3 = s.code() & 7;
                let d3 = d.code() & 7;
                let b2: u8 = 0xc0 | (s3 << 3) | d3;
                lemma_code_recombine(s.code());
                lemma_code_recombine(d.code());
                lemma_mode3_byte(s3, d3);
                assert(enc == seq![b1, b2]);
                assert(bytes[pos + 0] == enc[0]);
                assert(bytes[pos + 1] == enc[1]);
                let w = b1 & 1;
                assert((w << 3) | s3 == s.code());
                assert((w << 3) | d3 == d.code());
            },
            (Operand::Register(d), Operand::Mem { formula, displacement }) => {
                let mb = spec_modrm_enc(d.code() & 7, formula, displacement)->Some_0;
                let b1: u8 = if d.is_wide() { 0x8b } else { 0x8a };
                lemma_code_recombine(d.code());
                assert(enc == seq![b1] + mb);
                assert(bytes[pos + 0] == enc[0]);
                assert(bytes[pos + 1] == enc[1]);
                assert(enc[0] == b1);
                assert(enc[1] == mb[0]);
                assert(bytes.subrange(pos + 2, pos + 2 + mb.len() - 1) =~= mb.skip(1)) by {
                    assert forall|j: int| 0 <= j < mb.len() - 1 implies bytes.subrange(
                        pos + 2,
                        pos + 2 + mb.len() - 1,
                    )[j] == mb.skip(1)[j] by {
                        assert(bytes[pos + (2 + j)] == enc[2 + j]);
                        assert(enc[2 + j] == mb[j + 1]);
                        assert(mb.skip(1)[j] == mb[j + 1]);
                    }
                }
                let w = b1 & 1;
                lemma_modrm_enc_decode(
                    bytes,
                    pos + 2,
                    pos,
                    w,
                    d.code() & 7,
                    formula,
                    displacement,
                );
                assert((w << 3) | ((mb[0] >> 3) & 0b111) == d.code());
            },
            (Operand::Mem { formula, displacement }, Operand::Register(s)) => {
                let mb = spec_modrm_enc(s.code() & 7, formula, displacement)->Some_0;
                let b1: u8 = if s.is_wide() { 0x89 } else { 0x88 };
                lemma_code_recombine(s.code());
                assert(enc == seq![b1] + mb);
                assert(bytes[pos + 0] == enc[0]);
                assert(bytes[pos + 1] == enc[1]);
                assert(enc[0] == b1);
                assert(enc[1] == mb[0]);
                assert(bytes.subrange(pos + 2, pos + 2 + mb.len() - 1) =~= mb.skip(1)) by {
                    assert forall|j: int| 0 <= j < mb.len() - 1 implies bytes.subrange(
                        pos + 2,
                        pos + 2 + mb.len() - 1,
                    )[j] == mb.skip(1)[j] by {
                        assert(bytes[pos + (2 + j)] == enc[2 + j]);
                        assert(enc[2 + j] == mb[j + 1]);
                        assert(mb.skip(1)[j] == mb[j + 1]);
                    }
                }
                let w = b1 & 1;
                lemma_modrm_enc_decode(
                    bytes,
                    pos + 2,
                    pos,
                    w,
                    s.code() & 7,
                    formula,
                    displacement,
                );
                assert((w << 3) | ((mb[0] >> 3) & 0b111) == s.code());
            },
            (Operand::Register(d), Operand::MemDirect(address)) => {
                lemma_word_split(address);
                if d == Register::AX || d == Register::AL {
                    let b1: u8 = if d == Register::AX { 0xa1 } else { 0xa0 };
                    assert(enc == seq![b1, u16_lo(address), u16_hi(address)]);
                    assert(bytes[pos + 0] == enc[0]);
                    assert(bytes[pos + 1] == enc[1]);
                    assert(bytes[pos + 2] == enc[2]);
                } else {
                    let b1: u8 = if d.is_wide() { 0x8b } else { 0x8a };
                    let b2: u8 = ((d.code() & 7) << 3) | 6;
                    lemma_code_recombine(d.code());
                    lemma_direct_byte(d.code() & 7);
                    assert(enc == seq![b1, b2, u16_lo(address), u16_hi(address)]);
                    assert(bytes[pos + 0] == enc[0]);
                    assert(bytes[pos + 1] == enc[1]);
                    assert(bytes[pos + 2] == enc[2]);
                    assert(bytes[pos + 3] == enc[3]);
                    let w = b1 & 1;
                    assert((w << 3) | ((b2 >> 3) & 0b111) == d.code());
                }
            },
            (Operand::MemDirect(address), Operand::Register(s)) => {
                lemma_word_split(address);
                if s == Register::AX || s == Register::AL {
                    let b1: u8 = if s == Register::AX { 0xa3 } else { 0xa2 };
                    assert(enc == seq![b1, u16_lo(address), u16_hi(address)]);
                    assert(bytes[pos + 0] == enc[0]);
                    assert(bytes[pos + 1] == enc[1]);
                    assert(bytes[pos + 2] == enc[2]);
                } else {
                    let b1: u8 = if s.is_wide() { 0x89 } else { 0x88 };
                    let b2: u8 = ((s.code() & 7) << 3) | 6;
                    lemma_code_recombine(s.code());
                    lemma_direct_byte(s.code() & 7);
                    assert(enc == seq![b1, b2, u16_lo(address), u16_hi(address)]);
                    assert(bytes[pos + 0] == enc[0]);
                    assert(bytes[pos + 1] == enc[1]);
                    assert(bytes[pos + 2] == enc[2]);
                    assert(bytes[pos + 3] == enc[3]);
                    let w = b1 & 1;
                    assert((w << 3) | ((b2 >> 3) & 0b111) == s.code());
                }
            },
            (
                Operand::Mem { formula, displacement },
                Operand::Immediate { value, needs_explicit_size },
            ) => {
                let wide = value > 255;
                let mb = spec_modrm_enc(0, formula, displacement)->Some_0;
                let data = spec_data_bytes(value, wide);
                let b1: u8 = if wide { 0xc7 } else { 0xc6 };
                let head = seq![b1] + mb;
                assert(enc == head + data);
                assert(bytes[pos + 0] == enc[0]);
                assert(bytes[pos + 1] == enc[1]);
                assert(enc[0] == b1);
                assert(enc[1] == mb[0]);
                assert(bytes.subrange(pos + 2, pos + 2 + mb.len() - 1) =~= mb.skip(1)) by {
                    assert forall|j: int| 0 <= j < mb.len() - 1 implies bytes.subrange(
                        pos + 2,
                        pos + 2 + mb.len() - 1,
                    )[j] == mb.skip(1)[j] by {
                        assert(bytes[pos + (2 + j)] == enc[2 + j]);
                        assert(enc[2 + j] == mb[j + 1]);
                        assert(mb.skip(1)[j] == mb[j + 1]);
                    }
                }
                let w = b1 & 1;
                lemma_modrm_enc_decode(bytes, pos + 2, pos, w, 0, formula, displacement);
                let p = pos + 1 + mb.len();
                assert(bytes.subrange(p, p + data.len()) =~= data) by {
                    assert forall|j: int| 0 <= j < data.len() implies bytes.subrange(
                        p,
                        p + data.len(),
                    )[j] == data[j] by {
                        assert(bytes[pos + (1 + mb.len() + j)] == enc[1 + mb.len() + j]);
                        assert(enc[head.len() + j] == data[j]);
                    }
                }
                lemma_data_enc_decode(bytes, p, pos, value, wide);
                assert((w != 0) == wide);
            },
            (
                Operand::MemDirect(address),
                Operand::Immediate { value, needs_explicit_size },
            ) => {
                let wide = value > 255;
                let data = spec_data_bytes(value, wide);
                let b1: u8 = if wide { 0xc7 } else { 0xc6 };
                let head = seq![b1, 6u8, u16_lo(address), u16_hi(address)];
                assert(enc == head + data);
                assert(bytes[pos + 0] == enc[0]);
                assert(bytes[pos + 1] == enc[1]);
                assert(bytes[pos + 2] == enc[2]);
                assert(bytes[pos + 3] == enc[3]);
                lemma_word_split(address);
                assert((6u8 >> 6) == 0 && (6u8 & 0b111) == 6) by (bit_vector);
                let p = pos + 4;
                assert(bytes.subrange(p, p + data.len()) =~= data) by {
                    assert forall|j: int| 0 <= j < data.len() implies bytes.subrange(
                        p,
                        p + data.len(),
                    )[j] == data[j] by {
                        assert(bytes[pos + (4 + j)] == enc[4 + j]);
                        assert(enc[head.len() + j] == data[j]);
                    }
                }
                lemma_data_enc_decode(bytes, p, pos, value, wide);
                let w = b1 & 1;
                assert((w != 0) == wide);
            },
            (Operand::Register(d), Operand::Immediate { value, needs_explicit_size }) => {
                if needs_explicit_size {
                    let wide = d.is_wide();
                    let data = spec_data_bytes(value, wide);
                    let b1: u8 = if wide { 0xc7 } else { 0xc6 };
                    let d3 = d.code() & 7;
                    let b2: u8 = 0xc0 | d3;
                    lemma_code_recombine(d.code());
                    lemma_mode3_byte(0, d3);
                    assert(0xc0 | (0u8 << 3) | d3 == 0xc0 | d3) by (bit_vector);
                    let head = seq![b1, b2];
                    assert(enc == head + data);
                    assert(bytes[pos + 0] == enc[0]);
                    assert(bytes[pos + 1] == enc[1]);
                    let w = b1 & 1;
                    assert((w << 3) | (b2 & 0b111) == d.code());
                    let p = pos + 2;
                    assert(bytes.subrange(p, p + data.len()) =~= data) by {
                        assert forall|j: int| 0 <= j < data.len() implies bytes.subrange(
                            p,
                            p + data.len(),
                        )[j] == data[j] by {
                            assert(bytes[pos + (2 + j)] == enc[2 + j]);
                            assert(enc[head.len() + j] == data[j]);
                        }
                    }
                    lemma_data_enc_decode(bytes, p, pos, value, wide);
                    assert((w != 0) == wide);
                } else {
                    let wide = d.is_wide();
                    let data = spec_data_bytes(value, wide);
                    let b1: u8 = 0xb0 | d.code();
                    lemma_imm_reg_byte(d.code());
                    let head = seq![b1];
                    assert(enc == head + data);
                    assert(bytes[pos + 0] == enc[0]);
                    let p = pos + 1;
                    assert(bytes.subrange(p, p + data.len()) =~= data) by {
                        assert forall|j: int| 0 <= j < data.len() implies bytes.subrange(
                            p,
                            p + data.len(),
                        )[j] == data[j] by {
                            assert(bytes[pos + (1 + j)] == enc[1 + j]);
                            assert(enc[head.len() + j] == data[j]);
                        }
                    }
                    lemma_data_enc_decode(bytes, p, pos, value, wide);
                }
            },
            _ => {
                assert(false);
            },
        },
    }
}

/// Whether every instruction of the sequence has a canonical encoding.
pub open spec fn all_encodable(instrs: Seq<Instruction>) -> bool {
    forall|k: int| 0 <= k < instrs.len() ==> #[trigger] spec_encode(instrs[k]) is Some
}

/// The canonical encoding of a whole instruction sequence, one
/// instruction's bytes after another.
pub open spec fn spec_encode_all(instrs: Seq<Instruction>) -> Seq<u8>
    decreases instrs.len(),
{
    if instrs.len() == 0 {
        Seq::empty()
    } else {
        spec_encode(instrs[0])->Some_0 + spec_encode_all(instrs.subrange(1, instrs.len() as int))
    }
}

proof fn lemma_round_trip_from(bytes: Seq<u8>, pos: int, instrs: Seq<Instruction>)
    requires
        all_encodable(instrs),
        0 <= pos <= bytes.len(),
        bytes.subrange(pos, bytes.len() as int) == spec_encode_all(instrs),
    ensures
        spec_decode_from(bytes, pos) == Ok::<Seq<Instruction>, DecodeError>(instrs),
    decreases instrs.len(),
{
    if instrs.len() == 0 {
        assert(bytes.len() - pos == 0);
        assert(instrs =~= Seq::<Instruction>::empty());
    } else {
        let enc0 = spec_encode(instrs[0])->Some_0;
        let rest = instrs.subrange(1, instrs.len() as int);
        let tail_bytes = spec_encode_all(rest);
        assert(bytes.subrange(pos, bytes.len() as int) == enc0 + tail_bytes);
        assert(bytes.len() - pos == enc0.len() + tail_bytes.len());
        assert(bytes.subrange(pos, pos + enc0.len()) =~= enc0) by {
            assert forall|j: int| 0 <= j < enc0.len() implies bytes.subrange(
                pos,
                pos + enc0.len(),
            )[j] == enc0[j] by {
                assert(bytes.subrange(pos, pos + enc0.len())[j] == bytes[pos + j]);
                assert(bytes.subrange(pos, bytes.len() as int)[j] == bytes[pos + j]);
                assert((enc0 + tail_bytes)[j] == enc0[j]);
            }
        }
        lemma_encode_decode_one(instrs[0], bytes, pos);
        assert(all_encodable(rest)) by {
            assert forall|k: int| 0 <= k < rest.len() implies #[trigger] spec_encode(
                rest[k],
            ) is Some by {
                assert(rest[k] == instrs[k + 1]);
                assert(spec_encode(instrs[k + 1]) is Some);
            }
        }
        let p = pos + enc0.len();
        assert(bytes.subrange(p, bytes.len() as int) =~= tail_bytes) by {
            assert forall|j: int| 0 <= j < tail_bytes.len() implies bytes.subrange(
                p,
                bytes.len() as int,
            )[j] == tail_bytes[j] by {
                assert(bytes.subrange(p, bytes.len() as int)[j] == bytes[p + j]);
                assert(bytes.subrange(pos, bytes.len() as int)[enc0.len() + j] == bytes[p + j]);
                assert((enc0 + tail_bytes)[enc0.len() + j] == tail_bytes[j]);
            }
        }
        lemma_round_trip_from(bytes, p, rest);
        assert(seq![instrs[0]] + rest =~= instrs);
    }
}

/// Round-trip law: a buffer built from canonical MOV encodings decodes
/// to exactly the encoded instruction sequence, so re-encoding what was
/// decoded reproduces the buffer byte for byte.
///
/// Rendering preserves every distinction the decoder keeps (each
/// renderer contract pins the text of its operand), and a
/// standards-compliant assembler maps the canonical text back to the
/// canonical encoding, which `spec_encode_all` models; this lemma
/// supplies the decoding half of that round trip.
pub proof fn lemma_round_trip(bytes: Seq<u8>, instrs: Seq<Instruction>)
    requires
        all_encodable(instrs),
        bytes == spec_encode_all(instrs),
    ensures
        spec_decode(bytes) == Ok::<Seq<Instruction>, DecodeError>(instrs),
        spec_encode_all(spec_decode(bytes)->Ok_0) == bytes,
{
    assert(bytes.subrange(0, bytes.len() as int) =~= bytes);
    lemma_round_trip_from(bytes, 0, instrs);
}

} // verus!
