use pap86::decode::decode;
use pap86::instr::{EffectiveAddressFormula, Instruction, Operand, Register};
use pap86::render::{operand_text, output};

#[test]
fn registers_render_lowercase() {
    assert_eq!(Register::AL.name(), "al");
    assert_eq!(Register::BH.name(), "bh");
    assert_eq!(Register::AX.name(), "ax");
    assert_eq!(Register::SP.name(), "sp");
    assert_eq!(Register::DI.name(), "di");
}

#[test]
fn formulas_render_register_sums() {
    assert_eq!(EffectiveAddressFormula::BxPlusSi.text(), "bx + si");
    assert_eq!(EffectiveAddressFormula::BxPlusDi.text(), "bx + di");
    assert_eq!(EffectiveAddressFormula::BpPlusSi.text(), "bp + si");
    assert_eq!(EffectiveAddressFormula::BpPlusDi.text(), "bp + di");
    assert_eq!(EffectiveAddressFormula::Si.text(), "si");
    assert_eq!(EffectiveAddressFormula::Di.text(), "di");
    assert_eq!(EffectiveAddressFormula::Bp.text(), "bp");
    assert_eq!(EffectiveAddressFormula::Bx.text(), "bx");
}

#[test]
fn displacements_render_signed_and_zero_suppressed() {
    let mem = |displacement| Operand::Mem {
        formula: EffectiveAddressFormula::BxPlusSi,
        displacement,
    };
    assert_eq!(operand_text(mem(None)), "[bx + si]");
    assert_eq!(operand_text(mem(Some(0))), "[bx + si]");
    assert_eq!(operand_text(mem(Some(5))), "[bx + si + 5]");
    assert_eq!(operand_text(mem(Some(-1))), "[bx + si - 1]");
    assert_eq!(operand_text(mem(Some(32767))), "[bx + si + 32767]");
    assert_eq!(operand_text(mem(Some(-32768))), "[bx + si - 32768]");
}

#[test]
fn negative_displacement_from_bytes_renders_subtraction() {
    // mode 01 displacement byte 0xff is -1, not +255
    let instructions = decode(&[0x8b, 0x46, 0xff]).unwrap();
    assert_eq!(instructions[0].text(), "mov ax, [bp - 1]");
}

#[test]
fn zero_displacement_from_bytes_is_suppressed() {
    let instructions = decode(&[0x8b, 0x46, 0x00]).unwrap();
    assert_eq!(instructions[0].text(), "mov ax, [bp]");
    let instructions = decode(&[0x8b, 0x86, 0x00, 0x00]).unwrap();
    assert_eq!(instructions[0].text(), "mov ax, [bp]");
}

#[test]
fn direct_addresses_render_unsigned_decimal() {
    assert_eq!(operand_text(Operand::MemDirect(0)), "[0]");
    assert_eq!(operand_text(Operand::MemDirect(0x1234)), "[4660]");
    assert_eq!(operand_text(Operand::MemDirect(65535)), "[65535]");
}

#[test]
fn immediates_render_size_annotation_only_for_memory() {
    let sized = |value| Operand::Immediate {
        value,
        needs_explicit_size: true,
    };
    let plain = |value| Operand::Immediate {
        value,
        needs_explicit_size: false,
    };
    assert_eq!(operand_text(sized(200)), "byte 200");
    assert_eq!(operand_text(sized(255)), "byte 255");
    assert_eq!(operand_text(sized(256)), "word 256");
    assert_eq!(operand_text(sized(300)), "word 300");
    assert_eq!(operand_text(plain(200)), "200");
    assert_eq!(operand_text(plain(300)), "300");
}

#[test]
fn immediate_moves_from_bytes_render_annotated() {
    let instructions = decode(&[0xc6, 0x07, 200]).unwrap();
    assert_eq!(instructions[0].text(), "mov [bx], byte 200");
    let instructions = decode(&[0xc7, 0x07, 0x2c, 0x01]).unwrap();
    assert_eq!(instructions[0].text(), "mov [bx], word 300");
    let instructions = decode(&[0xb9, 0x2c, 0x01]).unwrap();
    assert_eq!(instructions[0].text(), "mov cx, 300");
}

#[test]
fn end_to_end_example_renders_mov_ax_bx() {
    let instructions = decode(&[0x89, 0xd8]).unwrap();
    assert_eq!(instructions.len(), 1);
    assert_eq!(instructions[0].text(), "mov ax, bx");
}

#[test]
fn many_register_movs_render() {
    let bytes = [
        0x89, 0xd9, 0x88, 0xe5, 0x89, 0xda, 0x89, 0xde, 0x89, 0xfb, 0x88, 0xc8, 0x88, 0xed, 0x89,
        0xc3, 0x89, 0xf3, 0x89, 0xfc, 0x89, 0xc5,
    ];
    let instructions = decode(&bytes).unwrap();
    let text = output(&instructions);
    assert_eq!(
        text,
        "bits 16\n\
         mov cx, bx\n\
         mov ch, ah\n\
         mov dx, bx\n\
         mov si, bx\n\
         mov bx, di\n\
         mov al, cl\n\
         mov ch, ch\n\
         mov bx, ax\n\
         mov bx, si\n\
         mov sp, di\n\
         mov bp, ax\n"
    );
}

#[test]
fn output_starts_with_mode_header() {
    let instructions: Vec<Instruction> = vec![];
    assert_eq!(output(&instructions), "bits 16\n");
}

#[test]
fn output_renders_one_line_per_instruction() {
    // a canonical buffer: decoding it and reassembling the printed text
    // reproduces these bytes exactly
    let bytes = [
        0x89, 0xd8, // mov ax, bx
        0x8b, 0x46, 0xff, // mov ax, [bp - 1]
        0x88, 0x06, 0x34, 0x12, // mov [4660], al
        0xc6, 0x07, 200, // mov [bx], byte 200
        0xc7, 0x87, 0xe8, 0x03, 0x2c, 0x01, // mov [bx + 1000], word 300
        0xb1, 12, // mov cl, 12
        0xa1, 0x34, 0x12, // mov ax, [4660]
        0xa2, 0x34, 0x12, // mov [4660], al
    ];
    let instructions = decode(&bytes).unwrap();
    let text = output(&instructions);
    assert_eq!(
        text,
        "bits 16\n\
         mov ax, bx\n\
         mov ax, [bp - 1]\n\
         mov [4660], al\n\
         mov [bx], byte 200\n\
         mov [bx + 1000], word 300\n\
         mov cl, 12\n\
         mov ax, [4660]\n\
         mov [4660], al\n"
    );
}
