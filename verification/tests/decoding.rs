use pap86::decode::decode;
use pap86::input::Input;
use pap86::instr::{DecodeError, EffectiveAddressFormula, Instruction, Opcode, Operand, Register};

#[test]
fn cursor_reads_bytes_in_order() {
    let bytes = [0x12u8, 0x34, 0x56];
    let mut cur = Input::new(&bytes);
    assert_eq!(cur.position(), 0);
    assert_eq!(cur.remaining(), 3);
    assert!(!cur.is_empty());
    assert_eq!(cur.next_byte(), 0x12);
    assert_eq!(cur.next_word(), 0x5634);
    assert_eq!(cur.position(), 3);
    assert!(cur.is_empty());
}

#[test]
fn classifier_follows_rule_order() {
    assert_eq!(Opcode::parse(0x88), Some(Opcode::MovRegToRegOrRegToMem));
    assert_eq!(Opcode::parse(0x89), Some(Opcode::MovRegToRegOrRegToMem));
    assert_eq!(Opcode::parse(0x8a), Some(Opcode::MovRegToRegOrRegToMem));
    assert_eq!(Opcode::parse(0x8b), Some(Opcode::MovRegToRegOrRegToMem));
    assert_eq!(Opcode::parse(0xc6), Some(Opcode::MovImmediateToMem));
    assert_eq!(Opcode::parse(0xc7), Some(Opcode::MovImmediateToMem));
    assert_eq!(Opcode::parse(0xb0), Some(Opcode::MovImmediateToReg));
    assert_eq!(Opcode::parse(0xbf), Some(Opcode::MovImmediateToReg));
    assert_eq!(Opcode::parse(0xa0), Some(Opcode::MovMemToAcc));
    assert_eq!(Opcode::parse(0xa1), Some(Opcode::MovMemToAcc));
    assert_eq!(Opcode::parse(0xa2), Some(Opcode::MovAccToMem));
    assert_eq!(Opcode::parse(0xa3), Some(Opcode::MovAccToMem));
    assert_eq!(Opcode::parse(0x00), None);
    assert_eq!(Opcode::parse(0xff), None);
}

#[test]
fn register_table_is_exhaustive() {
    for w in 0u8..2 {
        for reg in 0u8..8 {
            assert!(Register::from_code((w << 3) | reg).is_some());
        }
    }
    assert_eq!(Register::from_code(0), Some(Register::AL));
    assert_eq!(Register::from_code(7), Some(Register::BH));
    assert_eq!(Register::from_code(8), Some(Register::AX));
    assert_eq!(Register::from_code(15), Some(Register::DI));
    assert_eq!(Register::from_code(16), None);
}

#[test]
fn formula_table_is_exhaustive() {
    for rm in 0u8..8 {
        assert!(EffectiveAddressFormula::from_code(rm).is_some());
    }
    assert_eq!(
        EffectiveAddressFormula::from_code(0),
        Some(EffectiveAddressFormula::BxPlusSi)
    );
    assert_eq!(
        EffectiveAddressFormula::from_code(6),
        Some(EffectiveAddressFormula::Bp)
    );
    assert_eq!(
        EffectiveAddressFormula::from_code(7),
        Some(EffectiveAddressFormula::Bx)
    );
    assert_eq!(EffectiveAddressFormula::from_code(8), None);
}

#[test]
fn register_to_register_direction() {
    // D = 0: the ModR&M r/m field is the destination
    let instructions = decode(&[0x89, 0xd8]).unwrap();
    assert_eq!(
        instructions,
        vec![Instruction::Mov {
            dst: Operand::Register(Register::AX),
            src: Operand::Register(Register::BX),
        }]
    );

    // D = 1: the reg field is the destination
    let instructions = decode(&[0x8b, 0xd8]).unwrap();
    assert_eq!(
        instructions,
        vec![Instruction::Mov {
            dst: Operand::Register(Register::BX),
            src: Operand::Register(Register::AX),
        }]
    );
}

#[test]
fn direct_address_overrides_bp_formula() {
    let instructions = decode(&[0x88, 0x06, 0x34, 0x12]).unwrap();
    assert_eq!(
        instructions,
        vec![Instruction::Mov {
            dst: Operand::MemDirect(0x1234),
            src: Operand::Register(Register::AL),
        }]
    );
}

#[test]
fn short_displacement_is_sign_extended() {
    // mode 01, r/m 110 (BP), displacement byte 0xff
    let instructions = decode(&[0x8b, 0x46, 0xff]).unwrap();
    assert_eq!(
        instructions,
        vec![Instruction::Mov {
            dst: Operand::Register(Register::AX),
            src: Operand::Mem {
                formula: EffectiveAddressFormula::Bp,
                displacement: Some(-1),
            },
        }]
    );
}

#[test]
fn word_displacement_keeps_full_width() {
    // mode 10, r/m 110 (BP), displacement word 0xffff
    let instructions = decode(&[0x8b, 0x86, 0xff, 0xff]).unwrap();
    assert_eq!(
        instructions,
        vec![Instruction::Mov {
            dst: Operand::Register(Register::AX),
            src: Operand::Mem {
                formula: EffectiveAddressFormula::Bp,
                displacement: Some(-1),
            },
        }]
    );

    // a large positive word displacement is not sign-extended further
    let instructions = decode(&[0x8b, 0x87, 0xe8, 0x03]).unwrap();
    assert_eq!(
        instructions,
        vec![Instruction::Mov {
            dst: Operand::Register(Register::AX),
            src: Operand::Mem {
                formula: EffectiveAddressFormula::Bx,
                displacement: Some(1000),
            },
        }]
    );
}

#[test]
fn mode_zero_has_no_displacement() {
    let instructions = decode(&[0x8a, 0x00]).unwrap();
    assert_eq!(
        instructions,
        vec![Instruction::Mov {
            dst: Operand::Register(Register::AL),
            src: Operand::Mem {
                formula: EffectiveAddressFormula::BxPlusSi,
                displacement: None,
            },
        }]
    );
}

#[test]
fn immediate_to_memory_reads_width_from_w() {
    // W = 0: one data byte
    let instructions = decode(&[0xc6, 0x07, 200]).unwrap();
    assert_eq!(
        instructions,
        vec![Instruction::Mov {
            dst: Operand::Mem {
                formula: EffectiveAddressFormula::Bx,
                displacement: None,
            },
            src: Operand::Immediate {
                value: 200,
                needs_explicit_size: true,
            },
        }]
    );

    // W = 1: a little-endian data word
    let instructions = decode(&[0xc7, 0x07, 0x2c, 0x01]).unwrap();
    assert_eq!(
        instructions,
        vec![Instruction::Mov {
            dst: Operand::Mem {
                formula: EffectiveAddressFormula::Bx,
                displacement: None,
            },
            src: Operand::Immediate {
                value: 300,
                needs_explicit_size: true,
            },
        }]
    );
}

#[test]
fn immediate_to_memory_mode_three_targets_register() {
    let instructions = decode(&[0xc6, 0xc1, 12]).unwrap();
    assert_eq!(
        instructions,
        vec![Instruction::Mov {
            dst: Operand::Register(Register::CL),
            src: Operand::Immediate {
                value: 12,
                needs_explicit_size: true,
            },
        }]
    );
}

#[test]
fn immediate_to_register_width_from_first_byte() {
    let instructions = decode(&[0xb1, 12]).unwrap();
    assert_eq!(
        instructions,
        vec![Instruction::Mov {
            dst: Operand::Register(Register::CL),
            src: Operand::Immediate {
                value: 12,
                needs_explicit_size: false,
            },
        }]
    );

    let instructions = decode(&[0xb9, 0x2c, 0x01]).unwrap();
    assert_eq!(
        instructions,
        vec![Instruction::Mov {
            dst: Operand::Register(Register::CX),
            src: Operand::Immediate {
                value: 300,
                needs_explicit_size: false,
            },
        }]
    );
}

#[test]
fn accumulator_forms_use_direct_addresses() {
    let instructions = decode(&[0xa1, 0x34, 0x12]).unwrap();
    assert_eq!(
        instructions,
        vec![Instruction::Mov {
            dst: Operand::Register(Register::AX),
            src: Operand::MemDirect(0x1234),
        }]
    );

    let instructions = decode(&[0xa0, 0x34, 0x12]).unwrap();
    assert_eq!(
        instructions,
        vec![Instruction::Mov {
            dst: Operand::Register(Register::AL),
            src: Operand::MemDirect(0x1234),
        }]
    );

    let instructions = decode(&[0xa3, 0x34, 0x12]).unwrap();
    assert_eq!(
        instructions,
        vec![Instruction::Mov {
            dst: Operand::MemDirect(0x1234),
            src: Operand::Register(Register::AX),
        }]
    );

    let instructions = decode(&[0xa2, 0x34, 0x12]).unwrap();
    assert_eq!(
        instructions,
        vec![Instruction::Mov {
            dst: Operand::MemDirect(0x1234),
            src: Operand::Register(Register::AL),
        }]
    );
}

#[test]
fn every_formula_decodes_from_its_code() {
    let cases: [(u8, EffectiveAddressFormula); 7] = [
        (0b000, EffectiveAddressFormula::BxPlusSi),
        (0b001, EffectiveAddressFormula::BxPlusDi),
        (0b010, EffectiveAddressFormula::BpPlusSi),
        (0b011, EffectiveAddressFormula::BpPlusDi),
        (0b100, EffectiveAddressFormula::Si),
        (0b101, EffectiveAddressFormula::Di),
        (0b111, EffectiveAddressFormula::Bx),
    ];
    for (rm, formula) in cases {
        // mode 00: no displacement (r/m 110 is the direct address instead)
        let instructions = decode(&[0x8b, rm]).unwrap();
        assert_eq!(
            instructions,
            vec![Instruction::Mov {
                dst: Operand::Register(Register::AX),
                src: Operand::Mem {
                    formula,
                    displacement: None,
                },
            }]
        );
    }
    // BP is reachable through mode 01 with a zero displacement byte
    let instructions = decode(&[0x8b, 0x46, 0x00]).unwrap();
    assert_eq!(
        instructions,
        vec![Instruction::Mov {
            dst: Operand::Register(Register::AX),
            src: Operand::Mem {
                formula: EffectiveAddressFormula::Bp,
                displacement: Some(0),
            },
        }]
    );
}

#[test]
fn unrecognized_opcode_reports_byte_and_offset() {
    assert_eq!(
        decode(&[0x00]),
        Err(DecodeError::UnrecognizedOpcode {
            byte: 0x00,
            offset: 0,
        })
    );
    assert_eq!(
        decode(&[0x89, 0xd8, 0xf4]),
        Err(DecodeError::UnrecognizedOpcode {
            byte: 0xf4,
            offset: 2,
        })
    );
}

#[test]
fn truncated_input_reports_instruction_start() {
    assert_eq!(decode(&[0x89]), Err(DecodeError::Truncated { offset: 0 }));
    assert_eq!(
        decode(&[0xb8, 0x01]),
        Err(DecodeError::Truncated { offset: 0 })
    );
    assert_eq!(
        decode(&[0x89, 0xd8, 0x8b, 0x46]),
        Err(DecodeError::Truncated { offset: 2 })
    );
    assert_eq!(
        decode(&[0xc7, 0x07, 0x2c]),
        Err(DecodeError::Truncated { offset: 0 })
    );
    assert_eq!(
        decode(&[0xa1, 0x34]),
        Err(DecodeError::Truncated { offset: 0 })
    );
}

#[test]
fn empty_input_decodes_to_no_instructions() {
    assert_eq!(decode(&[]), Ok(vec![]));
}

#[test]
fn decoding_twice_is_deterministic() {
    let bytes = [0x89, 0xd8, 0x8b, 0x46, 0xff, 0xc6, 0x07, 200, 0xa1, 0x34, 0x12];
    let first = decode(&bytes);
    let second = decode(&bytes);
    assert_eq!(first, second);
    let first = first.unwrap();
    let text_first: Vec<String> = first.iter().map(|i| i.text()).collect();
    let text_second: Vec<String> = second.unwrap().iter().map(|i| i.text()).collect();
    assert_eq!(text_first, text_second);
}
