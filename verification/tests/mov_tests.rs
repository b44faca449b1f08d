use x64_asm::{GeneralPurposeRegister, Immediate, Instruction, Opcode, Operand};

fn mov_bh_ah() -> Instruction {
    // mov bh, ah
    Instruction {
        opcode: Opcode::MOVRM8R8 {
            rm8: Operand::GENERALREGISTER(GeneralPurposeRegister::BH),
            r8: Operand::GENERALREGISTER(GeneralPurposeRegister::AH),
        },
    }
}

fn mov_byte_rax_bh() -> Instruction {
    // mov BYTE PTR [rax], bh
    Instruction {
        opcode: Opcode::MOVRM8R8 {
            rm8: Operand::ADDRESSING {
                base_reg: GeneralPurposeRegister::AL,
                index_reg: None,
                displacement: None,
                scale: None,
            },
            r8: Operand::GENERALREGISTER(GeneralPurposeRegister::BH),
        },
    }
}

fn mov_rax_rcx() -> Instruction {
    // mov rax, rcx
    Instruction {
        opcode: Opcode::MOVRM64R64 {
            rm64: Operand::GENERALREGISTER(GeneralPurposeRegister::RAX),
            r64: Operand::GENERALREGISTER(GeneralPurposeRegister::RCX),
        },
    }
}

fn mov_sib_rcx() -> Instruction {
    // mov [rax + rbx * 4], rcx
    Instruction {
        opcode: Opcode::MOVRM64R64 {
            rm64: Operand::ADDRESSING {
                base_reg: GeneralPurposeRegister::RAX,
                index_reg: Some(GeneralPurposeRegister::RBX),
                displacement: None,
                scale: Some(0x4),
            },
            r64: Operand::GENERALREGISTER(GeneralPurposeRegister::RCX),
        },
    }
}

fn mov_qword_rax_60() -> Instruction {
    // mov QWORD PTR [rax], 60
    Instruction {
        opcode: Opcode::MOVRM64IMM32 {
            rm64: Operand::ADDRESSING {
                base_reg: GeneralPurposeRegister::RAX,
                index_reg: None,
                displacement: None,
                scale: None,
            },
            imm: Immediate::I32(60),
        },
    }
}

// to_intel_string, to_at_string and to_bytes of `mov r/m8, r8`.
#[test]
fn mov_tests_movrm8r8_test() {
    assert_eq!(mov_bh_ah().to_intel_string(), "mov bh, ah");
    assert_eq!(mov_byte_rax_bh().to_intel_string(), "mov BYTE PTR [rax], bh");

    assert_eq!(mov_bh_ah().to_at_string(), "movb %ah, %bh");
    assert_eq!(mov_byte_rax_bh().to_at_string(), "movb %bh, (%rax)");

    assert_eq!(mov_bh_ah().to_bytes(), vec![0x88, 0xe7]);
    assert_eq!(mov_byte_rax_bh().to_bytes(), vec![0x88, 0x38]);
}

// to_intel_string, to_at_string and to_bytes of `mov r/m64, r64`.
#[test]
fn mov_tests_movrm64r64_test() {
    assert_eq!(mov_rax_rcx().to_intel_string(), "mov rax, rcx");
    assert_eq!(mov_sib_rcx().to_intel_string(), "mov QWORD PTR [rax + rbx * 4], rcx");

    assert_eq!(mov_rax_rcx().to_at_string(), "movq %rcx, %rax");
    assert_eq!(mov_sib_rcx().to_at_string(), "movq %rcx, (%rax, %rbx, 4)");

    assert_eq!(mov_rax_rcx().to_bytes(), vec![0x48, 0x89, 0xc8]);
    assert_eq!(mov_sib_rcx().to_bytes(), vec![0x48, 0x89, 0x0c, 0x98]);
}

// to_intel_string, to_at_string and to_bytes of `mov r/m64, imm32`.
#[test]
fn mov_tests_movrm64imm32_test() {
    assert_eq!(mov_qword_rax_60().to_intel_string(), "mov QWORD PTR [rax], 60");
    assert_eq!(mov_qword_rax_60().to_at_string(), "movq $60, (%rax)");
    assert_eq!(
        mov_qword_rax_60().to_bytes(),
        vec![0x48, 0xc7, 0x00, 0x3c, 0x00, 0x00, 0x00]
    );
}
