use x64_asm::{GeneralPurposeRegister, Instruction, Opcode, Operand};

fn idivrm64() -> [Instruction; 1] {
    [Instruction {
        opcode: Opcode::IDIVRM64 {
            rm64: Operand::ADDRESSING {
                base_reg: GeneralPurposeRegister::RAX,
                index_reg: None,
                displacement: None,
                scale: None,
            },
        },
    }]
}

#[test]
fn idivrm64_test() {
    let insts = idivrm64();
    let inst = &insts[0];
    assert_eq!(inst.to_bytes(), vec![0x48, 0xf7, 0x38]);
}
