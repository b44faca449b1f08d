use x64_asm::{
    parse_atandt, try_parse_atandt, Context, Displacement, GeneralPurposeRegister, Immediate,
    Instruction, Opcode, Operand, State, Symbol,
};

fn inst(opcode: Opcode) -> Instruction {
    Instruction { opcode }
}

fn reg(r: GeneralPurposeRegister) -> Operand {
    Operand::GENERALREGISTER(r)
}

fn addr(base: GeneralPurposeRegister, disp: Option<Displacement>) -> Operand {
    Operand::ADDRESSING { base_reg: base, index_reg: None, displacement: disp, scale: None }
}

// ----- symbols -----

#[test]
fn symbol_default_is_local_and_untyped() {
    let s: Symbol = Default::default();
    assert!(!s.is_function());
    assert!(!s.is_global());
    assert_eq!(s.visibility, 0);
    assert_eq!(s.ty, 0);
    assert!(s.groups.is_empty());
}

#[test]
fn symbol_as_function_test() {
    let mut s: Symbol = Default::default();
    assert!(!s.is_function());
    s.as_function();
    assert!(s.is_function());
    assert!(!s.is_global());
    assert_eq!(s.ty, 2);
}

#[test]
fn symbol_as_global_test() {
    let mut s: Symbol = Default::default();
    assert!(!s.is_global());
    s.as_global();
    assert!(s.is_global());
    assert!(!s.is_function());
    assert_eq!(s.visibility, 1);
}

// ----- encoding -----

#[test]
fn encode_ret_push_pop() {
    assert_eq!(inst(Opcode::RET).to_bytes(), vec![0xc3]);
    assert_eq!(inst(Opcode::PUSHR64 { r64: GeneralPurposeRegister::RBP }).to_bytes(), vec![0x55]);
    assert_eq!(inst(Opcode::POPR64 { r64: GeneralPurposeRegister::RBP }).to_bytes(), vec![0x5d]);
    assert_eq!(inst(Opcode::PUSHR64 { r64: GeneralPurposeRegister::R12 }).to_bytes(), vec![0x41, 0x54]);
    assert_eq!(inst(Opcode::POPR64 { r64: GeneralPurposeRegister::R15 }).to_bytes(), vec![0x41, 0x5f]);
}

#[test]
fn encode_push_immediate_widens_to_32_bits() {
    assert_eq!(
        inst(Opcode::PUSHIMM32 { imm: Immediate::I8(42) }).to_bytes(),
        vec![0x68, 0x2a, 0x00, 0x00, 0x00]
    );
    assert_eq!(
        inst(Opcode::PUSHIMM32 { imm: Immediate::I8(-1) }).to_bytes(),
        vec![0x68, 0xff, 0xff, 0xff, 0xff]
    );
    assert_eq!(
        inst(Opcode::PUSHIMM32 { imm: Immediate::I32(0x12345678) }).to_bytes(),
        vec![0x68, 0x78, 0x56, 0x34, 0x12]
    );
}

#[test]
fn encode_extended_registers_set_rex_bits() {
    // mov r8, rax
    assert_eq!(
        inst(Opcode::MOVRM64R64 { rm64: reg(GeneralPurposeRegister::R8), r64: reg(GeneralPurposeRegister::RAX) }).to_bytes(),
        vec![0x49, 0x89, 0xc0]
    );
    // mov rax, r9
    assert_eq!(
        inst(Opcode::MOVRM64R64 { rm64: reg(GeneralPurposeRegister::RAX), r64: reg(GeneralPurposeRegister::R9) }).to_bytes(),
        vec![0x4c, 0x89, 0xc8]
    );
}

#[test]
fn encode_rbp_and_rsp_bases() {
    // mov [rbp], rax: rbp as base needs an 8-bit displacement of 0
    assert_eq!(
        inst(Opcode::MOVRM64R64 { rm64: addr(GeneralPurposeRegister::RBP, None), r64: reg(GeneralPurposeRegister::RAX) }).to_bytes(),
        vec![0x48, 0x89, 0x45, 0x00]
    );
    // mov [rsp], rax: rsp as base needs a SIB byte
    assert_eq!(
        inst(Opcode::MOVRM64R64 { rm64: addr(GeneralPurposeRegister::RSP, None), r64: reg(GeneralPurposeRegister::RAX) }).to_bytes(),
        vec![0x48, 0x89, 0x04, 0x24]
    );
}

#[test]
fn encode_displacements() {
    // mov [rbp - 8], rax
    assert_eq!(
        inst(Opcode::MOVRM64R64 {
            rm64: addr(GeneralPurposeRegister::RBP, Some(Displacement::DISP8(-8))),
            r64: reg(GeneralPurposeRegister::RAX),
        })
        .to_bytes(),
        vec![0x48, 0x89, 0x45, 0xf8]
    );
    // idiv QWORD PTR [rax + 256]
    assert_eq!(
        inst(Opcode::IDIVRM64 { rm64: addr(GeneralPurposeRegister::RAX, Some(Displacement::DISP32(256))) }).to_bytes(),
        vec![0x48, 0xf7, 0xb8, 0x00, 0x01, 0x00, 0x00]
    );
}

#[test]
fn encode_call_leaves_offset_for_the_linker() {
    let call = inst(Opcode::CALLFUNC { func: Operand::LABEL("foo".to_string()) });
    assert_eq!(call.to_bytes(), vec![0xe8, 0x00, 0x00, 0x00, 0x00]);
    assert_eq!(call.to_intel_string(), "call foo");
    assert_eq!(call.to_at_string(), "call foo");
}

#[test]
fn encoding_length_is_bounded() {
    let longest = inst(Opcode::MOVRM64IMM32 {
        rm64: Operand::ADDRESSING {
            base_reg: GeneralPurposeRegister::R12,
            index_reg: Some(GeneralPurposeRegister::R13),
            displacement: Some(Displacement::DISP32(-1)),
            scale: Some(8),
        },
        imm: Immediate::I32(-1),
    });
    let bytes = longest.to_bytes();
    assert_eq!(bytes, vec![0x4b, 0xc7, 0x84, 0xec, 0xff, 0xff, 0xff, 0xff, 0xff, 0xff, 0xff, 0xff]);
    assert!(bytes.len() >= 1 && bytes.len() <= 15);
}

#[test]
fn sixty_four_bit_forms_start_with_rex_w() {
    let forms = vec![
        inst(Opcode::MOVRM64R64 { rm64: reg(GeneralPurposeRegister::RBX), r64: reg(GeneralPurposeRegister::RDX) }),
        inst(Opcode::MOVRM64IMM32 { rm64: reg(GeneralPurposeRegister::RDI), imm: Immediate::I32(7) }),
        inst(Opcode::IDIVRM64 { rm64: reg(GeneralPurposeRegister::RCX) }),
    ];
    for f in forms.iter() {
        let b = f.to_bytes();
        assert!(b[0] >= 0x48 && b[0] <= 0x4f);
    }
}

// ----- text -----

#[test]
fn intel_and_at_text() {
    let push = inst(Opcode::PUSHR64 { r64: GeneralPurposeRegister::RBP });
    assert_eq!(push.to_intel_string(), "push rbp");
    assert_eq!(push.to_at_string(), "pushq %rbp");
    let pushi = inst(Opcode::PUSHIMM32 { imm: Immediate::I32(-2147483648) });
    assert_eq!(pushi.to_intel_string(), "push -2147483648");
    assert_eq!(pushi.to_at_string(), "pushq $-2147483648");
    let store = inst(Opcode::MOVRM64R64 {
        rm64: addr(GeneralPurposeRegister::RBP, Some(Displacement::DISP8(-8))),
        r64: reg(GeneralPurposeRegister::RAX),
    });
    assert_eq!(store.to_intel_string(), "mov QWORD PTR [rbp - 8], rax");
    assert_eq!(store.to_at_string(), "movq %rax, -8(%rbp)");
    let idiv = inst(Opcode::IDIVRM64 { rm64: addr(GeneralPurposeRegister::RAX, None) });
    assert_eq!(idiv.to_intel_string(), "idiv QWORD PTR [rax]");
    assert_eq!(idiv.to_at_string(), "idivq (%rax)");
    assert_eq!(inst(Opcode::RET).to_at_string(), "ret");
}

#[test]
fn printed_operands_parse_back() {
    for r in [GeneralPurposeRegister::RAX, GeneralPurposeRegister::R13, GeneralPurposeRegister::BH] {
        let text = inst(Opcode::PUSHR64 { r64: r }).to_at_string();
        let operand = text.split_ascii_whitespace().nth(1).unwrap().to_string();
        assert_eq!(Context::parse_operand(&operand), reg(r));
    }
    let text = inst(Opcode::PUSHIMM32 { imm: Immediate::I32(-300) }).to_at_string();
    let operand = text.split_ascii_whitespace().nth(1).unwrap().to_string();
    assert_eq!(Context::parse_operand(&operand), Operand::Immediate(Immediate::I32(-300)));
    let text = inst(Opcode::PUSHIMM32 { imm: Immediate::I32(100) }).to_at_string();
    let operand = text.split_ascii_whitespace().nth(1).unwrap().to_string();
    assert_eq!(Context::parse_operand(&operand), Operand::Immediate(Immediate::I8(100)));
}

// ----- operands -----

#[test]
fn operand_forms() {
    assert_eq!(Context::parse_operand("$127"), Operand::Immediate(Immediate::I8(127)));
    assert_eq!(Context::parse_operand("$128"), Operand::Immediate(Immediate::I32(128)));
    assert_eq!(Context::parse_operand("$-128"), Operand::Immediate(Immediate::I8(-128)));
    assert_eq!(Context::parse_operand("$+7"), Operand::Immediate(Immediate::I8(7)));
    assert_eq!(Context::parse_operand("2147483647"), Operand::Immediate(Immediate::I32(2147483647)));
    assert_eq!(Context::parse_operand("$2147483648"), Operand::LABEL("$2147483648".to_string()));
    assert_eq!(Context::parse_operand("foo"), Operand::LABEL("foo".to_string()));
    assert_eq!(Context::parse_operand("$-"), Operand::LABEL("$-".to_string()));
    assert_eq!(Context::parse_operand("%bh"), reg(GeneralPurposeRegister::BH));
    assert_eq!(Context::try_parse_operand("%xyz"), None);
}

#[test]
fn trailing_comma_is_ignored() {
    assert_eq!(Context::parse_operand("$5,"), Context::parse_operand("$5"));
    assert_eq!(Context::parse_operand("%r12,"), Context::parse_operand("%r12"));
    assert_eq!(Context::parse_operand("bar,"), Context::parse_operand("bar"));
}

#[test]
fn remove_pat_and_newline_test() {
    assert_eq!(Context::remove_pat_and_newline("main::  \n", ":"), "main");
    assert_eq!(Context::remove_pat_and_newline("x, ", ","), "x");
    assert_eq!(Context::remove_pat_and_newline("  y", ","), "  y");
}

#[test]
fn blank_lines_are_whitespace_only() {
    assert!(Context::is_blank_line(""));
    assert!(Context::is_blank_line(" \u{a0}\u{3000}\r\n"));
    assert!(!Context::is_blank_line(" x "));
}

// ----- parser -----

#[test]
fn labels_start_groups() {
    let src = "f:\n  pushq %rbp\n.L1:\n  popq %rbp\n  ret\n".to_string();
    let syms = parse_atandt(src);
    let f = syms.get("f").unwrap();
    assert_eq!(f.groups.len(), 2);
    assert_eq!(f.groups[0].label, ".Lf_entry");
    assert_eq!(f.groups[0].insts.len(), 1);
    assert_eq!(f.groups[1].label, ".L1");
    assert_eq!(f.groups[1].insts.len(), 2);
}

#[test]
fn blank_lines_change_nothing() {
    let a = parse_atandt("g:\n  pushq $1\n  ret\n".to_string());
    let b = parse_atandt("\n  \ng:\n\n  pushq $1\n \t\n  ret\n\n".to_string());
    assert_eq!(a.names_vec(), b.names_vec());
    assert_eq!(a.get("g"), b.get("g"));
}

#[test]
fn crlf_lines() {
    let syms = parse_atandt("h:\r\n  ret\r\n".to_string());
    assert_eq!(syms.get("h").unwrap().groups[0].insts[0].opcode, Opcode::RET);
}

#[test]
fn names_come_in_order() {
    let syms = parse_atandt(".globl zeta\n.globl alpha\n.globl mid\n".to_string());
    assert_eq!(syms.names_vec(), vec!["alpha".to_string(), "mid".to_string(), "zeta".to_string()]);
    assert_eq!(syms.len(), 3);
    assert!(syms.contains_key("mid"));
    assert!(!syms.contains_key("other"));
}

#[test]
fn refused_sources() {
    assert!(try_parse_atandt("f:\n  addq %rax, %rbx\n".to_string()).is_none());
    assert!(try_parse_atandt(".global\n".to_string()).is_none());
    assert!(try_parse_atandt(".global a b\n".to_string()).is_none());
    assert!(try_parse_atandt(".type f, @object\n".to_string()).is_none());
    assert!(try_parse_atandt("pushq %rax\n".to_string()).is_none());
    assert!(try_parse_atandt("f:\n  movq $1, $2\n".to_string()).is_none());
    assert!(try_parse_atandt("f:\n  popq $1\n".to_string()).is_none());
    assert!(try_parse_atandt("f:\n  pushq %rax %rbx\n".to_string()).is_none());
    assert!(try_parse_atandt("f:\n  call %rax\n".to_string()).is_none());
    assert!(try_parse_atandt("f:\n  pushq %foo\n".to_string()).is_none());
    assert!(try_parse_atandt("".to_string()).is_some());
}

#[test]
fn parsed_instructions_assemble() {
    let syms = parse_atandt("f:\n  pushq %rbp\n  movq %rsp, %rbp\n  movq $-2, %r10\n  pushq $1000\n  popq %r12\n  call g\n  ret\n".to_string());
    let f = syms.get("f").unwrap();
    let mut code: Vec<u8> = Vec::new();
    for i in f.groups[0].insts.iter() {
        code.extend(i.to_bytes());
    }
    assert_eq!(
        code,
        vec![
            0x55, 0x48, 0x89, 0xe5, 0x49, 0xc7, 0xc2, 0xfe, 0xff, 0xff, 0xff, 0x68, 0xe8, 0x03,
            0x00, 0x00, 0x41, 0x5c, 0xe8, 0x00, 0x00, 0x00, 0x00, 0xc3
        ]
    );
}

#[test]
fn context_steps() {
    let mut c = Context::new();
    assert!(!c.try_in_symbol("ret", "nosuch"));
    let mut c2 = Context::new();
    assert!(c2.try_toplevel("main:"));
    assert_eq!(c2.state, State::InSymbol("main".to_string()));
    assert!(c2.try_in_symbol("  .globl main", "main"));
    assert!(c2.syms.get("main").unwrap().is_global());
    assert_eq!(c2.state, State::InSymbol("main".to_string()));
    assert!(!c2.try_in_symbol("  jmp main", "main"));
    assert!(!c.try_toplevel("  movq %rax, %rbx"));
}

#[test]
fn at_text_reads_back() {
    let forms = vec![
        Opcode::RET,
        Opcode::PUSHR64 { r64: GeneralPurposeRegister::R11 },
        Opcode::POPR64 { r64: GeneralPurposeRegister::RSI },
        Opcode::PUSHIMM32 { imm: Immediate::I32(-7) },
        Opcode::PUSHIMM32 { imm: Immediate::I32(70000) },
        Opcode::MOVRM64R64 { rm64: reg(GeneralPurposeRegister::RDX), r64: reg(GeneralPurposeRegister::R14) },
        Opcode::MOVRM64IMM32 { rm64: reg(GeneralPurposeRegister::RAX), imm: Immediate::I32(3) },
        Opcode::CALLFUNC { func: Operand::LABEL("printf".to_string()) },
    ];
    for op in forms.into_iter() {
        let text = inst(op.clone()).to_at_string();
        let mut c = Context::new();
        c.toplevel("f:");
        c.in_symbol(&text, "f");
        assert_eq!(c.syms.get("f").unwrap().groups[0].insts[0].opcode, op);
    }
}

#[test]
fn unsupported_mnemonic_is_refused_even_before_a_colon() {
    assert!(try_parse_atandt("f:\n    addq $1, foo:\n".to_string()).is_none());
    assert!(try_parse_atandt("f:\n    addq x:\n".to_string()).is_none());
    let mut c = Context::new();
    assert!(c.try_toplevel("f:"));
    assert!(!c.try_in_symbol("    addq x:", "f"));
    let mut c2 = Context::new();
    assert!(c2.try_toplevel("f:"));
    assert!(c2.try_in_symbol("g:", "f"));
    assert_eq!(c2.state, State::InSymbol("g".to_string()));
}

#[test]
fn trailing_whitespace_is_ignored() {
    assert_eq!(Context::parse_operand("%rax \n"), Context::parse_operand("%rax"));
    assert_eq!(Context::parse_operand("$30\t"), Context::parse_operand("$30"));
    assert_eq!(Context::parse_operand("foo,  "), Context::parse_operand("foo,"));
}

#[test]
fn blank_source_lines_change_nothing() {
    let a = parse_atandt(".globl f\nf:\n  ret".to_string());
    let b = parse_atandt("  \r\n.globl f\n\t\nf:\n \n  ret\n   ".to_string());
    assert_eq!(a.names_vec(), b.names_vec());
    assert_eq!(a.get("f"), b.get("f"));
}

#[test]
fn walk_and_insert() {
    let mut syms = parse_atandt(".globl b\n.globl a\n".to_string());
    let mut walked: Vec<String> = Vec::new();
    for i in 0..syms.len() {
        let (name, sym) = syms.entry_at(i);
        assert!(sym.is_global());
        walked.push(name);
    }
    assert_eq!(walked, vec!["a".to_string(), "b".to_string()]);

    let mut f: Symbol = Default::default();
    f.as_function();
    assert!(syms.insert("c", f.clone()).is_none());
    let prev = syms.insert("a", f).unwrap();
    assert!(prev.is_global());
    assert!(syms.get("a").unwrap().is_function());
    assert!(!syms.get("a").unwrap().is_global());
    assert_eq!(syms.names_vec(), vec!["a".to_string(), "b".to_string(), "c".to_string()]);
}

#[test]
fn many_blank_lines_and_after_last_line() {
    let base = parse_atandt("f:\n  pushq %rax\n  ret".to_string());
    let more = parse_atandt("\n \n\t\r\nf:\n\n\n  pushq %rax\n \n\n  ret".to_string());
    let after = parse_atandt("f:\n  pushq %rax\n  ret\n  \n\t".to_string());
    let cr = parse_atandt("f:\n  pushq %rax\n  ret\r".to_string());
    let cr_after = parse_atandt("f:\n  pushq %rax\n  ret\r\n   ".to_string());
    for other in [&more, &after, &cr, &cr_after] {
        assert_eq!(base.names_vec(), other.names_vec());
        assert_eq!(base.get("f"), other.get("f"));
    }
}

#[test]
fn operand_comma_or_whitespace() {
    for s in ["%rax", "$42", "foo", "$-9"] {
        let with_comma = format!("{},", s);
        let with_space = format!("{} \n", s);
        assert_eq!(Context::parse_operand(&with_comma), Context::parse_operand(s));
        assert_eq!(Context::parse_operand(&with_space), Context::parse_operand(s));
    }
}
