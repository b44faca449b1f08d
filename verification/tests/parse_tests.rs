use x64_asm::{parse_atandt, Context, GeneralPurposeRegister, Immediate, Opcode, Operand, State, SymbolTable};

fn new_context() -> Context {
    Context {
        state: State::TopLevel,
        syms: SymbolTable::new(),
    }
}

#[test]
fn parse_symname_test() {
    let mut ctxt = new_context();
    ctxt.toplevel("main:    \n");

    assert!(!ctxt.syms.is_empty());
    assert_eq!(State::InSymbol("main".to_string()), ctxt.state);
    assert!(ctxt.syms.get("main").is_some());
}

#[test]
fn parse_global_directive_test() {
    let mut ctxt = new_context();
    ctxt.toplevel("    .global main    \n");

    assert!(!ctxt.syms.is_empty());
    assert_eq!(State::TopLevel, ctxt.state);
    assert!(ctxt.syms.get("main").unwrap().is_global());
}

#[test]
fn parse_type_directive_test() {
    let mut ctxt = new_context();
    ctxt.toplevel("    .type    main, @function    \n");

    assert!(!ctxt.syms.is_empty());
    assert_eq!(State::TopLevel, ctxt.state);
    assert!(ctxt.syms.get("main").unwrap().is_function());
}

#[test]
fn parse_pushq_test() {
    let mut ctxt = new_context();
    ctxt.toplevel("main:    \n");
    ctxt.in_symbol("pushq %rax", "main");
    assert_eq!(
        Opcode::PUSHR64 {
            r64: GeneralPurposeRegister::RAX
        },
        ctxt.syms.get("main").unwrap().groups[0].insts[0].opcode
    );
}

#[test]
fn parse_popq_test() {
    let mut ctxt = new_context();
    ctxt.toplevel("main:    \n");
    ctxt.in_symbol("    popq %rax", "main");
    assert_eq!(
        Opcode::POPR64 {
            r64: GeneralPurposeRegister::RAX
        },
        ctxt.syms.get("main").unwrap().groups[0].insts[0].opcode
    );
}

#[test]
fn parse_moveq_test() {
    let mut ctxt = new_context();
    ctxt.toplevel("main:    \n");
    ctxt.in_symbol("movq $42, %rax", "main");
    assert_eq!(
        Opcode::MOVRM64IMM32 {
            imm: Immediate::I32(42),
            rm64: Operand::GENERALREGISTER(GeneralPurposeRegister::RAX),
        },
        ctxt.syms.get("main").unwrap().groups[0].insts[0].opcode
    );
}

#[test]
fn parse_ret_test() {
    let mut ctxt = new_context();
    ctxt.toplevel("main:    \n");

    ctxt.in_symbol("  ret\n", "main");
    assert_eq!(State::InSymbol("main".to_string()), ctxt.state);
    assert_eq!(1, ctxt.syms.get("main").unwrap().groups[0].insts.len());
    assert_eq!(
        Opcode::RET,
        ctxt.syms.get("main").unwrap().groups[0].insts[0].opcode
    );
}

#[test]
fn parse_operand_test() {
    assert_eq!(
        Operand::GENERALREGISTER(GeneralPurposeRegister::RAX),
        Context::parse_operand("%rax")
    );
    assert_eq!(
        Operand::GENERALREGISTER(GeneralPurposeRegister::RAX),
        Context::parse_operand("%rax,")
    );
    assert_eq!(
        Operand::Immediate(Immediate::I8(30)),
        Context::parse_operand("$30")
    );
}

#[test]
fn is_blank_line_test() {
    assert!(Context::is_blank_line("\n"));
    assert!(Context::is_blank_line("        \n"));
    assert!(Context::is_blank_line("\t\t\t\t\n"));
}

#[test]
fn case1_test() {
    let s = "	.globl	foo
    .type	foo, @function
foo:
    pushq	%rbp
    movq	%rsp, %rbp
    movq	$30, %rax
    popq	%rbp
    ret
    .globl	main
    .type	main, @function
main:
    pushq	%rbp
    movq	%rsp, %rbp
    movq	$0, %rax
    call	foo
    popq	%rbp
    ret".to_string();

    let syms = parse_atandt(s);

    for name in syms.names_vec().iter() {
        println!("{}", name);
    }
    assert_eq!(2, syms.len());
    assert!(syms.get("foo").unwrap().is_global() && syms.get("foo").unwrap().is_function());
    assert!(syms.get("main").unwrap().is_global() && syms.get("main").unwrap().is_function());

    assert_eq!(5, syms.get("foo").unwrap().groups[0].insts.len());
    assert_eq!(6, syms.get("main").unwrap().groups[0].insts.len());
}
