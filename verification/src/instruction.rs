//! An x86-64 instruction: its machine code and its text in Intel and AT&T
//! syntax.
use vstd::prelude::*;

use crate::immediate::Displacement;
use crate::opcode::{Opcode, OpcodeModel};
use crate::operand::{Operand, OperandModel};
use crate::register::GeneralPurposeRegister;
use crate::text::{int_to_decimal, parse_decimal, push_char, push_decimal, push_str};

verus! {

/// An implementation of x64 instruction.
#[derive(Eq, Ord, PartialOrd, PartialEq, Debug, Clone)]
pub struct Instruction {
    pub opcode: Opcode,
}

impl View for Instruction {
    type V = OpcodeModel;

    open spec fn view(&self) -> OpcodeModel {
        self.opcode@
    }
}

// ---------------------------------------------------------------------------
// Intel syntax
// ---------------------------------------------------------------------------

/// A displacement written after a base and index: ` + 8` or ` - 8`.
pub open spec fn signed_term(v: int) -> Seq<char> {
    if v < 0 {
        " - "@ + int_to_decimal(-v)
    } else {
        " + "@ + int_to_decimal(v)
    }
}

/// An operand in Intel syntax. An address is written
/// `PTR [base + index * scale + disp]` with the size keyword `ptr` before it
/// and its registers named as 64-bit registers.
pub open spec fn intel_operand(o: OperandModel, ptr: Seq<char>) -> Seq<char> {
    match o {
        OperandModel::GENERALREGISTER(r) => r.spec_name(),
        OperandModel::Immediate(i) => int_to_decimal(i.spec_value()),
        OperandModel::LABEL(s) => s,
        OperandModel::ADDRESSING { base_reg, index_reg, displacement, scale } => ptr + "["@
            + base_reg.spec_to_64bit().spec_name() + intel_index(index_reg, scale) + intel_disp(
            displacement,
        ) + "]"@,
    }
}

/// The index part of an Intel address: ` + index * scale`.
pub open spec fn intel_index(index_reg: Option<GeneralPurposeRegister>, scale: Option<u8>) -> Seq<
    char,
> {
    match index_reg {
        Some(i) => " + "@ + i.spec_to_64bit().spec_name() + (match scale {
            Some(s) => " * "@ + int_to_decimal(s as int),
            None => Seq::empty(),
        }),
        None => Seq::empty(),
    }
}

/// The displacement part of an Intel address.
pub open spec fn intel_disp(displacement: Option<Displacement>) -> Seq<char> {
    match displacement {
        Some(d) => signed_term(d.spec_value()),
        None => Seq::empty(),
    }
}

pub open spec fn qword_ptr() -> Seq<char> {
    "QWORD PTR "@
}

pub open spec fn byte_ptr() -> Seq<char> {
    "BYTE PTR "@
}

/// The instruction in Intel syntax: mnemonic, then destination before source.
pub open spec fn intel_string(op: OpcodeModel) -> Seq<char> {
    match op {
        OpcodeModel::RET => "ret"@,
        OpcodeModel::PUSHR64 { r64 } => "push "@ + r64.spec_name(),
        OpcodeModel::POPR64 { r64 } => "pop "@ + r64.spec_name(),
        OpcodeModel::PUSHIMM32 { imm } => "push "@ + int_to_decimal(imm.spec_value()),
        OpcodeModel::MOVRM64R64 { rm64, r64 } => "mov "@ + intel_operand(rm64, qword_ptr()) + ", "@
            + intel_operand(r64, qword_ptr()),
        OpcodeModel::MOVRM64IMM32 { rm64, imm } => "mov "@ + intel_operand(rm64, qword_ptr())
            + ", "@ + int_to_decimal(imm.spec_value()),
        OpcodeModel::MOVRM8R8 { rm8, r8 } => "mov "@ + intel_operand(rm8, byte_ptr()) + ", "@
            + intel_operand(r8, byte_ptr()),
        OpcodeModel::IDIVRM64 { rm64 } => "idiv "@ + intel_operand(rm64, qword_ptr()),
        OpcodeModel::CALLFUNC { func } => "call "@ + intel_operand(func, qword_ptr()),
    }
}

// ---------------------------------------------------------------------------
// AT&T syntax
// ---------------------------------------------------------------------------

/// An operand in AT&T syntax: `%reg`, `$imm`, a label, or
/// `disp(%base, %index, scale)` with 64-bit register names.
pub open spec fn at_operand(o: OperandModel) -> Seq<char> {
    match o {
        OperandModel::GENERALREGISTER(r) => r.spec_at_name(),
        OperandModel::Immediate(i) => seq!['$'] + int_to_decimal(i.spec_value()),
        OperandModel::LABEL(s) => s,
        OperandModel::ADDRESSING { base_reg, index_reg, displacement, scale } => at_disp(
            displacement,
        ) + "("@ + base_reg.spec_to_64bit().spec_at_name() + at_index(index_reg, scale) + ")"@,
    }
}

/// The displacement before an AT&T address.
pub open spec fn at_disp(displacement: Option<Displacement>) -> Seq<char> {
    match displacement {
        Some(d) => int_to_decimal(d.spec_value()),
        None => Seq::empty(),
    }
}

/// The index part of an AT&T address: `, %index, scale`.
pub open spec fn at_index(index_reg: Option<GeneralPurposeRegister>, scale: Option<u8>) -> Seq<
    char,
> {
    match index_reg {
        Some(i) => ", "@ + i.spec_to_64bit().spec_at_name() + (match scale {
            Some(s) => ", "@ + int_to_decimal(s as int),
            None => Seq::empty(),
        }),
        None => Seq::empty(),
    }
}

/// The instruction in AT&T syntax: size-suffixed mnemonic, then source
/// before destination.
pub open spec fn at_string(op: OpcodeModel) -> Seq<char> {
    match op {
        OpcodeModel::RET => "ret"@,
        OpcodeModel::PUSHR64 { r64 } => "pushq "@ + r64.spec_at_name(),
        OpcodeModel::POPR64 { r64 } => "popq "@ + r64.spec_at_name(),
        OpcodeModel::PUSHIMM32 { imm } => "pushq "@ + at_operand(OperandModel::Immediate(imm)),
        OpcodeModel::MOVRM64R64 { rm64, r64 } => "movq "@ + at_operand(r64) + ", "@ + at_operand(
            rm64,
        ),
        OpcodeModel::MOVRM64IMM32 { rm64, imm } => "movq "@ + at_operand(
            OperandModel::Immediate(imm),
        ) + ", "@ + at_operand(rm64),
        OpcodeModel::MOVRM8R8 { rm8, r8 } => "movb "@ + at_operand(r8) + ", "@ + at_operand(rm8),
        OpcodeModel::IDIVRM64 { rm64 } => "idivq "@ + at_operand(rm64),
        OpcodeModel::CALLFUNC { func } => "call "@ + at_operand(func),
    }
}

fn push_at_register(out: &mut String, r: GeneralPurposeRegister)
    ensures
        final(out)@ == old(out)@ + r.spec_at_name(),
{
    push_char(out, '%');
    push_str(out, r.name());
    assert(out@ =~= old(out)@ + r.spec_at_name());
}

fn write_intel_index(
    out: &mut String,
    index_reg: &Option<GeneralPurposeRegister>,
    scale: &Option<u8>,
)
    ensures
        final(out)@ == old(out)@ + intel_index(*index_reg, *scale),
{
    match index_reg {
        Some(i) => {
            push_str(out, " + ");
            push_str(out, i.to_64bit().name());
            match scale {
                Some(s) => {
                    push_str(out, " * ");
                    push_decimal(out, *s as i64);
                },
                None => {},
            }
        },
        None => {},
    }
    assert(out@ =~= old(out)@ + intel_index(*index_reg, *scale));
}

fn write_intel_disp(out: &mut String, displacement: &Option<Displacement>)
    ensures
        final(out)@ == old(out)@ + intel_disp(*displacement),
{
    match displacement {
        Some(d) => {
            let v = d.value();
            if v < 0 {
                push_str(out, " - ");
                push_decimal(out, -v);
            } else {
                push_str(out, " + ");
                push_decimal(out, v);
            }
        },
        None => {},
    }
    assert(out@ =~= old(out)@ + intel_disp(*displacement));
}

fn write_intel_operand(out: &mut String, o: &Operand, ptr: &str)
    ensures
        final(out)@ == old(out)@ + intel_operand(o@, ptr@),
{
    match o {
        Operand::GENERALREGISTER(r) => push_str(out, r.name()),
        Operand::Immediate(i) => push_decimal(out, i.value()),
        Operand::LABEL(s) => push_str(out, s.as_str()),
        Operand::ADDRESSING { base_reg, index_reg, displacement, scale } => {
            let ghost start = out@;
            push_str(out, ptr);
            push_str(out, "[");
            push_str(out, base_reg.to_64bit().name());
            write_intel_index(out, index_reg, scale);
            write_intel_disp(out, displacement);
            push_str(out, "]");
            assert(out@ =~= start + (ptr@ + "["@ + base_reg.spec_to_64bit().spec_name()
                + intel_index(*index_reg, *scale) + intel_disp(*displacement) + "]"@));
        },
    }
}

fn write_at_index(out: &mut String, index_reg: &Option<GeneralPurposeRegister>, scale: &Option<u8>)
    ensures
        final(out)@ == old(out)@ + at_index(*index_reg, *scale),
{
    match index_reg {
        Some(i) => {
            push_str(out, ", ");
            push_at_register(out, i.to_64bit());
            match scale {
                Some(s) => {
                    push_str(out, ", ");
                    push_decimal(out, *s as i64);
                },
                None => {},
            }
        },
        None => {},
    }
    assert(out@ =~= old(out)@ + at_index(*index_reg, *scale));
}

fn write_at_operand(out: &mut String, o: &Operand)
    ensures
        final(out)@ == old(out)@ + at_operand(o@),
{
    match o {
        Operand::GENERALREGISTER(r) => push_at_register(out, *r),
        Operand::Immediate(i) => {
            push_char(out, '$');
            push_decimal(out, i.value());
            assert(out@ =~= old(out)@ + at_operand(o@));
        },
        Operand::LABEL(s) => push_str(out, s.as_str()),
        Operand::ADDRESSING { base_reg, index_reg, displacement, scale } => {
            let ghost start = out@;
            match displacement {
                Some(d) => push_decimal(out, d.value()),
                None => {},
            }
            assert(out@ =~= start + at_disp(*displacement));
            push_str(out, "(");
            push_at_register(out, base_reg.to_64bit());
            write_at_index(out, index_reg, scale);
            push_str(out, ")");
            assert(out@ =~= start + (at_disp(*displacement) + "("@
                + base_reg.spec_to_64bit().spec_at_name() + at_index(*index_reg, *scale) + ")"@));
        },
    }
}

impl Instruction {
    /// assembling for each instructions.
    pub fn to_bytes(&self) -> (codes: Vec<u8>)
        requires
            self@.wf(),
        ensures
            codes@ == self@.encode(),
    {
        let op = &self.opcode;
        let mut codes: Vec<u8> = Vec::new();
        if let Some(rex_prefix) = op.rex_prefix() {
            codes.push(rex_prefix.to_byte());
        }
        let ghost p1 = codes@;
        let mut ob = op.to_bytes();
        codes.append(&mut ob);
        let ghost p2 = codes@;
        if let Some(modrm) = op.modrm() {
            codes.push(modrm.to_byte());
        }
        let ghost p3 = codes@;
        if let Some(sib_byte) = op.sib_bite() {
            codes.push(sib_byte.to_byte());
        }
        let ghost p4 = codes@;
        if let Some(disp) = op.get_displacement() {
            let mut db = disp.to_bytes();
            codes.append(&mut db);
        }
        let ghost p5 = codes@;
        if let Some(imm) = op.get_immediate() {
            let mut ib = imm.to_bytes();
            codes.append(&mut ib);
        }
        proof {
            let m = self@;
            let rex = match m.rex_prefix() {
                Some(p) => seq![p.spec_to_byte()],
                None => Seq::<u8>::empty(),
            };
            let mo = match m.modrm() {
                Some(x) => seq![x.spec_to_byte()],
                None => Seq::<u8>::empty(),
            };
            let sb = match m.sib() {
                Some(x) => seq![x.spec_to_byte()],
                None => Seq::<u8>::empty(),
            };
            let ds = match m.displacement() {
                Some(d) => d.spec_to_bytes(),
                None => Seq::<u8>::empty(),
            };
            let im = match m.immediate() {
                Some(i) => i.spec_to_bytes(),
                None => Seq::<u8>::empty(),
            };
            assert(p1 =~= rex);
            assert(p2 =~= p1 + m.opcode_bytes());
            assert(p3 =~= p2 + mo);
            assert(p4 =~= p3 + sb);
            assert(p5 =~= p4 + ds);
            assert(codes@ =~= p5 + im);
        }
        codes
    }

    /// The instruction in Intel syntax, such as `mov QWORD PTR [rax], 60`.
    pub fn to_intel_string(&self) -> (s: String)
        ensures
            s@ == intel_string(self@),
    {
        let mut out = String::new();
        match &self.opcode {
            Opcode::RET => push_str(&mut out, "ret"),
            Opcode::PUSHR64 { r64 } => {
                push_str(&mut out, "push ");
                push_str(&mut out, r64.name());
            },
            Opcode::POPR64 { r64 } => {
                push_str(&mut out, "pop ");
                push_str(&mut out, r64.name());
            },
            Opcode::PUSHIMM32 { imm } => {
                push_str(&mut out, "push ");
                push_decimal(&mut out, imm.value());
            },
            Opcode::MOVRM64R64 { rm64, r64 } => {
                push_str(&mut out, "mov ");
                write_intel_operand(&mut out, rm64, "QWORD PTR ");
                push_str(&mut out, ", ");
                write_intel_operand(&mut out, r64, "QWORD PTR ");
            },
            Opcode::MOVRM64IMM32 { rm64, imm } => {
                push_str(&mut out, "mov ");
                write_intel_operand(&mut out, rm64, "QWORD PTR ");
                push_str(&mut out, ", ");
                push_decimal(&mut out, imm.value());
            },
            Opcode::MOVRM8R8 { rm8, r8 } => {
                push_str(&mut out, "mov ");
                write_intel_operand(&mut out, rm8, "BYTE PTR ");
                push_str(&mut out, ", ");
                write_intel_operand(&mut out, r8, "BYTE PTR ");
            },
            Opcode::IDIVRM64 { rm64 } => {
                push_str(&mut out, "idiv ");
                write_intel_operand(&mut out, rm64, "QWORD PTR ");
            },
            Opcode::CALLFUNC { func } => {
                push_str(&mut out, "call ");
                write_intel_operand(&mut out, func, "QWORD PTR ");
            },
        }
        assert(out@ =~= intel_string(self@));
        out
    }

    /// The instruction in AT&T syntax, such as `movq $60, (%rax)`.
    pub fn to_at_string(&self) -> (s: String)
        ensures
            s@ == at_string(self@),
    {
        let mut out = String::new();
        match &self.opcode {
            Opcode::RET => push_str(&mut out, "ret"),
            Opcode::PUSHR64 { r64 } => {
                push_str(&mut out, "pushq ");
                push_at_register(&mut out, *r64);
            },
            Opcode::POPR64 { r64 } => {
                push_str(&mut out, "popq ");
                push_at_register(&mut out, *r64);
            },
            Opcode::PUSHIMM32 { imm } => {
                push_str(&mut out, "pushq ");
                write_at_operand(&mut out, &Operand::Immediate(*imm));
            },
            Opcode::MOVRM64R64 { rm64, r64 } => {
                push_str(&mut out, "movq ");
                write_at_operand(&mut out, r64);
                push_str(&mut out, ", ");
                write_at_operand(&mut out, rm64);
            },
            Opcode::MOVRM64IMM32 { rm64, imm } => {
                push_str(&mut out, "movq ");
                write_at_operand(&mut out, &Operand::Immediate(*imm));
                push_str(&mut out, ", ");
                write_at_operand(&mut out, rm64);
            },
            Opcode::MOVRM8R8 { rm8, r8 } => {
                push_str(&mut out, "movb ");
                write_at_operand(&mut out, r8);
                push_str(&mut out, ", ");
                write_at_operand(&mut out, rm8);
            },
            Opcode::IDIVRM64 { rm64 } => {
                push_str(&mut out, "idivq ");
                write_at_operand(&mut out, rm64);
            },
            Opcode::CALLFUNC { func } => {
                push_str(&mut out, "call ");
                write_at_operand(&mut out, func);
            },
        }
        assert(out@ =~= at_string(self@));
        out
    }
}

} // verus!

verus! {

/// The displacement term of an Intel address denotes the displacement: it is
/// a space, the sign (`+` for zero or more, `-` below zero), a space, and the
/// decimal magnitude, so that sign times magnitude is the value.
pub proof fn law_intel_disp_denotes_value(d: Displacement)
    ensures
        ({
            let t = intel_disp(Some(d));
            let v = d.spec_value();
            &&& t.len() > 3
            &&& t[0] == ' '
            &&& t[2] == ' '
            &&& t[1] == (if v < 0 {
                '-'
            } else {
                '+'
            })
            &&& parse_decimal(t.skip(3)) == Some(if v < 0 {
                -v
            } else {
                v
            })
            &&& (if t[1] == '-' {
                -parse_decimal(t.skip(3)).unwrap()
            } else {
                parse_decimal(t.skip(3)).unwrap()
            }) == v
        }),
{
    let v = d.spec_value();
    let t = intel_disp(Some(d));
    reveal_strlit(" - ");
    reveal_strlit(" + ");
    let mag = if v < 0 {
        -v
    } else {
        v
    };
    crate::text::law_decimal_round_trip(mag);
    crate::text::lemma_int_to_decimal_shape(mag);
    if v < 0 {
        assert(t == " - "@ + int_to_decimal(-v));
    } else {
        assert(t == " + "@ + int_to_decimal(v));
    }
    assert(t.skip(3) =~= int_to_decimal(mag));
}

/// The displacement before an AT&T address reads back as its signed value,
/// for 8-bit and 32-bit displacements alike.
pub proof fn law_at_disp_denotes_value(d: Displacement)
    ensures
        parse_decimal(at_disp(Some(d))) == Some(d.spec_value()),
{
    crate::text::law_decimal_round_trip(d.spec_value());
}

} // verus!
