//! The instructions that the assembler knows and the parts of their
//! machine encoding: REX prefix, opcode bytes, ModR/M, SIB, displacement and
//! immediate.
use vstd::prelude::*;

use crate::immediate::{Displacement, Immediate};
use crate::operand::{Operand, OperandModel};
use crate::register::GeneralPurposeRegister;

verus! {

/// An instruction together with its operands.
#[derive(Clone, PartialEq, Eq, PartialOrd, Ord, Debug, Hash)]
pub enum Opcode {
    /// `ret`
    RET,
    /// `push r64`
    PUSHR64 { r64: GeneralPurposeRegister },
    /// `pop r64`
    POPR64 { r64: GeneralPurposeRegister },
    /// `push imm32`
    PUSHIMM32 { imm: Immediate },
    /// `mov r/m64, r64`
    MOVRM64R64 { rm64: Operand, r64: Operand },
    /// `mov r/m64, imm32`
    MOVRM64IMM32 { rm64: Operand, imm: Immediate },
    /// `mov r/m8, r8`
    MOVRM8R8 { rm8: Operand, r8: Operand },
    /// `idiv r/m64`
    IDIVRM64 { rm64: Operand },
    /// `call rel32` to a function named by a label; the 32-bit offset is
    /// encoded as zero, for the linker to fill in.
    CALLFUNC { func: Operand },
}

/// What an `Opcode` denotes, with its operands taken by their models.
pub enum OpcodeModel {
    RET,
    PUSHR64 { r64: GeneralPurposeRegister },
    POPR64 { r64: GeneralPurposeRegister },
    PUSHIMM32 { imm: Immediate },
    MOVRM64R64 { rm64: OperandModel, r64: OperandModel },
    MOVRM64IMM32 { rm64: OperandModel, imm: Immediate },
    MOVRM8R8 { rm8: OperandModel, r8: OperandModel },
    IDIVRM64 { rm64: OperandModel },
    CALLFUNC { func: OperandModel },
}

impl View for Opcode {
    type V = OpcodeModel;

    open spec fn view(&self) -> OpcodeModel {
        match self {
            Opcode::RET => OpcodeModel::RET,
            Opcode::PUSHR64 { r64 } => OpcodeModel::PUSHR64 { r64: *r64 },
            Opcode::POPR64 { r64 } => OpcodeModel::POPR64 { r64: *r64 },
            Opcode::PUSHIMM32 { imm } => OpcodeModel::PUSHIMM32 { imm: *imm },
            Opcode::MOVRM64R64 { rm64, r64 } => OpcodeModel::MOVRM64R64 { rm64: rm64@, r64: r64@ },
            Opcode::MOVRM64IMM32 { rm64, imm } => OpcodeModel::MOVRM64IMM32 {
                rm64: rm64@,
                imm: *imm,
            },
            Opcode::MOVRM8R8 { rm8, r8 } => OpcodeModel::MOVRM8R8 { rm8: rm8@, r8: r8@ },
            Opcode::IDIVRM64 { rm64 } => OpcodeModel::IDIVRM64 { rm64: rm64@ },
            Opcode::CALLFUNC { func } => OpcodeModel::CALLFUNC { func: func@ },
        }
    }
}

// ---------------------------------------------------------------------------
// Encoding bytes
// ---------------------------------------------------------------------------

/// A REX prefix: `0100WRXB`.
#[derive(Clone, Copy, PartialEq, Eq, Structural, Debug)]
pub struct RexPrefix {
    /// 64-bit operand size.
    pub w: bool,
    /// Extension of the ModR/M `reg` field.
    pub r: bool,
    /// Extension of the SIB `index` field.
    pub x: bool,
    /// Extension of the ModR/M `rm` field or the SIB `base` field.
    pub b: bool,
}

pub open spec fn bit(b: bool, weight: int) -> int {
    if b {
        weight
    } else {
        0
    }
}

impl RexPrefix {
    pub open spec fn spec_to_byte(self) -> u8 {
        (0x40 + bit(self.w, 8) + bit(self.r, 4) + bit(self.x, 2) + bit(self.b, 1)) as u8
    }

    pub fn to_byte(&self) -> (b: u8)
        ensures
            b == self.spec_to_byte(),
    {
        let mut v: u8 = 0x40;
        if self.w {
            v = v + 8;
        }
        if self.r {
            v = v + 4;
        }
        if self.x {
            v = v + 2;
        }
        if self.b {
            v = v + 1;
        }
        v
    }
}

/// A ModR/M byte: `mode` (2 bits), `reg` (3 bits), `rm` (3 bits).
#[derive(Clone, Copy, PartialEq, Eq, Structural, Debug)]
pub struct ModRM {
    pub mode: u8,
    pub reg: u8,
    pub rm: u8,
}

impl ModRM {
    pub open spec fn wf(self) -> bool {
        self.mode < 4 && self.reg < 8 && self.rm < 8
    }

    pub open spec fn spec_to_byte(self) -> u8 {
        (self.mode * 64 + self.reg * 8 + self.rm) as u8
    }

    pub fn to_byte(&self) -> (b: u8)
        requires
            self.wf(),
        ensures
            b == self.spec_to_byte(),
    {
        self.mode * 64 + self.reg * 8 + self.rm
    }
}

/// A SIB byte: `scale` (2 bits), `index` (3 bits), `base` (3 bits).
#[derive(Clone, Copy, PartialEq, Eq, Structural, Debug)]
pub struct SIB {
    pub scale: u8,
    pub index: u8,
    pub base: u8,
}

impl SIB {
    pub open spec fn wf(self) -> bool {
        self.scale < 4 && self.index < 8 && self.base < 8
    }

    pub open spec fn spec_to_byte(self) -> u8 {
        (self.scale * 64 + self.index * 8 + self.base) as u8
    }

    pub fn to_byte(&self) -> (b: u8)
        requires
            self.wf(),
        ensures
            b == self.spec_to_byte(),
    {
        self.scale * 64 + self.index * 8 + self.base
    }
}

// ---------------------------------------------------------------------------
// Register-or-memory operands
// ---------------------------------------------------------------------------

/// How a register-or-memory operand is encoded: the ModR/M `mode` and `rm`
/// fields, the SIB byte and displacement it needs, and the REX.X and REX.B
/// extension bits.
#[derive(Clone, Copy)]
pub struct RmEncoding {
    pub mode: u8,
    pub rm: u8,
    pub sib: Option<SIB>,
    pub displacement: Option<Displacement>,
    pub rex_x: bool,
    pub rex_b: bool,
}

/// An operand can stand in the r/m place when it is a register or an address
/// whose index is not `rsp` (that index number means "no index") and whose
/// scale is 1, 2, 4 or 8.
pub open spec fn rm_encodable(o: OperandModel) -> bool {
    match o {
        OperandModel::GENERALREGISTER(_) => true,
        OperandModel::ADDRESSING { index_reg, scale, .. } => {
            &&& match index_reg {
                Some(i) => i.spec_number() != 4,
                None => true,
            }
            &&& match scale {
                Some(s) => s == 1 || s == 2 || s == 4 || s == 8,
                None => true,
            }
        },
        _ => false,
    }
}

/// The SIB scale field for a scale factor (none means 1).
pub open spec fn scale_bits(s: Option<u8>) -> u8 {
    match s {
        Some(f) => if f == 2 {
            1
        } else if f == 4 {
            2
        } else if f == 8 {
            3
        } else {
            0
        },
        None => 0,
    }
}

/// The encoding of an r/m operand. A register is encoded directly (mode 3).
/// An address needs a SIB byte when it has an index or its base is
/// `rsp`/`r12`, and a base of `rbp`/`r13` without displacement takes an
/// 8-bit displacement of zero, because mode 0 with that base means something
/// else.
pub open spec fn rm_encoding(o: OperandModel) -> RmEncoding {
    match o {
        OperandModel::GENERALREGISTER(r) => RmEncoding {
            mode: 3,
            rm: (r.spec_number() % 8) as u8,
            sib: None,
            displacement: None,
            rex_x: false,
            rex_b: r.spec_number() >= 8,
        },
        OperandModel::ADDRESSING { base_reg, index_reg, displacement, scale } => {
            let b = base_reg.spec_number();
            let needs_sib = index_reg is Some || b % 8 == 4;
            let disp = match displacement {
                Some(d) => Some(d),
                None => if b % 8 == 5 {
                    Some(Displacement::DISP8(0))
                } else {
                    None
                },
            };
            RmEncoding {
                mode: match disp {
                    None => 0,
                    Some(Displacement::DISP8(_)) => 1,
                    Some(Displacement::DISP32(_)) => 2,
                },
                rm: if needs_sib {
                    4
                } else {
                    (b % 8) as u8
                },
                sib: if needs_sib {
                    Some(
                        SIB {
                            scale: scale_bits(scale),
                            index: match index_reg {
                                Some(i) => (i.spec_number() % 8) as u8,
                                None => 4,
                            },
                            base: (b % 8) as u8,
                        },
                    )
                } else {
                    None
                },
                displacement: disp,
                rex_x: match index_reg {
                    Some(i) => i.spec_number() >= 8,
                    None => false,
                },
                rex_b: b >= 8,
            }
        },
        _ => RmEncoding {
            mode: 0,
            rm: 0,
            sib: None,
            displacement: None,
            rex_x: false,
            rex_b: false,
        },
    }
}

pub fn encode_rm(o: &Operand) -> (e: RmEncoding)
    requires
        rm_encodable(o@),
    ensures
        e == rm_encoding(o@),
        e.mode < 4,
        e.rm < 8,
        e.sib matches Some(s) ==> s.wf(),
{
    match o {
        Operand::GENERALREGISTER(r) => {
            let n = r.number();
            RmEncoding {
                mode: 3,
                rm: n % 8,
                sib: None,
                displacement: None,
                rex_x: false,
                rex_b: n >= 8,
            }
        },
        Operand::ADDRESSING { base_reg, index_reg, displacement, scale } => {
            let b = base_reg.number();
            let needs_sib = index_reg.is_some() || b % 8 == 4;
            let disp = match displacement {
                Some(d) => Some(*d),
                None => if b % 8 == 5 {
                    Some(Displacement::DISP8(0))
                } else {
                    None
                },
            };
            let mode: u8 = match disp {
                None => 0,
                Some(Displacement::DISP8(_)) => 1,
                Some(Displacement::DISP32(_)) => 2,
            };
            let sib = if needs_sib {
                let sc: u8 = match scale {
                    Some(f) => if *f == 2 {
                        1
                    } else if *f == 4 {
                        2
                    } else if *f == 8 {
                        3
                    } else {
                        0
                    },
                    None => 0,
                };
                let idx: u8 = match index_reg {
                    Some(i) => i.number() % 8,
                    None => 4,
                };
                Some(SIB { scale: sc, index: idx, base: b % 8 })
            } else {
                None
            };
            let rex_x = match index_reg {
                Some(i) => i.number() >= 8,
                None => false,
            };
            RmEncoding {
                mode,
                rm: if needs_sib {
                    4
                } else {
                    b % 8
                },
                sib,
                displacement: disp,
                rex_x,
                rex_b: b >= 8,
            }
        },
        _ => {
            proof {
                assert(false);
            }
            RmEncoding { mode: 0, rm: 0, sib: None, displacement: None, rex_x: false, rex_b: false }
        },
    }
}

/// The ModR/M `reg` field for a register operand.
pub open spec fn reg_field(o: OperandModel) -> u8 {
    match o {
        OperandModel::GENERALREGISTER(r) => (r.spec_number() % 8) as u8,
        _ => 0,
    }
}

/// Whether a register operand in the `reg` field needs REX.R.
pub open spec fn reg_ext(o: OperandModel) -> bool {
    match o {
        OperandModel::GENERALREGISTER(r) => r.spec_number() >= 8,
        _ => false,
    }
}

fn reg_parts(o: &Operand) -> (p: (u8, bool))
    requires
        o@ is GENERALREGISTER,
    ensures
        p.0 == reg_field(o@),
        p.1 == reg_ext(o@),
        p.0 < 8,
{
    match o {
        Operand::GENERALREGISTER(r) => {
            let n = r.number();
            (n % 8, n >= 8)
        },
        _ => {
            proof {
                assert(false);
            }
            (0, false)
        },
    }
}

impl OpcodeModel {
    /// The instruction's operands are ones it can be encoded with: r/m
    /// operands are registers or addresses (see `rm_encodable`), and the
    /// `reg` operands of the `mov` forms are registers.
    pub open spec fn wf(self) -> bool {
        match self {
            OpcodeModel::MOVRM64R64 { rm64, r64 } => rm_encodable(rm64) && r64 is GENERALREGISTER,
            OpcodeModel::MOVRM64IMM32 { rm64, .. } => rm_encodable(rm64),
            OpcodeModel::MOVRM8R8 { rm8, r8 } => rm_encodable(rm8) && r8 is GENERALREGISTER,
            OpcodeModel::IDIVRM64 { rm64 } => rm_encodable(rm64),
            _ => true,
        }
    }

    /// The operand in the r/m place, for the forms that have one.
    pub open spec fn rm_operand(self) -> Option<OperandModel> {
        match self {
            OpcodeModel::MOVRM64R64 { rm64, .. } => Some(rm64),
            OpcodeModel::MOVRM64IMM32 { rm64, .. } => Some(rm64),
            OpcodeModel::MOVRM8R8 { rm8, .. } => Some(rm8),
            OpcodeModel::IDIVRM64 { rm64 } => Some(rm64),
            _ => None,
        }
    }

    pub open spec fn rex_prefix(self) -> Option<RexPrefix> {
        match self {
            OpcodeModel::PUSHR64 { r64 } => if r64.spec_number() >= 8 {
                Some(RexPrefix { w: false, r: false, x: false, b: true })
            } else {
                None
            },
            OpcodeModel::POPR64 { r64 } => if r64.spec_number() >= 8 {
                Some(RexPrefix { w: false, r: false, x: false, b: true })
            } else {
                None
            },
            OpcodeModel::MOVRM64R64 { rm64, r64 } => {
                let e = rm_encoding(rm64);
                Some(RexPrefix { w: true, r: reg_ext(r64), x: e.rex_x, b: e.rex_b })
            },
            OpcodeModel::MOVRM64IMM32 { rm64, .. } => {
                let e = rm_encoding(rm64);
                Some(RexPrefix { w: true, r: false, x: e.rex_x, b: e.rex_b })
            },
            OpcodeModel::MOVRM8R8 { rm8, r8 } => {
                let e = rm_encoding(rm8);
                if reg_ext(r8) || e.rex_x || e.rex_b {
                    Some(RexPrefix { w: false, r: reg_ext(r8), x: e.rex_x, b: e.rex_b })
                } else {
                    None
                }
            },
            OpcodeModel::IDIVRM64 { rm64 } => {
                let e = rm_encoding(rm64);
                Some(RexPrefix { w: true, r: false, x: e.rex_x, b: e.rex_b })
            },
            _ => None,
        }
    }

    /// The opcode bytes proper.
    pub open spec fn opcode_bytes(self) -> Seq<u8> {
        match self {
            OpcodeModel::RET => seq![0xc3u8],
            OpcodeModel::PUSHR64 { r64 } => seq![(0x50 + r64.spec_number() % 8) as u8],
            OpcodeModel::POPR64 { r64 } => seq![(0x58 + r64.spec_number() % 8) as u8],
            OpcodeModel::PUSHIMM32 { .. } => seq![0x68u8],
            OpcodeModel::MOVRM64R64 { .. } => seq![0x89u8],
            OpcodeModel::MOVRM64IMM32 { .. } => seq![0xc7u8],
            OpcodeModel::MOVRM8R8 { .. } => seq![0x88u8],
            OpcodeModel::IDIVRM64 { .. } => seq![0xf7u8],
            OpcodeModel::CALLFUNC { .. } => seq![0xe8u8],
        }
    }

    /// The ModR/M byte: the r/m operand's fields with the register operand,
    /// or the opcode extension (`/0` for `mov r/m64, imm32`, `/7` for
    /// `idiv`), in the `reg` field.
    pub open spec fn modrm(self) -> Option<ModRM> {
        match self {
            OpcodeModel::MOVRM64R64 { rm64, r64 } => {
                let e = rm_encoding(rm64);
                Some(ModRM { mode: e.mode, reg: reg_field(r64), rm: e.rm })
            },
            OpcodeModel::MOVRM64IMM32 { rm64, .. } => {
                let e = rm_encoding(rm64);
                Some(ModRM { mode: e.mode, reg: 0, rm: e.rm })
            },
            OpcodeModel::MOVRM8R8 { rm8, r8 } => {
                let e = rm_encoding(rm8);
                Some(ModRM { mode: e.mode, reg: reg_field(r8), rm: e.rm })
            },
            OpcodeModel::IDIVRM64 { rm64 } => {
                let e = rm_encoding(rm64);
                Some(ModRM { mode: e.mode, reg: 7, rm: e.rm })
            },
            _ => None,
        }
    }

    pub open spec fn sib(self) -> Option<SIB> {
        match self.rm_operand() {
            Some(o) => rm_encoding(o).sib,
            None => None,
        }
    }

    pub open spec fn displacement(self) -> Option<Displacement> {
        match self {
            OpcodeModel::CALLFUNC { .. } => Some(Displacement::DISP32(0)),
            _ => match self.rm_operand() {
                Some(o) => rm_encoding(o).displacement,
                None => None,
            },
        }
    }

    /// The immediate, which the 32-bit immediate forms carry as 32 bits.
    pub open spec fn immediate(self) -> Option<Immediate> {
        match self {
            OpcodeModel::PUSHIMM32 { imm } => Some(imm.spec_as_32bit()),
            OpcodeModel::MOVRM64IMM32 { imm, .. } => Some(imm.spec_as_32bit()),
            _ => None,
        }
    }

    /// The machine code of the instruction: REX prefix, opcode, ModR/M, SIB,
    /// displacement and immediate, each where the instruction has one.
    pub open spec fn encode(self) -> Seq<u8> {
        (match self.rex_prefix() {
            Some(p) => seq![p.spec_to_byte()],
            None => Seq::empty(),
        }) + self.opcode_bytes() + (match self.modrm() {
            Some(m) => seq![m.spec_to_byte()],
            None => Seq::empty(),
        }) + (match self.sib() {
            Some(s) => seq![s.spec_to_byte()],
            None => Seq::empty(),
        }) + (match self.displacement() {
            Some(d) => d.spec_to_bytes(),
            None => Seq::empty(),
        }) + (match self.immediate() {
            Some(i) => i.spec_to_bytes(),
            None => Seq::empty(),
        })
    }
}

impl Opcode {
    fn rm_operand(&self) -> (o: Option<&Operand>)
        ensures
            match o {
                Some(op) => self@.rm_operand() == Some(op@),
                None => self@.rm_operand() is None,
            },
    {
        match self {
            Opcode::MOVRM64R64 { rm64, .. } => Some(rm64),
            Opcode::MOVRM64IMM32 { rm64, .. } => Some(rm64),
            Opcode::MOVRM8R8 { rm8, .. } => Some(rm8),
            Opcode::IDIVRM64 { rm64 } => Some(rm64),
            _ => None,
        }
    }

    pub fn rex_prefix(&self) -> (p: Option<RexPrefix>)
        requires
            self@.wf(),
        ensures
            p == self@.rex_prefix(),
    {
        match self {
            Opcode::PUSHR64 { r64 } | Opcode::POPR64 { r64 } => if r64.number() >= 8 {
                Some(RexPrefix { w: false, r: false, x: false, b: true })
            } else {
                None
            },
            Opcode::MOVRM64R64 { rm64, r64 } => {
                let e = encode_rm(rm64);
                let (_, rx) = reg_parts(r64);
                Some(RexPrefix { w: true, r: rx, x: e.rex_x, b: e.rex_b })
            },
            Opcode::MOVRM64IMM32 { rm64, .. } => {
                let e = encode_rm(rm64);
                Some(RexPrefix { w: true, r: false, x: e.rex_x, b: e.rex_b })
            },
            Opcode::MOVRM8R8 { rm8, r8 } => {
                let e = encode_rm(rm8);
                let (_, rx) = reg_parts(r8);
                if rx || e.rex_x || e.rex_b {
                    Some(RexPrefix { w: false, r: rx, x: e.rex_x, b: e.rex_b })
                } else {
                    None
                }
            },
            Opcode::IDIVRM64 { rm64 } => {
                let e = encode_rm(rm64);
                Some(RexPrefix { w: true, r: false, x: e.rex_x, b: e.rex_b })
            },
            _ => None,
        }
    }

    /// The opcode bytes proper.
    pub fn to_bytes(&self) -> (bytes: Vec<u8>)
        ensures
            bytes@ == self@.opcode_bytes(),
    {
        let b: u8 = match self {
            Opcode::RET => 0xc3,
            Opcode::PUSHR64 { r64 } => 0x50 + r64.number() % 8,
            Opcode::POPR64 { r64 } => 0x58 + r64.number() % 8,
            Opcode::PUSHIMM32 { .. } => 0x68,
            Opcode::MOVRM64R64 { .. } => 0x89,
            Opcode::MOVRM64IMM32 { .. } => 0xc7,
            Opcode::MOVRM8R8 { .. } => 0x88,
            Opcode::IDIVRM64 { .. } => 0xf7,
            Opcode::CALLFUNC { .. } => 0xe8,
        };
        let mut v: Vec<u8> = Vec::new();
        v.push(b);
        assert(v@ =~= self@.opcode_bytes());
        v
    }

    pub fn modrm(&self) -> (m: Option<ModRM>)
        requires
            self@.wf(),
        ensures
            m == self@.modrm(),
            m matches Some(mm) ==> mm.wf(),
    {
        match self {
            Opcode::MOVRM64R64 { rm64, r64 } => {
                let e = encode_rm(rm64);
                let (rf, _) = reg_parts(r64);
                Some(ModRM { mode: e.mode, reg: rf, rm: e.rm })
            },
            Opcode::MOVRM64IMM32 { rm64, .. } => {
                let e = encode_rm(rm64);
                Some(ModRM { mode: e.mode, reg: 0, rm: e.rm })
            },
            Opcode::MOVRM8R8 { rm8, r8 } => {
                let e = encode_rm(rm8);
                let (rf, _) = reg_parts(r8);
                Some(ModRM { mode: e.mode, reg: rf, rm: e.rm })
            },
            Opcode::IDIVRM64 { rm64 } => {
                let e = encode_rm(rm64);
                Some(ModRM { mode: e.mode, reg: 7, rm: e.rm })
            },
            _ => None,
        }
    }

    pub fn sib_bite(&self) -> (s: Option<SIB>)
        requires
            self@.wf(),
        ensures
            s == self@.sib(),
            s matches Some(ss) ==> ss.wf(),
    {
        match self.rm_operand() {
            Some(o) => encode_rm(o).sib,
            None => None,
        }
    }

    pub fn get_displacement(&self) -> (d: Option<Displacement>)
        requires
            self@.wf(),
        ensures
            d == self@.displacement(),
    {
        match self {
            Opcode::CALLFUNC { .. } => Some(Displacement::DISP32(0)),
            _ => match self.rm_operand() {
                Some(o) => encode_rm(o).displacement,
                None => None,
            },
        }
    }

    pub fn get_immediate(&self) -> (i: Option<Immediate>)
        ensures
            i == self@.immediate(),
    {
        match self {
            Opcode::PUSHIMM32 { imm } => Some(imm.as_32bit()),
            Opcode::MOVRM64IMM32 { imm, .. } => Some(imm.as_32bit()),
            _ => None,
        }
    }
}

} // verus!

verus! {

// ---------------------------------------------------------------------------
// Laws
// ---------------------------------------------------------------------------

/// Every encodable instruction takes between 1 and 15 bytes, the limit of an
/// x86-64 instruction.
pub proof fn law_encoding_length(op: OpcodeModel)
    requires
        op.wf(),
    ensures
        1 <= op.encode().len() <= 15,
{
    let rex = match op.rex_prefix() {
        Some(p) => seq![p.spec_to_byte()],
        None => Seq::<u8>::empty(),
    };
    let mo = match op.modrm() {
        Some(m) => seq![m.spec_to_byte()],
        None => Seq::<u8>::empty(),
    };
    let sb = match op.sib() {
        Some(s) => seq![s.spec_to_byte()],
        None => Seq::<u8>::empty(),
    };
    let ds = match op.displacement() {
        Some(d) => d.spec_to_bytes(),
        None => Seq::<u8>::empty(),
    };
    let im = match op.immediate() {
        Some(i) => i.spec_to_bytes(),
        None => Seq::<u8>::empty(),
    };
    assert(rex.len() <= 1 && mo.len() <= 1 && sb.len() <= 1);
    assert(ds.len() <= 4);
    assert(im.len() <= 4);
    assert(op.opcode_bytes().len() == 1);
    assert(op.encode() == rex + op.opcode_bytes() + mo + sb + ds + im);
}

/// The 64-bit operand-size forms (`mov r/m64, r64`, `mov r/m64, imm32`,
/// `idiv r/m64`) begin with a REX prefix that has W set.
pub proof fn law_rex_w_for_64bit_forms(op: OpcodeModel)
    requires
        op is MOVRM64R64 || op is MOVRM64IMM32 || op is IDIVRM64,
    ensures
        op.encode().len() > 0,
        0x48 <= op.encode()[0] <= 0x4f,
{
    let p = op.rex_prefix().unwrap();
    assert(p.w);
    assert(op.encode()[0] == p.spec_to_byte());
}

} // verus!

verus! {

/// `push`/`pop` of a register encode its number in the opcode byte
/// (`0x50`/`0x58` plus the low three bits), with REX.B (`0x41`) before it for
/// `r8` to `r15`; for instance `push rsi` is `0x56` and `push r12` is
/// `0x41 0x54`.
pub proof fn law_push_pop_register_bytes(r: GeneralPurposeRegister)
    ensures
        r == GeneralPurposeRegister::RSI ==> (OpcodeModel::PUSHR64 { r64: r }).encode() == seq![0x56u8],
        r == GeneralPurposeRegister::RDI ==> (OpcodeModel::PUSHR64 { r64: r }).encode() == seq![0x57u8],
        r == GeneralPurposeRegister::RBP ==> (OpcodeModel::POPR64 { r64: r }).encode() == seq![0x5du8],
        r == GeneralPurposeRegister::R12 ==> (OpcodeModel::PUSHR64 { r64: r }).encode() == seq![
            0x41u8,
            0x54u8,
        ],
        (OpcodeModel::PUSHR64 { r64: r }).encode().last() == 0x50 + r.spec_number() % 8,
        (OpcodeModel::POPR64 { r64: r }).encode().last() == 0x58 + r.spec_number() % 8,
{
    crate::register::law_register_numbers();
    let p = OpcodeModel::PUSHR64 { r64: r };
    let q = OpcodeModel::POPR64 { r64: r };
    assert(p.encode() =~= (match p.rex_prefix() {
        Some(x) => seq![x.spec_to_byte()],
        None => Seq::empty(),
    }) + p.opcode_bytes());
    assert(q.encode() =~= (match q.rex_prefix() {
        Some(x) => seq![x.spec_to_byte()],
        None => Seq::empty(),
    }) + q.opcode_bytes());
}

} // verus!
