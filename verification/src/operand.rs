//! Instruction operands.
use vstd::prelude::*;

use crate::immediate::{Displacement, Immediate};
use crate::register::GeneralPurposeRegister;

verus! {

/// An operand of an instruction.
#[derive(Clone, PartialEq, Eq, PartialOrd, Ord, Debug, Hash)]
pub enum Operand {
    /// A register, such as `%rax`.
    GENERALREGISTER(GeneralPurposeRegister),
    /// An immediate value, such as `$42`.
    Immediate(Immediate),
    /// A symbol or label name.
    LABEL(String),
    /// A memory operand: `base_reg + index_reg * scale + displacement`.
    ADDRESSING {
        base_reg: GeneralPurposeRegister,
        index_reg: Option<GeneralPurposeRegister>,
        displacement: Option<Displacement>,
        scale: Option<u8>,
    },
}

/// What an `Operand` denotes, with a label given by its characters.
pub enum OperandModel {
    GENERALREGISTER(GeneralPurposeRegister),
    Immediate(Immediate),
    LABEL(Seq<char>),
    ADDRESSING {
        base_reg: GeneralPurposeRegister,
        index_reg: Option<GeneralPurposeRegister>,
        displacement: Option<Displacement>,
        scale: Option<u8>,
    },
}

impl View for Operand {
    type V = OperandModel;

    open spec fn view(&self) -> OperandModel {
        match self {
            Operand::GENERALREGISTER(r) => OperandModel::GENERALREGISTER(*r),
            Operand::Immediate(i) => OperandModel::Immediate(*i),
            Operand::LABEL(s) => OperandModel::LABEL(s@),
            Operand::ADDRESSING { base_reg, index_reg, displacement, scale } =>
                OperandModel::ADDRESSING {
                base_reg: *base_reg,
                index_reg: *index_reg,
                displacement: *displacement,
                scale: *scale,
            },
        }
    }
}

} // verus!
