//! An x86-64 assembler: reads AT&T-syntax assembly into symbols made of
//! labelled groups of instructions, and encodes and prints instructions.
pub mod immediate;
pub mod instruction;
pub mod opcode;
pub mod operand;
pub mod parser;
pub mod register;
pub mod symbol;
pub mod table;
pub mod text;

pub use immediate::{Displacement, Immediate};
pub use instruction::Instruction;
pub use opcode::Opcode;
pub use operand::Operand;
pub use parser::{parse_atandt, try_parse_atandt, Context, State};
pub use register::GeneralPurposeRegister;
pub use symbol::{Group, Symbol};
pub use table::SymbolTable;
