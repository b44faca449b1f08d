# x64_asm

An x86-64 assembler library, verified with Verus.

- `text`: the string operations the parser relies on (`lines`,
  `trim_end`, `split_ascii_whitespace`, decimal numbers), each with its
  meaning stated over sequences of characters.
- `register`, `immediate`, `operand`, `opcode`: registers, operands and
  instructions, and the parts of their machine encoding (REX prefix, opcode,
  ModR/M, SIB, displacement, immediate).
- `instruction`: `Instruction::to_bytes`, `to_intel_string` and
  `to_at_string`.
- `symbol`: symbols and their groups of instructions, with the ELF binding
  and type taken from `elf-utilities`.
- `table`: the symbol table, kept in the order of the names.
- `parser`: `parse_atandt`, the line-by-line reader of AT&T syntax, stated
  as a state machine over lines, with its laws.
