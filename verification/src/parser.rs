//! The parser of AT&T-syntax assembly: a line-by-line state machine that
//! fills a symbol table with the groups and instructions of each symbol.
use vstd::prelude::*;

use crate::immediate::Immediate;
use crate::instruction::{at_operand, at_string, Instruction};
use crate::opcode::{Opcode, OpcodeModel};
use crate::operand::{Operand, OperandModel};
use crate::register::{from_at_chars, GeneralPurposeRegister};
use crate::symbol::{default_symbol, stb_global, stt_func, Group, GroupModel, Symbol, SymbolModel};
use crate::table::SymbolTable;
use crate::text::{
    chars_eq, copy_range, ends_with, int_to_decimal, is_ascii_whitespace, is_whitespace,
    no_ascii_whitespace, ends_with_chars, from_chars, is_blank, lines, lines_chars,
    parse_i32, parse_i32_chars, parse_i8, push_chars, push_str, split_ascii_whitespace,
    split_ascii_whitespace_chars, starts_with, starts_with_chars, to_chars, trim_end,
    trim_end_len, trim_end_matches, trim_end_matches_len, trim_start_matches,
    trim_start_matches_start, views,
};

verus! {

broadcast use vstd::string::group_string_axioms;

// ---------------------------------------------------------------------------
// States
// ---------------------------------------------------------------------------

/// Where the parser is: outside any symbol, or among the lines of one.
#[derive(Eq, Ord, PartialOrd, PartialEq, Debug, Clone)]
pub enum State {
    TopLevel,
    InSymbol(String),
}

pub enum StateModel {
    TopLevel,
    InSymbol(Seq<char>),
}

impl View for State {
    type V = StateModel;

    open spec fn view(&self) -> StateModel {
        match self {
            State::TopLevel => StateModel::TopLevel,
            State::InSymbol(s) => StateModel::InSymbol(s@),
        }
    }
}

/// The parser's state and the symbols found so far.
pub struct ParseModel {
    pub state: StateModel,
    pub syms: Map<Seq<char>, SymbolModel>,
}

/// The parser: its state and the symbols found so far.
pub struct Context {
    pub state: State,
    pub syms: SymbolTable,
}

impl View for Context {
    type V = ParseModel;

    open spec fn view(&self) -> ParseModel {
        ParseModel { state: self.state@, syms: self.syms@ }
    }
}

// ---------------------------------------------------------------------------
// What a line does
// ---------------------------------------------------------------------------

/// `line` without trailing whitespace and then without trailing copies of
/// `pat`.
pub open spec fn remove_pat(line: Seq<char>, pat: Seq<char>) -> Seq<char> {
    trim_end_matches(trim_end(line), pat)
}

/// The operand that the text `s` denotes: a register when it starts with `%`
/// (after a trailing `,` is dropped), else a number after any leading `$`
/// (8-bit when it fits, else 32-bit), else a label. `None` when `s` starts
/// with `%` but names no register.
pub open spec fn operand_of(s: Seq<char>) -> Option<OperandModel> {
    let stripped = remove_pat(s, ","@);
    if starts_with(stripped, "%"@) {
        match GeneralPurposeRegister::spec_from_at_string(stripped) {
            Some(r) => Some(OperandModel::GENERALREGISTER(r)),
            None => None,
        }
    } else {
        let imm = trim_start_matches(stripped, "$"@);
        match parse_i8(imm) {
            Some(v) => Some(OperandModel::Immediate(Immediate::I8(v))),
            None => match parse_i32(imm) {
                Some(v) => Some(OperandModel::Immediate(Immediate::I32(v))),
                None => Some(OperandModel::LABEL(stripped)),
            },
        }
    }
}

/// The table with a symbol `name`, added as a new symbol if it was not there.
pub open spec fn or_default(syms: Map<Seq<char>, SymbolModel>, name: Seq<char>) -> Map<
    Seq<char>,
    SymbolModel,
> {
    if syms.contains_key(name) {
        syms
    } else {
        syms.insert(name, default_symbol())
    }
}

pub open spec fn with_global(syms: Map<Seq<char>, SymbolModel>, name: Seq<char>) -> Map<
    Seq<char>,
    SymbolModel,
> {
    syms.insert(name, SymbolModel { visibility: stb_global(), ..syms[name] })
}

pub open spec fn with_function(syms: Map<Seq<char>, SymbolModel>, name: Seq<char>) -> Map<
    Seq<char>,
    SymbolModel,
> {
    syms.insert(name, SymbolModel { ty: stt_func(), ..syms[name] })
}

/// The label of the group that instructions before any label of symbol
/// `name` go to: `.L<name>_entry`.
pub open spec fn entry_label(name: Seq<char>) -> Seq<char> {
    ".L"@ + name + "_entry"@
}

/// `inst` appended to the last group of symbol `name`, which first gets an
/// entry group if it has none. `None` when there is no such symbol.
pub open spec fn push_inst(syms: Map<Seq<char>, SymbolModel>, name: Seq<char>, inst: OpcodeModel) -> Option<
    Map<Seq<char>, SymbolModel>,
> {
    if syms.contains_key(name) {
        let s = syms[name];
        let groups = if s.groups.len() == 0 {
            seq![GroupModel { label: entry_label(name), insts: Seq::empty() }]
        } else {
            s.groups
        };
        let last = groups.last();
        Some(
            syms.insert(
                name,
                SymbolModel {
                    groups: groups.update(
                        groups.len() - 1,
                        GroupModel { label: last.label, insts: last.insts.push(inst) },
                    ),
                    ..s
                },
            ),
        )
    } else {
        None
    }
}

/// A new, empty group `label` at the end of symbol `name`. `None` when there
/// is no such symbol.
pub open spec fn push_group(syms: Map<Seq<char>, SymbolModel>, name: Seq<char>, label: Seq<char>) -> Option<
    Map<Seq<char>, SymbolModel>,
> {
    if syms.contains_key(name) {
        let s = syms[name];
        Some(
            syms.insert(
                name,
                SymbolModel {
                    groups: s.groups.push(GroupModel { label, insts: Seq::empty() }),
                    ..s
                },
            ),
        )
    } else {
        None
    }
}

/// `movq src, dst` (the tokens of the line, mnemonic first): register to
/// register, or immediate to register.
pub open spec fn movq_inst(toks: Seq<Seq<char>>) -> Option<OpcodeModel> {
    if toks.len() != 3 {
        None
    } else {
        match (operand_of(toks[1]), operand_of(toks[2])) {
            (Some(src), Some(dst)) => match (src, dst) {
                (OperandModel::GENERALREGISTER(_), OperandModel::GENERALREGISTER(_)) => Some(
                    OpcodeModel::MOVRM64R64 { rm64: dst, r64: src },
                ),
                (OperandModel::Immediate(imm), OperandModel::GENERALREGISTER(_)) => Some(
                    OpcodeModel::MOVRM64IMM32 { rm64: dst, imm: imm.spec_as_32bit() },
                ),
                _ => None,
            },
            _ => None,
        }
    }
}

/// `popq reg`.
pub open spec fn popq_inst(toks: Seq<Seq<char>>) -> Option<OpcodeModel> {
    if toks.len() != 2 {
        None
    } else {
        match operand_of(toks[1]) {
            Some(OperandModel::GENERALREGISTER(r)) => Some(OpcodeModel::POPR64 { r64: r }),
            _ => None,
        }
    }
}

/// `pushq reg` or `pushq $imm`.
pub open spec fn pushq_inst(toks: Seq<Seq<char>>) -> Option<OpcodeModel> {
    if toks.len() != 2 {
        None
    } else {
        match operand_of(toks[1]) {
            Some(OperandModel::Immediate(imm)) => Some(
                OpcodeModel::PUSHIMM32 { imm: imm.spec_as_32bit() },
            ),
            Some(OperandModel::GENERALREGISTER(r)) => Some(OpcodeModel::PUSHR64 { r64: r }),
            _ => None,
        }
    }
}

/// `call label`.
pub open spec fn call_inst(toks: Seq<Seq<char>>) -> Option<OpcodeModel> {
    if toks.len() != 2 {
        None
    } else {
        match operand_of(toks[1]) {
            Some(OperandModel::LABEL(l)) => Some(
                OpcodeModel::CALLFUNC { func: OperandModel::LABEL(l) },
            ),
            _ => None,
        }
    }
}

/// A line outside any symbol. A blank line changes nothing. A line ending in
/// `:` starts the symbol it names. `.global name` / `.globl name` makes the
/// symbol global and `.type name, @function` makes it a function, adding it
/// if needed. Anything else is refused (`None`).
pub open spec fn toplevel_step(m: ParseModel, line: Seq<char>) -> Option<ParseModel> {
    if is_blank(line) {
        Some(m)
    } else if ends_with(trim_end(line), ":"@) {
        let name = remove_pat(line, ":"@);
        Some(ParseModel { state: StateModel::InSymbol(name), syms: or_default(m.syms, name) })
    } else {
        let toks = split_ascii_whitespace(line);
        if toks.len() == 0 {
            None
        } else if toks[0] == ".global"@ || toks[0] == ".globl"@ {
            if toks.len() == 2 {
                Some(
                    ParseModel {
                        state: m.state,
                        syms: with_global(or_default(m.syms, toks[1]), toks[1]),
                    },
                )
            } else {
                None
            }
        } else if toks[0] == ".type"@ {
            if toks.len() >= 3 && toks[2] == "@function"@ {
                let name = remove_pat(toks[1], ","@);
                Some(
                    ParseModel {
                        state: m.state,
                        syms: with_function(or_default(m.syms, name), name),
                    },
                )
            } else {
                None
            }
        } else {
            None
        }
    }
}

/// The parser after `inst`, when there is one, went to symbol `sym`.
pub open spec fn inst_step(m: ParseModel, sym: Seq<char>, inst: Option<OpcodeModel>) -> Option<
    ParseModel,
> {
    match inst {
        Some(i) => match push_inst(m.syms, sym, i) {
            Some(syms) => Some(ParseModel { state: m.state, syms }),
            None => None,
        },
        None => None,
    }
}

/// A line inside symbol `sym`. A blank line changes nothing; `.Lname:`
/// starts a group; `movq`, `popq`, `pushq`, `ret` and `call` add an
/// instruction; a line whose first word is `.global`, `.globl` or `.type`, or
/// ends in `:` (a new symbol's label), is read as outside any symbol;
/// anything else, such as an unsupported mnemonic, is refused (`None`).
pub open spec fn in_symbol_step(m: ParseModel, line: Seq<char>, sym: Seq<char>) -> Option<ParseModel> {
    if is_blank(line) {
        Some(m)
    } else {
        let toks = split_ascii_whitespace(line);
        if toks.len() == 0 {
            None
        } else {
            let op = toks[0];
            if starts_with(op, ".L"@) {
                match push_group(m.syms, sym, remove_pat(op, ":"@)) {
                    Some(syms) => Some(ParseModel { state: m.state, syms }),
                    None => None,
                }
            } else if op == "movq"@ {
                inst_step(m, sym, movq_inst(toks))
            } else if op == "popq"@ {
                inst_step(m, sym, popq_inst(toks))
            } else if op == "pushq"@ {
                inst_step(m, sym, pushq_inst(toks))
            } else if op == "ret"@ {
                inst_step(m, sym, Some(OpcodeModel::RET))
            } else if op == "call"@ {
                inst_step(m, sym, call_inst(toks))
            } else if op == ".global"@ || op == ".globl"@ || op == ".type"@ || ends_with(
                op,
                ":"@,
            ) {
                toplevel_step(m, line)
            } else {
                None
            }
        }
    }
}

/// One line, read in the parser's current state.
pub open spec fn step(m: ParseModel, line: Seq<char>) -> Option<ParseModel> {
    match m.state {
        StateModel::TopLevel => toplevel_step(m, line),
        StateModel::InSymbol(sym) => in_symbol_step(m, line, sym),
    }
}

/// The lines, read one after another; `None` when one of them is refused.
pub open spec fn parse_lines(m: ParseModel, ls: Seq<Seq<char>>) -> Option<ParseModel>
    decreases ls.len(),
{
    if ls.len() == 0 {
        Some(m)
    } else {
        match step(m, ls[0]) {
            Some(m2) => parse_lines(m2, ls.drop_first()),
            None => None,
        }
    }
}

pub open spec fn initial_model() -> ParseModel {
    ParseModel { state: StateModel::TopLevel, syms: Map::empty() }
}

/// The symbols that a source text defines; `None` when one of its lines is
/// refused.
pub open spec fn spec_parse_atandt(source: Seq<char>) -> Option<Map<Seq<char>, SymbolModel>> {
    match parse_lines(initial_model(), lines(source)) {
        Some(m) => Some(m.syms),
        None => None,
    }
}

// ---------------------------------------------------------------------------
// The parser
// ---------------------------------------------------------------------------

/// Reads the symbols of an AT&T-syntax source text, line by line; `None`
/// when a line is refused.
pub fn try_parse_atandt(source: String) -> (res: Option<SymbolTable>)
    ensures
        res is Some <==> spec_parse_atandt(source@) is Some,
        res matches Some(syms) ==> syms@ == spec_parse_atandt(source@).unwrap(),
{
    let src = to_chars(source.as_str());
    let ls = lines_chars(src.as_slice());
    let mut context = Context { state: State::TopLevel, syms: SymbolTable::new() };
    let ghost all = views(ls@);
    assert(all.skip(0) =~= all);
    for i in 0..ls.len()
        invariant
            all == views(ls@),
            all == lines(source@),
            parse_lines(initial_model(), all) == parse_lines(context@, all.skip(i as int)),
    {
        let line = ls[i].as_slice();
        let ghost rest = all.skip(i as int);
        assert(rest[0] == line@);
        assert(rest.drop_first() =~= all.skip(i + 1));
        let in_sym: Option<Vec<char>> = match &context.state {
            State::TopLevel => None,
            State::InSymbol(name) => Some(to_chars(name.as_str())),
        };
        let ok = match in_sym {
            None => context.try_toplevel_chars(line),
            Some(name) => context.try_in_symbol_chars(line, name.as_slice()),
        };
        if !ok {
            return None;
        }
    }
    assert(all.skip(ls.len() as int) =~= Seq::<Seq<char>>::empty());
    Some(context.syms)
}

/// Reads the symbols of an AT&T-syntax source text, line by line.
pub fn parse_atandt(source: String) -> (syms: SymbolTable)
    requires
        spec_parse_atandt(source@) is Some,
    ensures
        syms@ == spec_parse_atandt(source@).unwrap(),
{
    match try_parse_atandt(source) {
        Some(syms) => syms,
        None => {
            proof {
                assert(false);
            }
            SymbolTable::new()
        },
    }
}

impl Context {
    /// A new parser: outside any symbol, with no symbols.
    pub fn new() -> (c: Context)
        ensures
            c@ == initial_model(),
    {
        Context { state: State::TopLevel, syms: SymbolTable::new() }
    }

    /// A line read outside any symbol (see `toplevel_step`).
    pub fn toplevel(&mut self, line: &str)
        requires
            toplevel_step(old(self)@, line@) is Some,
        ensures
            final(self)@ == toplevel_step(old(self)@, line@).unwrap(),
    {
        let cs = to_chars(line);
        self.try_toplevel_chars(cs.as_slice());
    }

    /// A line read outside any symbol; `false`, with the parser in no
    /// particular state, when the line is refused.
    pub fn try_toplevel(&mut self, line: &str) -> (ok: bool)
        ensures
            ok == toplevel_step(old(self)@, line@) is Some,
            ok ==> final(self)@ == toplevel_step(old(self)@, line@).unwrap(),
    {
        let cs = to_chars(line);
        self.try_toplevel_chars(cs.as_slice())
    }

    fn try_toplevel_chars(&mut self, line: &[char]) -> (ok: bool)
        ensures
            ok == toplevel_step(old(self)@, line@) is Some,
            ok ==> final(self)@ == toplevel_step(old(self)@, line@).unwrap(),
    {
        // A blank line changes nothing.
        if Self::is_blank_chars(line) {
            return true;
        }
        // A symbol's label.
        let n = trim_end_len(line);
        let trimmed = copy_range(line, 0, n);
        let colon = to_chars(":");
        if ends_with_chars(trimmed.as_slice(), colon.as_slice()) {
            let sym_name = Self::remove_pat_chars(line, colon.as_slice());
            let _idx = self.syms.index_or_insert_default(sym_name.as_slice());
            self.state = State::InSymbol(from_chars(sym_name.as_slice()));
            return true;
        }
        let toks = split_ascii_whitespace_chars(line);
        // A directive.
        if toks.len() == 0 {
            return false;
        }
        let directive = toks[0].as_slice();
        if chars_eq(directive, to_chars(".global").as_slice()) || chars_eq(
            directive,
            to_chars(".globl").as_slice(),
        ) {
            if toks.len() != 2 {
                return false;
            }
            let name = toks[1].as_slice();
            assert(views(toks@)[1] == name@);
            let ghost m1 = or_default(old(self).syms@, name@);
            let idx = self.syms.index_or_insert_default(name);
            let mut sym = self.syms.replace_at(idx, Symbol::default());
            sym.as_global();
            self.syms.replace_at(idx, sym);
            assert(self.syms@ =~= with_global(m1, name@));
            return true;
        }
        if chars_eq(directive, to_chars(".type").as_slice()) {
            if toks.len() < 3 || !chars_eq(toks[2].as_slice(), to_chars("@function").as_slice()) {
                assert(toks.len() >= 3 ==> views(toks@)[2] == toks@[2]@);
                return false;
            }
            assert(views(toks@)[1] == toks@[1]@);
            assert(views(toks@)[2] == toks@[2]@);
            let name = Self::remove_pat_chars(toks[1].as_slice(), to_chars(",").as_slice());
            let ghost m1 = or_default(old(self).syms@, name@);
            let idx = self.syms.index_or_insert_default(name.as_slice());
            let mut sym = self.syms.replace_at(idx, Symbol::default());
            sym.as_function();
            self.syms.replace_at(idx, sym);
            assert(self.syms@ =~= with_function(m1, name@));
            return true;
        }
        false
    }

    /// A line read inside symbol `sym_name` (see `in_symbol_step`).
    pub fn in_symbol(&mut self, line: &str, sym_name: &str)
        requires
            in_symbol_step(old(self)@, line@, sym_name@) is Some,
        ensures
            final(self)@ == in_symbol_step(old(self)@, line@, sym_name@).unwrap(),
    {
        let cs = to_chars(line);
        let name = to_chars(sym_name);
        self.try_in_symbol_chars(cs.as_slice(), name.as_slice());
    }

    /// A line read inside symbol `sym_name`; `false`, with the parser in no
    /// particular state, when the line is refused.
    pub fn try_in_symbol(&mut self, line: &str, sym_name: &str) -> (ok: bool)
        ensures
            ok == in_symbol_step(old(self)@, line@, sym_name@) is Some,
            ok ==> final(self)@ == in_symbol_step(old(self)@, line@, sym_name@).unwrap(),
    {
        let cs = to_chars(line);
        let name = to_chars(sym_name);
        self.try_in_symbol_chars(cs.as_slice(), name.as_slice())
    }

    fn try_in_symbol_chars(&mut self, line: &[char], sym_name: &[char]) -> (ok: bool)
        ensures
            ok == in_symbol_step(old(self)@, line@, sym_name@) is Some,
            ok ==> final(self)@ == in_symbol_step(old(self)@, line@, sym_name@).unwrap(),
    {
        if Self::is_blank_chars(line) {
            return true;
        }
        let toks = split_ascii_whitespace_chars(line);
        if toks.len() == 0 {
            return false;
        }
        let opcode = toks[0].as_slice();
        // A label inside the symbol starts a group.
        if starts_with_chars(opcode, to_chars(".L").as_slice()) {
            let label = Self::remove_pat_chars(opcode, to_chars(":").as_slice());
            return self.push_group(sym_name, label.as_slice());
        }
        // One instruction.
        if chars_eq(opcode, to_chars("movq").as_slice()) {
            self.parse_movq_inst(&toks, sym_name)
        } else if chars_eq(opcode, to_chars("popq").as_slice()) {
            self.parse_popq_inst(&toks, sym_name)
        } else if chars_eq(opcode, to_chars("pushq").as_slice()) {
            self.parse_pushq_inst(&toks, sym_name)
        } else if chars_eq(opcode, to_chars("ret").as_slice()) {
            self.push_inst_cur_sym(sym_name, Instruction { opcode: Opcode::RET })
        } else if chars_eq(opcode, to_chars("call").as_slice()) {
            self.parse_call_inst(&toks, sym_name)
        } else {
            if chars_eq(opcode, to_chars(".global").as_slice()) || chars_eq(
                opcode,
                to_chars(".globl").as_slice(),
            ) || chars_eq(opcode, to_chars(".type").as_slice()) || ends_with_chars(
                opcode,
                to_chars(":").as_slice(),
            ) {
                self.try_toplevel_chars(line)
            } else {
                false
            }
        }
    }

    fn parse_movq_inst(&mut self, toks: &Vec<Vec<char>>, sym_name: &[char]) -> (ok: bool)
        ensures
            ok == inst_step(old(self)@, sym_name@, movq_inst(views(toks@))) is Some,
            ok ==> final(self)@ == inst_step(
                old(self)@,
                sym_name@,
                movq_inst(views(toks@)),
            ).unwrap(),
    {
        if toks.len() != 3 {
            return false;
        }
        let ghost ts = views(toks@);
        assert(ts[1] == toks@[1]@ && ts[2] == toks@[2]@);
        let src_op = Self::try_parse_operand_chars(toks[1].as_slice());
        let dst_op = Self::try_parse_operand_chars(toks[2].as_slice());
        let (src_op, dst_op) = match (src_op, dst_op) {
            (Some(s), Some(d)) => (s, d),
            _ => return false,
        };
        let is_reg_dst = match &dst_op {
            Operand::GENERALREGISTER(_) => true,
            _ => false,
        };
        if !is_reg_dst {
            return false;
        }
        let opcode = match src_op {
            Operand::GENERALREGISTER(src_gpr) => Opcode::MOVRM64R64 {
                rm64: dst_op,
                r64: Operand::GENERALREGISTER(src_gpr),
            },
            Operand::Immediate(imm) => Opcode::MOVRM64IMM32 { rm64: dst_op, imm: imm.as_32bit() },
            _ => return false,
        };
        self.push_inst_cur_sym(sym_name, Instruction { opcode })
    }

    fn parse_popq_inst(&mut self, toks: &Vec<Vec<char>>, sym_name: &[char]) -> (ok: bool)
        ensures
            ok == inst_step(old(self)@, sym_name@, popq_inst(views(toks@))) is Some,
            ok ==> final(self)@ == inst_step(
                old(self)@,
                sym_name@,
                popq_inst(views(toks@)),
            ).unwrap(),
    {
        if toks.len() != 2 {
            return false;
        }
        let ghost ts = views(toks@);
        assert(ts[1] == toks@[1]@);
        let opcode = match Self::try_parse_operand_chars(toks[1].as_slice()) {
            Some(Operand::GENERALREGISTER(reg)) => Opcode::POPR64 { r64: reg },
            _ => return false,
        };
        self.push_inst_cur_sym(sym_name, Instruction { opcode })
    }

    fn parse_pushq_inst(&mut self, toks: &Vec<Vec<char>>, sym_name: &[char]) -> (ok: bool)
        ensures
            ok == inst_step(old(self)@, sym_name@, pushq_inst(views(toks@))) is Some,
            ok ==> final(self)@ == inst_step(
                old(self)@,
                sym_name@,
                pushq_inst(views(toks@)),
            ).unwrap(),
    {
        if toks.len() != 2 {
            return false;
        }
        let ghost ts = views(toks@);
        assert(ts[1] == toks@[1]@);
        let opcode = match Self::try_parse_operand_chars(toks[1].as_slice()) {
            Some(Operand::Immediate(imm)) => Opcode::PUSHIMM32 { imm: imm.as_32bit() },
            Some(Operand::GENERALREGISTER(reg)) => Opcode::PUSHR64 { r64: reg },
            _ => return false,
        };
        self.push_inst_cur_sym(sym_name, Instruction { opcode })
    }

    fn parse_call_inst(&mut self, toks: &Vec<Vec<char>>, sym_name: &[char]) -> (ok: bool)
        ensures
            ok == inst_step(old(self)@, sym_name@, call_inst(views(toks@))) is Some,
            ok ==> final(self)@ == inst_step(
                old(self)@,
                sym_name@,
                call_inst(views(toks@)),
            ).unwrap(),
    {
        if toks.len() != 2 {
            return false;
        }
        let ghost ts = views(toks@);
        assert(ts[1] == toks@[1]@);
        let func = match Self::try_parse_operand_chars(toks[1].as_slice()) {
            Some(Operand::LABEL(l)) => Operand::LABEL(l),
            _ => return false,
        };
        self.push_inst_cur_sym(sym_name, Instruction { opcode: Opcode::CALLFUNC { func } })
    }

    /// The operand that the text `operand` denotes (see `operand_of`).
    pub fn parse_operand(operand: &str) -> (op: Operand)
        requires
            operand_of(operand@) is Some,
        ensures
            op@ == operand_of(operand@).unwrap(),
    {
        match Self::try_parse_operand(operand) {
            Some(op) => op,
            None => {
                proof {
                    assert(false);
                }
                Operand::GENERALREGISTER(GeneralPurposeRegister::RAX)
            },
        }
    }

    /// The operand that the text `operand` denotes; `None` when it starts
    /// with `%` but names no register.
    pub fn try_parse_operand(operand: &str) -> (op: Option<Operand>)
        ensures
            op is Some <==> operand_of(operand@) is Some,
            op matches Some(o) ==> o@ == operand_of(operand@).unwrap(),
    {
        let cs = to_chars(operand);
        Self::try_parse_operand_chars(cs.as_slice())
    }

    fn try_parse_operand_chars(operand: &[char]) -> (op: Option<Operand>)
        ensures
            op is Some <==> operand_of(operand@) is Some,
            op matches Some(o) ==> o@ == operand_of(operand@).unwrap(),
    {
        let comma = to_chars(",");
        let stripped = Self::remove_pat_chars(operand, comma.as_slice());
        // A register.
        if starts_with_chars(stripped.as_slice(), to_chars("%").as_slice()) {
            return match from_at_chars(stripped.as_slice()) {
                Some(r) => Some(Operand::GENERALREGISTER(r)),
                None => None,
            };
        }
        // An immediate.
        let start = trim_start_matches_start(stripped.as_slice(), to_chars("$").as_slice());
        let immediate = copy_range(stripped.as_slice(), start, stripped.len());
        assert(immediate@ =~= stripped@.skip(start as int));
        match parse_i32_chars(immediate.as_slice()) {
            Some(v) => {
                if -128 <= v && v <= 127 {
                    Some(Operand::Immediate(Immediate::I8(v as i8)))
                } else {
                    Some(Operand::Immediate(Immediate::I32(v)))
                }
            },
            // Not a number: a label.
            None => Some(Operand::LABEL(from_chars(stripped.as_slice()))),
        }
    }

    /// Appends `inst` to the last group of symbol `sym_name`, which first
    /// gets the group `.L<sym_name>_entry` if it has none; `false` when there
    /// is no such symbol.
    fn push_inst_cur_sym(&mut self, sym_name: &[char], inst: Instruction) -> (ok: bool)
        ensures
            ok == push_inst(old(self).syms@, sym_name@, inst@) is Some,
            ok ==> final(self)@ == (ParseModel {
                state: old(self)@.state,
                syms: push_inst(old(self).syms@, sym_name@, inst@).unwrap(),
            }),
    {
        if self.syms.get_chars(sym_name).is_none() {
            return false;
        }
        let idx = self.syms.index_or_insert_default(sym_name);
        assert(self.syms@ == old(self).syms@);
        let mut sym = self.syms.replace_at(idx, Symbol::default());
        let ghost s0 = sym@;
        if sym.groups.len() == 0 {
            let mut label = String::new();
            push_str(&mut label, ".L");
            push_chars(&mut label, sym_name);
            push_str(&mut label, "_entry");
            sym.groups.push(Group::new(label.as_str()));
        }
        let ghost s1 = sym@;
        let group_idx = sym.groups.len() - 1;
        sym.groups[group_idx].insts.push(inst);
        proof {
            let groups = if s0.groups.len() == 0 {
                seq![GroupModel { label: entry_label(sym_name@), insts: Seq::empty() }]
            } else {
                s0.groups
            };
            assert(s1.groups =~= groups);
            let last = groups.last();
            assert(sym@.groups[group_idx as int].insts =~= last.insts.push(inst@));
            assert(sym@.groups =~= groups.update(
                groups.len() - 1,
                GroupModel { label: last.label, insts: last.insts.push(inst@) },
            ));
        }
        let ghost s2 = sym@;
        self.syms.replace_at(idx, sym);
        assert(self.syms@ =~= old(self).syms@.insert(sym_name@, s2));
        true
    }

    /// Appends a new, empty group `label_name` to symbol `sym_name`; `false`
    /// when there is no such symbol.
    fn push_group(&mut self, sym_name: &[char], label_name: &[char]) -> (ok: bool)
        ensures
            ok == push_group(old(self).syms@, sym_name@, label_name@) is Some,
            ok ==> final(self)@ == (ParseModel {
                state: old(self)@.state,
                syms: push_group(old(self).syms@, sym_name@, label_name@).unwrap(),
            }),
    {
        if self.syms.get_chars(sym_name).is_none() {
            return false;
        }
        let idx = self.syms.index_or_insert_default(sym_name);
        assert(self.syms@ == old(self).syms@);
        let mut sym = self.syms.replace_at(idx, Symbol::default());
        let ghost s0 = sym@;
        let label = from_chars(label_name);
        sym.groups.push(Group::new(label.as_str()));
        assert(sym@.groups =~= s0.groups.push(GroupModel { label: label_name@, insts: Seq::empty() }));
        let ghost s2 = sym@;
        self.syms.replace_at(idx, sym);
        assert(self.syms@ =~= old(self).syms@.insert(sym_name@, s2));
        true
    }

    /// `line.trim_end().trim_end_matches(pat)`.
    pub fn remove_pat_and_newline(line: &str, pat: &str) -> (s: String)
        ensures
            s@ == remove_pat(line@, pat@),
    {
        let cs = to_chars(line);
        let p = to_chars(pat);
        let r = Self::remove_pat_chars(cs.as_slice(), p.as_slice());
        from_chars(r.as_slice())
    }

    fn remove_pat_chars(line: &[char], pat: &[char]) -> (r: Vec<char>)
        ensures
            r@ == remove_pat(line@, pat@),
    {
        let n = trim_end_len(line);
        let m = trim_end_matches_len(line, n, pat);
        copy_range(line, 0, m)
    }

    /// Whether `line` holds nothing but whitespace.
    pub fn is_blank_line(line: &str) -> (b: bool)
        ensures
            b == is_blank(line@),
    {
        let cs = to_chars(line);
        Self::is_blank_chars(cs.as_slice())
    }

    fn is_blank_chars(line: &[char]) -> (b: bool)
        ensures
            b == is_blank(line@),
    {
        trim_end_len(line) == 0
    }
}

} // verus!

verus! {

// ---------------------------------------------------------------------------
// Laws
// ---------------------------------------------------------------------------

/// Every instruction of a symbol can be encoded (see `OpcodeModel::wf`).
pub open spec fn symbol_encodable(s: SymbolModel) -> bool {
    forall|g: int, i: int|
        0 <= g < s.groups.len() && 0 <= i < s.groups[g].insts.len() ==> #[trigger] s.groups[g].insts[i].wf()
}

pub open spec fn all_encodable(syms: Map<Seq<char>, SymbolModel>) -> bool {
    forall|k: Seq<char>| syms.contains_key(k) ==> symbol_encodable(#[trigger] syms[k])
}

proof fn lemma_insert_encodable(syms: Map<Seq<char>, SymbolModel>, k: Seq<char>, s: SymbolModel)
    requires
        all_encodable(syms),
        symbol_encodable(s),
    ensures
        all_encodable(syms.insert(k, s)),
{
    assert forall|x: Seq<char>| syms.insert(k, s).contains_key(x) implies symbol_encodable(
        #[trigger] syms.insert(k, s)[x],
    ) by {
        if x != k {
            assert(syms.insert(k, s)[x] == syms[x]);
        }
    }
}

proof fn lemma_or_default_encodable(syms: Map<Seq<char>, SymbolModel>, name: Seq<char>)
    requires
        all_encodable(syms),
    ensures
        all_encodable(or_default(syms, name)),
        or_default(syms, name).contains_key(name),
{
    if !syms.contains_key(name) {
        lemma_insert_encodable(syms, name, default_symbol());
    }
}

proof fn lemma_push_inst_encodable(syms: Map<Seq<char>, SymbolModel>, name: Seq<char>, inst: OpcodeModel)
    requires
        all_encodable(syms),
        inst.wf(),
        push_inst(syms, name, inst) is Some,
    ensures
        all_encodable(push_inst(syms, name, inst).unwrap()),
{
    let s = syms[name];
    assert(symbol_encodable(s));
    let groups = if s.groups.len() == 0 {
        seq![GroupModel { label: entry_label(name), insts: Seq::empty() }]
    } else {
        s.groups
    };
    let last = groups.last();
    let new_groups = groups.update(
        groups.len() - 1,
        GroupModel { label: last.label, insts: last.insts.push(inst) },
    );
    let ns = SymbolModel { groups: new_groups, ..s };
    assert forall|g: int, i: int|
        0 <= g < ns.groups.len() && 0 <= i < ns.groups[g].insts.len() implies #[trigger] ns.groups[g].insts[i].wf() by {
        if g == groups.len() - 1 {
            if i < last.insts.len() {
                assert(s.groups.len() > 0);
                assert(ns.groups[g].insts[i] == s.groups[g].insts[i]);
            }
        } else {
            assert(ns.groups[g] == s.groups[g]);
        }
    }
    lemma_insert_encodable(syms, name, ns);
}

proof fn lemma_inst_step_encodable(m: ParseModel, sym: Seq<char>, inst: Option<OpcodeModel>)
    requires
        all_encodable(m.syms),
        inst matches Some(i) ==> i.wf(),
        inst_step(m, sym, inst) is Some,
    ensures
        all_encodable(inst_step(m, sym, inst).unwrap().syms),
{
    lemma_push_inst_encodable(m.syms, sym, inst.unwrap());
}

proof fn lemma_toplevel_encodable(m: ParseModel, line: Seq<char>)
    requires
        all_encodable(m.syms),
        toplevel_step(m, line) is Some,
    ensures
        all_encodable(toplevel_step(m, line).unwrap().syms),
{
    if is_blank(line) {
    } else if ends_with(trim_end(line), ":"@) {
        lemma_or_default_encodable(m.syms, remove_pat(line, ":"@));
    } else {
        let toks = split_ascii_whitespace(line);
        if toks[0] == ".global"@ || toks[0] == ".globl"@ {
            let m1 = or_default(m.syms, toks[1]);
            lemma_or_default_encodable(m.syms, toks[1]);
            assert(symbol_encodable(m1[toks[1]]));
            lemma_insert_encodable(m1, toks[1], SymbolModel { visibility: stb_global(), ..m1[toks[1]] });
        } else {
            let name = remove_pat(toks[1], ","@);
            let m1 = or_default(m.syms, name);
            lemma_or_default_encodable(m.syms, name);
            assert(symbol_encodable(m1[name]));
            lemma_insert_encodable(m1, name, SymbolModel { ty: stt_func(), ..m1[name] });
        }
    }
}

proof fn lemma_step_encodable(m: ParseModel, line: Seq<char>)
    requires
        all_encodable(m.syms),
        step(m, line) is Some,
    ensures
        all_encodable(step(m, line).unwrap().syms),
{
    match m.state {
        StateModel::TopLevel => lemma_toplevel_encodable(m, line),
        StateModel::InSymbol(sym) => {
            if is_blank(line) {
            } else {
                let toks = split_ascii_whitespace(line);
                let op = toks[0];
                if starts_with(op, ".L"@) {
                    let s = m.syms[sym];
                    assert(symbol_encodable(s));
                    let ns = SymbolModel {
                        groups: s.groups.push(GroupModel { label: remove_pat(op, ":"@), insts: Seq::empty() }),
                        ..s
                    };
                    assert forall|g: int, i: int|
                        0 <= g < ns.groups.len() && 0 <= i < ns.groups[g].insts.len() implies #[trigger] ns.groups[g].insts[i].wf() by {
                        assert(g < s.groups.len());
                        assert(ns.groups[g] == s.groups[g]);
                    }
                    lemma_insert_encodable(m.syms, sym, ns);
                } else if op == "movq"@ {
                    lemma_inst_step_encodable(m, sym, movq_inst(toks));
                } else if op == "popq"@ {
                    lemma_inst_step_encodable(m, sym, popq_inst(toks));
                } else if op == "pushq"@ {
                    lemma_inst_step_encodable(m, sym, pushq_inst(toks));
                } else if op == "ret"@ {
                    lemma_inst_step_encodable(m, sym, Some(OpcodeModel::RET));
                } else if op == "call"@ {
                    lemma_inst_step_encodable(m, sym, call_inst(toks));
                } else {
                    lemma_toplevel_encodable(m, line);
                }
            }
        },
    }
}

proof fn lemma_parse_lines_encodable(m: ParseModel, ls: Seq<Seq<char>>)
    requires
        all_encodable(m.syms),
        parse_lines(m, ls) is Some,
    ensures
        all_encodable(parse_lines(m, ls).unwrap().syms),
    decreases ls.len(),
{
    if ls.len() > 0 {
        lemma_step_encodable(m, ls[0]);
        lemma_parse_lines_encodable(step(m, ls[0]).unwrap(), ls.drop_first());
    }
}

/// Whatever the parser reads, `Instruction::to_bytes` can assemble: every
/// instruction of every symbol it produces has operands that can be encoded.
pub proof fn law_parsed_instructions_encodable(source: Seq<char>)
    requires
        spec_parse_atandt(source) is Some,
    ensures
        all_encodable(spec_parse_atandt(source).unwrap()),
{
    lemma_parse_lines_encodable(initial_model(), lines(source));
}

/// Reading lines `a` and then lines `b` is reading `a + b`.
pub proof fn law_parse_lines_append(m: ParseModel, a: Seq<Seq<char>>, b: Seq<Seq<char>>)
    ensures
        parse_lines(m, a + b) == match parse_lines(m, a) {
            Some(m2) => parse_lines(m2, b),
            None => None,
        },
    decreases a.len(),
{
    if a.len() > 0 {
        assert((a + b)[0] == a[0]);
        assert((a + b).drop_first() =~= a.drop_first() + b);
        match step(m, a[0]) {
            Some(m2) => law_parse_lines_append(m2, a.drop_first(), b),
            None => {},
        }
    } else {
        assert(a + b =~= b);
    }
}

/// Blank lines are ignored: adding one anywhere changes nothing.
pub proof fn law_blank_line_ignored(
    m: ParseModel,
    a: Seq<Seq<char>>,
    blank: Seq<char>,
    b: Seq<Seq<char>>,
)
    requires
        is_blank(blank),
    ensures
        parse_lines(m, a + seq![blank] + b) == parse_lines(m, a + b),
{
    law_parse_lines_append(m, a, seq![blank] + b);
    law_parse_lines_append(m, a, b);
    assert(a + seq![blank] + b =~= a + (seq![blank] + b));
    match parse_lines(m, a) {
        Some(m2) => {
            assert((seq![blank] + b)[0] == blank);
            assert((seq![blank] + b).drop_first() =~= b);
        },
        None => {},
    }
}

} // verus!

verus! {

/// An immediate written with the narrowest of the two widths that holds it,
/// as `parse_operand` reads numbers.
pub open spec fn narrowest_immediate(v: int) -> Immediate {
    if -128 <= v <= 127 {
        Immediate::I8(v as i8)
    } else {
        Immediate::I32(v as i32)
    }
}

/// A register operand that `to_at_string` writes, `parse_operand` reads back.
pub proof fn law_register_operand_round_trip(r: GeneralPurposeRegister)
    ensures
        operand_of(at_operand(OperandModel::GENERALREGISTER(r))) == Some(
            OperandModel::GENERALREGISTER(r),
        ),
{
    let s = at_operand(OperandModel::GENERALREGISTER(r));
    crate::register::lemma_reveal_names();
    crate::register::law_at_name_round_trip(r);
    reveal_strlit(",");
    reveal_strlit("%");
    assert(s == seq!['%'] + r.spec_name());
    assert(!is_whitespace(s.last()));
    assert(trim_end(s) == s);
    assert(s.last() != ',');
    assert(!ends_with(s, ","@)) by {
        if ends_with(s, ","@) {
            assert(s.subrange(s.len() - 1, s.len() as int)[0] == s.last());
        }
    }
    assert(remove_pat(s, ","@) == s);
    assert(s.take(1) =~= "%"@);
}

/// An immediate operand that `to_at_string` writes, `parse_operand` reads
/// back with the same value.
pub proof fn law_immediate_operand_round_trip(i: Immediate)
    ensures
        operand_of(at_operand(OperandModel::Immediate(i))) == Some(
            OperandModel::Immediate(narrowest_immediate(i.spec_value())),
        ),
{
    let v = i.spec_value();
    let d = int_to_decimal(v);
    let s = at_operand(OperandModel::Immediate(i));
    crate::text::lemma_int_to_decimal_shape(v);
    crate::text::law_decimal_round_trip(v);
    reveal_strlit(",");
    reveal_strlit("%");
    reveal_strlit("$");
    assert(s == seq!['$'] + d);
    assert(s.last() == d.last());
    assert(!is_whitespace(s.last()));
    assert(trim_end(s) == s);
    assert(!ends_with(s, ","@)) by {
        if ends_with(s, ","@) {
            assert(s.subrange(s.len() - 1, s.len() as int)[0] == s.last());
        }
    }
    assert(remove_pat(s, ","@) == s);
    assert(!starts_with(s, "%"@)) by {
        if starts_with(s, "%"@) {
            assert(s.take(1)[0] == s[0]);
        }
    }
    assert(starts_with(s, "$"@)) by {
        assert(s.take(1) =~= "$"@);
    }
    assert(s.skip(1) =~= d);
    assert(!starts_with(d, "$"@)) by {
        if starts_with(d, "$"@) {
            assert(d.take(1)[0] == d[0]);
        }
    }
    assert("$"@.len() == 1);
    assert(trim_start_matches(d, "$"@) == d);
    assert(trim_start_matches(s, "$"@) == trim_start_matches(s.skip(1), "$"@));
    assert(trim_start_matches(s, "$"@) == d);
}

} // verus!

verus! {

/// A `,` after an operand (as between the operands of `movq`) does not
/// change what it denotes.
pub proof fn law_operand_trailing_comma(s: Seq<char>)
    requires
        s.len() == 0 || !is_whitespace(s.last()),
    ensures
        operand_of(s.push(',')) == operand_of(s),
{
    reveal_strlit(",");
    let t = s.push(',');
    assert(trim_end(t) == t);
    assert(trim_end(s) == s);
    assert(ends_with(t, ","@)) by {
        assert(t.subrange(t.len() - 1, t.len() as int) =~= ","@);
    }
    assert(t.take(t.len() - 1) =~= s);
    assert(remove_pat(t, ","@) == remove_pat(s, ","@));
}

} // verus!

verus! {

/// A label that reads back as itself: not empty, with no ASCII whitespace
/// and no whitespace at its end, and neither a register nor a number.
pub open spec fn plain_label(l: Seq<char>) -> bool {
    &&& l.len() > 0
    &&& no_ascii_whitespace(l)
    &&& !is_whitespace(l.last())
    &&& operand_of(l) == Some(OperandModel::LABEL(l))
}

/// The instructions in the forms that the parser builds: register operands,
/// 32-bit immediates, and calls to plain labels.
pub open spec fn read_form(op: OpcodeModel) -> bool {
    match op {
        OpcodeModel::RET => true,
        OpcodeModel::PUSHR64 { .. } => true,
        OpcodeModel::POPR64 { .. } => true,
        OpcodeModel::PUSHIMM32 { imm } => imm is I32,
        OpcodeModel::MOVRM64R64 { rm64, r64 } => rm64 is GENERALREGISTER && r64 is GENERALREGISTER,
        OpcodeModel::MOVRM64IMM32 { rm64, imm } => rm64 is GENERALREGISTER && imm is I32,
        OpcodeModel::CALLFUNC { func } => match func {
            OperandModel::LABEL(l) => plain_label(l),
            _ => false,
        },
        _ => false,
    }
}

/// The AT&T text of a register or immediate operand is a single word that
/// does not end in whitespace.
proof fn lemma_operand_word(o: OperandModel)
    requires
        o is GENERALREGISTER || o is Immediate,
    ensures
        at_operand(o).len() > 0,
        no_ascii_whitespace(at_operand(o)),
        !is_whitespace(at_operand(o).last()),
{
    let s = at_operand(o);
    match o {
        OperandModel::GENERALREGISTER(r) => {
            crate::register::lemma_reveal_names();
            assert(s == seq!['%'] + r.spec_name());
            assert forall|i: int| 0 <= i < s.len() implies !is_ascii_whitespace(#[trigger] s[i]) by {
                if i > 0 {
                    assert(s[i] == r.spec_name()[i - 1]);
                }
            }
        },
        OperandModel::Immediate(imm) => {
            let d = int_to_decimal(imm.spec_value());
            crate::text::lemma_decimal_no_whitespace(imm.spec_value());
            crate::text::lemma_int_to_decimal_shape(imm.spec_value());
            assert(s == seq!['$'] + d);
            assert forall|i: int| 0 <= i < s.len() implies !is_ascii_whitespace(#[trigger] s[i]) by {
                if i > 0 {
                    assert(s[i] == d[i - 1]);
                }
            }
            assert(s.last() == d.last());
        },
        _ => {},
    }
}

proof fn lemma_word_not_blank(line: Seq<char>)
    requires
        line.len() > 0,
        !is_whitespace(line.last()),
    ensures
        !is_blank(line),
{
}

proof fn lemma_reveal_mnemonics()
    ensures
        "movq"@ == seq!['m', 'o', 'v', 'q'],
        "popq"@ == seq!['p', 'o', 'p', 'q'],
        "pushq"@ == seq!['p', 'u', 's', 'h', 'q'],
        "ret"@ == seq!['r', 'e', 't'],
        "call"@ == seq!['c', 'a', 'l', 'l'],
        "movq "@ == seq!['m', 'o', 'v', 'q', ' '],
        "popq "@ == seq!['p', 'o', 'p', 'q', ' '],
        "pushq "@ == seq!['p', 'u', 's', 'h', 'q', ' '],
        "call "@ == seq!['c', 'a', 'l', 'l', ' '],
        ", "@ == seq![',', ' '],
        ".L"@ == seq!['.', 'L'],
{
    reveal_strlit("movq");
    reveal_strlit("popq");
    reveal_strlit("pushq");
    reveal_strlit("ret");
    reveal_strlit("call");
    reveal_strlit("movq ");
    reveal_strlit("popq ");
    reveal_strlit("pushq ");
    reveal_strlit("call ");
    reveal_strlit(", ");
    reveal_strlit(".L");
    assert("movq"@ =~= seq!['m', 'o', 'v', 'q']);
    assert("popq"@ =~= seq!['p', 'o', 'p', 'q']);
    assert("pushq"@ =~= seq!['p', 'u', 's', 'h', 'q']);
    assert("ret"@ =~= seq!['r', 'e', 't']);
    assert("call"@ =~= seq!['c', 'a', 'l', 'l']);
    assert("movq "@ =~= seq!['m', 'o', 'v', 'q', ' ']);
    assert("popq "@ =~= seq!['p', 'o', 'p', 'q', ' ']);
    assert("pushq "@ =~= seq!['p', 'u', 's', 'h', 'q', ' ']);
    assert("call "@ =~= seq!['c', 'a', 'l', 'l', ' ']);
    assert(", "@ =~= seq![',', ' ']);
    assert(".L"@ =~= seq!['.', 'L']);
}

/// The tokens of `mnemonic operand`.
proof fn lemma_two_tokens(mnemonic: Seq<char>, a: Seq<char>)
    requires
        mnemonic.len() > 0,
        no_ascii_whitespace(mnemonic),
        a.len() > 0,
        no_ascii_whitespace(a),
    ensures
        split_ascii_whitespace(mnemonic + seq![' '] + a) == seq![mnemonic, a],
{
    crate::text::lemma_split_word(mnemonic);
    crate::text::lemma_split_space_word(mnemonic, a);
    assert(seq![mnemonic].push(a) =~= seq![mnemonic, a]);
}

/// What `to_at_string` writes of an instruction in a form the parser builds,
/// the parser reads back as that instruction.
pub proof fn law_at_string_reads_back(m: ParseModel, sym: Seq<char>, op: OpcodeModel)
    requires
        read_form(op),
    ensures
        in_symbol_step(m, at_string(op), sym) == inst_step(m, sym, Some(op)),
{
    match op {
        OpcodeModel::RET => lemma_reads_back_ret(m, sym),
        OpcodeModel::PUSHR64 { r64 } => lemma_reads_back_push_pop(m, sym, op, r64),
        OpcodeModel::POPR64 { r64 } => lemma_reads_back_push_pop(m, sym, op, r64),
        OpcodeModel::PUSHIMM32 { imm } => lemma_reads_back_push_imm(m, sym, imm),
        OpcodeModel::CALLFUNC { func } => lemma_reads_back_call(m, sym, func->LABEL_0),
        OpcodeModel::MOVRM64R64 { rm64, r64 } => lemma_reads_back_movq(m, sym, op, r64, rm64),
        OpcodeModel::MOVRM64IMM32 { rm64, imm } => lemma_reads_back_movq(
            m,
            sym,
            op,
            OperandModel::Immediate(imm),
            rm64,
        ),
        _ => {},
    }
}

proof fn lemma_reads_back_ret(m: ParseModel, sym: Seq<char>)
    ensures
        in_symbol_step(m, at_string(OpcodeModel::RET), sym) == inst_step(
            m,
            sym,
            Some(OpcodeModel::RET),
        ),
{
    lemma_reveal_mnemonics();
    let line = at_string(OpcodeModel::RET);
    assert(line == "ret"@);
    assert(no_ascii_whitespace(line)) by {
        assert forall|i: int| 0 <= i < line.len() implies !is_ascii_whitespace(#[trigger] line[i]) by {}
    }
    crate::text::lemma_split_word(line);
    lemma_word_not_blank(line);
}

proof fn lemma_reads_back_push_pop(
    m: ParseModel,
    sym: Seq<char>,
    op: OpcodeModel,
    r: GeneralPurposeRegister,
)
    requires
        op == (OpcodeModel::PUSHR64 { r64: r }) || op == (OpcodeModel::POPR64 { r64: r }),
    ensures
        in_symbol_step(m, at_string(op), sym) == inst_step(m, sym, Some(op)),
{
    lemma_reveal_mnemonics();
    let line = at_string(op);
    let a = at_operand(OperandModel::GENERALREGISTER(r));
    lemma_operand_word(OperandModel::GENERALREGISTER(r));
    law_register_operand_round_trip(r);
    let mn = if op is PUSHR64 {
        "pushq"@
    } else {
        "popq"@
    };
    assert(no_ascii_whitespace(mn)) by {
        assert forall|i: int| 0 <= i < mn.len() implies !is_ascii_whitespace(#[trigger] mn[i]) by {}
    }
    assert(line =~= mn + seq![' '] + a);
    lemma_two_tokens(mn, a);
    lemma_word_not_blank(line);
}

proof fn lemma_reads_back_push_imm(m: ParseModel, sym: Seq<char>, imm: Immediate)
    requires
        imm is I32,
    ensures
        in_symbol_step(m, at_string(OpcodeModel::PUSHIMM32 { imm }), sym) == inst_step(
            m,
            sym,
            Some(OpcodeModel::PUSHIMM32 { imm }),
        ),
{
    lemma_reveal_mnemonics();
    let line = at_string(OpcodeModel::PUSHIMM32 { imm });
    let o = OperandModel::Immediate(imm);
    let a = at_operand(o);
    lemma_operand_word(o);
    law_immediate_operand_round_trip(imm);
    assert(no_ascii_whitespace("pushq"@)) by {
        assert forall|i: int| 0 <= i < 5 implies !is_ascii_whitespace(#[trigger] "pushq"@[i]) by {}
    }
    assert(line =~= "pushq"@ + seq![' '] + a);
    lemma_two_tokens("pushq"@, a);
    lemma_word_not_blank(line);
    assert(narrowest_immediate(imm.spec_value()).spec_as_32bit() == imm);
}

proof fn lemma_reads_back_call(m: ParseModel, sym: Seq<char>, l: Seq<char>)
    requires
        plain_label(l),
    ensures
        in_symbol_step(m, at_string(OpcodeModel::CALLFUNC { func: OperandModel::LABEL(l) }), sym)
            == inst_step(m, sym, Some(OpcodeModel::CALLFUNC { func: OperandModel::LABEL(l) })),
{
    lemma_reveal_mnemonics();
    let line = at_string(OpcodeModel::CALLFUNC { func: OperandModel::LABEL(l) });
    assert(no_ascii_whitespace("call"@)) by {
        assert forall|i: int| 0 <= i < 4 implies !is_ascii_whitespace(#[trigger] "call"@[i]) by {}
    }
    assert(line =~= "call"@ + seq![' '] + l);
    lemma_two_tokens("call"@, l);
    assert(line.last() == l.last());
    lemma_word_not_blank(line);
}

/// The three tokens of a `movq` line read as the instruction.
proof fn lemma_movq_inst_of(op: OpcodeModel, src: OperandModel, dst: OperandModel)
    requires
        dst is GENERALREGISTER,
        (op == (OpcodeModel::MOVRM64R64 { rm64: dst, r64: src }) && src is GENERALREGISTER) || (
        src is Immediate && src->Immediate_0 is I32 && op == (OpcodeModel::MOVRM64IMM32 {
            rm64: dst,
            imm: src->Immediate_0,
        })),
    ensures
        movq_inst(seq!["movq"@, at_operand(src).push(','), at_operand(dst)]) == Some(op),
{
    let a = at_operand(src);
    let b = at_operand(dst);
    let toks = seq!["movq"@, a.push(','), b];
    lemma_operand_word(src);
    law_register_operand_round_trip(dst->GENERALREGISTER_0);
    law_operand_trailing_comma(a);
    if src is GENERALREGISTER {
        law_register_operand_round_trip(src->GENERALREGISTER_0);
    } else {
        law_immediate_operand_round_trip(src->Immediate_0);
        assert(narrowest_immediate(src->Immediate_0.spec_value()).spec_as_32bit()
            == src->Immediate_0);
    }
    assert(operand_of(toks[1]) == operand_of(a));
    assert(operand_of(toks[2]) == Some(dst));
}

/// A `movq` line in the form `to_at_string` writes is not blank and has the
/// three expected tokens.
proof fn lemma_movq_line(op: OpcodeModel, src: OperandModel, dst: OperandModel)
    requires
        dst is GENERALREGISTER,
        src is GENERALREGISTER || src is Immediate,
        op == (OpcodeModel::MOVRM64R64 { rm64: dst, r64: src }) || (src is Immediate && op == (
        OpcodeModel::MOVRM64IMM32 { rm64: dst, imm: src->Immediate_0 })),
    ensures
        !is_blank(at_string(op)),
        split_ascii_whitespace(at_string(op)) == seq![
            "movq"@,
            at_operand(src).push(','),
            at_operand(dst),
        ],
{
    let a = at_operand(src);
    let b = at_operand(dst);
    assert(at_string(op) == "movq "@ + a + ", "@ + b);
    lemma_movq_text(a, b);
    lemma_operand_word(src);
    lemma_operand_word(dst);
    lemma_movq_tokens(a, b);
    lemma_word_not_blank(at_string(op));
}

proof fn lemma_movq_text(a: Seq<char>, b: Seq<char>)
    ensures
        "movq "@ + a + ", "@ + b == "movq"@ + seq![' '] + a.push(',') + seq![' '] + b,
{
    reveal_strlit("movq ");
    reveal_strlit("movq");
    reveal_strlit(", ");
    assert("movq "@ =~= "movq"@ + seq![' ']);
    assert(", "@ =~= seq![',', ' ']);
    assert("movq "@ + a + ", "@ + b =~= "movq"@ + seq![' '] + a.push(',') + seq![' '] + b);
}

proof fn lemma_reads_back_movq(
    m: ParseModel,
    sym: Seq<char>,
    op: OpcodeModel,
    src: OperandModel,
    dst: OperandModel,
)
    requires
        dst is GENERALREGISTER,
        (op == (OpcodeModel::MOVRM64R64 { rm64: dst, r64: src }) && src is GENERALREGISTER) || (
        src is Immediate && src->Immediate_0 is I32 && op == (OpcodeModel::MOVRM64IMM32 {
            rm64: dst,
            imm: src->Immediate_0,
        })),
    ensures
        in_symbol_step(m, at_string(op), sym) == inst_step(m, sym, Some(op)),
{
    lemma_reveal_mnemonics();
    lemma_movq_line(op, src, dst);
    lemma_movq_inst_of(op, src, dst);
    let toks = split_ascii_whitespace(at_string(op));
    assert(toks[0] == "movq"@);
    assert(!starts_with(toks[0], ".L"@)) by {
        if starts_with(toks[0], ".L"@) {
            assert(toks[0].take(2)[0] == toks[0][0]);
        }
    }
}

proof fn lemma_movq_tokens(a: Seq<char>, b: Seq<char>)
    requires
        a.len() > 0,
        no_ascii_whitespace(a),
        b.len() > 0,
        no_ascii_whitespace(b),
    ensures
        split_ascii_whitespace("movq"@ + seq![' '] + a.push(',') + seq![' '] + b) == seq![
            "movq"@,
            a.push(','),
            b,
        ],
{
    reveal_strlit("movq");
    assert("movq"@ =~= seq!['m', 'o', 'v', 'q']);
    let ac = a.push(',');
    assert(no_ascii_whitespace(ac)) by {
        assert forall|i: int| 0 <= i < ac.len() implies !is_ascii_whitespace(#[trigger] ac[i]) by {
            if i < a.len() {
                assert(ac[i] == a[i]);
            }
        }
    }
    assert(no_ascii_whitespace("movq"@)) by {
        assert forall|i: int| 0 <= i < 4 implies !is_ascii_whitespace(#[trigger] "movq"@[i]) by {}
    }
    lemma_two_tokens("movq"@, ac);
    crate::text::lemma_split_space_word("movq"@ + seq![' '] + ac, b);
    assert(seq!["movq"@, ac].push(b) =~= seq!["movq"@, ac, b]);
}

} // verus!

verus! {

/// Inside a symbol, the parser's table has that symbol.
pub open spec fn current_symbol_known(m: ParseModel) -> bool {
    m.state matches StateModel::InSymbol(n) ==> m.syms.contains_key(n)
}

proof fn lemma_toplevel_keeps(m: ParseModel, line: Seq<char>)
    requires
        toplevel_step(m, line) is Some,
    ensures
        forall|k: Seq<char>| m.syms.contains_key(k) ==> #[trigger] toplevel_step(m, line).unwrap().syms.contains_key(k),
        current_symbol_known(m) ==> current_symbol_known(toplevel_step(m, line).unwrap()),
{
}

proof fn lemma_step_keeps(m: ParseModel, line: Seq<char>)
    requires
        step(m, line) is Some,
        current_symbol_known(m),
    ensures
        current_symbol_known(step(m, line).unwrap()),
{
    match m.state {
        StateModel::TopLevel => lemma_toplevel_keeps(m, line),
        StateModel::InSymbol(sym) => {
            if !is_blank(line) {
                let toks = split_ascii_whitespace(line);
                let op = toks[0];
                if !starts_with(op, ".L"@) && op != "movq"@ && op != "popq"@ && op != "pushq"@
                    && op != "ret"@ && op != "call"@ {
                    lemma_toplevel_keeps(m, line);
                }
            }
        },
    }
}

proof fn lemma_parse_lines_keeps(m: ParseModel, ls: Seq<Seq<char>>)
    requires
        parse_lines(m, ls) is Some,
        current_symbol_known(m),
    ensures
        current_symbol_known(parse_lines(m, ls).unwrap()),
    decreases ls.len(),
{
    if ls.len() > 0 {
        lemma_step_keeps(m, ls[0]);
        lemma_parse_lines_keeps(step(m, ls[0]).unwrap(), ls.drop_first());
    }
}

/// Whenever the parser is inside a symbol, that symbol is in its table, so
/// the lines of a symbol always have a symbol to go to.
pub proof fn law_current_symbol_known(ls: Seq<Seq<char>>)
    requires
        parse_lines(initial_model(), ls) is Some,
    ensures
        current_symbol_known(parse_lines(initial_model(), ls).unwrap()),
{
    lemma_parse_lines_keeps(initial_model(), ls);
}

} // verus!

verus! {

/// Whitespace after an operand does not change what it denotes.
pub proof fn law_operand_trailing_whitespace(s: Seq<char>, t: Seq<char>)
    requires
        forall|i: int| 0 <= i < t.len() ==> is_whitespace(#[trigger] t[i]),
    ensures
        operand_of(s + t) == operand_of(s),
{
    crate::text::lemma_trim_end_whitespace_suffix(s, t);
}

/// Blank lines in a source text are ignored: a whitespace-only line `w`
/// inserted where a line may start (at the start of the text, or after a
/// `'\n'`) changes nothing, whether it ends in `'\n'` or ends the text.
pub proof fn law_blank_line_in_source(x: Seq<char>, w: Seq<char>, y: Seq<char>)
    requires
        x.len() == 0 || x.last() == '\n',
        is_blank(w),
        !w.contains('\n'),
    ensures
        spec_parse_atandt(x + w + seq!['\n'] + y) == spec_parse_atandt(x + y),
        spec_parse_atandt(x + w) == spec_parse_atandt(x),
{
    let wn = w + seq!['\n'];
    let sw = crate::text::strip_cr(w);
    assert(wn.last() == '\n');
    crate::text::lemma_lines_append(x, wn + y);
    crate::text::lemma_lines_append(wn, y);
    crate::text::lemma_lines_append(x, y);
    crate::text::lemma_lines_single_terminated(w);
    crate::text::lemma_strip_cr_blank(w);
    assert(x + w + seq!['\n'] + y =~= x + (wn + y));
    assert(lines(x + w + seq!['\n'] + y) =~= lines(x) + seq![sw] + lines(y));
    law_blank_line_ignored(initial_model(), lines(x), sw, lines(y));

    crate::text::lemma_lines_append(x, w);
    crate::text::lemma_lines_single_unterminated(w);
    if w.len() > 0 {
        law_blank_line_ignored(initial_model(), lines(x), w, Seq::empty());
        assert(lines(x) + seq![w] + Seq::<Seq<char>>::empty() =~= lines(x + w));
        assert(lines(x) + Seq::<Seq<char>>::empty() =~= lines(x));
    } else {
        assert(lines(x + w) =~= lines(x));
    }
}

} // verus!

verus! {

/// Every character of `s` is whitespace (`'\n'` among them): `s` is made of
/// blank lines.
pub open spec fn all_whitespace(s: Seq<char>) -> bool {
    forall|i: int| 0 <= i < s.len() ==> is_whitespace(#[trigger] s[i])
}

/// The first `'\n'` of a text that has one.
proof fn first_newline(b: Seq<char>) -> (k: int)
    requires
        b.contains('\n'),
    ensures
        0 <= k < b.len(),
        b[k] == '\n',
        !b.take(k).contains('\n'),
    decreases b.len(),
{
    if b[0] == '\n' {
        assert(b.take(0) =~= Seq::<char>::empty());
        0
    } else {
        let t = b.drop_first();
        assert(t.contains('\n')) by {
            let j = choose|j: int| 0 <= j < b.len() && b[j] == '\n';
            assert(t[j - 1] == '\n');
        }
        let k1 = first_newline(t);
        let k = k1 + 1;
        assert(!b.take(k).contains('\n')) by {
            if b.take(k).contains('\n') {
                let j = choose|j: int| 0 <= j < b.take(k).len() && b.take(k)[j] == '\n';
                assert(j != 0);
                assert(t.take(k1)[j - 1] == b[j]);
            }
        }
        k
    }
}

proof fn lemma_all_whitespace_parts(b: Seq<char>, k: int)
    requires
        all_whitespace(b),
        0 <= k < b.len(),
    ensures
        all_whitespace(b.take(k)),
        all_whitespace(b.skip(k + 1)),
        is_blank(b.take(k)),
{
    assert forall|i: int| 0 <= i < b.take(k).len() implies is_whitespace(#[trigger] b.take(k)[i]) by {
        assert(b.take(k)[i] == b[i]);
    }
    assert forall|i: int| 0 <= i < b.skip(k + 1).len() implies is_whitespace(
        #[trigger] b.skip(k + 1)[i],
    ) by {
        assert(b.skip(k + 1)[i] == b[i + k + 1]);
    }
    crate::text::law_blank_iff_all_whitespace(b.take(k));
}

/// Any number of blank lines inserted where a line may start (at the start
/// of the text or after a `'\n'`) change nothing: `b` is made of whitespace
/// and is empty or ends in `'\n'`.
pub proof fn law_blank_lines_in_source(x: Seq<char>, b: Seq<char>, y: Seq<char>)
    requires
        x.len() == 0 || x.last() == '\n',
        all_whitespace(b),
        b.len() == 0 || b.last() == '\n',
    ensures
        spec_parse_atandt(x + b + y) == spec_parse_atandt(x + y),
    decreases b.len(),
{
    if b.len() == 0 {
        assert(x + b + y =~= x + y);
    } else {
        assert(b.contains('\n')) by {
            assert(b[b.len() - 1] == '\n');
        }
        let k = first_newline(b);
        let w = b.take(k);
        let rest = b.skip(k + 1);
        lemma_all_whitespace_parts(b, k);
        assert(b =~= w + seq!['\n'] + rest);
        law_blank_line_in_source(x, w, rest + y);
        assert(x + b + y =~= x + w + seq!['\n'] + (rest + y));
        assert(x + (rest + y) =~= x + rest + y);
        assert(rest.len() > 0 ==> rest.last() == b.last());
        law_blank_lines_in_source(x, rest, y);
    }
}

/// Blank text at the end of a source, after a `'\n'` or as the whole text,
/// changes nothing, whether or not its last line is terminated.
pub proof fn law_blank_text_at_end(x: Seq<char>, b: Seq<char>)
    requires
        x.len() == 0 || x.last() == '\n',
        all_whitespace(b),
    ensures
        spec_parse_atandt(x + b) == spec_parse_atandt(x),
    decreases b.len(),
{
    if b.contains('\n') {
        let k = first_newline(b);
        let w = b.take(k);
        let rest = b.skip(k + 1);
        lemma_all_whitespace_parts(b, k);
        assert(b =~= w + seq!['\n'] + rest);
        law_blank_line_in_source(x, w, rest);
        assert(x + b =~= x + w + seq!['\n'] + rest);
        law_blank_text_at_end(x, rest);
    } else {
        crate::text::law_blank_iff_all_whitespace(b);
        law_blank_line_in_source(x, b, Seq::empty());
    }
}

/// A `'\r'` at the end of a line changes nothing of what the line does.
proof fn lemma_step_trailing_cr(m: ParseModel, l: Seq<char>)
    ensures
        step(m, l.push('\r')) == step(m, l),
{
    let lc = l.push('\r');
    assert(lc.drop_last() =~= l);
    assert(is_whitespace('\r'));
    assert(is_ascii_whitespace('\r'));
    assert(trim_end(lc) == trim_end(l));
    assert(split_ascii_whitespace(lc) == split_ascii_whitespace(l));
    assert(is_blank(lc) == is_blank(l));
    assert(toplevel_step(m, lc) == toplevel_step(m, l));
    match m.state {
        StateModel::TopLevel => {},
        StateModel::InSymbol(sym) => {
            assert(in_symbol_step(m, lc, sym) == in_symbol_step(m, l, sym));
        },
    }
}

/// Terminating the last line of a text only drops a `'\r'` at its end.
proof fn lemma_lines_terminate(x: Seq<char>)
    requires
        x.len() > 0,
        x.last() != '\n',
    ensures
        lines(x).len() > 0,
        lines(x + seq!['\n']) == lines(x).drop_last().push(crate::text::strip_cr(lines(x).last())),
{
    crate::text::lemma_split_newlines_nonempty(x.drop_last());
    crate::text::lemma_split_newlines_nonempty(x);
    let p = crate::text::split_newlines(x);
    let n = p.len();
    assert(x.drop_last().push(x.last()) =~= x);
    assert(p.last().len() > 0);
    let t = x + seq!['\n'];
    assert(t.drop_last() =~= x);
    assert(crate::text::split_newlines(t) == p.push(Seq::<char>::empty()));
    let f = |l: Seq<char>| crate::text::strip_cr(l);
    assert(p.push(Seq::<char>::empty()).take(n as int) =~= p);
    assert(lines(x) == p.take(n - 1).map_values(f).push(p[n - 1]));
    assert(lines(t) == p.map_values(f));
    assert(lines(t) =~= lines(x).drop_last().push(crate::text::strip_cr(lines(x).last())));
}

/// Blank text after an unterminated last line, begun with the `'\n'` that
/// ends that line, changes nothing.
pub proof fn law_blank_text_after_last_line(x: Seq<char>, b: Seq<char>)
    requires
        x.len() > 0,
        x.last() != '\n',
        all_whitespace(b),
    ensures
        spec_parse_atandt(x + seq!['\n'] + b) == spec_parse_atandt(x),
{
    let xn = x + seq!['\n'];
    law_blank_text_at_end(xn, b);
    lemma_lines_terminate(x);
    let ls = lines(x);
    let a = ls.drop_last();
    let l = ls.last();
    let sl = crate::text::strip_cr(l);
    assert(ls =~= a + seq![l]);
    assert(lines(xn) =~= a + seq![sl]);
    law_parse_lines_append(initial_model(), a, seq![l]);
    law_parse_lines_append(initial_model(), a, seq![sl]);
    match parse_lines(initial_model(), a) {
        Some(m2) => {
            if l.len() > 0 && l.last() == '\r' {
                assert(sl.push('\r') =~= l);
                lemma_step_trailing_cr(m2, sl);
            }
            assert(seq![l].drop_first() =~= Seq::<Seq<char>>::empty());
            assert(seq![sl].drop_first() =~= Seq::<Seq<char>>::empty());
        },
        None => {},
    }
}

/// An operand with no whitespace at its end reads the same with a `,` or
/// with whitespace after it.
pub proof fn law_operand_trailing_comma_or_whitespace(s: Seq<char>, t: Seq<char>)
    requires
        trim_end(s) == s,
        all_whitespace(t),
    ensures
        operand_of(s.push(',')) == operand_of(s),
        operand_of(s + t) == operand_of(s),
{
    if s.len() > 0 && is_whitespace(s.last()) {
        assert(trim_end(s) == trim_end(s.drop_last()));
        assert(trim_end(s.drop_last()).len() <= s.drop_last().len()) by {
            lemma_trim_end_len(s.drop_last());
        }
    }
    law_operand_trailing_comma(s);
    law_operand_trailing_whitespace(s, t);
}

proof fn lemma_trim_end_len(s: Seq<char>)
    ensures
        trim_end(s).len() <= s.len(),
    decreases s.len(),
{
    if s.len() > 0 && is_whitespace(s.last()) {
        lemma_trim_end_len(s.drop_last());
    }
}

} // verus!

verus! {

/// A line whose first word is neither `.global` nor `.globl`.
pub open spec fn not_global_line(line: Seq<char>) -> bool {
    let toks = split_ascii_whitespace(line);
    !(toks.len() > 0 && (toks[0] == ".global"@ || toks[0] == ".globl"@))
}

/// Only `.global`/`.globl` lines change a symbol's binding: after any other
/// line, every symbol has the binding it had, and a symbol that line added is
/// local (`STB_LOCAL`, 0). In particular `.type NAME, @function` makes NAME a
/// function without making it global.
pub proof fn law_only_global_lines_bind(m: ParseModel, line: Seq<char>)
    requires
        step(m, line) is Some,
        not_global_line(line),
    ensures
        forall|k: Seq<char>| #[trigger]
            step(m, line).unwrap().syms.contains_key(k) ==> step(m, line).unwrap().syms[k].visibility
                == (if m.syms.contains_key(k) {
                m.syms[k].visibility
            } else {
                0u8
            }),
{
    let r = step(m, line).unwrap().syms;
    assert forall|k: Seq<char>| #[trigger] r.contains_key(k) implies r[k].visibility == (if m.syms.contains_key(k) {
        m.syms[k].visibility
    } else {
        0u8
    }) by {
        if m.syms.contains_key(k) {
            assert(r[k].visibility == m.syms[k].visibility);
        } else {
            assert(r[k].visibility == 0u8);
        }
    }
}

/// A `.type NAME, @function` line outside a symbol makes NAME a function
/// (`STT_FUNC`, 2) and leaves its binding as it was (local, 0, for a new
/// symbol).
pub proof fn law_type_line_marks_function(m: ParseModel, line: Seq<char>)
    requires
        toplevel_step(m, line) is Some,
        !is_blank(line),
        !ends_with(trim_end(line), ":"@),
        split_ascii_whitespace(line)[0] == ".type"@,
    ensures
        ({
            let name = remove_pat(split_ascii_whitespace(line)[1], ","@);
            let r = toplevel_step(m, line).unwrap().syms;
            &&& r.contains_key(name)
            &&& r[name].ty == 2u8
            &&& r[name].visibility == (if m.syms.contains_key(name) {
                m.syms[name].visibility
            } else {
                0u8
            })
        }),
{
    reveal_strlit(".type");
    reveal_strlit(".global");
    reveal_strlit(".globl");
    assert(".type"@ != ".global"@) by {
        assert(".type"@.len() != ".global"@.len());
    }
    assert(".type"@ != ".globl"@) by {
        assert(".type"@[2] != ".globl"@[2]);
    }
}

proof fn lemma_parse_lines_no_global(m: ParseModel, ls: Seq<Seq<char>>)
    requires
        parse_lines(m, ls) is Some,
        forall|i: int| 0 <= i < ls.len() ==> not_global_line(#[trigger] ls[i]),
        forall|k: Seq<char>| #[trigger] m.syms.contains_key(k) ==> m.syms[k].visibility == 0u8,
    ensures
        forall|k: Seq<char>| #[trigger]
            parse_lines(m, ls).unwrap().syms.contains_key(k)
                ==> parse_lines(m, ls).unwrap().syms[k].visibility == 0u8,
    decreases ls.len(),
{
    if ls.len() > 0 {
        assert(not_global_line(ls[0]));
        law_only_global_lines_bind(m, ls[0]);
        let m2 = step(m, ls[0]).unwrap();
        assert forall|i: int| 0 <= i < ls.drop_first().len() implies not_global_line(
            #[trigger] ls.drop_first()[i],
        ) by {
            assert(ls.drop_first()[i] == ls[i + 1]);
        }
        assert forall|k: Seq<char>| #[trigger] m2.syms.contains_key(k) implies m2.syms[k].visibility
            == 0u8 by {
            if m.syms.contains_key(k) {
            }
        }
        lemma_parse_lines_no_global(m2, ls.drop_first());
    }
}

/// A source with no `.global`/`.globl` line defines no global symbol: every
/// symbol it defines is local (`STB_LOCAL`, 0).
pub proof fn law_no_global_line_no_global_symbol(source: Seq<char>)
    requires
        spec_parse_atandt(source) is Some,
        forall|i: int| 0 <= i < lines(source).len() ==> not_global_line(#[trigger] lines(source)[i]),
    ensures
        forall|k: Seq<char>| #[trigger]
            spec_parse_atandt(source).unwrap().contains_key(k) ==> spec_parse_atandt(
                source,
            ).unwrap()[k].visibility == 0u8,
{
    lemma_parse_lines_no_global(initial_model(), lines(source));
}

} // verus!
