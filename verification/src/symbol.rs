//! Symbols: the labelled groups of instructions that make up a function,
//! with the ELF binding and type that the symbol table will record.
use vstd::prelude::*;

use elf_utilities::symbol::{Bind, Type};

use crate::instruction::Instruction;
use crate::opcode::OpcodeModel;
use crate::text::push_str;

verus! {

// ---------------------------------------------------------------------------
// ELF symbol attributes
// ---------------------------------------------------------------------------

/// The ELF `STB_LOCAL` binding.
pub open spec fn stb_local() -> u8 {
    0
}

/// The ELF `STB_GLOBAL` binding.
pub open spec fn stb_global() -> u8 {
    1
}

/// The ELF `STT_FUNC` symbol type.
pub open spec fn stt_func() -> u8 {
    2
}

/// The symbol bindings that this assembler gives.
pub enum Binding {
    Local,
    Global,
}

pub open spec fn binding_byte(b: Binding) -> u8 {
    match b {
        Binding::Local => stb_local(),
        Binding::Global => stb_global(),
    }
}

/// `elf_utilities::symbol::Bind::to_byte` on `Bind::Local` or `Bind::Global`,
/// which gives the ELF values `STB_LOCAL` (0) and `STB_GLOBAL` (1).
#[verifier::external_body]
fn bind_to_byte(b: Binding) -> (r: u8)
    ensures
        r == binding_byte(b),
{
    let bind = match b {
        Binding::Local => Bind::Local,
        Binding::Global => Bind::Global,
    };
    bind.to_byte()
}

/// `elf_utilities::symbol::Type::to_byte` on `Type::Func`, which gives the ELF
/// value `STT_FUNC` (2).
#[verifier::external_body]
fn func_type_to_byte() -> (r: u8)
    ensures
        r == stt_func(),
{
    Type::Func.to_byte()
}

// ---------------------------------------------------------------------------
// Groups
// ---------------------------------------------------------------------------

/// A label inside a symbol and the instructions that follow it.
#[derive(Eq, Ord, PartialOrd, PartialEq, Debug, Clone)]
pub struct Group {
    pub label: String,
    pub insts: Vec<Instruction>,
}

pub struct GroupModel {
    pub label: Seq<char>,
    pub insts: Seq<OpcodeModel>,
}

pub open spec fn inst_views(v: Seq<Instruction>) -> Seq<OpcodeModel> {
    v.map_values(|i: Instruction| i@)
}

impl View for Group {
    type V = GroupModel;

    open spec fn view(&self) -> GroupModel {
        GroupModel { label: self.label@, insts: inst_views(self.insts@) }
    }
}

impl Group {
    /// An empty group with the given label.
    pub fn new(label: &str) -> (g: Group)
        ensures
            g@ == (GroupModel { label: label@, insts: Seq::empty() }),
    {
        let mut l = String::new();
        push_str(&mut l, label);
        let g = Group { label: l, insts: Vec::new() };
        assert(g@.label =~= label@);
        assert(g@.insts =~= Seq::<OpcodeModel>::empty());
        g
    }
}

// ---------------------------------------------------------------------------
// Symbols
// ---------------------------------------------------------------------------

#[derive(Eq, Ord, PartialOrd, PartialEq, Debug, Clone)]
pub struct Symbol {
    pub groups: Vec<Group>,
    /// Symbol Visibility(GLOBAL/LOCAL/etc.)
    pub visibility: u8,
    /// Symbol Type(NOTYPE/FUNCTION/etc.)
    pub ty: u8,
}

pub struct SymbolModel {
    pub groups: Seq<GroupModel>,
    pub visibility: u8,
    pub ty: u8,
}

pub open spec fn group_views(v: Seq<Group>) -> Seq<GroupModel> {
    v.map_values(|g: Group| g@)
}

impl View for Symbol {
    type V = SymbolModel;

    open spec fn view(&self) -> SymbolModel {
        SymbolModel { groups: group_views(self.groups@), visibility: self.visibility, ty: self.ty }
    }
}

/// A new symbol: no groups, local binding, no type.
pub open spec fn default_symbol() -> SymbolModel {
    SymbolModel { groups: Seq::empty(), visibility: stb_local(), ty: 0 }
}

impl SymbolModel {
    pub open spec fn is_function(self) -> bool {
        self.ty & stt_func() != 0
    }

    pub open spec fn is_global(self) -> bool {
        self.visibility & stb_global() != 0
    }
}

impl Default for Symbol {
    fn default() -> (s: Self)
        ensures
            s@ == default_symbol(),
    {
        let s = Self { groups: Vec::new(), ty: 0, visibility: bind_to_byte(Binding::Local) };
        assert(s@.groups =~= Seq::<GroupModel>::empty());
        s
    }
}

impl Symbol {
    /// Marks the symbol as a function (`STT_FUNC`).
    pub fn as_function(&mut self)
        ensures
            final(self)@ == (SymbolModel { ty: stt_func(), ..old(self)@ }),
    {
        self.ty = func_type_to_byte();
    }

    /// Marks the symbol as global (`STB_GLOBAL`).
    pub fn as_global(&mut self)
        ensures
            final(self)@ == (SymbolModel { visibility: stb_global(), ..old(self)@ }),
    {
        self.visibility = bind_to_byte(Binding::Global);
    }

    pub fn is_function(&self) -> (b: bool)
        ensures
            b == self@.is_function(),
    {
        (self.ty & func_type_to_byte()) != 0
    }

    pub fn is_global(&self) -> (b: bool)
        ensures
            b == self@.is_global(),
    {
        (self.visibility & bind_to_byte(Binding::Global)) != 0
    }
}

// ---------------------------------------------------------------------------
// Laws
// ---------------------------------------------------------------------------

/// A new symbol is neither a function nor global.
pub proof fn law_default_symbol_is_plain()
    ensures
        !default_symbol().is_function(),
        !default_symbol().is_global(),
{
    assert(0u8 & 2u8 == 0) by (bit_vector);
    assert(0u8 & 1u8 == 0) by (bit_vector);
}

/// After `as_function` a symbol is a function, and whether it is global is
/// what it was.
pub proof fn law_as_function(s: SymbolModel)
    ensures
        (SymbolModel { ty: stt_func(), ..s }).is_function(),
        (SymbolModel { ty: stt_func(), ..s }).is_global() == s.is_global(),
{
    assert(2u8 & 2u8 != 0) by (bit_vector);
}

/// After `as_global` a symbol is global, and whether it is a function is what
/// it was.
pub proof fn law_as_global(s: SymbolModel)
    ensures
        (SymbolModel { visibility: stb_global(), ..s }).is_global(),
        (SymbolModel { visibility: stb_global(), ..s }).is_function() == s.is_function(),
{
    assert(1u8 & 1u8 != 0) by (bit_vector);
}

} // verus!
