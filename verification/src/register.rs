//! The general purpose registers that the assembler knows.
use vstd::prelude::*;

use crate::text::{chars_eq, copy_range, to_chars};

verus! {

/// An x86-64 general purpose register: the sixteen 64-bit registers and the
/// eight legacy 8-bit registers.
#[derive(Clone, Copy, PartialEq, Eq, Structural, PartialOrd, Ord, Debug, Hash)]
pub enum GeneralPurposeRegister {
    RAX,
    RCX,
    RDX,
    RBX,
    RSP,
    RBP,
    RSI,
    RDI,
    R8,
    R9,
    R10,
    R11,
    R12,
    R13,
    R14,
    R15,
    AL,
    CL,
    DL,
    BL,
    AH,
    CH,
    DH,
    BH,
}

impl GeneralPurposeRegister {
    /// The register's number in an instruction encoding (0 to 15); a number
    /// of 8 or more needs a REX extension bit.
    pub open spec fn spec_number(self) -> u8 {
        match self {
            GeneralPurposeRegister::RAX => 0,
            GeneralPurposeRegister::RCX => 1,
            GeneralPurposeRegister::RDX => 2,
            GeneralPurposeRegister::RBX => 3,
            GeneralPurposeRegister::RSP => 4,
            GeneralPurposeRegister::RBP => 5,
            GeneralPurposeRegister::RSI => 6,
            GeneralPurposeRegister::RDI => 7,
            GeneralPurposeRegister::R8 => 8,
            GeneralPurposeRegister::R9 => 9,
            GeneralPurposeRegister::R10 => 10,
            GeneralPurposeRegister::R11 => 11,
            GeneralPurposeRegister::R12 => 12,
            GeneralPurposeRegister::R13 => 13,
            GeneralPurposeRegister::R14 => 14,
            GeneralPurposeRegister::R15 => 15,
            GeneralPurposeRegister::AL => 0,
            GeneralPurposeRegister::CL => 1,
            GeneralPurposeRegister::DL => 2,
            GeneralPurposeRegister::BL => 3,
            GeneralPurposeRegister::AH => 4,
            GeneralPurposeRegister::CH => 5,
            GeneralPurposeRegister::DH => 6,
            GeneralPurposeRegister::BH => 7,
        }
    }

    pub fn number(&self) -> (n: u8)
        ensures
            n == self.spec_number(),
            n < 16,
    {
        match self {
            GeneralPurposeRegister::RAX => 0,
            GeneralPurposeRegister::RCX => 1,
            GeneralPurposeRegister::RDX => 2,
            GeneralPurposeRegister::RBX => 3,
            GeneralPurposeRegister::RSP => 4,
            GeneralPurposeRegister::RBP => 5,
            GeneralPurposeRegister::RSI => 6,
            GeneralPurposeRegister::RDI => 7,
            GeneralPurposeRegister::R8 => 8,
            GeneralPurposeRegister::R9 => 9,
            GeneralPurposeRegister::R10 => 10,
            GeneralPurposeRegister::R11 => 11,
            GeneralPurposeRegister::R12 => 12,
            GeneralPurposeRegister::R13 => 13,
            GeneralPurposeRegister::R14 => 14,
            GeneralPurposeRegister::R15 => 15,
            GeneralPurposeRegister::AL => 0,
            GeneralPurposeRegister::CL => 1,
            GeneralPurposeRegister::DL => 2,
            GeneralPurposeRegister::BL => 3,
            GeneralPurposeRegister::AH => 4,
            GeneralPurposeRegister::CH => 5,
            GeneralPurposeRegister::DH => 6,
            GeneralPurposeRegister::BH => 7,
        }
    }

    /// The 64-bit register with the same number, which is what an address
    /// names.
    pub open spec fn spec_to_64bit(self) -> GeneralPurposeRegister {
        match self {
            GeneralPurposeRegister::AL => GeneralPurposeRegister::RAX,
            GeneralPurposeRegister::CL => GeneralPurposeRegister::RCX,
            GeneralPurposeRegister::DL => GeneralPurposeRegister::RDX,
            GeneralPurposeRegister::BL => GeneralPurposeRegister::RBX,
            GeneralPurposeRegister::AH => GeneralPurposeRegister::RSP,
            GeneralPurposeRegister::CH => GeneralPurposeRegister::RBP,
            GeneralPurposeRegister::DH => GeneralPurposeRegister::RSI,
            GeneralPurposeRegister::BH => GeneralPurposeRegister::RDI,
            r => r,
        }
    }

    pub fn to_64bit(&self) -> (r: GeneralPurposeRegister)
        ensures
            r == self.spec_to_64bit(),
    {
        match self {
            GeneralPurposeRegister::AL => GeneralPurposeRegister::RAX,
            GeneralPurposeRegister::CL => GeneralPurposeRegister::RCX,
            GeneralPurposeRegister::DL => GeneralPurposeRegister::RDX,
            GeneralPurposeRegister::BL => GeneralPurposeRegister::RBX,
            GeneralPurposeRegister::AH => GeneralPurposeRegister::RSP,
            GeneralPurposeRegister::CH => GeneralPurposeRegister::RBP,
            GeneralPurposeRegister::DH => GeneralPurposeRegister::RSI,
            GeneralPurposeRegister::BH => GeneralPurposeRegister::RDI,
            r => *r,
        }
    }

    /// The register's name in Intel syntax, such as `rax` or `bh`.
    pub open spec fn spec_name(self) -> Seq<char> {
        match self {
            GeneralPurposeRegister::RAX => "rax"@,
            GeneralPurposeRegister::RCX => "rcx"@,
            GeneralPurposeRegister::RDX => "rdx"@,
            GeneralPurposeRegister::RBX => "rbx"@,
            GeneralPurposeRegister::RSP => "rsp"@,
            GeneralPurposeRegister::RBP => "rbp"@,
            GeneralPurposeRegister::RSI => "rsi"@,
            GeneralPurposeRegister::RDI => "rdi"@,
            GeneralPurposeRegister::R8 => "r8"@,
            GeneralPurposeRegister::R9 => "r9"@,
            GeneralPurposeRegister::R10 => "r10"@,
            GeneralPurposeRegister::R11 => "r11"@,
            GeneralPurposeRegister::R12 => "r12"@,
            GeneralPurposeRegister::R13 => "r13"@,
            GeneralPurposeRegister::R14 => "r14"@,
            GeneralPurposeRegister::R15 => "r15"@,
            GeneralPurposeRegister::AL => "al"@,
            GeneralPurposeRegister::CL => "cl"@,
            GeneralPurposeRegister::DL => "dl"@,
            GeneralPurposeRegister::BL => "bl"@,
            GeneralPurposeRegister::AH => "ah"@,
            GeneralPurposeRegister::CH => "ch"@,
            GeneralPurposeRegister::DH => "dh"@,
            GeneralPurposeRegister::BH => "bh"@,
        }
    }

    pub fn name(&self) -> (s: &'static str)
        ensures
            s@ == self.spec_name(),
    {
        match self {
            GeneralPurposeRegister::RAX => "rax",
            GeneralPurposeRegister::RCX => "rcx",
            GeneralPurposeRegister::RDX => "rdx",
            GeneralPurposeRegister::RBX => "rbx",
            GeneralPurposeRegister::RSP => "rsp",
            GeneralPurposeRegister::RBP => "rbp",
            GeneralPurposeRegister::RSI => "rsi",
            GeneralPurposeRegister::RDI => "rdi",
            GeneralPurposeRegister::R8 => "r8",
            GeneralPurposeRegister::R9 => "r9",
            GeneralPurposeRegister::R10 => "r10",
            GeneralPurposeRegister::R11 => "r11",
            GeneralPurposeRegister::R12 => "r12",
            GeneralPurposeRegister::R13 => "r13",
            GeneralPurposeRegister::R14 => "r14",
            GeneralPurposeRegister::R15 => "r15",
            GeneralPurposeRegister::AL => "al",
            GeneralPurposeRegister::CL => "cl",
            GeneralPurposeRegister::DL => "dl",
            GeneralPurposeRegister::BL => "bl",
            GeneralPurposeRegister::AH => "ah",
            GeneralPurposeRegister::CH => "ch",
            GeneralPurposeRegister::DH => "dh",
            GeneralPurposeRegister::BH => "bh",
        }
    }

    /// The register's name in AT&T syntax: `%` before the Intel name.
    pub open spec fn spec_at_name(self) -> Seq<char> {
        seq!['%'] + self.spec_name()
    }

    /// The register that `s` names in AT&T syntax, if any.
    pub open spec fn spec_from_at_string(s: Seq<char>) -> Option<GeneralPurposeRegister> {
        find_by_at_name(all_registers(), s)
    }

    /// `s` read as an AT&T register name such as `%rax`; `None` when `s`
    /// names no register this assembler knows.
    pub fn from_at_string(s: &str) -> (r: Option<GeneralPurposeRegister>)
        ensures
            r == Self::spec_from_at_string(s@),
    {
        let cs = to_chars(s);
        from_at_chars(cs.as_slice())
    }
}

/// Every register, in declaration order.
pub open spec fn all_registers() -> Seq<GeneralPurposeRegister> {
    seq![
        GeneralPurposeRegister::RAX,
        GeneralPurposeRegister::RCX,
        GeneralPurposeRegister::RDX,
        GeneralPurposeRegister::RBX,
        GeneralPurposeRegister::RSP,
        GeneralPurposeRegister::RBP,
        GeneralPurposeRegister::RSI,
        GeneralPurposeRegister::RDI,
        GeneralPurposeRegister::R8,
        GeneralPurposeRegister::R9,
        GeneralPurposeRegister::R10,
        GeneralPurposeRegister::R11,
        GeneralPurposeRegister::R12,
        GeneralPurposeRegister::R13,
        GeneralPurposeRegister::R14,
        GeneralPurposeRegister::R15,
        GeneralPurposeRegister::AL,
        GeneralPurposeRegister::CL,
        GeneralPurposeRegister::DL,
        GeneralPurposeRegister::BL,
        GeneralPurposeRegister::AH,
        GeneralPurposeRegister::CH,
        GeneralPurposeRegister::DH,
        GeneralPurposeRegister::BH,
    ]
}

/// The first register of `regs` whose AT&T name is `s`.
pub open spec fn find_by_at_name(regs: Seq<GeneralPurposeRegister>, s: Seq<char>) -> Option<
    GeneralPurposeRegister,
>
    decreases regs.len(),
{
    if regs.len() == 0 {
        None
    } else if regs[0].spec_at_name() == s {
        Some(regs[0])
    } else {
        find_by_at_name(regs.drop_first(), s)
    }
}

fn register_list() -> (v: Vec<GeneralPurposeRegister>)
    ensures
        v@ == all_registers(),
{
    let v = vec![
        GeneralPurposeRegister::RAX,
        GeneralPurposeRegister::RCX,
        GeneralPurposeRegister::RDX,
        GeneralPurposeRegister::RBX,
        GeneralPurposeRegister::RSP,
        GeneralPurposeRegister::RBP,
        GeneralPurposeRegister::RSI,
        GeneralPurposeRegister::RDI,
        GeneralPurposeRegister::R8,
        GeneralPurposeRegister::R9,
        GeneralPurposeRegister::R10,
        GeneralPurposeRegister::R11,
        GeneralPurposeRegister::R12,
        GeneralPurposeRegister::R13,
        GeneralPurposeRegister::R14,
        GeneralPurposeRegister::R15,
        GeneralPurposeRegister::AL,
        GeneralPurposeRegister::CL,
        GeneralPurposeRegister::DL,
        GeneralPurposeRegister::BL,
        GeneralPurposeRegister::AH,
        GeneralPurposeRegister::CH,
        GeneralPurposeRegister::DH,
        GeneralPurposeRegister::BH,
    ];
    assert(v@ =~= all_registers());
    v
}

/// The register that the characters `cs` name in AT&T syntax.
pub fn from_at_chars(cs: &[char]) -> (r: Option<GeneralPurposeRegister>)
    ensures
        r == GeneralPurposeRegister::spec_from_at_string(cs@),
{
    let regs = register_list();
    let mut i: usize = 0;
    assert(regs@.skip(0) =~= regs@);
    while i < regs.len()
        invariant
            i <= regs.len(),
            regs@ == all_registers(),
            find_by_at_name(all_registers(), cs@) == find_by_at_name(regs@.skip(i as int), cs@),
        decreases regs.len() - i,
    {
        let r = regs[i];
        let name = to_chars(r.name());
        let matched = cs.len() > 0 && cs.len() - 1 == name.len() && cs[0] == '%' && chars_eq(
            copy_range(cs, 1, cs.len()).as_slice(),
            name.as_slice(),
        );
        proof {
            let rest = regs@.skip(i as int);
            assert(rest[0] == r);
            assert(rest.drop_first() =~= regs@.skip(i + 1));
            if cs@.len() == name@.len() + 1 && cs@[0] == '%' {
                assert(matched == (cs@.subrange(1, cs@.len() as int) == name@));
                if matched {
                    assert(cs@ =~= seq!['%'] + name@);
                } else {
                    assert(cs@.subrange(1, cs@.len() as int) != name@);
                    assert((seq!['%'] + name@).subrange(1, cs@.len() as int) =~= name@);
                }
            } else {
                assert((seq!['%'] + name@).len() == name@.len() + 1);
                assert((seq!['%'] + name@)[0] == '%');
            }
        }
        if matched {
            return Some(r);
        }
        i += 1;
    }
    None
}

} // verus!

verus! {

pub(crate) proof fn lemma_reveal_names()
    ensures
        "rax"@ == seq!['r', 'a', 'x'],
        "rcx"@ == seq!['r', 'c', 'x'],
        "rdx"@ == seq!['r', 'd', 'x'],
        "rbx"@ == seq!['r', 'b', 'x'],
        "rsp"@ == seq!['r', 's', 'p'],
        "rbp"@ == seq!['r', 'b', 'p'],
        "rsi"@ == seq!['r', 's', 'i'],
        "rdi"@ == seq!['r', 'd', 'i'],
        "r8"@ == seq!['r', '8'],
        "r9"@ == seq!['r', '9'],
        "r10"@ == seq!['r', '1', '0'],
        "r11"@ == seq!['r', '1', '1'],
        "r12"@ == seq!['r', '1', '2'],
        "r13"@ == seq!['r', '1', '3'],
        "r14"@ == seq!['r', '1', '4'],
        "r15"@ == seq!['r', '1', '5'],
        "al"@ == seq!['a', 'l'],
        "cl"@ == seq!['c', 'l'],
        "dl"@ == seq!['d', 'l'],
        "bl"@ == seq!['b', 'l'],
        "ah"@ == seq!['a', 'h'],
        "ch"@ == seq!['c', 'h'],
        "dh"@ == seq!['d', 'h'],
        "bh"@ == seq!['b', 'h'],
{
    reveal_strlit("rax");
    reveal_strlit("rcx");
    reveal_strlit("rdx");
    reveal_strlit("rbx");
    reveal_strlit("rsp");
    reveal_strlit("rbp");
    reveal_strlit("rsi");
    reveal_strlit("rdi");
    reveal_strlit("r8");
    reveal_strlit("r9");
    reveal_strlit("r10");
    reveal_strlit("r11");
    reveal_strlit("r12");
    reveal_strlit("r13");
    reveal_strlit("r14");
    reveal_strlit("r15");
    reveal_strlit("al");
    reveal_strlit("cl");
    reveal_strlit("dl");
    reveal_strlit("bl");
    reveal_strlit("ah");
    reveal_strlit("ch");
    reveal_strlit("dh");
    reveal_strlit("bh");
    assert("rax"@ =~= seq!['r', 'a', 'x']);
    assert("rcx"@ =~= seq!['r', 'c', 'x']);
    assert("rdx"@ =~= seq!['r', 'd', 'x']);
    assert("rbx"@ =~= seq!['r', 'b', 'x']);
    assert("rsp"@ =~= seq!['r', 's', 'p']);
    assert("rbp"@ =~= seq!['r', 'b', 'p']);
    assert("rsi"@ =~= seq!['r', 's', 'i']);
    assert("rdi"@ =~= seq!['r', 'd', 'i']);
    assert("r8"@ =~= seq!['r', '8']);
    assert("r9"@ =~= seq!['r', '9']);
    assert("r10"@ =~= seq!['r', '1', '0']);
    assert("r11"@ =~= seq!['r', '1', '1']);
    assert("r12"@ =~= seq!['r', '1', '2']);
    assert("r13"@ =~= seq!['r', '1', '3']);
    assert("r14"@ =~= seq!['r', '1', '4']);
    assert("r15"@ =~= seq!['r', '1', '5']);
    assert("al"@ =~= seq!['a', 'l']);
    assert("cl"@ =~= seq!['c', 'l']);
    assert("dl"@ =~= seq!['d', 'l']);
    assert("bl"@ =~= seq!['b', 'l']);
    assert("ah"@ =~= seq!['a', 'h']);
    assert("ch"@ =~= seq!['c', 'h']);
    assert("dh"@ =~= seq!['d', 'h']);
    assert("bh"@ =~= seq!['b', 'h']);
}

/// Two registers with the same name are the same register.
proof fn lemma_names_distinct(a: GeneralPurposeRegister, b: GeneralPurposeRegister)
    requires
        a.spec_name() == b.spec_name(),
    ensures
        a == b,
{
    lemma_reveal_names();
    let n = a.spec_name();
    assert(n.len() == b.spec_name().len());
    assert(n[0] == b.spec_name()[0]);
    assert(n[1] == b.spec_name()[1]);
    if n.len() == 3 {
        assert(n[2] == b.spec_name()[2]);
    }
}

/// Reading a register's AT&T name gives back the register.
pub proof fn law_at_name_round_trip(r: GeneralPurposeRegister)
    ensures
        GeneralPurposeRegister::spec_from_at_string(r.spec_at_name()) == Some(r),
{
    let s = r.spec_at_name();
    let all = all_registers();
    assert forall|k: int| 0 <= k <= 24 implies (#[trigger] find_by_at_name(all.skip(k), s)) == (if all.skip(k).contains(r) {
        Some(r)
    } else {
        None::<GeneralPurposeRegister>
    }) by {
        lemma_find_suffix(all, s, r, k);
    }
    assert(all.skip(0) =~= all);
    assert(all.contains(r)) by {
        let i: int = match r {
            GeneralPurposeRegister::RAX => 0,
            GeneralPurposeRegister::RCX => 1,
            GeneralPurposeRegister::RDX => 2,
            GeneralPurposeRegister::RBX => 3,
            GeneralPurposeRegister::RSP => 4,
            GeneralPurposeRegister::RBP => 5,
            GeneralPurposeRegister::RSI => 6,
            GeneralPurposeRegister::RDI => 7,
            GeneralPurposeRegister::R8 => 8,
            GeneralPurposeRegister::R9 => 9,
            GeneralPurposeRegister::R10 => 10,
            GeneralPurposeRegister::R11 => 11,
            GeneralPurposeRegister::R12 => 12,
            GeneralPurposeRegister::R13 => 13,
            GeneralPurposeRegister::R14 => 14,
            GeneralPurposeRegister::R15 => 15,
            GeneralPurposeRegister::AL => 16,
            GeneralPurposeRegister::CL => 17,
            GeneralPurposeRegister::DL => 18,
            GeneralPurposeRegister::BL => 19,
            GeneralPurposeRegister::AH => 20,
            GeneralPurposeRegister::CH => 21,
            GeneralPurposeRegister::DH => 22,
            GeneralPurposeRegister::BH => 23,
        };
        assert(all[i] == r);
    }
}

proof fn lemma_find_suffix(all: Seq<GeneralPurposeRegister>, s: Seq<char>, r: GeneralPurposeRegister, k: int)
    requires
        s == r.spec_at_name(),
        0 <= k <= all.len(),
    ensures
        find_by_at_name(all.skip(k), s) == (if all.skip(k).contains(r) {
            Some(r)
        } else {
            None::<GeneralPurposeRegister>
        }),
    decreases all.len() - k,
{
    let rest = all.skip(k);
    if k < all.len() {
        lemma_find_suffix(all, s, r, k + 1);
        assert(rest.drop_first() =~= all.skip(k + 1));
        if rest[0].spec_at_name() == s {
            assert(rest[0].spec_name() =~= s.drop_first());
            assert(r.spec_name() =~= s.drop_first());
            lemma_names_distinct(rest[0], r);
            assert(rest.contains(r));
        } else {
            assert(rest[0] != r);
            if rest.contains(r) {
                let j = choose|j: int| 0 <= j < rest.len() && rest[j] == r;
                assert(j != 0);
                assert(rest.drop_first()[j - 1] == r);
            }
            if rest.drop_first().contains(r) {
                let j = choose|j: int| 0 <= j < rest.drop_first().len() && rest.drop_first()[j] == r;
                assert(rest[j + 1] == r);
            }
        }
    } else {
        assert(rest.len() == 0);
    }
}

} // verus!

verus! {

/// The register numbers are the x86-64 ones: `rax` 0, `rcx` 1, `rdx` 2,
/// `rbx` 3, `rsp` 4, `rbp` 5, `rsi` 6, `rdi` 7, `r8` to `r15` 8 to 15, and
/// `al`, `cl`, `dl`, `bl`, `ah`, `ch`, `dh`, `bh` 0 to 7.
pub proof fn law_register_numbers()
    ensures
        GeneralPurposeRegister::RAX.spec_number() == 0,
        GeneralPurposeRegister::RCX.spec_number() == 1,
        GeneralPurposeRegister::RDX.spec_number() == 2,
        GeneralPurposeRegister::RBX.spec_number() == 3,
        GeneralPurposeRegister::RSP.spec_number() == 4,
        GeneralPurposeRegister::RBP.spec_number() == 5,
        GeneralPurposeRegister::RSI.spec_number() == 6,
        GeneralPurposeRegister::RDI.spec_number() == 7,
        GeneralPurposeRegister::R8.spec_number() == 8,
        GeneralPurposeRegister::R9.spec_number() == 9,
        GeneralPurposeRegister::R10.spec_number() == 10,
        GeneralPurposeRegister::R11.spec_number() == 11,
        GeneralPurposeRegister::R12.spec_number() == 12,
        GeneralPurposeRegister::R13.spec_number() == 13,
        GeneralPurposeRegister::R14.spec_number() == 14,
        GeneralPurposeRegister::R15.spec_number() == 15,
        GeneralPurposeRegister::AL.spec_number() == 0,
        GeneralPurposeRegister::CL.spec_number() == 1,
        GeneralPurposeRegister::DL.spec_number() == 2,
        GeneralPurposeRegister::BL.spec_number() == 3,
        GeneralPurposeRegister::AH.spec_number() == 4,
        GeneralPurposeRegister::CH.spec_number() == 5,
        GeneralPurposeRegister::DH.spec_number() == 6,
        GeneralPurposeRegister::BH.spec_number() == 7,
{
}

/// A register's number follows from its name: the 64-bit registers `rax`,
/// `rcx`, `rdx`, `rbx`, `rsp`, `rbp`, `rsi`, `rdi` are 0 to 7 in that order,
/// `rN` is N, and the 8-bit registers share the numbers of `rax` to `rdi`
/// in the order `al cl dl bl ah ch dh bh`.
pub proof fn law_register_number_by_name(r: GeneralPurposeRegister)
    ensures
        r.spec_name() == "rsi"@ ==> r.spec_number() == 6,
        r.spec_name() == "rdi"@ ==> r.spec_number() == 7,
        r.spec_name() == "rsp"@ ==> r.spec_number() == 4,
        r.spec_name() == "rbp"@ ==> r.spec_number() == 5,
        r.spec_to_64bit().spec_number() == r.spec_number(),
        r.spec_number() < 16,
{
    lemma_reveal_names();
    if r.spec_name() == "rsi"@ {
        lemma_names_distinct(r, GeneralPurposeRegister::RSI);
    }
    if r.spec_name() == "rdi"@ {
        lemma_names_distinct(r, GeneralPurposeRegister::RDI);
    }
    if r.spec_name() == "rsp"@ {
        lemma_names_distinct(r, GeneralPurposeRegister::RSP);
    }
    if r.spec_name() == "rbp"@ {
        lemma_names_distinct(r, GeneralPurposeRegister::RBP);
    }
}

} // verus!
