//! Immediate values and address displacements, and their little-endian bytes.
use vstd::prelude::*;

verus! {

/// The four little-endian bytes of a 32-bit value.
pub open spec fn le_bytes32(u: u32) -> Seq<u8> {
    seq![
        (u % 256) as u8,
        ((u / 256) % 256) as u8,
        ((u / 65536) % 256) as u8,
        ((u / 16777216) % 256) as u8,
    ]
}

fn le_bytes32_vec(u: u32) -> (v: Vec<u8>)
    ensures
        v@ == le_bytes32(u),
{
    let mut v: Vec<u8> = Vec::new();
    v.push((u % 256) as u8);
    v.push(((u / 256) % 256) as u8);
    v.push(((u / 65536) % 256) as u8);
    v.push(((u / 16777216) % 256) as u8);
    assert(v@ =~= le_bytes32(u));
    v
}

/// An immediate operand: a signed 8-bit or 32-bit value.
#[derive(Clone, Copy, PartialEq, Eq, Structural, PartialOrd, Ord, Debug, Hash)]
pub enum Immediate {
    I8(i8),
    I32(i32),
}

impl Immediate {
    pub open spec fn spec_value(self) -> int {
        match self {
            Immediate::I8(v) => v as int,
            Immediate::I32(v) => v as int,
        }
    }

    pub fn value(&self) -> (v: i64)
        ensures
            v == self.spec_value(),
    {
        match self {
            Immediate::I8(v) => *v as i64,
            Immediate::I32(v) => *v as i64,
        }
    }

    /// The same value, widened to 32 bits.
    pub open spec fn spec_as_32bit(self) -> Immediate {
        match self {
            Immediate::I8(v) => Immediate::I32(v as i32),
            Immediate::I32(v) => Immediate::I32(v),
        }
    }

    pub fn as_32bit(&self) -> (r: Immediate)
        ensures
            r == self.spec_as_32bit(),
            r.spec_value() == self.spec_value(),
    {
        match self {
            Immediate::I8(v) => Immediate::I32(*v as i32),
            Immediate::I32(v) => Immediate::I32(*v),
        }
    }

    /// The value's two's-complement bytes, least significant first.
    pub open spec fn spec_to_bytes(self) -> Seq<u8> {
        match self {
            Immediate::I8(v) => seq![v as u8],
            Immediate::I32(v) => le_bytes32(v as u32),
        }
    }

    pub fn to_bytes(&self) -> (bytes: Vec<u8>)
        ensures
            bytes@ == self.spec_to_bytes(),
    {
        match self {
            Immediate::I8(v) => {
                let mut b: Vec<u8> = Vec::new();
                b.push(*v as u8);
                assert(b@ =~= seq![*v as u8]);
                b
            },
            Immediate::I32(v) => le_bytes32_vec(*v as u32),
        }
    }
}

/// The displacement of a memory operand: a signed 8-bit or 32-bit offset.
#[derive(Clone, Copy, PartialEq, Eq, Structural, PartialOrd, Ord, Debug, Hash)]
pub enum Displacement {
    DISP8(i8),
    DISP32(i32),
}

impl Displacement {
    pub open spec fn spec_value(self) -> int {
        match self {
            Displacement::DISP8(v) => v as int,
            Displacement::DISP32(v) => v as int,
        }
    }

    pub fn value(&self) -> (v: i64)
        ensures
            v == self.spec_value(),
    {
        match self {
            Displacement::DISP8(v) => *v as i64,
            Displacement::DISP32(v) => *v as i64,
        }
    }

    /// The offset's two's-complement bytes, least significant first.
    pub open spec fn spec_to_bytes(self) -> Seq<u8> {
        match self {
            Displacement::DISP8(v) => seq![v as u8],
            Displacement::DISP32(v) => le_bytes32(v as u32),
        }
    }

    pub fn to_bytes(&self) -> (bytes: Vec<u8>)
        ensures
            bytes@ == self.spec_to_bytes(),
    {
        match self {
            Displacement::DISP8(v) => {
                let mut b: Vec<u8> = Vec::new();
                b.push(*v as u8);
                assert(b@ =~= seq![*v as u8]);
                b
            },
            Displacement::DISP32(v) => le_bytes32_vec(*v as u32),
        }
    }
}

} // verus!
