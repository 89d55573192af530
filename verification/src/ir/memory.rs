use vstd::prelude::*;

verus! {

/// The width and interpretation of one memory access or register value.
#[derive(Clone, Copy, Debug, PartialEq, Eq, Structural, Hash)]
pub enum MemoryType {
    U8,
    U16,
    U32,
    U64,
    Usize,
    I8,
    I16,
    I32,
    I64,
    Isize,
    Bool,
}

impl MemoryType {
    /// True for every memory type but `Bool`.
    pub open spec fn spec_is_integer(&self) -> bool {
        !(*self is Bool)
    }

    pub fn is_integer(&self) -> (r: bool)
        ensures
            r == self.spec_is_integer(),
    {
        match self {
            MemoryType::Bool => false,
            _ => true,
        }
    }

    /// The size of the type in bytes, given the target's pointer size.
    pub fn size(&self, ptr_size: u64) -> (r: u64)
        ensures
            r == match *self {
                MemoryType::U8 | MemoryType::I8 => 1u64,
                MemoryType::U16 | MemoryType::I16 => 2u64,
                MemoryType::U32 | MemoryType::I32 => 4u64,
                MemoryType::U64 | MemoryType::I64 => 8u64,
                MemoryType::Usize | MemoryType::Isize => ptr_size,
                MemoryType::Bool => 4u64,
            },
    {
        match self {
            MemoryType::U8 | MemoryType::I8 => 1,
            MemoryType::U16 | MemoryType::I16 => 2,
            MemoryType::U32 | MemoryType::I32 => 4,
            MemoryType::U64 | MemoryType::I64 => 8,
            MemoryType::Usize | MemoryType::Isize => ptr_size,
            MemoryType::Bool => 4,
        }
    }
}

/// An eight-byte immediate operand. The bytes are interpreted by the memory
/// type of the instruction that carries the immediate; narrow values sit in
/// the low bytes, zero-extended.
#[derive(Clone, Copy, Debug, PartialEq, Eq, Structural)]
pub struct Immediate {
    pub bits: u64,
}

impl Immediate {
    /// The all-zero immediate.
    pub fn zero() -> (r: Self)
        ensures
            r.bits == 0,
    {
        Immediate { bits: 0 }
    }

    /// The two's-complement bits of `value`, zero-extended to eight bytes, at
    /// the specification level.
    pub open spec fn spec_from_i32(value: i32) -> u64 {
        if value >= 0 {
            value as u64
        } else {
            (value + 0x1_0000_0000i64) as u64
        }
    }

    /// The immediate holding the two's-complement bits of `value` in its low
    /// four bytes.
    pub fn from_i32(value: i32) -> (r: Self)
        ensures
            r.bits == Immediate::spec_from_i32(value),
            r.bits < 0x1_0000_0000,
    {
        if value >= 0 {
            Immediate { bits: value as u64 }
        } else {
            Immediate { bits: (value as i64 + 0x1_0000_0000i64) as u64 }
        }
    }

    /// The immediate holding exactly `value`.
    pub fn from_u64(value: u64) -> (r: Self)
        ensures
            r.bits == value,
    {
        Immediate { bits: value }
    }

    pub fn to_u64(self) -> (r: u64)
        ensures
            r == self.bits,
    {
        self.bits
    }

    /// The low four bytes read back as a two's-complement signed value.
    pub fn to_i32(self) -> (r: i32)
        ensures
            self.bits < 0x1_0000_0000 ==> self.bits == Immediate::spec_from_i32(r),
    {
        let low = self.bits % 0x1_0000_0000;
        if low >= 0x8000_0000 {
            (low as i64 - 0x1_0000_0000i64) as i32
        } else {
            low as i32
        }
    }
}

} // verus!
