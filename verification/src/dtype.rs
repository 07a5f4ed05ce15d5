//! Element types.
use vstd::prelude::*;

verus! {

/// Scalar kind stored in a buffer.
#[derive(Clone, Copy, Debug, PartialEq, Eq, Hash, Structural)]
pub enum DataType {
    F32,
    I32,
    U32,
}

impl DataType {
    /// Number of bytes that one element of this type occupies.
    pub open spec fn byte_size(self) -> nat {
        4
    }

    /// Size of one element, in bytes.
    pub fn size_in_bytes(self) -> (n: usize)
        ensures
            n == self.byte_size(),
    {
        match self {
            DataType::F32 => 4,
            DataType::I32 => 4,
            DataType::U32 => 4,
        }
    }
}

/// A host type whose values can be stored in a buffer. Every supported
/// element is one 32-bit word wide; `word` is its bit pattern.
pub trait Element: Copy {
    /// The tag under which values of this type are stored.
    const DTYPE: DataType;

    /// The tag under which values of this type are stored.
    spec fn spec_dtype() -> DataType;

    /// The tag under which values of this type are stored.
    fn dtype() -> (d: DataType)
        ensures
            d == Self::spec_dtype(),
    ;

    /// The bit pattern of a value.
    spec fn word(self) -> u32;

    /// The bit pattern of a value.
    fn to_word(self) -> (w: u32)
        ensures
            w == self.word(),
    ;

    /// The value with a given bit pattern.
    fn from_word(w: u32) -> (e: Self)
        ensures
            e.word() == w,
    ;

    /// The bit pattern names the value: two values with one bit pattern
    /// are one value.
    proof fn lemma_word_names_element(a: Self, b: Self)
        requires
            a.word() == b.word(),
        ensures
            a == b,
    ;
}

/// A 32-bit IEEE-754 value, held by its bit pattern.
#[derive(Clone, Copy, Debug, PartialEq, Eq, Hash, Structural)]
pub struct F32Bits(pub u32);

impl Element for F32Bits {
    const DTYPE: DataType = DataType::F32;

    open spec fn spec_dtype() -> DataType {
        DataType::F32
    }

    fn dtype() -> (d: DataType) {
        Self::DTYPE
    }

    open spec fn word(self) -> u32 {
        self.0
    }

    fn to_word(self) -> (w: u32) {
        self.0
    }

    fn from_word(w: u32) -> (e: Self) {
        F32Bits(w)
    }

    proof fn lemma_word_names_element(a: Self, b: Self) {
    }
}

impl Element for u32 {
    const DTYPE: DataType = DataType::U32;

    open spec fn spec_dtype() -> DataType {
        DataType::U32
    }

    fn dtype() -> (d: DataType) {
        Self::DTYPE
    }

    open spec fn word(self) -> u32 {
        self
    }

    fn to_word(self) -> (w: u32) {
        self
    }

    fn from_word(w: u32) -> (e: Self) {
        w
    }

    proof fn lemma_word_names_element(a: Self, b: Self) {
    }
}

impl Element for i32 {
    const DTYPE: DataType = DataType::I32;

    open spec fn spec_dtype() -> DataType {
        DataType::I32
    }

    fn dtype() -> (d: DataType) {
        Self::DTYPE
    }

    open spec fn word(self) -> u32 {
        self as u32
    }

    fn to_word(self) -> (w: u32) {
        #[verifier::truncate]
        (self as u32)
    }

    fn from_word(w: u32) -> (e: Self) {
        assert((w as i32) as u32 == w) by (bit_vector);
        #[verifier::truncate]
        (w as i32)
    }

    proof fn lemma_word_names_element(a: Self, b: Self) {
        assert(a as u32 == b as u32 ==> a == b) by (bit_vector);
    }
}

} // verus!
