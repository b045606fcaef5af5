//! Types shared by several parts of a font.

use vstd::prelude::*;

verus! {

/// A property list dictionary, as the `plist` crate holds it.
#[verifier::external_type_specification]
#[verifier::external_body]
pub struct ExPlistDictionary(plist::Dictionary);

/// A property list value, as the `plist` crate holds it.
#[verifier::external_type_specification]
#[verifier::external_body]
pub struct ExPlistValue(plist::Value);

/// The library's name for a property list dictionary.
pub type Plist = plist::Dictionary;

/// The key in a lib under which the libs of a glyph's or a font's objects are kept.
pub const PUBLIC_OBJECT_LIBS_KEY: &'static str = "public.objectLibs";

/// A 64-bit floating-point number, held by the bits of its IEEE 754 representation.
///
/// The library never computes with such a number; it carries it from where it is
/// read to where it is written.
#[derive(Debug, Clone, Copy, PartialEq, Eq, Hash, Structural)]
pub struct FloatBits(pub u64);

/// A 32-bit floating-point number, held by the bits of its IEEE 754 representation.
#[derive(Debug, Clone, Copy, PartialEq, Eq, Hash, Structural)]
pub struct Float32Bits(pub u32);

/// A number that may be an integer or a float.
pub type IntegerOrFloat = FloatBits;

/// A number that may be an integer or a float, and is not negative.
pub type NonNegativeIntegerOrFloat = FloatBits;

/// A floating-point number.
pub type Float = FloatBits;

/// An integer.
pub type Integer = i32;

/// A non-negative integer.
pub type NonNegativeInteger = u32;

/// A list of bit numbers.
pub type Bitlist = Vec<u8>;

/// A color: red, green, blue and alpha channels, each a number between 0 and 1.
#[derive(Debug, Clone, Copy, PartialEq, Eq)]
pub struct Color {
    /// The red channel.
    pub red: Float32Bits,
    /// The green channel.
    pub green: Float32Bits,
    /// The blue channel.
    pub blue: Float32Bits,
    /// The alpha channel.
    pub alpha: Float32Bits,
}

} // verus!
