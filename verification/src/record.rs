//! The records that the parser yields, and the errors of the pipeline.

use vstd::prelude::*;

verus! {

/// The category that a data line assigns to its code points.
///
/// Only `Basic` records are ever selectable. The sequence categories are
/// part of the data format and are never produced by the parser: any label
/// other than the basic one is classified as `Unknown`.
#[derive(PartialEq, Eq, Debug, Clone, Copy, Structural)]
pub enum EmojiType {
    Basic,
    KeycapSequence,
    FlagSequence,
    ModifierSequence,
    Unknown,
}

/// One code point of the pool, with the category of the line it came from.
#[derive(PartialEq, Eq, Debug, Clone, Copy, Structural)]
pub struct EmojiData {
    pub character_raw: u32,
    pub emoji_type: EmojiType,
}

/// Why no emoji could be produced.
#[derive(PartialEq, Eq, Debug, Clone, Copy, Structural)]
pub enum EmojiError {
    /// A selectable data line holds a code-point field that is not
    /// hexadecimal.
    Format,
    /// The lines hold no selectable code point at all.
    EmptyPool,
    /// The selected value is not a Unicode scalar value.
    Conversion,
}

/// Whether `raw` is a Unicode scalar value: at most `0x10FFFF` and outside
/// the surrogate gap `0xD800..=0xDFFF`.
pub open spec fn is_scalar_value(raw: u32) -> bool {
    raw < 0xD800 || (0xE000 <= raw && raw <= 0x10FFFF)
}

/// The character with code point `raw`, if there is one.
pub open spec fn scalar_char(raw: u32) -> Option<char> {
    if is_scalar_value(raw) {
        Some(raw as char)
    } else {
        None
    }
}

/// `char::from_u32` of the standard library: it returns the character whose
/// code point is `i` when `i` is a Unicode scalar value, and `None` for a
/// surrogate or a value above `0x10FFFF`.
pub assume_specification[ char::from_u32 ](i: u32) -> (r: Option<char>)
    ensures
        r == scalar_char(i),
;

impl EmojiData {
    /// The displayable character of this record, or `None` when its raw
    /// value is no Unicode scalar value.
    pub fn to_char(self) -> (r: Option<char>)
        ensures
            r == scalar_char(self.character_raw),
            r matches Some(c) ==> c as u32 == self.character_raw,
    {
        char::from_u32(self.character_raw)
    }
}

} // verus!
