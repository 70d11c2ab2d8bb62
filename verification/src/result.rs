use vstd::prelude::*;

verus! {

/// Everything that can go wrong while decoding a shader binary or while
/// reflecting over its instruction stream.
#[derive(Clone, Copy, Debug, PartialEq, Eq, Structural)]
pub enum Error {
    /// The buffer is shorter than the fixed header or not a whole number of
    /// words; carries the byte length that was seen.
    InvalidFileLength(usize),
    /// Word 0 is not the format's magic constant; carries the word that was
    /// seen.
    IncorrectMagicWord(u32),
    /// The version word is newer than this reflector supports; carries the
    /// version that was seen and the newest supported one.
    InvalidVersion(u32, u32),
    /// An instruction's declared word count is zero or runs past the end of
    /// the buffer; carries the buffer's word count and the declared count.
    InvalidOperandEnd(usize, usize),
    /// A type id has no resolvable definition, or resolving it produced an
    /// unsupported or partial shape.
    NoAssociatedType(u32),
    /// A type definition is malformed, incomplete, or cyclic.
    InvalidType,
    /// An input variable carries no location decoration; carries its id.
    LocationMissing(u32),
    /// A type or variable that needs a name has none; carries its id.
    NameMissing(u32),
    /// A resource variable carries no binding decoration; carries its id.
    DecorationMissing(u32),
}

} // verus!
