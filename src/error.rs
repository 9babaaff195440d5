use vstd::prelude::*;

verus! {

/// Why packing or unpacking was refused.
#[derive(Debug, Clone, Copy, PartialEq, Eq, Structural)]
pub enum NucleotideError {
    /// The sequence holds a byte outside `A`, `C`, `G`, `T` (either case).
    InvalidBase(u8),
    /// The sequence to pack is longer than 32 bases; carries its length.
    SequenceTooLong(usize),
    /// The length asked of the unpacker is larger than 32.
    InvalidLength(usize),
}

} // verus!
