use vstd::prelude::*;

use crate::error::NucleotideError;
use crate::lanes::{pack_lanes_128, pack_lanes_256};
use crate::model::{pack_spec, MAX_BASES};
use crate::naive::pack_scalar;

verus! {

/// One implementation of packing.
#[derive(Debug, Clone, Copy, PartialEq, Eq, Structural)]
pub enum Backend {
    /// Byte by byte, left to right.
    Scalar,
    /// Sixteen lanes per chunk.
    Lanes128,
    /// Thirty-two lanes per chunk.
    Lanes256,
}

/// Packs `seq` with the given backend, after checking its length. Every backend gives
/// the same result on every input.
pub fn as_2bit_with(seq: &[u8], backend: Backend) -> (r: Result<u64, NucleotideError>)
    ensures
        r == pack_spec(seq@),
{
    if seq.len() > MAX_BASES {
        return Err(NucleotideError::SequenceTooLong(seq.len()));
    }
    match backend {
        Backend::Scalar => pack_scalar(seq),
        Backend::Lanes128 => pack_lanes_128(seq),
        Backend::Lanes256 => pack_lanes_256(seq),
    }
}

/// Packs up to 32 bases (A, C, G, T in either case) two bits each, the first base in
/// the lowest two bits, using the widest lane backend.
pub fn as_2bit(seq: &[u8]) -> (r: Result<u64, NucleotideError>)
    ensures
        r == pack_spec(seq@),
{
    as_2bit_with(seq, Backend::Lanes256)
}

} // verus!
