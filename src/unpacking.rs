use vstd::prelude::*;

use crate::error::NucleotideError;
use crate::model::{field_at, MAX_BASES};
use crate::symbols::{base_of, decode_base};

verus! {

/// The `len` upper-case letters that the first `len` fields of `packed` stand for.
pub open spec fn unpacked(packed: u64, len: nat) -> Seq<u8> {
    Seq::new(len, |i: int| base_of(field_at(packed, i)))
}

/// Decodes the first `expected_size` bases of a packed word, position 0 from the lowest
/// two bits, each as an upper-case letter.
pub fn from_2bit(packed: u64, expected_size: usize) -> (r: Result<Vec<u8>, NucleotideError>)
    ensures
        expected_size > MAX_BASES ==> r == Err::<Vec<u8>, NucleotideError>(
            NucleotideError::InvalidLength(expected_size),
        ),
        expected_size <= MAX_BASES ==> r is Ok && r->Ok_0@ == unpacked(packed, expected_size as nat),
{
    if expected_size > MAX_BASES {
        return Err(NucleotideError::InvalidLength(expected_size));
    }
    let mut sequence: Vec<u8> = Vec::with_capacity(expected_size);
    let mut i: usize = 0;
    while i < expected_size
        invariant
            i <= expected_size <= MAX_BASES,
            sequence@ =~= unpacked(packed, i as nat),
        decreases expected_size - i,
    {
        let bits: u64 = (packed >> ((i * 2) as u64)) & 3u64;
        assert(bits < 4) by (bit_vector)
            requires
                bits == (packed >> ((i * 2) as u64)) & 3u64,
        ;
        sequence.push(decode_base(bits as u8));
        i = i + 1;
    }
    Ok(sequence)
}

} // verus!
