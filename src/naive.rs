use vstd::prelude::*;

use crate::bits::bv_code_mask;
use crate::error::NucleotideError;
use crate::model::{
    codes_of, lemma_codes_take, lemma_first_invalid_at, lemma_first_invalid_none,
    lemma_pack_codes_push, pack_codes, pack_spec, MAX_BASES,
};
use crate::symbols::{encode_base, is_base};

verus! {

/// The scalar backend: scans the bases left to right, ORing each code into its pair,
/// and stops at the first byte that is no base.
pub fn pack_scalar(seq: &[u8]) -> (r: Result<u64, NucleotideError>)
    requires
        seq@.len() <= MAX_BASES,
    ensures
        r == pack_spec(seq@),
{
    let mut acc: u64 = 0;
    let mut i: usize = 0;
    while i < seq.len()
        invariant
            i <= seq@.len() <= MAX_BASES,
            acc == pack_codes(codes_of(seq@.take(i as int))),
            forall|j: int| 0 <= j < i ==> is_base(#[trigger] seq@[j]),
        decreases seq@.len() - i,
    {
        match encode_base(seq[i]) {
            None => {
                proof {
                    lemma_first_invalid_at(seq@, i as int);
                }
                return Err(NucleotideError::InvalidBase(seq[i]));
            },
            Some(code) => {
                proof {
                    bv_code_mask(code);
                    lemma_codes_take(seq@, i as int);
                    lemma_pack_codes_push(codes_of(seq@.take(i as int)), code);
                }
                acc = acc | ((code as u64) << ((2 * i) as u64));
                i = i + 1;
            },
        }
    }
    proof {
        assert(seq@.take(i as int) =~= seq@);
        lemma_first_invalid_none(seq@);
    }
    Ok(acc)
}

} // verus!
