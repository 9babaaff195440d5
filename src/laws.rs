use vstd::prelude::*;

use crate::bits::bv_code_mask;
use crate::error::NucleotideError;
use crate::model::{
    codes_of, lemma_first_invalid_none, lemma_pack_codes_field, pack_codes, pack_spec, MAX_BASES,
};
use crate::symbols::{ascii_upper, base_of, code_of, is_base, upper_seq};
use crate::unpacking::unpacked;

verus! {

/// Round trip: packing a sequence of at most 32 bases, in any case, and unpacking as many
/// bases gives the sequence in upper case.
pub proof fn lemma_round_trip(s: Seq<u8>)
    requires
        s.len() <= MAX_BASES,
        forall|j: int| 0 <= j < s.len() ==> is_base(#[trigger] s[j]),
    ensures
        pack_spec(s) == Ok::<u64, NucleotideError>(pack_codes(codes_of(s))),
        unpacked(pack_codes(codes_of(s)), s.len()) == upper_seq(s),
{
    lemma_first_invalid_none(s);
    let v = pack_codes(codes_of(s));
    assert forall|i: int| 0 <= i < s.len() implies base_of(
        #[trigger] crate::model::field_at(v, i),
    ) == upper_seq(s)[i] by {
        lemma_pack_codes_field(codes_of(s), i);
        bv_code_mask(code_of(s[i]));
        assert(is_base(s[i]));
    }
    assert(unpacked(v, s.len()) =~= upper_seq(s));
}

/// Case does not matter: a sequence of bases packs as its upper-case form does.
pub proof fn lemma_case_insensitive(s: Seq<u8>)
    requires
        forall|j: int| 0 <= j < s.len() ==> is_base(#[trigger] s[j]),
    ensures
        pack_spec(s) == pack_spec(upper_seq(s)),
{
    let u = upper_seq(s);
    assert forall|j: int| 0 <= j < u.len() implies is_base(#[trigger] u[j]) by {
        assert(is_base(s[j]));
    }
    assert forall|j: int| 0 <= j < s.len() implies code_of(#[trigger] s[j]) == code_of(
        ascii_upper(s[j]),
    ) by {
        assert(is_base(s[j]));
    }
    assert(codes_of(s) =~= codes_of(u));
    lemma_first_invalid_none(s);
    lemma_first_invalid_none(u);
}

} // verus!
