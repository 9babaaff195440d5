use vstd::prelude::*;

use crate::bits::{bv_field_below, bv_field_top, bv_fits_push, bv_low_code, bv_or_assoc, bv_or_zero_shl, bv_shl_or, bv_shl_shl};
use crate::error::NucleotideError;

use crate::symbols::{code_of, is_base};

verus! {

/// The most bases that one packed word holds.
pub const MAX_BASES: usize = 32;

/// The two-bit codes of a byte sequence, position by position.
pub open spec fn codes_of(s: Seq<u8>) -> Seq<u8> {
    s.map_values(|b: u8| code_of(b))
}

/// Codes laid out two bits each, the code at position `i` in bits `2i` and `2i + 1`.
pub open spec fn pack_codes(c: Seq<u8>) -> u64
    decreases c.len(),
{
    if c.len() == 0 {
        0
    } else {
        pack_codes(c.drop_last()) | (((c.last() & 3u8) as u64) << ((2 * (c.len() - 1)) as u64))
    }
}

/// The position of the first byte of `s` that is no base, if any.
pub open spec fn first_invalid(s: Seq<u8>) -> Option<int>
    decreases s.len(),
{
    if s.len() == 0 {
        None
    } else {
        match first_invalid(s.drop_last()) {
            Some(i) => Some(i),
            None => if is_base(s.last()) {
                None
            } else {
                Some(s.len() - 1)
            },
        }
    }
}

/// What packing `s` yields: the length is checked first, then the first byte that is
/// no base is reported, else the codes are laid out.
pub open spec fn pack_spec(s: Seq<u8>) -> Result<u64, NucleotideError> {
    if s.len() > MAX_BASES {
        Err(NucleotideError::SequenceTooLong(s.len() as usize))
    } else {
        match first_invalid(s) {
            Some(i) => Err(NucleotideError::InvalidBase(s[i])),
            None => Ok(pack_codes(codes_of(s))),
        }
    }
}

/// The two-bit field at position `i` of a packed word.
pub open spec fn field_at(packed: u64, i: int) -> u8 {
    ((packed >> ((2 * i) as u64)) & 3u64) as u8
}

/// `first_invalid` is the least position that holds no base.
pub proof fn lemma_first_invalid(s: Seq<u8>)
    ensures
        match first_invalid(s) {
            None => forall|j: int| 0 <= j < s.len() ==> is_base(#[trigger] s[j]),
            Some(i) => {
                &&& 0 <= i < s.len()
                &&& !is_base(s[i])
                &&& forall|j: int| 0 <= j < i ==> is_base(#[trigger] s[j])
            },
        },
    decreases s.len(),
{
    if s.len() > 0 {
        let d = s.drop_last();
        lemma_first_invalid(d);
        assert forall|j: int| 0 <= j < d.len() implies #[trigger] s[j] == d[j] by {}
        match first_invalid(d) {
            Some(i) => {
                assert(s[i] == d[i]);
                assert forall|j: int| 0 <= j < i implies is_base(#[trigger] s[j]) by {
                    assert(s[j] == d[j]);
                }
            },
            None => {
                if is_base(s.last()) {
                    assert forall|j: int| 0 <= j < s.len() implies is_base(#[trigger] s[j]) by {
                        if j < d.len() {
                            assert(s[j] == d[j]);
                        }
                    }
                } else {
                    assert forall|j: int| 0 <= j < s.len() - 1 implies is_base(#[trigger] s[j]) by {
                        assert(s[j] == d[j]);
                    }
                }
            },
        }
    }
}

/// When every position before `i` holds a base and position `i` does not, `i` is the
/// first invalid position.
pub proof fn lemma_first_invalid_at(s: Seq<u8>, i: int)
    requires
        0 <= i < s.len(),
        !is_base(s[i]),
        forall|j: int| 0 <= j < i ==> is_base(#[trigger] s[j]),
    ensures
        first_invalid(s) == Some(i),
{
    lemma_first_invalid(s);
    match first_invalid(s) {
        None => {
            assert(is_base(s[i]));
        },
        Some(k) => {
            if k < i {
                assert(is_base(s[k]));
            } else if k > i {
                assert(is_base(s[i]));
            }
        },
    }
}

/// When every position holds a base there is no invalid position.
pub proof fn lemma_first_invalid_none(s: Seq<u8>)
    requires
        forall|j: int| 0 <= j < s.len() ==> is_base(#[trigger] s[j]),
    ensures
        first_invalid(s) == None::<int>,
{
    lemma_first_invalid(s);
    if let Some(k) = first_invalid(s) {
        assert(is_base(s[k]));
    }
}

/// Taking one more byte of `s` appends its code.
pub proof fn lemma_codes_take(s: Seq<u8>, i: int)
    requires
        0 <= i < s.len(),
    ensures
        codes_of(s.take(i + 1)) == codes_of(s.take(i)).push(code_of(s[i])),
{
    assert(codes_of(s.take(i + 1)) =~= codes_of(s.take(i)).push(code_of(s[i])));
}

/// Appending a code lays it out in the next free pair.
pub proof fn lemma_pack_codes_push(c: Seq<u8>, x: u8)
    ensures
        pack_codes(c.push(x)) == pack_codes(c) | (((x & 3u8) as u64) << ((2 * c.len()) as u64)),
{
    assert(c.push(x).drop_last() =~= c);
}

/// Packed codes of a prefix shorter than the word use only its low `2 * len` bits.
pub proof fn lemma_pack_codes_fits(c: Seq<u8>)
    requires
        c.len() < MAX_BASES,
    ensures
        pack_codes(c) < (1u64 << ((2 * c.len()) as u64)),
    decreases c.len(),
{
    if c.len() == 0 {
        assert(0u64 < (1u64 << 0u64)) by (bit_vector);
    } else {
        let d = c.drop_last();
        lemma_pack_codes_fits(d);
        assert(c =~= d.push(c.last()));
        lemma_pack_codes_push(d, c.last());
        bv_low_code(c.last());
        bv_fits_push(pack_codes(d), (c.last() & 3u8) as u64, (2 * d.len()) as u64);
    }
}

/// Laying out `a + b` is laying out `a`, then `b` shifted past `a`.
pub proof fn lemma_pack_codes_append(a: Seq<u8>, b: Seq<u8>)
    requires
        a.len() + b.len() <= MAX_BASES,
    ensures
        pack_codes(a + b) == pack_codes(a) | (pack_codes(b) << ((2 * a.len()) as u64)),
    decreases b.len(),
{
    let n = (2 * a.len()) as u64;
    if b.len() == 0 {
        assert(a + b =~= a);
        bv_or_zero_shl(pack_codes(a), n);
    } else {
        let d = b.drop_last();
        let x = b.last();
        lemma_pack_codes_append(a, d);
        assert(a + b =~= (a + d).push(x));
        assert(b =~= d.push(x));
        lemma_pack_codes_push(a + d, x);
        lemma_pack_codes_push(d, x);
        let y = (x & 3u8) as u64;
        let m = (2 * d.len()) as u64;
        bv_shl_or(pack_codes(d), y << m, n);
        bv_shl_shl(y, m, n);
        assert(m + n == (2 * (a + d).len()) as u64);
        bv_or_assoc(pack_codes(a), pack_codes(d) << n, y << (m + n));
    }
}

/// Position `i` of packed codes holds the code at `i`.
pub proof fn lemma_pack_codes_field(c: Seq<u8>, i: int)
    requires
        c.len() <= MAX_BASES,
        0 <= i < c.len(),
    ensures
        field_at(pack_codes(c), i) == c[i] & 3u8,
    decreases c.len(),
{
    let d = c.drop_last();
    let x = c.last();
    assert(c =~= d.push(x));
    lemma_pack_codes_push(d, x);
    bv_low_code(x);
    let y = (x & 3u8) as u64;
    let k = (2 * d.len()) as u64;
    if i == d.len() {
        if d.len() < MAX_BASES {
            lemma_pack_codes_fits(d);
            bv_field_top(pack_codes(d), y, k);
        }
    } else {
        lemma_pack_codes_field(d, i);
        bv_field_below(pack_codes(d), y, (2 * i) as u64, k);
    }
}

} // verus!
