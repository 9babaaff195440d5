use vstd::prelude::*;
use vstd::std_specs::bits::axiom_u32_trailing_zeros;

use crate::bits::{bv_flag_set, bv_flag_zero, bv_keep_all, bv_keep_low};
use crate::error::NucleotideError;
use crate::model::{
    codes_of, lemma_first_invalid_at, lemma_first_invalid_none, lemma_pack_codes_append,
    lemma_pack_codes_fits, lemma_pack_codes_push, pack_codes, pack_spec, MAX_BASES,
};
use crate::symbols::{code_of, encode_base, is_base, BASE_A};

verus! {

/// Lanes of a 128-bit register of bytes.
pub const LANES_128: usize = 16;

/// Lanes of a 256-bit register of bytes.
pub const LANES_256: usize = 32;

/// What the lane-wise lookup yields for a byte that is no base.
pub const INVALID_LANE: u8 = 0xff;

/// The byte that fills the lanes past the end of the sequence; it is a valid base.
pub const FILLER: u8 = BASE_A;

/// The lane-wise lookup of one byte: its code, or the invalid marker.
pub open spec fn lane_of(b: u8) -> u8 {
    if is_base(b) {
        code_of(b)
    } else {
        INVALID_LANE
    }
}

/// Whether bit `k` of a lane mask is set.
pub open spec fn lane_flag(m: u32, k: u32) -> bool {
    (m >> k) & 1u32 == 1u32
}

/// A mask of the low `2 * live` bits, all bits for a full word.
pub open spec fn live_bits(live: nat) -> u64 {
    if live >= MAX_BASES {
        0xffff_ffff_ffff_ffffu64
    } else {
        ((1u64 << ((2 * live) as u64)) - 1u64) as u64
    }
}

/// Loads `lanes` bytes of `seq` from `start`, padding past the end with `FILLER`.
fn load_lanes(seq: &[u8], start: usize, lanes: usize) -> (r: Vec<u8>)
    requires
        start <= seq@.len(),
        lanes <= LANES_256,
    ensures
        r@.len() == lanes,
        forall|j: int|
            0 <= j < lanes ==> #[trigger] r@[j] == (if start + j < seq@.len() {
                seq@[start + j]
            } else {
                FILLER
            }),
{
    let mut r: Vec<u8> = Vec::with_capacity(lanes);
    let mut j: usize = 0;
    while j < lanes
        invariant
            j <= lanes <= LANES_256,
            start <= seq@.len(),
            r@.len() == j,
            forall|k: int|
                0 <= k < j ==> #[trigger] r@[k] == (if start + k < seq@.len() {
                    seq@[start + k]
                } else {
                    FILLER
                }),
        decreases lanes - j,
    {
        if j < seq.len() - start {
            r.push(seq[start + j]);
        } else {
            r.push(FILLER);
        }
        j = j + 1;
    }
    r
}

/// Translates every lane through the symbol table, marking bytes that are no base.
fn lookup_lanes(chunk: &Vec<u8>) -> (r: Vec<u8>)
    ensures
        r@.len() == chunk@.len(),
        forall|j: int| 0 <= j < chunk@.len() ==> #[trigger] r@[j] == lane_of(chunk@[j]),
{
    let mut r: Vec<u8> = Vec::with_capacity(chunk.len());
    let mut j: usize = 0;
    while j < chunk.len()
        invariant
            j <= chunk@.len(),
            r@.len() == j,
            forall|k: int| 0 <= k < j ==> #[trigger] r@[k] == lane_of(chunk@[k]),
        decreases chunk@.len() - j,
    {
        match encode_base(chunk[j]) {
            Some(code) => r.push(code),
            None => r.push(INVALID_LANE),
        }
        j = j + 1;
    }
    r
}

/// Reduces the lanes to a mask whose bit `k` is set exactly when lane `k` is marked invalid.
fn invalid_mask(lanes: &Vec<u8>) -> (m: u32)
    requires
        lanes@.len() <= LANES_256,
    ensures
        forall|k: u32|
            k < 32 ==> (#[trigger] lane_flag(m, k) <==> (k < lanes@.len() && lanes@[k as int]
                == INVALID_LANE)),
{
    let mut m: u32 = 0;
    let mut j: usize = 0;
    assert forall|k: u32| k < 32 implies !#[trigger] lane_flag(0u32, k) by {
        bv_flag_zero(k);
    }
    while j < lanes.len()
        invariant
            j <= lanes@.len() <= LANES_256,
            forall|k: u32|
                k < 32 ==> (#[trigger] lane_flag(m, k) <==> (k < j && lanes@[k as int]
                    == INVALID_LANE)),
        decreases lanes@.len() - j,
    {
        if lanes[j] == INVALID_LANE {
            let ghost prev = m;
            m = m | (1u32 << (j as u32));
            assert forall|k: u32| k < 32 implies (#[trigger] lane_flag(m, k) <==> (k < j + 1
                && lanes@[k as int] == INVALID_LANE)) by {
                bv_flag_set(prev, j as u32, k);
                assert(lane_flag(prev, k) <==> (k < j && lanes@[k as int] == INVALID_LANE));
            }
        }
        j = j + 1;
    }
    m
}

/// Lays the lanes' codes out two bits each, lane 0 lowest.
fn gather_codes(lanes: &Vec<u8>) -> (r: u64)
    requires
        lanes@.len() <= LANES_256,
    ensures
        r == pack_codes(lanes@),
{
    let mut acc: u64 = 0;
    let mut j: usize = 0;
    while j < lanes.len()
        invariant
            j <= lanes@.len() <= LANES_256,
            acc == pack_codes(lanes@.take(j as int)),
        decreases lanes@.len() - j,
    {
        proof {
            assert(lanes@.take(j as int + 1) =~= lanes@.take(j as int).push(lanes@[j as int]));
            lemma_pack_codes_push(lanes@.take(j as int), lanes@[j as int]);
        }
        acc = acc | (((lanes[j] & 3u8) as u64) << ((2 * j) as u64));
        j = j + 1;
    }
    proof {
        assert(lanes@.take(j as int) =~= lanes@);
    }
    acc
}

/// The mask that keeps the fields of the first `live` lanes.
fn live_mask(live: usize) -> (r: u64)
    requires
        live <= MAX_BASES,
    ensures
        r == live_bits(live as nat),
{
    if live == MAX_BASES {
        0xffff_ffff_ffff_ffffu64
    } else {
        let shift: u64 = (2 * live) as u64;
        assert(1u64 << shift >= 1u64) by (bit_vector)
            requires
                shift < 64,
        ;
        (1u64 << shift) - 1u64
    }
}

/// Packs `seq` a chunk of `lanes` bytes at a time: loads the chunk padded with `FILLER`,
/// looks every lane up, reduces the invalid marks to a mask and reports the byte of its
/// lowest set bit, else gathers the codes, keeps the live lanes and shifts them into place.
fn pack_chunked(seq: &[u8], lanes: usize) -> (r: Result<u64, NucleotideError>)
    requires
        1 <= lanes <= LANES_256,
        seq@.len() <= MAX_BASES,
    ensures
        r == pack_spec(seq@),
{
    let mut acc: u64 = 0;
    let mut start: usize = 0;
    while start < seq.len()
        invariant
            start <= seq@.len() <= MAX_BASES,
            1 <= lanes <= LANES_256,
            acc == pack_codes(codes_of(seq@.take(start as int))),
            forall|j: int| 0 <= j < start ==> is_base(#[trigger] seq@[j]),
        decreases seq@.len() - start,
    {
        let rest: usize = seq.len() - start;
        let live: usize = if rest < lanes {
            rest
        } else {
            lanes
        };
        let chunk = load_lanes(seq, start, lanes);
        let codes = lookup_lanes(&chunk);
        let mask = invalid_mask(&codes);
        if mask != 0 {
            proof {
                axiom_u32_trailing_zeros(mask);
            }
            let t: u32 = mask.trailing_zeros();
            proof {
                assert((mask >> t) & 1u32 == 1u32);
                assert(lane_flag(mask, t));
                assert(codes@[t as int] == INVALID_LANE);
                assert(!is_base(chunk@[t as int]));
                assert forall|j: int| 0 <= j < start + t implies is_base(#[trigger] seq@[j]) by {
                    if j >= start {
                        let k = (j - start) as u32;
                        assert((mask >> k) & 1u32 == 0u32);
                        assert(!lane_flag(mask, k));
                        assert(chunk@[k as int] == seq@[j]);
                    }
                }
                lemma_first_invalid_at(seq@, start + t);
            }
            return Err(NucleotideError::InvalidBase(seq[start + t as usize]));
        }
        let gathered: u64 = gather_codes(&codes);
        let keep: u64 = live_mask(live);
        let bits: u64 = gathered & keep;
        let ghost done = codes_of(seq@.take(start as int));
        let ghost part = codes_of(seq@.subrange(start as int, start + live));
        proof {
            let c = codes@;
            assert forall|k: int| 0 <= k < lanes implies c[k] != INVALID_LANE by {
                bv_flag_zero(k as u32);
                assert(!lane_flag(mask, k as u32));
            }
            assert forall|j: int| 0 <= j < start + live implies is_base(#[trigger] seq@[j]) by {
                if j >= start {
                    assert(chunk@[j - start] == seq@[j]);
                    assert(c[j - start] != INVALID_LANE);
                }
            }
            assert(c.take(live as int) =~= part);
            assert(c =~= c.take(live as int) + c.skip(live as int));
            if live == MAX_BASES {
                assert(c.take(live as int) =~= c);
                bv_keep_all(gathered);
            } else {
                lemma_pack_codes_append(c.take(live as int), c.skip(live as int));
                lemma_pack_codes_fits(part);
                bv_keep_low(pack_codes(part), pack_codes(c.skip(live as int)), (2 * live) as u64);
            }
            assert(bits == pack_codes(part));
            assert(codes_of(seq@.take(start + live)) =~= done + part);
            lemma_pack_codes_append(done, part);
        }
        acc = acc | (bits << ((2 * start) as u64));
        start = start + live;
    }
    proof {
        assert(seq@.take(start as int) =~= seq@);
        lemma_first_invalid_none(seq@);
    }
    Ok(acc)
}

/// The 128-bit lane backend: sixteen bytes per chunk.
pub fn pack_lanes_128(seq: &[u8]) -> (r: Result<u64, NucleotideError>)
    requires
        seq@.len() <= MAX_BASES,
    ensures
        r == pack_spec(seq@),
{
    pack_chunked(seq, LANES_128)
}

/// The 256-bit lane backend: thirty-two bytes per chunk.
pub fn pack_lanes_256(seq: &[u8]) -> (r: Result<u64, NucleotideError>)
    requires
        seq@.len() <= MAX_BASES,
    ensures
        r == pack_spec(seq@),
{
    pack_chunked(seq, LANES_256)
}

} // verus!
