use vstd::prelude::*;

verus! {

pub proof fn bv_shl_or(x: u64, y: u64, n: u64)
    by (bit_vector)
    ensures
        (x | y) << n == (x << n) | (y << n),
{
}

pub proof fn bv_shl_shl(y: u64, m: u64, n: u64)
    by (bit_vector)
    requires
        m + n < 64,
    ensures
        (y << m) << n == y << (m + n),
{
}

pub proof fn bv_or_assoc(x: u64, y: u64, z: u64)
    by (bit_vector)
    ensures
        (x | y) | z == x | (y | z),
{
}

pub proof fn bv_fits_push(p: u64, y: u64, k: u64)
    by (bit_vector)
    requires
        p < (1u64 << k),
        y < 4,
        k + 2 < 64,
    ensures
        (p | (y << k)) < (1u64 << (k + 2)),
{
}

pub proof fn bv_field_top(p: u64, y: u64, k: u64)
    by (bit_vector)
    requires
        p < (1u64 << k),
        y < 4,
        k <= 62,
    ensures
        ((p | (y << k)) >> k) & 3u64 == y,
{
}

pub proof fn bv_field_below(p: u64, y: u64, j: u64, k: u64)
    by (bit_vector)
    requires
        j + 2 <= k,
        k < 64,
        y < 4,
    ensures
        ((p | (y << k)) >> j) & 3u64 == (p >> j) & 3u64,
{
}

pub proof fn bv_low_code(x: u8)
    by (bit_vector)
    ensures
        (x & 3u8) < 4,
        ((x & 3u8) as u64) < 4,
{
}

pub proof fn bv_or_zero_shl(x: u64, n: u64)
    by (bit_vector)
    ensures
        x | (0u64 << n) == x,
{
}

pub proof fn bv_code_mask(x: u8)
    by (bit_vector)
    requires
        x < 4,
    ensures
        x & 3u8 == x,
{
}

pub proof fn bv_flag_set(m: u32, j: u32, k: u32)
    by (bit_vector)
    requires
        j < 32,
        k < 32,
    ensures
        (((m | (1u32 << j)) >> k) & 1u32 == 1u32) == (((m >> k) & 1u32 == 1u32) || k == j),
{
}

pub proof fn bv_flag_zero(k: u32)
    by (bit_vector)
    ensures
        (0u32 >> k) & 1u32 != 1u32,
{
}

pub proof fn bv_keep_low(p: u64, q: u64, k: u64)
    by (bit_vector)
    requires
        k < 64,
        p < (1u64 << k),
    ensures
        (p | (q << k)) & (((1u64 << k) - 1u64) as u64) == p,
{
}

pub proof fn bv_keep_all(p: u64)
    by (bit_vector)
    ensures
        p & 0xffff_ffff_ffff_ffffu64 == p,
{
}

} // verus!
