use vstd::prelude::*;

verus! {

/// ASCII `A`.
pub const BASE_A: u8 = 65;
/// ASCII `C`.
pub const BASE_C: u8 = 67;
/// ASCII `G`.
pub const BASE_G: u8 = 71;
/// ASCII `T`.
pub const BASE_T: u8 = 84;
/// ASCII `a`.
pub const LOWER_A: u8 = 97;
/// ASCII `c`.
pub const LOWER_C: u8 = 99;
/// ASCII `g`.
pub const LOWER_G: u8 = 103;
/// ASCII `t`.
pub const LOWER_T: u8 = 116;

/// Whether `b` is one of the eight accepted letters.
pub open spec fn is_base(b: u8) -> bool {
    b == BASE_A || b == LOWER_A || b == BASE_C || b == LOWER_C || b == BASE_G || b == LOWER_G || b == BASE_T
        || b == LOWER_T
}

/// The two-bit code of a base (A = 0, C = 1, G = 2, T = 3); 0 for any other byte.
pub open spec fn code_of(b: u8) -> u8 {
    if b == BASE_C || b == LOWER_C {
        1
    } else if b == BASE_G || b == LOWER_G {
        2
    } else if b == BASE_T || b == LOWER_T {
        3
    } else {
        0
    }
}

/// The upper-case letter that a two-bit code stands for.
pub open spec fn base_of(code: u8) -> u8 {
    if code == 0 {
        BASE_A
    } else if code == 1 {
        BASE_C
    } else if code == 2 {
        BASE_G
    } else {
        BASE_T
    }
}

/// ASCII upper case of one byte.
pub open spec fn ascii_upper(b: u8) -> u8 {
    if 97 <= b <= 122 {
        (b - 32) as u8
    } else {
        b
    }
}

/// ASCII upper case of every byte of `s`.
pub open spec fn upper_seq(s: Seq<u8>) -> Seq<u8> {
    s.map_values(|b: u8| ascii_upper(b))
}

/// Looks a byte up in the symbol table: its code, or `None` for a byte that is no base.
pub fn encode_base(b: u8) -> (r: Option<u8>)
    ensures
        r == (if is_base(b) {
            Some(code_of(b))
        } else {
            None::<u8>
        }),
{
    match b {
        BASE_A | LOWER_A => Some(0),
        BASE_C | LOWER_C => Some(1),
        BASE_G | LOWER_G => Some(2),
        BASE_T | LOWER_T => Some(3),
        _ => None,
    }
}

/// The canonical upper-case letter of a two-bit code.
pub fn decode_base(code: u8) -> (r: u8)
    requires
        code < 4,
    ensures
        r == base_of(code),
{
    match code {
        0 => BASE_A,
        1 => BASE_C,
        2 => BASE_G,
        _ => BASE_T,
    }
}

} // verus!
