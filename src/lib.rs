//! Packing of short nucleotide sequences into two bits per base.
//!
//! A sequence of up to 32 bases (`A`, `C`, `G`, `T`, either case) becomes a `u64`
//! with the base at position `i` in bits `2i` and `2i + 1` (A = 0, C = 1, G = 2, T = 3).
//! Packing comes in a scalar backend and two chunked lane backends, all proved to give
//! the same result, errors included; unpacking is its inverse.

mod bits;
mod error;
mod lanes;
mod laws;
mod model;
mod naive;
mod packing;
mod symbols;
mod unpacking;

pub use error::NucleotideError;
pub use lanes::{pack_lanes_128, pack_lanes_256, LANES_128, LANES_256};
pub use laws::{lemma_case_insensitive, lemma_round_trip};
pub use model::MAX_BASES;
pub use naive::pack_scalar;
pub use packing::{as_2bit, as_2bit_with, Backend};
pub use symbols::{decode_base, encode_base};
pub use unpacking::from_2bit;
