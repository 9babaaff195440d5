use bitnuc::{
    as_2bit, as_2bit_with, decode_base, encode_base, pack_lanes_128, pack_lanes_256, pack_scalar,
    Backend, NucleotideError, LANES_128, LANES_256, MAX_BASES,
};

const BACKENDS: [Backend; 3] = [Backend::Scalar, Backend::Lanes128, Backend::Lanes256];

fn sample(len: usize, seed: usize) -> Vec<u8> {
    let letters = b"ACGTacgt";
    (0..len).map(|i| letters[(i * 7 + seed * 3 + i * i) % 8]).collect()
}

#[test]
fn concrete_vectors_on_every_backend() {
    let cases: Vec<(&[u8], u64)> = vec![
        (b"ACGT", 0b11100100),
        (b"AAAA", 0b00000000),
        (b"TTTT", 0b11111111),
        (b"GGGG", 0b10101010),
        (b"CCCC", 0b01010101),
        (b"", 0),
        (b"C", 1),
        (b"AC", 0b0100),
    ];
    for (input, expected) in cases {
        for b in BACKENDS {
            assert_eq!(as_2bit_with(input, b), Ok(expected));
        }
    }
}

#[test]
fn backends_agree_on_valid_inputs() {
    for len in 0..=MAX_BASES {
        for seed in 0..5 {
            let s = sample(len, seed);
            let expected = pack_scalar(&s);
            assert!(expected.is_ok());
            assert_eq!(pack_lanes_128(&s), expected);
            assert_eq!(pack_lanes_256(&s), expected);
            assert_eq!(as_2bit(&s), expected);
        }
    }
}

#[test]
fn invalid_byte_found_at_every_offset() {
    for len in 1..=MAX_BASES {
        for offset in 0..len {
            for bad in [b'N', b'n', 0u8, 0xff, b'U', b'-'] {
                let mut s = sample(len, offset);
                s[offset] = bad;
                for b in BACKENDS {
                    assert_eq!(as_2bit_with(&s, b), Err(NucleotideError::InvalidBase(bad)));
                }
            }
        }
    }
}

#[test]
fn first_invalid_byte_is_reported() {
    let s = b"ACGTACGTACGTACGTXCGTACGTACGTACGY";
    for b in BACKENDS {
        assert_eq!(as_2bit_with(s, b), Err(NucleotideError::InvalidBase(b'X')));
    }
    let t = b"ACGTACGTACGTACGTACGTACGTACGTACGZ";
    for b in BACKENDS {
        assert_eq!(as_2bit_with(t, b), Err(NucleotideError::InvalidBase(b'Z')));
    }
    let u = b"AQCGTACGTACGTACGTACGTACGTACGTACR";
    for b in BACKENDS {
        assert_eq!(as_2bit_with(u, b), Err(NucleotideError::InvalidBase(b'Q')));
    }
}

#[test]
fn length_boundary() {
    let ok = vec![b'T'; 32];
    for b in BACKENDS {
        assert_eq!(as_2bit_with(&ok, b), Ok(u64::MAX));
    }
    let long = vec![b'T'; 33];
    for b in BACKENDS {
        assert_eq!(as_2bit_with(&long, b), Err(NucleotideError::SequenceTooLong(33)));
    }
}

#[test]
fn length_checked_before_bases() {
    let long = vec![b'N'; 40];
    assert_eq!(as_2bit(&long), Err(NucleotideError::SequenceTooLong(40)));
}

#[test]
fn case_does_not_matter() {
    for len in 0..=MAX_BASES {
        let s = sample(len, len);
        assert_eq!(as_2bit(&s), as_2bit(&s.to_ascii_uppercase()));
        assert_eq!(as_2bit(&s), as_2bit(&s.to_ascii_lowercase()));
    }
}

#[test]
fn chunk_tail_lengths() {
    assert_eq!(LANES_128, 16);
    assert_eq!(LANES_256, 32);
    let s17 = b"ACGTACGTACGTACGTC";
    assert_eq!(pack_lanes_128(s17), Ok(0x1_e4e4_e4e4));
    assert_eq!(pack_scalar(s17), Ok(0x1_e4e4_e4e4));
}

#[test]
fn symbol_table() {
    assert_eq!(encode_base(b'A'), Some(0));
    assert_eq!(encode_base(b'c'), Some(1));
    assert_eq!(encode_base(b'G'), Some(2));
    assert_eq!(encode_base(b't'), Some(3));
    assert_eq!(encode_base(b'N'), None);
    assert_eq!(encode_base(b'u'), None);
    assert_eq!(decode_base(0), b'A');
    assert_eq!(decode_base(1), b'C');
    assert_eq!(decode_base(2), b'G');
    assert_eq!(decode_base(3), b'T');
}
