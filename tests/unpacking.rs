use bitnuc::{as_2bit, from_2bit, NucleotideError};

#[test]
fn test_from_2bit_valid_sequence() {
    let tests = vec![
        (0b11100100, 4, b"ACGT"),
        (0b00000000, 4, b"AAAA"),
        (0b11111111, 4, b"TTTT"),
    ];

    for (input, size, expected) in tests {
        assert_eq!(from_2bit(input, size).unwrap(), expected);
    }
}

#[test]
fn unpack_partial_length() {
    assert_eq!(from_2bit(0b11100100, 2).unwrap(), b"AC".to_vec());
}

#[test]
fn unpack_zero_length_is_empty() {
    assert_eq!(from_2bit(u64::MAX, 0).unwrap(), Vec::<u8>::new());
}

#[test]
fn unpack_full_word() {
    assert_eq!(from_2bit(u64::MAX, 32).unwrap(), vec![b'T'; 32]);
    assert_eq!(from_2bit(0, 32).unwrap(), vec![b'A'; 32]);
}

#[test]
fn unpack_rejects_length_over_32() {
    assert!(matches!(from_2bit(0, 33), Err(NucleotideError::InvalidLength(33))));
    assert!(matches!(
        from_2bit(0b11100100, 1000),
        Err(NucleotideError::InvalidLength(1000))
    ));
}

#[test]
fn unpack_ignores_high_fields() {
    assert_eq!(from_2bit(0xffff_0000_0000_0000 | 0b1110, 2).unwrap(), b"GT".to_vec());
}

#[test]
fn round_trip_gives_upper_case() {
    let inputs: Vec<&[u8]> = vec![
        b"",
        b"a",
        b"acgtACGT",
        b"gAtTaCa",
        b"ACTGGAAAATTTTAAGG",
        b"ttttggggccccaaaaTTTTGGGGCCCCAAAA",
    ];
    for s in inputs {
        let packed = as_2bit(s).unwrap();
        assert_eq!(from_2bit(packed, s.len()).unwrap(), s.to_ascii_uppercase());
    }
}
