use threat_engine::entropy::shannon_entropy_q;

#[test]
fn empty_buffer_has_zero_entropy() {
    assert_eq!(shannon_entropy_q(&[]), 0);
}

#[test]
fn repeated_byte_has_zero_entropy() {
    assert_eq!(shannon_entropy_q(&[0xAAu8; 500]), 0);
    assert_eq!(shannon_entropy_q(&[0u8; 1]), 0);
    assert_eq!(shannon_entropy_q(&[255u8; 4096]), 0);
}

#[test]
fn uniform_buffer_has_exactly_eight_bits() {
    let one_of_each: Vec<u8> = (0..256).map(|i| i as u8).collect();
    assert_eq!(shannon_entropy_q(&one_of_each), 8192);
    let four_of_each: Vec<u8> = (0..1024).map(|i| (i % 256) as u8).collect();
    assert_eq!(shannon_entropy_q(&four_of_each), 8192);
}

#[test]
fn entropy_is_always_within_range() {
    let samples: Vec<Vec<u8>> = vec![
        b"hello world".to_vec(),
        (0..999).map(|i| ((i * 7 + 13) % 251) as u8).collect(),
        vec![1, 2],
        vec![0, 255],
        (0..300).map(|i| (i % 2) as u8).collect(),
    ];
    for s in samples {
        let e = shannon_entropy_q(&s);
        assert!(e <= 8192);
    }
}

#[test]
fn two_symbol_buffer_has_one_bit() {
    // Equal halves of two byte values: exactly 1 bit per byte.
    let mut s = vec![0u8; 128];
    s.extend_from_slice(&[1u8; 128]);
    assert_eq!(shannon_entropy_q(&s), 1024);
}
