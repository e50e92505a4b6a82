use mkw_distro_tool::wire::{
    append_bytes, as_u16_be, as_u32_be, i16_from_bits, i16_to_bits, i32_from_bits, i32_to_bits,
    i8_from_bits, i8_to_bits, pad_to, read_u16_be, read_u32_be, read_u64_be,
    write_length_prefixed_bytes, write_u16_be, write_u32_be, write_u64_be, zeros, PrefixWidth,
};

#[test]
fn zeros_has_the_asked_length() {
    assert_eq!(zeros(5), vec![0u8; 5]);
    assert_eq!(zeros(0), Vec::<u8>::new());
}

#[test]
fn pad_to_fills_to_the_boundary() {
    let mut buf = vec![1u8, 2, 3];
    pad_to(&mut buf, 8);
    assert_eq!(buf, vec![1u8, 2, 3, 0, 0, 0, 0, 0]);
}

#[test]
fn pad_to_gives_an_aligned_buffer_a_whole_unit() {
    let mut buf = vec![7u8; 16];
    pad_to(&mut buf, 16);
    assert_eq!(buf.len(), 32);
    assert_eq!(&buf[..16], &[7u8; 16]);
    assert_eq!(&buf[16..], &[0u8; 16]);

    let mut empty: Vec<u8> = Vec::new();
    pad_to(&mut empty, 8);
    assert_eq!(empty, vec![0u8; 8]);
}

#[test]
fn pad_to_always_ends_on_a_multiple_with_zero_fill() {
    for alignment in [1usize, 2, 8, 16] {
        for len in 0usize..40 {
            let mut buf = vec![0xAAu8; len];
            pad_to(&mut buf, alignment);
            assert_eq!(buf.len() % alignment, 0);
            assert!(buf.len() > len);
            assert!(buf.len() <= len + alignment);
            assert!(buf[..len].iter().all(|b| *b == 0xAA));
            assert!(buf[len..].iter().all(|b| *b == 0));
            if len % alignment == 0 {
                assert_eq!(buf.len(), len + alignment);
            }
        }
    }
}

#[test]
fn integers_are_written_most_significant_byte_first() {
    let mut buf = vec![0xFFu8];
    write_u16_be(&mut buf, 0x1234);
    write_u32_be(&mut buf, 0xDEADBEEF);
    write_u64_be(&mut buf, 0x0102030405060708);
    assert_eq!(
        buf,
        vec![0xFF, 0x12, 0x34, 0xDE, 0xAD, 0xBE, 0xEF, 1, 2, 3, 4, 5, 6, 7, 8]
    );
}

#[test]
fn integers_are_read_back() {
    let bytes = [0xFFu8, 0x12, 0x34, 0xDE, 0xAD, 0xBE, 0xEF, 1, 2, 3, 4, 5, 6, 7, 8];
    assert_eq!(read_u16_be(&bytes, 1), Some(0x1234));
    assert_eq!(read_u32_be(&bytes, 3), Some(0xDEADBEEF));
    assert_eq!(read_u64_be(&bytes, 7), Some(0x0102030405060708));
    assert_eq!(as_u16_be(&bytes[1..]), 0x1234);
    assert_eq!(as_u32_be(&bytes[3..]), 0xDEADBEEF);
    assert_eq!(as_u16_be(&[0xFF, 0xFF]), 0xFFFF);
    assert_eq!(as_u32_be(&[0xFF, 0xFF, 0xFF, 0xFF]), 0xFFFF_FFFF);
}

#[test]
fn reads_past_the_end_give_nothing() {
    let bytes = [1u8, 2, 3, 4, 5, 6, 7, 8];
    assert_eq!(read_u16_be(&bytes, 7), None);
    assert_eq!(read_u16_be(&bytes, 6), Some(0x0708));
    assert_eq!(read_u32_be(&bytes, 5), None);
    assert_eq!(read_u32_be(&bytes, 4), Some(0x05060708));
    assert_eq!(read_u64_be(&bytes, 1), None);
    assert_eq!(read_u64_be(&bytes, 0), Some(0x0102030405060708));
    assert_eq!(read_u16_be(&bytes, usize::MAX), None);
    assert_eq!(read_u32_be(&[], 0), None);
}

#[test]
fn signed_numbers_keep_their_bit_pattern() {
    assert_eq!(i8_to_bits(-1), 0xFF);
    assert_eq!(i8_to_bits(-128), 0x80);
    assert_eq!(i8_to_bits(127), 0x7F);
    assert_eq!(i16_to_bits(-2), 0xFFFE);
    assert_eq!(i16_to_bits(300), 300);
    assert_eq!(i32_to_bits(-1), 0xFFFF_FFFF);
    assert_eq!(i32_to_bits(i32::MIN), 0x8000_0000);
    assert_eq!(i8_from_bits(0x80), -128);
    assert_eq!(i16_from_bits(0xFFFE), -2);
    assert_eq!(i32_from_bits(0xFFFF_FFFF), -1);
    for v in [i32::MIN, -100, -1, 0, 1, 100, i32::MAX] {
        assert_eq!(i32_from_bits(i32_to_bits(v)), v);
    }
    for v in i8::MIN..=i8::MAX {
        assert_eq!(i8_from_bits(i8_to_bits(v)), v);
    }
    for v in [i16::MIN, -300, -1, 0, 300, 612, i16::MAX] {
        assert_eq!(i16_from_bits(i16_to_bits(v)), v);
    }
}

#[test]
fn append_bytes_copies_the_data() {
    let mut buf = vec![1u8];
    append_bytes(&mut buf, &[2, 3]);
    append_bytes(&mut buf, &[]);
    assert_eq!(buf, vec![1, 2, 3]);
}

#[test]
fn a_block_with_one_byte_of_length() {
    let mut buf = vec![9u8];
    write_length_prefixed_bytes(&mut buf, b"abc", PrefixWidth::One);
    assert_eq!(buf, vec![9, 3, b'a', b'b', b'c', 0, 0, 0, 0]);
}

#[test]
fn a_block_with_two_bytes_of_length() {
    let mut buf = Vec::new();
    write_length_prefixed_bytes(&mut buf, b"Infinite Boost", PrefixWidth::Two);
    let mut expected = vec![0u8, 14];
    expected.extend_from_slice(b"Infinite Boost");
    expected.extend_from_slice(&[0u8; 8]);
    assert_eq!(buf, expected);
    assert_eq!(buf.len(), 24);
}

#[test]
fn a_block_with_four_bytes_of_length() {
    let mut buf = Vec::new();
    write_length_prefixed_bytes(&mut buf, &[0xAB; 5], PrefixWidth::Four);
    assert_eq!(
        buf,
        vec![0, 0, 0, 5, 0xAB, 0xAB, 0xAB, 0xAB, 0xAB, 0, 0, 0, 0, 0, 0, 0]
    );
}

#[test]
fn a_block_with_eight_bytes_of_length() {
    let mut buf = Vec::new();
    write_length_prefixed_bytes(&mut buf, &[], PrefixWidth::Eight);
    assert_eq!(buf, vec![0u8; 16]);
    let mut other = Vec::new();
    write_length_prefixed_bytes(&mut other, &[1, 2], PrefixWidth::Eight);
    assert_eq!(other, vec![0, 0, 0, 0, 0, 0, 0, 2, 1, 2, 0, 0, 0, 0, 0, 0]);
}

#[test]
fn a_block_pads_itself_and_not_the_buffer() {
    let mut buf = vec![1u8, 2, 3, 4];
    write_length_prefixed_bytes(&mut buf, b"x", PrefixWidth::One);
    assert_eq!(buf, vec![1, 2, 3, 4, 1, b'x', 0, 0, 0, 0, 0, 0]);
}

#[test]
fn a_block_that_fills_its_unit_gets_a_whole_unit_more() {
    let mut buf = Vec::new();
    write_length_prefixed_bytes(&mut buf, b"1234567", PrefixWidth::One);
    assert_eq!(buf.len(), 16);
    assert_eq!(&buf[..8], &[7, b'1', b'2', b'3', b'4', b'5', b'6', b'7']);
    assert_eq!(&buf[8..], &[0u8; 8]);
}

#[test]
fn a_length_beyond_the_prefix_is_reduced() {
    let data = vec![5u8; 256 + 3];
    let mut buf = Vec::new();
    write_length_prefixed_bytes(&mut buf, &data, PrefixWidth::One);
    assert_eq!(buf[0], 3);
    assert_eq!(&buf[1..260], &data[..]);
    assert_eq!(buf.len(), 264);
}

#[test]
fn prefix_widths_have_their_sizes() {
    assert_eq!(PrefixWidth::One.size(), 1);
    assert_eq!(PrefixWidth::Two.size(), 2);
    assert_eq!(PrefixWidth::Four.size(), 4);
    assert_eq!(PrefixWidth::Eight.size(), 8);
}
