use can_tracer::text::{
    binary_text, hex_text, parse_byte_list, parse_decimal_u32, parse_hex_u32, parse_payload,
    parse_unsigned, PayloadText,
};

#[test]
fn hex_reads_digits_of_either_case() {
    assert_eq!(parse_hex_u32("1F"), Some(31));
    assert_eq!(parse_hex_u32("1f"), Some(31));
    assert_eq!(parse_hex_u32("0000"), Some(0));
    assert_eq!(parse_hex_u32("FFFF"), Some(0xFFFF));
    assert_eq!(parse_hex_u32("0201"), Some(0x201));
    assert_eq!(parse_hex_u32("ffffffff"), Some(u32::MAX));
    assert_eq!(parse_hex_u32("DeadBeef"), Some(0xDEAD_BEEF));
}

#[test]
fn hex_accepts_leading_zeros_and_one_plus() {
    assert_eq!(parse_hex_u32("000000000001"), Some(1));
    assert_eq!(parse_hex_u32("+7F"), Some(0x7F));
    assert_eq!(parse_hex_u32("++7F"), None);
    assert_eq!(parse_hex_u32("+"), None);
}

#[test]
fn hex_rejects_malformed_text() {
    assert_eq!(parse_hex_u32(""), None);
    assert_eq!(parse_hex_u32("-1"), None);
    assert_eq!(parse_hex_u32("0x10"), None);
    assert_eq!(parse_hex_u32(" 10"), None);
    assert_eq!(parse_hex_u32("10 "), None);
    assert_eq!(parse_hex_u32("1_0"), None);
    assert_eq!(parse_hex_u32("G"), None);
    assert_eq!(parse_hex_u32("12\u{e9}"), None);
    assert_eq!(parse_hex_u32("\u{ff11}"), None);
}

#[test]
fn hex_rejects_values_above_the_range() {
    assert_eq!(parse_hex_u32("100000000"), None);
    assert_eq!(parse_hex_u32("FFFFFFFFF"), None);
    assert_eq!(parse_hex_u32("0FFFFFFFF"), Some(u32::MAX));
}

#[test]
fn decimal_reads_numbers() {
    assert_eq!(parse_decimal_u32("50"), Some(50));
    assert_eq!(parse_decimal_u32("0"), Some(0));
    assert_eq!(parse_decimal_u32("4294967295"), Some(u32::MAX));
    assert_eq!(parse_decimal_u32("4294967296"), None);
    assert_eq!(parse_decimal_u32("5a"), None);
    assert_eq!(parse_decimal_u32(""), None);
    assert_eq!(parse_decimal_u32("1.5"), None);
}

#[test]
fn unsigned_reads_other_radixes() {
    assert_eq!(parse_unsigned(b"101", 2, u32::MAX), Some(5));
    assert_eq!(parse_unsigned(b"102", 2, u32::MAX), None);
    assert_eq!(parse_unsigned(b"zz", 36, u32::MAX), Some(1295));
    assert_eq!(parse_unsigned(b"ZZ", 36, u32::MAX), Some(1295));
    assert_eq!(parse_unsigned(b"ff", 16, 255), Some(255));
    assert_eq!(parse_unsigned(b"100", 16, 255), None);
}

#[test]
fn payload_reads_space_separated_bytes() {
    assert_eq!(parse_payload("01 02 03"), PayloadText::Bytes(vec![1, 2, 3]));
    assert_eq!(parse_payload("ff"), PayloadText::Bytes(vec![255]));
    assert_eq!(parse_payload("+1 Fe"), PayloadText::Bytes(vec![1, 254]));
    assert_eq!(
        parse_payload("01 02 03 04 05 06 07 08"),
        PayloadText::Bytes(vec![1, 2, 3, 4, 5, 6, 7, 8])
    );
    assert_eq!(parse_payload("001 0002"), PayloadText::Bytes(vec![1, 2]));
}

#[test]
fn payload_with_an_empty_token_is_invalid() {
    assert_eq!(parse_payload(""), PayloadText::Invalid);
    assert_eq!(parse_payload(" "), PayloadText::Invalid);
    assert_eq!(parse_payload("01  02"), PayloadText::Invalid);
    assert_eq!(parse_payload("01 "), PayloadText::Invalid);
    assert_eq!(parse_payload(" 01"), PayloadText::Invalid);
}

#[test]
fn payload_with_a_bad_token_is_invalid() {
    assert_eq!(parse_payload("01 0g"), PayloadText::Invalid);
    assert_eq!(parse_payload("100"), PayloadText::Invalid);
    assert_eq!(parse_payload("01,02"), PayloadText::Invalid);
    assert_eq!(parse_payload("01\t02"), PayloadText::Invalid);
    assert_eq!(parse_payload("zz 01 02 03 04 05 06 07 08 09"), PayloadText::Invalid);
}

#[test]
fn payload_of_nine_bytes_is_too_big() {
    assert_eq!(parse_payload("01 02 03 04 05 06 07 08 09"), PayloadText::TooBig);
    assert_eq!(parse_payload("0 0 0 0 0 0 0 0 0 0 0 0"), PayloadText::TooBig);
}

#[test]
fn byte_list_has_no_length_limit() {
    assert_eq!(
        parse_byte_list(b"1 2 3 4 5 6 7 8 9 a"),
        Some(vec![1u8, 2, 3, 4, 5, 6, 7, 8, 9, 10])
    );
    assert_eq!(parse_byte_list(b"1 2 x"), None);
    assert_eq!(parse_byte_list(b""), None);
}

#[test]
fn binary_text_writes_eight_bits_and_a_space() {
    assert_eq!(binary_text(&[]), "");
    assert_eq!(binary_text(&[0x05]), "00000101 ");
    assert_eq!(binary_text(&[0x80]), "10000000 ");
    assert_eq!(binary_text(&[0xFF, 0x00, 0x01]), "11111111 00000000 00000001 ");
}

#[test]
fn binary_text_matches_std_formatting() {
    let mut byte: u8 = 0;
    loop {
        assert_eq!(binary_text(&[byte]), format!("{:08b} ", byte));
        if byte == 255 {
            break;
        }
        byte += 1;
    }
}

#[test]
fn hex_text_pads_to_the_width() {
    assert_eq!(hex_text(0x201, 4), "0201");
    assert_eq!(hex_text(0, 4), "0000");
    assert_eq!(hex_text(0xABCD, 4), "ABCD");
    assert_eq!(hex_text(0x12345, 4), "12345");
    assert_eq!(hex_text(u32::MAX, 4), "FFFFFFFF");
    assert_eq!(hex_text(0xAB, 0), "AB");
    assert_eq!(hex_text(0, 0), "0");
    assert_eq!(hex_text(0, 1), "0");
    assert_eq!(hex_text(1, 10), "0000000001");
}

#[test]
fn hex_text_matches_std_formatting() {
    let values: [u32; 7] = [0, 9, 10, 0x7FF, 0x1234_5678, 0xFFFF, u32::MAX];
    for value in values {
        assert_eq!(hex_text(value, 4), format!("{:04X}", value));
        assert_eq!(hex_text(value, 8), format!("{:08X}", value));
    }
}

#[test]
fn hex_text_reads_back() {
    let values: [u32; 7] = [0, 1, 0x10, 0x201, 0x7FF, 0x8000_0000, u32::MAX];
    for value in values {
        assert_eq!(parse_hex_u32(&hex_text(value, 4)), Some(value));
        assert_eq!(parse_hex_u32(&hex_text(value, 0)), Some(value));
    }
}

#[test]
fn hex_reading_matches_std() {
    let texts: [&str; 10] = ["", "+", "-", "+0", "-0", "7f", "7F", "0000ffff", "100000000", "12 "];
    for text in texts {
        assert_eq!(parse_hex_u32(text), u32::from_str_radix(text, 16).ok());
        assert_eq!(parse_decimal_u32(text), u32::from_str_radix(text, 10).ok());
    }
}
