use bytebox::hex::{hex_u16, hex_u8, read_hex};

#[test]
fn every_prefix_reads_the_same_value() {
    for text in ["0x1234", "0X1234", "&1234", "$1234", "1234", "+1234", "0x+1234"] {
        assert_eq!(hex_u16(text), Ok(0x1234), "{text}");
    }
    assert_eq!(hex_u16("beef"), Ok(0xBEEF));
    assert_eq!(hex_u16("BeEf"), Ok(0xBEEF));
    assert_eq!(hex_u8("ff"), Ok(0xFF));
    assert_eq!(hex_u8("0x00000a"), Ok(0x0A));
}

#[test]
fn values_too_large_or_malformed_are_refused_with_the_text() {
    assert_eq!(hex_u8("100"), Err("not an 8-bit hexadecimal value: '100'".to_string()));
    assert_eq!(hex_u16("10000"), Err("not a 16-bit hexadecimal value: '10000'".to_string()));
    assert!(hex_u16("").is_err());
    assert!(hex_u16("0x").is_err());
    assert!(hex_u16("&").is_err());
    assert!(hex_u16("+").is_err());
    assert!(hex_u16("12g4").is_err());
    assert!(hex_u16("-1").is_err());
    assert!(hex_u16(" 12").is_err());
}

#[test]
fn reading_stops_at_the_bound() {
    assert_eq!(read_hex("fff", 0xFFF), Some(0xFFF));
    assert_eq!(read_hex("1000", 0xFFF), None);
    assert_eq!(read_hex("00000000000000000001", 1), Some(1));
}
