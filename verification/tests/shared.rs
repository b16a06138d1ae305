use midair_proto::bytes::{byte_i8, i16_word, i32_word, i8_byte, put, u16_at, u16_bytes, u32_at, u32_bytes, word_i16, word_i32};
use midair_proto::chars::{
    chars_of, find, parse_i64, parse_u64, same, space, trim, unquote, write_decimal, write_signed,
};
use midair_proto::lora::{decode_name, MSG_NAME};
use midair_proto::radiocfg::{parse_bytes, ConfigError};
use midair_proto::table::{count, free};

/// Words are little-endian both ways, and signed ones two's complement.
#[test]
fn words_travel_little_endian() {
    assert_eq!(u16_bytes(0x0102), [2, 1]);
    assert_eq!(u32_bytes(0x0102_0304), [4, 3, 2, 1]);
    assert_eq!(u16_at(&[9, 2, 1], 1), 0x0102);
    assert_eq!(u32_at(&[9, 4, 3, 2, 1], 1), 0x0102_0304);
    for v in [0, 1, -1, 127, -128] {
        assert_eq!(byte_i8(i8_byte(v)), v);
        assert_eq!(i8_byte(v), v as u8);
    }
    for v in [0, -1, i16::MIN, i16::MAX] {
        assert_eq!(word_i16(i16_word(v)), v);
        assert_eq!(i16_word(v), v as u16);
    }
    for v in [0, -1, i32::MIN, i32::MAX] {
        assert_eq!(word_i32(i32_word(v)), v);
        assert_eq!(i32_word(v), v as u32);
    }
    let mut b = [0u8; 4];
    put(&mut b, 1, &[7, 8]);
    assert_eq!(b, [0, 7, 8, 0]);
}

/// A value is trimmed of the white space a file can hold, and unquoted only
/// where both quotes are there.
#[test]
fn values_are_trimmed_and_unquoted() {
    assert_eq!(trim(&chars_of(" \t a b\u{a0}\r")), &['a', ' ', 'b']);
    assert_eq!(trim(&chars_of(" \n ")), &[] as &[char]);
    assert_eq!(unquote(&chars_of("\"ab\"")), &['a', 'b']);
    assert_eq!(unquote(&chars_of("\"ab")), &['"', 'a', 'b']);
    assert_eq!(find(&chars_of("a=b"), '='), 1);
    assert_eq!(find(&chars_of("ab"), '='), 2);
    assert!(same(&chars_of("sky-1"), "sky-1"));
    assert!(!same(&chars_of("sky-1"), "sky-12"));
    assert!(space('\u{3000}') && !space('x'));
}

/// Numbers take underscores and a sign, stop at their word, and what is
/// written reads back.
#[test]
fn numbers_read_and_write() {
    assert_eq!(parse_u64(&chars_of("915_000_000")), Some(915_000_000));
    assert_eq!(parse_u64(&chars_of("18446744073709551615")), Some(u64::MAX));
    assert_eq!(parse_u64(&chars_of("18446744073709551616")), None);
    assert_eq!(parse_u64(&chars_of("_")), None);
    assert_eq!(parse_u64(&chars_of("1a")), None);
    assert_eq!(parse_i64(&chars_of("-9")), Some(-9));
    assert_eq!(parse_i64(&chars_of("+9")), Some(9));
    assert_eq!(parse_i64(&chars_of("9223372036854775808")), None);
    for n in [0, 7, -7, 1_024, i64::MAX, i64::MIN + 1] {
        let mut out = String::new();
        write_signed(n, &mut out);
        assert_eq!(out, n.to_string());
        assert_eq!(parse_i64(&chars_of(&out)), Some(n));
    }
    let mut out = String::from("n=");
    write_decimal(u64::MAX, &mut out);
    assert_eq!(out, "n=18446744073709551615");
}

/// Bytes are a string or they are refused.
#[test]
fn bytes_that_are_not_a_string_are_refused() {
    assert_eq!(parse_bytes(b"address = \xC3\x28"), Err(ConfigError::Utf8));
    assert_eq!(parse_bytes("# caf\u{e9}\naddress = 4".as_bytes()).unwrap().address, 4);
    assert_eq!(decode_name(&[MSG_NAME, 0xC3, 0x28]), None);
    assert_eq!(decode_name(&[MSG_NAME, b'a', b'-']), Some("a-"));
}

/// A table's entries are counted, and its first gap is the one offered.
#[test]
fn tables_count_and_offer_their_first_gap() {
    assert_eq!(count(&[Some(1), None, Some(3)]), 2);
    assert_eq!(free(&[Some(1), None, None]), Some(1));
    assert_eq!(free(&[Some(1), Some(2)]), None);
    assert_eq!(count::<u8, 0>(&[]), 0);
}
