use lisadbg::number::{
    fmt_dec, fmt_hex, fmt_hex2, fmt_signed, str_to_i16, str_to_i32, str_to_i64, str_to_i8,
    str_to_u128, str_to_u16, str_to_u32, str_to_u64, str_to_u8, str_to_usize, parse_radix_exec,
    IntKind, ParseError,
};
use lisadbg::values::{espc, format_value, AsChar};

fn text(v: Vec<char>) -> String {
    v.into_iter().collect()
}

#[test]
fn decimal_is_default() {
    assert_eq!(str_to_u64("1234"), Ok(1234));
    assert_eq!(str_to_i64("-42"), Ok(-42));
    assert_eq!(str_to_i64("+42"), Ok(42));
}

#[test]
fn hex_prefix_and_suffix() {
    assert_eq!(str_to_u64("0x10"), Ok(16));
    assert_eq!(str_to_u64("0xff"), Ok(255));
    assert_eq!(str_to_u64("10h"), Ok(16));
    assert_eq!(str_to_u64("ffH"), Ok(255));
    assert_eq!(str_to_u32("0x7fff0000"), Ok(0x7fff0000));
    // every `0x` is removed before the hexadecimal digits are read
    assert_eq!(str_to_u64("0x10x2"), Ok(0x12));
}

#[test]
fn upper_case_prefix_is_not_removed() {
    assert_eq!(str_to_u64("0X10"), Err(ParseError::InvalidDigit));
}

#[test]
fn parse_errors() {
    assert_eq!(str_to_u64(""), Err(ParseError::Empty));
    assert_eq!(str_to_u64("zz"), Err(ParseError::InvalidDigit));
    assert_eq!(str_to_u64("-"), Err(ParseError::InvalidDigit));
    assert_eq!(str_to_u64("-1"), Err(ParseError::InvalidDigit));
    assert_eq!(str_to_u8("256"), Err(ParseError::PosOverflow));
    assert_eq!(str_to_i8("-129"), Err(ParseError::NegOverflow));
    assert_eq!(str_to_u64("h"), Err(ParseError::Empty));
    assert_eq!(str_to_u64("0x"), Err(ParseError::Empty));
}

#[test]
fn bounds_of_each_type() {
    assert_eq!(str_to_u8("255"), Ok(255));
    assert_eq!(str_to_i8("-128"), Ok(-128));
    assert_eq!(str_to_i8("127"), Ok(127));
    assert_eq!(str_to_u16("0xffff"), Ok(0xffff));
    assert_eq!(str_to_u16("0x10000"), Err(ParseError::PosOverflow));
    assert_eq!(str_to_i16("-32768"), Ok(-32768));
    assert_eq!(str_to_i32("2147483647"), Ok(i32::MAX));
    assert_eq!(str_to_i32("2147483648"), Err(ParseError::PosOverflow));
    assert_eq!(str_to_u64("18446744073709551615"), Ok(u64::MAX));
    assert_eq!(str_to_u64("18446744073709551616"), Err(ParseError::PosOverflow));
    assert_eq!(str_to_i64("-9223372036854775808"), Ok(i64::MIN));
    assert_eq!(str_to_u128("0xffffffffffffffffffffffffffffffff"), Ok(u128::MAX));
    assert_eq!(str_to_usize("64"), Ok(64));
}

#[test]
fn error_messages_match_the_standard_library() {
    let e = "".parse::<u8>().unwrap_err().to_string();
    assert_eq!(ParseError::Empty.message(), e);
    let e = "x".parse::<u8>().unwrap_err().to_string();
    assert_eq!(ParseError::InvalidDigit.message(), e);
    let e = "300".parse::<u8>().unwrap_err().to_string();
    assert_eq!(ParseError::PosOverflow.message(), e);
    let e = "-300".parse::<i8>().unwrap_err().to_string();
    assert_eq!(ParseError::NegOverflow.message(), e);
}

#[test]
fn formatting_numbers() {
    assert_eq!(text(fmt_dec(0)), "0");
    assert_eq!(text(fmt_dec(1234567)), "1234567");
    assert_eq!(text(fmt_hex(0)), "0x0");
    assert_eq!(text(fmt_hex(0xdeadbeef)), "0xdeadbeef");
    assert_eq!(text(fmt_hex2(0x0a)), "0a");
    assert_eq!(text(fmt_signed(-5, false)), "-5");
    assert_eq!(text(fmt_signed(5, true)), "+5");
}

#[test]
fn hex_text_reads_back() {
    for n in [0u64, 1, 0x10, 0xdead_beef, u64::MAX] {
        let t = text(fmt_hex(n));
        assert_eq!(str_to_u64(&t), Ok(n));
        let d = text(fmt_dec(n));
        assert_eq!(str_to_u64(&d), Ok(n));
    }
}

#[test]
fn value_display() {
    assert_eq!(format_value(255), "0xff");
    assert_eq!(format_value(0), "0x0");
    assert_eq!(format_value(-3), "-3");
}

#[test]
fn bytes_as_characters() {
    assert_eq!(AsChar(b'A').to_string(), "A");
    assert_eq!(AsChar(b' ').to_string(), " ");
    assert_eq!(AsChar(0x01).to_string(), "\\x01");
    assert_eq!(AsChar(0xff).to_string(), "\\xff");
}

#[test]
fn escaped_bytes_are_colored() {
    assert_eq!(espc(b"a"), "\x1B[32ma\x1B[0m");
    assert_eq!(espc(b"\n"), "\x1B[33m\\n\x1B[0m");
    assert_eq!(espc(&[0u8]), "\x1B[33m\\x00\x1B[0m");
    assert_eq!(espc(b"\""), "\x1B[33m\\\"\x1B[0m");
    assert_eq!(espc(b""), "");
}

#[test]
fn escaped_text_of_joined_bytes_is_joined_text() {
    let a: &[u8] = b"a\n";
    let b: &[u8] = &[0u8, b'"', b'z'];
    let joined = [a, b].concat();
    assert_eq!(espc(&joined), espc(a) + &espc(b));
    assert_eq!(espc(&[]), "");
}

fn std_kind(e: &std::num::ParseIntError) -> ParseError {
    match e.kind() {
        std::num::IntErrorKind::Empty => ParseError::Empty,
        std::num::IntErrorKind::InvalidDigit => ParseError::InvalidDigit,
        std::num::IntErrorKind::PosOverflow => ParseError::PosOverflow,
        std::num::IntErrorKind::NegOverflow => ParseError::NegOverflow,
        other => panic!("unexpected error kind {:?}", other),
    }
}

fn std_reading(s: &str, radix: u32, k: IntKind) -> Result<(bool, u128), ParseError> {
    let signed = |v: i128| if v < 0 { (true, v.unsigned_abs()) } else { (false, v as u128) };
    match k {
        IntKind::U8 => u8::from_str_radix(s, radix).map(|v| (false, v as u128)).map_err(|e| std_kind(&e)),
        IntKind::I8 => i8::from_str_radix(s, radix).map(|v| signed(v as i128)).map_err(|e| std_kind(&e)),
        IntKind::U16 => u16::from_str_radix(s, radix).map(|v| (false, v as u128)).map_err(|e| std_kind(&e)),
        IntKind::I16 => i16::from_str_radix(s, radix).map(|v| signed(v as i128)).map_err(|e| std_kind(&e)),
        IntKind::U32 => u32::from_str_radix(s, radix).map(|v| (false, v as u128)).map_err(|e| std_kind(&e)),
        IntKind::I32 => i32::from_str_radix(s, radix).map(|v| signed(v as i128)).map_err(|e| std_kind(&e)),
        IntKind::U64 => u64::from_str_radix(s, radix).map(|v| (false, v as u128)).map_err(|e| std_kind(&e)),
        IntKind::I64 => i64::from_str_radix(s, radix).map(|v| signed(v as i128)).map_err(|e| std_kind(&e)),
        IntKind::U128 => u128::from_str_radix(s, radix).map(|v| (false, v)).map_err(|e| std_kind(&e)),
        IntKind::Usize => usize::from_str_radix(s, radix).map(|v| (false, v as u128)).map_err(|e| std_kind(&e)),
        IntKind::Isize => isize::from_str_radix(s, radix).map(|v| signed(v as i128)).map_err(|e| std_kind(&e)),
    }
}

fn reading_agrees(s: &str, radix: u32, k: IntKind) {
    let chars: Vec<char> = s.chars().collect();
    let mine = parse_radix_exec(&chars, radix, k);
    let theirs = std_reading(s, radix, k);
    // A signed "-0" is zero whichever sign it carries.
    let norm = |r: Result<(bool, u128), ParseError>| r.map(|(n, m)| (n && m != 0, m));
    assert_eq!(norm(mine), norm(theirs), "{:?} in base {} as {:?}", s, radix, k);
}

const KINDS: [IntKind; 11] = [
    IntKind::U8, IntKind::I8, IntKind::U16, IntKind::I16, IntKind::U32, IntKind::I32,
    IntKind::U64, IntKind::I64, IntKind::U128, IntKind::Usize, IntKind::Isize,
];

#[test]
fn radix_reading_agrees_with_the_standard_library_on_short_texts() {
    let alphabet = ['0', '1', '7', '9', 'a', 'F', 'g', 'z', '+', '-', ' ', '_', 'é'];
    let mut texts: Vec<String> = vec![String::new()];
    let mut layer: Vec<String> = vec![String::new()];
    for _ in 0..3 {
        let mut next = Vec::new();
        for t in &layer {
            for c in alphabet {
                let mut u = t.clone();
                u.push(c);
                next.push(u);
            }
        }
        texts.extend(next.iter().cloned());
        layer = next;
    }
    for radix in [2u32, 8, 10, 16, 36] {
        for k in KINDS {
            for t in &texts {
                reading_agrees(t, radix, k);
            }
        }
    }
}

#[test]
fn radix_reading_agrees_with_the_standard_library_at_the_bounds() {
    let texts = [
        "127", "128", "-128", "-129", "255", "256", "+255", "-0", "+0", "-", "+", "",
        "32767", "32768", "-32768", "-32769", "65535", "65536",
        "2147483647", "2147483648", "-2147483648", "-2147483649", "4294967295", "4294967296",
        "9223372036854775807", "9223372036854775808", "-9223372036854775808",
        "-9223372036854775809", "18446744073709551615", "18446744073709551616",
        "340282366920938463463374607431768211455", "340282366920938463463374607431768211456",
        "7f", "80", "-80", "ff", "100", "ffffffffffffffff", "10000000000000000",
        "7fffffffffffffff", "-8000000000000000", "-8000000000000001", "FFFF", "0x10", "1_000",
        " 1", "1 ", "++1", "--1", "+-1", "00000000000000000000000000000000000000000001",
    ];
    for radix in [10u32, 16] {
        for k in KINDS {
            for t in texts {
                reading_agrees(t, radix, k);
            }
        }
    }
}
