use lisadbg::memory::{
    find_elements, find_request, pattern_bytes_exec, read_pattern, ElemKind, FindCmdError,
    FindError,
};
use lisadbg::number::ParseError;

fn chars(s: &str) -> Vec<char> {
    s.chars().collect()
}

#[test]
fn pattern_of_numbers_and_quotes() {
    let (vals, errs) = read_pattern(ElemKind::U8, &chars("0x41, 'BC' ,7")).unwrap();
    assert_eq!(vals, vec![0x41, 0x42, 0x43, 7]);
    assert!(errs.is_empty());
    // text inside the quotes is trimmed
    let (vals, _) = read_pattern(ElemKind::Char, &chars("\" hi \"")).unwrap();
    assert_eq!(vals, vec![b'h' as u64, b'i' as u64]);
}

#[test]
fn pattern_skips_what_is_no_number() {
    let (vals, errs) = read_pattern(ElemKind::U16, &chars("1, x, 0x10000, 2")).unwrap();
    assert_eq!(vals, vec![1, 2]);
    assert_eq!(errs, vec![ParseError::InvalidDigit, ParseError::PosOverflow]);
}

#[test]
fn negative_values_are_stored_in_the_element_width() {
    let (vals, _) = read_pattern(ElemKind::I16, &chars("-1, -2")).unwrap();
    assert_eq!(vals, vec![0xffff, 0xfffe]);
    let (vals, _) = read_pattern(ElemKind::I64, &chars("-1")).unwrap();
    assert_eq!(vals, vec![u64::MAX]);
}

#[test]
fn a_lone_quote_is_refused() {
    assert!(read_pattern(ElemKind::U8, &chars("\"")).is_none());
}

#[test]
fn little_endian_pattern_bytes() {
    assert_eq!(pattern_bytes_exec(&vec![0x1234, 0xabcd], 2), vec![0x34, 0x12, 0xcd, 0xab]);
    assert_eq!(pattern_bytes_exec(&vec![0x11223344], 4), vec![0x44, 0x33, 0x22, 0x11]);
}

#[test]
fn every_occurrence_is_found() {
    let mem = vec![1u8, 2, 3, 1, 2, 3, 1, 2];
    let found = find_elements(&mem, &vec![1, 2], ElemKind::U8, 0x1000).unwrap();
    assert_eq!(found, vec![0x1000, 0x1003, 0x1006]);
    // a pattern that would run past the end is not found there
    let found = find_elements(&mem, &vec![1, 2, 3], ElemKind::U8, 0x1000).unwrap();
    assert_eq!(found, vec![0x1000, 0x1003]);
}

#[test]
fn wide_elements_are_searched_at_their_own_alignment() {
    // 0x0201 lies at byte offset 1 and 3, but only offset 2 is a u16 boundary
    let mem = vec![0u8, 1, 2, 1, 2, 0];
    let found = find_elements(&mem, &vec![0x0201], ElemKind::U16, 0x2000).unwrap();
    assert_eq!(found, Vec::<u64>::new());
    let mem = vec![0u8, 0, 1, 2, 0, 0];
    let found = find_elements(&mem, &vec![0x0201], ElemKind::U16, 0x2000).unwrap();
    assert_eq!(found, vec![0x2002]);
}

#[test]
fn search_errors() {
    assert_eq!(find_elements(&vec![1u8], &vec![1], ElemKind::U16, 0), Err(FindError::TooSmall));
    assert_eq!(find_elements(&vec![1u8, 2], &vec![1, 2, 3], ElemKind::U8, 0), Err(FindError::TooMany));
    assert_eq!(find_elements(&vec![1u8, 2], &vec![], ElemKind::U8, 0), Err(FindError::EmptyPattern));
}

#[test]
fn find_command_is_read() {
    let q = find_request(&["find", "u32", "0x1000", "0x2000", "1,", "2"]).unwrap();
    assert_eq!(q.kind, ElemKind::U32);
    assert_eq!(q.begin, 0x1000);
    assert_eq!(q.end, 0x2000);
    assert_eq!(q.values, vec![1, 2]);
    assert_eq!(q.span, Some(0x1000));
    let q = find_request(&["find", "char", "0x1000", "0", "'ab'"]).unwrap();
    assert_eq!(q.span, None);
    assert_eq!(q.values, vec![0x61, 0x62]);
}

#[test]
fn find_command_errors() {
    assert_eq!(find_request(&["find", "u8", "1", "2"]).unwrap_err(), FindCmdError::Usage);
    assert_eq!(
        find_request(&["find", "u8", "x", "2", "1"]).unwrap_err(),
        FindCmdError::BadBegin(ParseError::InvalidDigit)
    );
    assert_eq!(
        find_request(&["find", "u8", "1", "", "1"]).unwrap_err(),
        FindCmdError::BadEnd(ParseError::Empty)
    );
    assert_eq!(
        find_request(&["find", "u8", "x", "", "1"]).unwrap_err(),
        FindCmdError::BadBoth(ParseError::InvalidDigit, ParseError::Empty)
    );
    assert_eq!(find_request(&["find", "float", "1", "2", "1"]).unwrap_err(), FindCmdError::UnknownType);
    assert_eq!(find_request(&["find", "u8", "5", "2", "1"]).unwrap_err(), FindCmdError::StartAfterEnd);
    assert_eq!(find_request(&["find", "u8", "1", "2", "'"]).unwrap_err(), FindCmdError::Malformed);
}
