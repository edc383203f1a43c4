use lisadbg::text::{
    chars_of, count_and_remove, find_from, lowercase, replace_all_exec, split_whitespace,
    string_from, trim_exec,
};

fn s(v: &Vec<char>) -> String {
    v.iter().collect()
}

#[test]
fn round_trip_through_characters() {
    let t = "héllo wörld";
    assert_eq!(string_from(&chars_of(t)), t);
}

#[test]
fn words_and_trimming() {
    let w = split_whitespace(&chars_of("  b \t main\n"));
    let w: Vec<String> = w.iter().map(s).collect();
    assert_eq!(w, vec!["b", "main"]);
    assert_eq!(s(&trim_exec(&chars_of("\t x y \n"))), "x y");
    assert!(split_whitespace(&chars_of("   ")).is_empty());
}

#[test]
fn lowercase_as_the_standard_library() {
    for t in ["ABC", "MixEd-Case_1", "\u{212A}elvin"] {
        assert_eq!(s(&lowercase(&chars_of(t))), t.to_lowercase());
    }
}

#[test]
fn replace_and_search() {
    let r = replace_all_exec(&chars_of("0x10x2"), &chars_of("0x"), &Vec::new());
    assert_eq!(s(&r), "12");
    assert_eq!(s(&replace_all_exec(&chars_of("aaa"), &chars_of("aa"), &chars_of("b"))), "ba");
    assert_eq!(find_from(&chars_of("abcabc"), &chars_of("bc"), 2), Some(4));
    assert_eq!(find_from(&chars_of("abc"), &chars_of("x"), 0), None);
    let (n, rest) = count_and_remove(&chars_of("u8**"), '*');
    assert_eq!(n, 2);
    assert_eq!(s(&rest), "u8");
}
