use pinax::number::{decimal_string, parse_u32};
use pinax::text::{chars_of, lines_of, replace_vec, split_by, trim_vec, words_of};

fn s(v: &[char]) -> String {
    v.iter().collect()
}

#[test]
fn lines_follow_str_lines() {
    for text in ["foo\r\nbar\n\nbaz\r", "a\n", "", "\n", "x"] {
        let got: Vec<String> = lines_of(&chars_of(text)).iter().map(|l| s(l)).collect();
        let want: Vec<String> = text.lines().map(|l| l.to_string()).collect();
        assert_eq!(got, want, "{:?}", text);
    }
}

#[test]
fn words_and_pieces() {
    let w: Vec<String> = words_of(&chars_of("  a\tbc \u{3000}d ")).iter().map(|x| s(x)).collect();
    assert_eq!(w, vec!["a", "bc", "d"]);
    let p: Vec<String> = split_by(&chars_of("a//b/"), '/').iter().map(|x| s(x)).collect();
    assert_eq!(p, vec!["a", "", "b", ""]);
    assert_eq!(s(&trim_vec(&chars_of(" \n x y \t"))), "x y");
    assert_eq!(s(&replace_vec(&chars_of("aaa"), &chars_of("aa"), &chars_of("b"))), "ba");
}

#[test]
fn numbers() {
    assert_eq!(decimal_string(0), "0");
    assert_eq!(decimal_string(18446744073709551615), "18446744073709551615");
    assert_eq!(parse_u32(&chars_of("4294967295")), Some(4294967295));
    assert_eq!(parse_u32(&chars_of("4294967296")), None);
    assert_eq!(parse_u32(&chars_of("+12")), Some(12));
    assert_eq!(parse_u32(&chars_of("-1")), None);
    assert_eq!(parse_u32(&chars_of("")), None);
    assert_eq!(parse_u32(&chars_of("+")), None);
}
