use https::text::{
    append, append_str, chars_of, comes_before, contains, decimal, digit, find_char, halve_slashes,
    lower_ascii, lower_hex, matches_at, rfind_char, same, slice, string_of,
    upper_digit,
};

fn chars(s: &str) -> Vec<char> {
    s.chars().collect()
}

#[test]
fn chars_and_strings() {
    assert_eq!(chars_of("zażółć"), chars("zażółć"));
    assert_eq!(chars_of(""), Vec::<char>::new());
    assert_eq!(string_of(&chars("gęślą jaźń")), "gęślą jaźń");
    assert_eq!(string_of(&vec![]), "");
}

#[test]
fn digits() {
    assert_eq!((0..16).map(digit).collect::<String>(), "0123456789abcdef");
    assert_eq!((0..16).map(upper_digit).collect::<String>(), "0123456789ABCDEF");
}

#[test]
fn decimal_numerals() {
    assert_eq!(string_of(&decimal(0)), "0");
    assert_eq!(string_of(&decimal(9)), "9");
    assert_eq!(string_of(&decimal(10)), "10");
    assert_eq!(string_of(&decimal(1_700_000_000)), "1700000000");
    assert_eq!(string_of(&decimal(u64::MAX)), "18446744073709551615");
}

#[test]
fn hexadecimal_numerals() {
    assert_eq!(string_of(&lower_hex(0)), "0");
    assert_eq!(string_of(&lower_hex(15)), "f");
    assert_eq!(string_of(&lower_hex(16)), "10");
    assert_eq!(string_of(&lower_hex(0xdead_beef)), "deadbeef");
    assert_eq!(string_of(&lower_hex(u64::MAX)), "ffffffffffffffff");
}

#[test]
fn appending() {
    let mut out = chars("ab");
    append(&mut out, &chars("cd"));
    append_str(&mut out, "ef");
    append_str(&mut out, "");
    assert_eq!(string_of(&out), "abcdef");
}

#[test]
fn sameness() {
    assert!(same(&chars("abc"), &chars("abc")));
    assert!(same(&chars(""), &chars("")));
    assert!(!same(&chars("abc"), &chars("abd")));
    assert!(!same(&chars("abc"), &chars("ab")));
}

#[test]
fn searching() {
    assert!(contains(&chars("address in use"), &chars("in use")));
    assert!(contains(&chars("abc"), &chars("")));
    assert!(contains(&chars(""), &chars("")));
    assert!(contains(&chars("abc"), &chars("abc")));
    assert!(contains(&chars("aab"), &chars("ab")));
    assert!(!contains(&chars("abc"), &chars("abcd")));
    assert!(!contains(&chars("abc"), &chars("ca")));
    assert!(contains(&chars("Mobile Safari"), &chars("Mobi")));
    assert!(!contains(&chars("Mob"), &chars("Mobi")));
    assert!(matches_at(&chars("abcabc"), &chars("bc"), 1));
    assert!(matches_at(&chars("abcabc"), &chars("bc"), 4));
    assert!(!matches_at(&chars("abcabc"), &chars("bc"), 5));
    assert!(!matches_at(&chars("abcabc"), &chars("bc"), 0));
    assert!(matches_at(&chars("abc"), &chars(""), 3));
    assert!(!matches_at(&chars("abc"), &chars(""), 4));
}

#[test]
fn finding_characters() {
    assert_eq!(find_char(&chars("a?b?c"), '?'), 1);
    assert_eq!(find_char(&chars("abc"), '?'), 3);
    assert_eq!(find_char(&chars(""), '?'), 0);
    assert_eq!(rfind_char(&chars("a/b/c"), '/'), Some(3));
    assert_eq!(rfind_char(&chars("/"), '/'), Some(0));
    assert_eq!(rfind_char(&chars("abc"), '/'), None);
    assert_eq!(rfind_char(&chars(""), '/'), None);
}

#[test]
fn slicing() {
    assert_eq!(string_of(&slice(&chars("zażółć"), 2, 5)), "żół");
    assert_eq!(string_of(&slice(&chars("abc"), 0, 3)), "abc");
    assert_eq!(string_of(&slice(&chars("abc"), 1, 1)), "");
}

#[test]
fn lower_case_of_ascii() {
    assert_eq!(string_of(&lower_ascii("Content-TYPE")), "content-type");
    assert_eq!(string_of(&lower_ascii("ŻÓŁ az AZ @[`{")), "ŻÓŁ az az @[`{");
    assert_eq!(string_of(&lower_ascii("")), "");
}

#[test]
fn order_of_texts() {
    assert!(comes_before(&chars("a"), &chars("b")));
    assert!(comes_before(&chars(""), &chars("a")));
    assert!(comes_before(&chars("a"), &chars("ab")));
    assert!(comes_before(&chars("ab"), &chars("b")));
    assert!(comes_before(&chars("Z"), &chars("a")));
    assert!(comes_before(&chars("z"), &chars("ż")));
    assert!(!comes_before(&chars("a"), &chars("a")));
    assert!(!comes_before(&chars("b"), &chars("a")));
    assert!(!comes_before(&chars("ab"), &chars("a")));
    assert!(!comes_before(&chars(""), &chars("")));
    for (a, b) in [("abc", "abd"), ("x", "xy"), ("é", "z"), ("10", "9"), ("", "")] {
        assert_eq!(comes_before(&chars(a), &chars(b)), a < b);
        assert_eq!(comes_before(&chars(b), &chars(a)), b < a);
    }
}

#[test]
fn halving_slashes() {
    assert_eq!(string_of(&halve_slashes(&chars("a//b"))), "a/b");
    assert_eq!(string_of(&halve_slashes(&chars("a///b"))), "a//b");
    assert_eq!(string_of(&halve_slashes(&chars("a////b"))), "a//b");
    assert_eq!(string_of(&halve_slashes(&chars("//"))), "/");
    assert_eq!(string_of(&halve_slashes(&chars("/a/b/"))), "/a/b/");
    assert_eq!(string_of(&halve_slashes(&chars(""))), "");
    for s in ["a//b", "///", "////x//", "no slashes", "/", ""] {
        assert_eq!(string_of(&halve_slashes(&chars(s))), s.replace("//", "/"));
    }
}
