use pyaket::strutil::replace_str;
use pyaket::strutil::split_clean;
use pyaket::strutil::str_contains;
use pyaket::strutil::str_eq;
use pyaket::strutil::str_lt;
use pyaket::strutil::trim_str;
use pyaket::u64_to_string;

#[test]
fn decimal_rendering_matches_std() {
    assert_eq!(u64_to_string(0), "0");
    assert_eq!(u64_to_string(7), "7");
    assert_eq!(u64_to_string(1234567890), "1234567890");
    assert_eq!(u64_to_string(u64::MAX), u64::MAX.to_string());
}

#[test]
fn string_equality_and_search() {
    assert!(str_eq("abc", "abc"));
    assert!(!str_eq("abc", "abd"));
    assert!(str_contains("x86_64-pc-windows-gnu", "windows"));
    assert!(!str_contains("x86_64-unknown-linux-gnu", "windows"));
    assert!(str_contains("anything", ""));
}

#[test]
fn replacement_is_left_to_right_and_non_overlapping() {
    assert_eq!(
        replace_str("x86_64-pc-windows-gnu", "windows-gnu", "windows-msvc"),
        "x86_64-pc-windows-msvc"
    );
    assert_eq!(replace_str("aaaa", "aa", "b"), "bb");
    assert_eq!(replace_str("no match", "windows-gnu", "windows-msvc"), "no match");
}

#[test]
fn lexical_order_is_strict() {
    assert!(str_lt("a", "b"));
    assert!(str_lt("a", "aa"));
    assert!(!str_lt("b", "a"));
    assert!(!str_lt("same", "same"));
    assert!(str_lt("bar.txt", "foo.whl"));
}

#[test]
fn trimming_and_splitting_package_lists() {
    assert_eq!(trim_str("  numpy \t"), "numpy");
    assert_eq!(trim_str(""), "");
    assert_eq!(trim_str(" \n "), "");
    let parts = split_clean("numpy: pydantic==2.11.2 :: uv>=0.6.10 : ", ':');
    assert_eq!(parts, vec!["numpy", "pydantic==2.11.2", "uv>=0.6.10"]);
    let empty = split_clean("", ':');
    assert!(empty.is_empty());
}
