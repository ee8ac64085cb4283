use cppdoc::text::{
    chars_of, contains, join, replace, same_text, split, starts_with, string_of, string_of_range,
    strip_leading, trim, CharClass,
};

#[test]
fn chars_and_back() {
    let v = chars_of("héllo");
    assert_eq!(v, vec!['h', 'é', 'l', 'l', 'o']);
    assert_eq!(string_of(&v), "héllo");
    assert_eq!(string_of(&Vec::new()), "");
}

#[test]
fn string_of_range_clips_its_bounds() {
    let v = chars_of("abcdef");
    assert_eq!(string_of_range(&v, 1, 4), "bcd");
    assert_eq!(string_of_range(&v, 2, 100), "cdef");
    assert_eq!(string_of_range(&v, 4, 2), "");
    assert_eq!(string_of_range(&v, 7, 9), "");
    assert_eq!(string_of_range(&v, 6, 6), "");
}

#[test]
fn same_text_compares_characters() {
    assert!(same_text("abc", "abc"));
    assert!(!same_text("abc", "abd"));
    assert!(!same_text("abc", "ab"));
    assert!(same_text("", ""));
}

#[test]
fn starts_with_and_contains() {
    assert!(starts_with("(unnamed struct at x.h:3)", "(unnamed"));
    assert!(!starts_with("unnamed", "(unnamed"));
    assert!(starts_with("abc", ""));
    assert!(!starts_with("ab", "abc"));
    assert!(contains("a deduction guide for X", "deduction guide"));
    assert!(!contains("deduction", "deduction guide"));
    assert!(contains("abc", ""));
    assert!(contains("", ""));
    assert!(contains("aab", "ab"));
}

#[test]
fn replace_takes_matches_from_the_left() {
    assert_eq!(replace("a::b::c", "::", "/"), "a/b/c");
    assert_eq!(replace("a:::b", "::", "/"), "a/:b");
    assert_eq!(replace("aaa", "aa", "b"), "ba");
    assert_eq!(replace("abc", "", "x"), "abc");
    assert_eq!(replace("", "a", "x"), "");
    assert_eq!(replace("operator\"\"_km", "\"", "&quot"), "operator&quot&quot_km");
    assert_eq!(replace("a/b", "/", "slash"), "aslashb");
}

#[test]
fn strip_leading_removes_every_leading_copy() {
    assert_eq!(strip_leading("::::a::b", "::"), "a::b");
    assert_eq!(strip_leading("const const int", "const "), "int");
    assert_eq!(strip_leading("a::b", "::"), "a::b");
    assert_eq!(strip_leading("abc", ""), "abc");
    assert_eq!(strip_leading("struct struct", "struct "), "struct");
}

#[test]
fn trim_removes_a_class_from_both_ends() {
    assert_eq!(trim(" *Foo &", CharClass::Decoration), "Foo");
    assert_eq!(trim("& * ", CharClass::Decoration), "");
    assert_eq!(trim("a & b", CharClass::Decoration), "a & b");
    assert_eq!(trim(" \t\r\n x y \u{3000}\u{a0}", CharClass::Whitespace), "x y");
    assert_eq!(trim("&x&", CharClass::Whitespace), "&x&");
    assert_eq!(trim("", CharClass::Whitespace), "");
}

#[test]
fn char_classes() {
    assert!(CharClass::Decoration.test('&'));
    assert!(CharClass::Decoration.test('*'));
    assert!(CharClass::Decoration.test(' '));
    assert!(!CharClass::Decoration.test('\t'));
    for c in ['\t', '\n', '\u{b}', '\u{c}', '\r', ' ', '\u{85}', '\u{a0}', '\u{1680}', '\u{2000}',
        '\u{200a}', '\u{2028}', '\u{2029}', '\u{202f}', '\u{205f}', '\u{3000}']
    {
        assert!(CharClass::Whitespace.test(c));
        assert!(c.is_whitespace());
    }
    for c in ['a', '&', '\u{200b}', '\u{8}', '\u{e}', '\u{1681}'] {
        assert!(!CharClass::Whitespace.test(c));
        assert!(!c.is_whitespace());
    }
}

#[test]
fn split_and_join() {
    assert_eq!(split("a::b::c", "::"), vec!["a", "b", "c"]);
    assert_eq!(split("", "::"), vec![""]);
    assert_eq!(split("::a", "::"), vec!["", "a"]);
    assert_eq!(split("a::", "::"), vec!["a", ""]);
    assert_eq!(split("a:::b", "::"), vec!["a", ":b"]);
    assert_eq!(split("abc", ""), vec!["abc"]);
    assert_eq!(split("a\nb\n", "\n"), vec!["a", "b", ""]);
    let parts = vec!["a".to_string(), "b".to_string(), "c".to_string()];
    assert_eq!(join(&parts, "/"), "a/b/c");
    assert_eq!(join(&Vec::new(), "/"), "");
    assert_eq!(join(&vec!["x".to_string()], "/"), "x");
    assert_eq!(join(&split("n::m::T", "::"), "::"), "n::m::T");
}

#[test]
fn split_agrees_with_the_standard_library() {
    for s in ["", "a", "::", "a::b", "::::", ":::", "a:::b::", "x::y::z::"] {
        let expected: Vec<String> = s.split("::").map(String::from).collect();
        assert_eq!(split(s, "::"), expected);
        assert_eq!(replace(s, "::", "/"), s.replace("::", "/"));
        assert_eq!(strip_leading(s, "::"), s.trim_start_matches("::"));
    }
}

#[test]
fn whitespace_is_what_the_standard_library_says() {
    for n in 0..=0x11_0000u32 {
        if let Some(c) = char::from_u32(n) {
            assert_eq!(CharClass::Whitespace.test(c), c.is_whitespace(), "U+{:04X}", n);
        }
    }
}

#[test]
fn trimming_agrees_with_the_standard_library() {
    for s in ["", " ", "  a  ", "\ta b\n", "&* x *&", "x", " & ", "\u{a0}x\u{2003}"] {
        assert_eq!(trim(s, CharClass::Whitespace), s.trim());
        assert_eq!(
            trim(s, CharClass::Decoration),
            s.trim_matches(|c| c == '&' || c == ' ' || c == '*')
        );
        assert_eq!(strip_leading(s, " "), s.trim_start_matches(" "));
        assert_eq!(contains(s, " x"), s.contains(" x"));
        assert_eq!(starts_with(s, " "), s.starts_with(" "));
    }
}
