use unity_unpacker::decimal::{format_i64, parse_i64};
use unity_unpacker::text::{char_is_whitespace, contains, occurs_in, split_lines, split_whitespace, to_chars, to_lowercase};
use unity_unpacker::yaml_helpers::{cleanup_unity_yaml, NormalizeError};

fn chars(s: &str) -> Vec<char> {
    s.chars().collect()
}

fn strings(parts: Vec<Vec<char>>) -> Vec<String> {
    parts.into_iter().map(|p| p.into_iter().collect()).collect()
}

#[test]
fn material_file_is_normalized() {
    let raw = "%YAML 1.1\n%TAG !u! tag:unity3d.com,2011:\n--- !u!21 &2100000\nMaterial:\n  serializedVersion: 6\n  m_Name: Bark\n  m_SavedProperties:\n    m_TexEnvs:\n    - _MainTex:\n        m_Texture: {fileID: 2800000, guid: 0f1e, type: 3}\n";
    let expected = "2100000:\n  object_type: Material\n  serializedVersion: 6\n  m_Name: Bark\n  m_SavedProperties:\n    m_TexEnvs:\n    - _MainTex:\n        m_Texture: {fileID: 2800000, guid: 0f1e, type: 3}\n";
    assert_eq!(cleanup_unity_yaml(raw), Ok(expected.to_string()));
}

#[test]
fn empty_text_gives_a_lone_line_feed() {
    assert_eq!(cleanup_unity_yaml(""), Ok("\n".to_string()));
}

#[test]
fn headers_alone_give_a_lone_line_feed() {
    assert_eq!(cleanup_unity_yaml("%YAML 1.1\n%TAG !u! tag:unity3d.com,2011:\n"), Ok("\n".to_string()));
}

#[test]
fn marker_becomes_the_object_number() {
    assert_eq!(cleanup_unity_yaml("--- !u!104 &2"), Ok("2:\n".to_string()));
    assert_eq!(cleanup_unity_yaml("--- !u!1 &-5 stripped"), Ok("-5:\n".to_string()));
    assert_eq!(cleanup_unity_yaml("--- !u!1 &+5"), Ok("5:\n".to_string()));
    assert_eq!(cleanup_unity_yaml("--- !u!1 &007"), Ok("7:\n".to_string()));
    assert_eq!(
        cleanup_unity_yaml("--- !u!1 &9223372036854775807"),
        Ok("9223372036854775807:\n".to_string())
    );
    assert_eq!(
        cleanup_unity_yaml("--- !u!1 &-9223372036854775808"),
        Ok("-9223372036854775808:\n".to_string())
    );
}

#[test]
fn first_reference_word_counts() {
    assert_eq!(cleanup_unity_yaml("--- !u!1 x &3 &4"), Ok("3:\n".to_string()));
    assert_eq!(cleanup_unity_yaml("--- !u!1\t\u{3000}&12\u{a0}&x"), Ok("12:\n".to_string()));
}

#[test]
fn marker_without_number_is_refused() {
    assert_eq!(cleanup_unity_yaml("--- !u!21"), Err(NormalizeError { line: 0 }));
    assert_eq!(cleanup_unity_yaml("%YAML 1.1\n--- !u!21 &abc\nMaterial:\n"), Err(NormalizeError { line: 1 }));
    assert_eq!(cleanup_unity_yaml("a\nb\n--- !u!21 &\n--- !u!21\n"), Err(NormalizeError { line: 2 }));
    assert_eq!(cleanup_unity_yaml("--- !u!21 &9223372036854775808"), Err(NormalizeError { line: 0 }));
    assert_eq!(cleanup_unity_yaml("--- !u!21 x&1"), Err(NormalizeError { line: 0 }));
}

#[test]
fn type_name_loses_its_colons() {
    assert_eq!(cleanup_unity_yaml("Material:\n"), Ok("  object_type: Material\n".to_string()));
    assert_eq!(cleanup_unity_yaml("a:b::c"), Ok("  object_type: abc\n".to_string()));
}

#[test]
fn empty_line_is_a_type_name() {
    assert_eq!(cleanup_unity_yaml("\n"), Ok("  object_type: \n".to_string()));
    assert_eq!(cleanup_unity_yaml(" a\n\n b"), Ok(" a\n  object_type: \n b\n".to_string()));
}

#[test]
fn indented_lines_pass_unchanged() {
    assert_eq!(cleanup_unity_yaml("  m_Name: a:b\n\tkey: 1\n"), Ok("  m_Name: a:b\n\tkey: 1\n".to_string()));
}

#[test]
fn carriage_returns_before_line_feeds_are_dropped() {
    assert_eq!(cleanup_unity_yaml("--- !u!21 &1\r\nMaterial:\r\n  a: 1\r\n"), Ok("1:\n  object_type: Material\n  a: 1\n".to_string()));
    assert_eq!(cleanup_unity_yaml("  a: 1\r"), Ok("  a: 1\r\n".to_string()));
}

#[test]
fn lines_are_those_of_std() {
    for text in ["", "\n", "a", "a\n", "a\nb", "a\r\nb\r\n", "a\rb\n", "\r\n\r\n", "a\n\nb\n", "a\r", "\r", "x\n\r"] {
        let expected: Vec<String> = text.lines().map(|l| l.to_string()).collect();
        assert_eq!(strings(split_lines(&chars(text))), expected, "{:?}", text);
    }
}

#[test]
fn words_are_those_of_std() {
    for text in ["", " ", "a", " a ", "a b", "  a\t b\u{3000}c  ", "--- !u!21 &2100000", "\u{85}x\u{2003}y"] {
        let expected: Vec<String> = text.split_whitespace().map(|l| l.to_string()).collect();
        assert_eq!(strings(split_whitespace(&chars(text))), expected, "{:?}", text);
    }
}

#[test]
fn white_space_is_that_of_std() {
    for code in 0u32..0x11_0000 {
        if let Some(c) = char::from_u32(code) {
            assert_eq!(char_is_whitespace(c), c.is_whitespace(), "{:x}", code);
        }
    }
}

#[test]
fn to_chars_keeps_every_character() {
    assert_eq!(to_chars("a\u{e9}\u{1F600}z"), vec!['a', '\u{e9}', '\u{1F600}', 'z']);
    assert_eq!(to_chars(""), Vec::<char>::new());
}

#[test]
fn numbers_parse_as_in_std() {
    for text in [
        "", "+", "-", "0", "-0", "+0", "7", "42", "-42", "+42", "0042", "4 2", " 42", "42 ", "4x", "x4", "--4", "+-4",
        "9223372036854775807", "9223372036854775808", "-9223372036854775808", "-9223372036854775809",
        "00000000000000000000000000009223372036854775807", "99999999999999999999999999", "\u{664}",
    ] {
        assert_eq!(parse_i64(&chars(text)), text.parse::<i64>().ok(), "{:?}", text);
    }
}

#[test]
fn numbers_format_as_in_std() {
    for n in [0i64, 1, -1, 9, 10, 11, 99, 100, -100, 2100000, i64::MAX, i64::MIN, i64::MIN + 1, 1234567890123456789] {
        let text: String = format_i64(n).into_iter().collect();
        assert_eq!(text, n.to_string());
        assert_eq!(parse_i64(&chars(&text)), Some(n));
    }
}

#[test]
fn search_finds_what_std_finds() {
    let hays = ["", "a", "ab", "abcabc", "aaa", "guid: 0f1e2d, other", "\u{e9}t\u{e9}", "xxG2xx M1"];
    let needles = ["", "a", "b", "bc", "abc", "cab", "aaaa", "0f1e2d", "\u{e9}", "t\u{e9}", "G2", "M1", "m1", "abcabcd"];
    for hay in hays {
        for needle in needles {
            assert_eq!(contains(hay, needle), hay.contains(needle), "{:?} {:?}", hay, needle);
            assert_eq!(occurs_in(&chars(needle), &chars(hay)), hay.contains(needle));
        }
    }
}

#[test]
fn capital_letters_of_a_to_z_become_small() {
    assert_eq!(to_lowercase("FBX"), "fbx");
    assert_eq!(to_lowercase("Tar.GZ"), "tar.gz");
    assert_eq!(to_lowercase("@AZ[`az{09"), "@az[`az{09");
    assert_eq!(to_lowercase("\u{c9}cole \u{3a3}"), "\u{c9}cole \u{3a3}");
    assert_eq!(to_lowercase(""), "");
    for text in ["Models/Tree.FBX", "MiXeD", "already small"] {
        assert_eq!(to_lowercase(text), text.to_ascii_lowercase());
    }
}
