use base64::engine::general_purpose;
use base64::Engine;
use read_this::encoding::{base64_of_utf8, encode_powershell_command, utf16le_bytes};
use read_this::ssml::escape_ssml;
use read_this::text::{chars_less, chars_of, contains, is_blank, starts_with, string_of, trim};

fn reference_powershell(script: &str) -> String {
    let bytes: Vec<u8> = script.encode_utf16().flat_map(|unit| unit.to_le_bytes()).collect();
    general_purpose::STANDARD.encode(bytes)
}

#[test]
fn escape_ssml_replaces_markup_characters() {
    assert_eq!(escape_ssml("a<b>&c"), "a&lt;b&gt;&amp;c");
    assert_eq!(escape_ssml(""), "");
    assert_eq!(escape_ssml("plain text"), "plain text");
    assert_eq!(escape_ssml("&amp;"), "&amp;amp;");
    assert_eq!(escape_ssml("héllo <wörld> 😀"), "héllo &lt;wörld&gt; 😀");
}

#[test]
fn escape_ssml_matches_chained_replace() {
    for s in ["<<>>&&", "x & y > z < w", "&lt;", "no specials", "😀&😀"] {
        let expected = s.replace('&', "&amp;").replace('<', "&lt;").replace('>', "&gt;");
        assert_eq!(escape_ssml(s), expected);
    }
}

#[test]
fn escaped_text_has_no_angle_brackets() {
    let out = escape_ssml("<speak><voice>x</voice></speak>");
    assert!(!out.contains('<') && !out.contains('>'));
}

#[test]
fn escape_ssml_is_injective_on_samples() {
    let samples = ["&", "&amp;", "<", "&lt;", ">", "&gt;", "a", ""];
    for a in samples {
        for b in samples {
            if a != b {
                assert_ne!(escape_ssml(a), escape_ssml(b));
            }
        }
    }
}

#[test]
fn powershell_command_known_values() {
    assert_eq!(encode_powershell_command("A"), "QQA=");
    assert_eq!(encode_powershell_command("hi"), "aABpAA==");
    assert_eq!(encode_powershell_command("😀"), "PdgA3g==");
    assert_eq!(encode_powershell_command(""), "");
}

#[test]
fn powershell_command_matches_reference() {
    for s in ["Speak('x')", "héllo wörld", "ab", "abc", "abcd", "\u{10FFFF}\u{FFFF}\u{10000}"] {
        assert_eq!(encode_powershell_command(s), reference_powershell(s));
    }
}

#[test]
fn powershell_command_length_and_alphabet() {
    let s = "some script; with 😀 and ü";
    let out = encode_powershell_command(s);
    let n = s.encode_utf16().count() * 2;
    assert_eq!(out.len(), 4 * ((n + 2) / 3));
    assert!(out.chars().all(|c| c.is_ascii_alphanumeric() || c == '+' || c == '/' || c == '='));
}

#[test]
fn utf16le_bytes_of_surrogate_pair() {
    assert_eq!(utf16le_bytes("😀"), vec![0x3D, 0xD8, 0x00, 0xDE]);
    assert_eq!(utf16le_bytes("Aé"), vec![0x41, 0x00, 0xE9, 0x00]);
}

#[test]
fn base64_of_utf8_known_values() {
    assert_eq!(base64_of_utf8("hello"), "aGVsbG8=");
    assert_eq!(base64_of_utf8("hi"), "aGk=");
    assert_eq!(base64_of_utf8(""), "");
    assert_eq!(base64_of_utf8("ü"), general_purpose::STANDARD.encode("ü".as_bytes()));
}

#[test]
fn trim_matches_std() {
    for s in ["  boom \n", "\u{3000}x\u{85}", "\t\r\n", "", "a b", "\u{2028}y\u{A0}", "\u{200B}z"] {
        assert_eq!(trim(s), s.trim());
    }
}

#[test]
fn is_blank_matches_trim_is_empty() {
    for s in ["", " ", "\t\n\r", "\u{3000}\u{2029}", "x", " x ", "\u{200B}", "\u{1680}\u{205F}"] {
        assert_eq!(is_blank(s), s.trim().is_empty());
    }
}

#[test]
fn contains_and_starts_with_match_std() {
    let cases = [("en-US", "en-"), ("fr-FR", "en-"), ("", ""), ("abc", ""), ("ab", "abc"), ("xxabcxx", "abc")];
    for (s, n) in cases {
        let sv = chars_of(s);
        let nv = chars_of(n);
        assert_eq!(contains(&sv, &nv), s.contains(n));
        assert_eq!(starts_with(&sv, &nv), s.starts_with(n));
    }
}

#[test]
fn chars_less_matches_string_order() {
    let words = ["", "a", "ab", "b", "B", "é", "z", "😀", "Émile", "Aria", "aria"];
    for a in words {
        for b in words {
            assert_eq!(chars_less(&chars_of(a), &chars_of(b)), a < b, "{a:?} < {b:?}");
        }
    }
}

#[test]
fn string_of_round_trips() {
    let v = chars_of("héllo 😀");
    assert_eq!(string_of(&v), "héllo 😀");
}

#[test]
fn powershell_encoding_is_injective_on_samples() {
    let samples = ["", "a", "b", "ab", "ba", "aa", "\u{FFFF}", "\u{10000}", "😀", "😁", "é", "e\u{301}"];
    for a in samples {
        for b in samples {
            if a != b {
                assert_ne!(encode_powershell_command(a), encode_powershell_command(b), "{a:?} {b:?}");
                assert_ne!(utf16le_bytes(a), utf16le_bytes(b));
                assert_ne!(base64_of_utf8(a), base64_of_utf8(b));
            }
        }
    }
}

#[test]
fn chained_replace_undoes_escape_ssml() {
    for s in ["a<b>&c", "&lt;", "&amp;gt;", "<&>", "", "x&&y<<z>>", "😀 & <é>"] {
        let back = escape_ssml(s).replace("&lt;", "<").replace("&gt;", ">").replace("&amp;", "&");
        assert_eq!(back, s);
    }
}
