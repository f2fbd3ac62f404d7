use byte_check::checks::process::is_suspicious_name;
use byte_check::signatures::{known_av_process_list, shell_rc_file_list, suspicious_process_list};
use byte_check::text::{
    chars_of, contains_chars, decimal_chars, join_strings, lines_of, signed_decimal_chars, to_lower,
    trim_chars, words_of,
};

fn s(v: &[char]) -> String {
    v.iter().collect()
}

fn lines(t: &str) -> Vec<String> {
    lines_of(&chars_of(t)).iter().map(|l| s(l)).collect()
}

#[test]
fn lines_follow_str_lines() {
    for t in ["foo\nbar\n\r\nbaz\r", "", "\n", "a\r\nb", "a\n\nb\n", "one"] {
        let expected: Vec<String> = t.lines().map(|l| l.to_string()).collect();
        assert_eq!(lines(t), expected, "input {t:?}");
    }
}

#[test]
fn trim_follows_str_trim() {
    for t in ["  a b  ", "\t\r\n", "", "x", "\u{3000}wide\u{a0}", " \u{2028}z "] {
        assert_eq!(s(&trim_chars(&chars_of(t))), t.trim(), "input {t:?}");
    }
}

#[test]
fn words_follow_split_whitespace() {
    for t in ["TracerPid:\t0", "  a  b\tc ", "", "   ", "one"] {
        let expected: Vec<String> = t.split_whitespace().map(|w| w.to_string()).collect();
        let got: Vec<String> = words_of(&chars_of(t)).iter().map(|w| s(w)).collect();
        assert_eq!(got, expected, "input {t:?}");
    }
}

#[test]
fn lower_is_ascii_only() {
    assert_eq!(to_lower("AbC-ÄÖ.EXE"), "abc-ÄÖ.exe");
}

#[test]
fn decimal_notation() {
    assert_eq!(s(&decimal_chars(0)), "0");
    assert_eq!(s(&decimal_chars(7)), "7");
    assert_eq!(s(&decimal_chars(120)), "120");
    assert_eq!(s(&decimal_chars(u64::MAX)), u64::MAX.to_string());
    assert_eq!(s(&signed_decimal_chars(-61)), "-61");
    assert_eq!(s(&signed_decimal_chars(i64::MIN)), i64::MIN.to_string());
}

#[test]
fn join_with_separator() {
    let parts = vec!["a".to_string(), "b".to_string(), "c".to_string()];
    assert_eq!(join_strings(&parts, "; "), "a; b; c");
    assert_eq!(join_strings(&Vec::new(), "; "), "");
}

#[test]
fn substring_search() {
    assert!(contains_chars(&chars_of("processkiller64"), &chars_of("killer")));
    assert!(!contains_chars(&chars_of("kill"), &chars_of("killer")));
    assert!(contains_chars(&chars_of("x"), &chars_of("")));
}

#[test]
fn signature_matching_exact_or_token() {
    assert!(is_suspicious_name(&chars_of("antiss")));
    assert!(is_suspicious_name(&chars_of("my-killocean-v2")));
    assert!(!is_suspicious_name(&chars_of("bash")));
    assert!(!is_suspicious_name(&chars_of("anti-ss.exe")));
}

#[test]
fn signature_lists_are_complete() {
    assert_eq!(suspicious_process_list().len(), 17);
    assert_eq!(known_av_process_list().len(), 67);
    assert_eq!(shell_rc_file_list(), vec![".bashrc", ".profile", ".zshrc", ".bash_profile", ".xprofile"]);
}
