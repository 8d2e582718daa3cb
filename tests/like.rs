use vdbe::like::{construct_like_regex, exec_like};

fn like(pattern: &str, text: &str) -> bool {
    exec_like(pattern, text).expect("pattern compiles")
}

#[test]
fn test_like_with_escape_or_regexmeta_chars() {
    assert!(like(r#"\%A"#, r#"\A"#));
    assert!(like("%a%a", "aaaa"));
}

#[test]
fn test_like_no_cache() {
    assert!(like("a%", "aaaa"));
    assert!(like("%a%a", "aaaa"));
    assert!(!like("%a.a", "aaaa"));
    assert!(!like("a.a%", "aaaa"));
    assert!(!like("%a.ab", "aaaa"));
}

#[test]
fn test_like_with_cache() {
    for _ in 0..2 {
        assert!(like("a%", "aaaa"));
        assert!(like("%a%a", "aaaa"));
        assert!(!like("%a.a", "aaaa"));
        assert!(!like("a.a%", "aaaa"));
        assert!(!like("%a.ab", "aaaa"));
    }
}

#[test]
fn like_regex_text() {
    let re: String = construct_like_regex("a_%.").into_iter().collect();
    assert_eq!(re, "^a..*\\.$");
    assert!(like("ABC", "abc"));
    assert!(like("a_c", "abc"));
    assert!(!like("a_c", "abbc"));
}
