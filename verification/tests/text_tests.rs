use reservation_mailer::text::{chars_of, contains_chars, occurs_at_exec, replace_chars};

fn chars(s: &str) -> Vec<char> {
    s.chars().collect()
}

fn replace(s: &str, p: &str, t: &str) -> String {
    replace_chars(&chars(s), &chars(p), &chars(t)).into_iter().collect()
}

#[test]
fn replace_agrees_with_std() {
    for (s, p, t) in [
        ("aaaa", "aa", "b"),
        ("abcabc", "bc", "XY"),
        ("", "a", "b"),
        ("zzz", "q", "w"),
        ("{{a}}{{a}}", "{{a}}", ""),
        ("ąąą", "ą", "ęę"),
    ] {
        assert_eq!(replace(s, p, t), s.replace(p, t), "{:?}", (s, p, t));
    }
}

#[test]
fn replace_by_itself_is_identity() {
    assert_eq!(replace("abab", "ab", "ab"), "abab");
}

#[test]
fn contains_cases() {
    assert!(contains_chars(&chars("hello"), &chars("ell")));
    assert!(contains_chars(&chars("hello"), &chars("")));
    assert!(contains_chars(&chars(""), &chars("")));
    assert!(!contains_chars(&chars("hel"), &chars("hello")));
    assert!(!contains_chars(&chars("hello"), &chars("lo!")));
    assert!(contains_chars(&chars("hello"), &chars("lo")));
}

#[test]
fn occurs_at_positions() {
    let s = chars("abcab");
    assert!(occurs_at_exec(&s, &chars("ab"), 0));
    assert!(!occurs_at_exec(&s, &chars("ab"), 1));
    assert!(occurs_at_exec(&s, &chars("ab"), 3));
    assert!(!occurs_at_exec(&s, &chars("abc"), 3));
    assert!(occurs_at_exec(&s, &chars(""), 5));
}

#[test]
fn chars_of_unicode() {
    assert_eq!(chars_of("zażółć"), vec!['z', 'a', 'ż', 'ó', 'ł', 'ć']);
    assert!(chars_of("").is_empty());
}
