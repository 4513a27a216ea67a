use galactic::text::{chars_of, contains_chars, find_char, rfind_char, trim_matches_char};

#[test]
fn trimming() {
    assert_eq!(trim_matches_char("%99.39%", '%'), "99.39");
    assert_eq!(trim_matches_char("%%%", '%'), "");
    assert_eq!(trim_matches_char("", '%'), "");
    assert_eq!(trim_matches_char("a%b", '%'), "a%b");
    assert_eq!(trim_matches_char("é%", '%'), "é");
    assert_eq!(trim_matches_char("%é%", '%'), "%é%".trim_matches('%'));
}

#[test]
fn finding() {
    let s = chars_of("a{b}c}");
    assert_eq!(find_char(&s, '{'), Some(1));
    assert_eq!(rfind_char(&s, '}'), Some(5));
    assert_eq!(find_char(&s, 'z'), None);
    assert_eq!(rfind_char(&s, 'z'), None);
    assert!(contains_chars(&chars_of("var $gawdata = 1"), &chars_of("$gawdata")));
    assert!(!contains_chars(&chars_of("var $gaw = 1"), &chars_of("$gawdata")));
    assert!(contains_chars(&chars_of("x"), &chars_of("")));
}

#[test]
fn trimming_twice_changes_nothing() {
    for s in ["%%a%b%%", "%", "abc", "%%%x", "y%%%", ""] {
        let once = trim_matches_char(s, '%');
        assert_eq!(trim_matches_char(&once, '%'), once);
        assert!(!once.starts_with('%') && !once.ends_with('%'));
        assert!(s.contains(once.as_str()));
    }
}
