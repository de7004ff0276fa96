use ironclaw::glob::{glob_match, glob_match_chars};

#[test]
fn matches_trailing_wildcard() {
    assert!(glob_match("C:\\Windows\\Temp\\*", "C:\\Windows\\Temp\\foo.exe"));
    assert!(glob_match(
        "C:\\Windows\\Temp\\*",
        "C:\\windows\\temp\\sub\\bar.exe"
    ));
    assert!(!glob_match("C:\\Windows\\Temp\\*", "C:\\Users\\ahmed\\a.txt"));
}

#[test]
fn matches_leading_wildcard() {
    assert!(glob_match("*.exe", "C:\\foo\\bar.exe"));
    assert!(!glob_match("*.exe", "C:\\foo\\bar.dll"));
}

#[test]
fn matches_question_mark() {
    assert!(glob_match("a?c", "abc"));
    assert!(!glob_match("a?c", "ac"));
}

#[test]
fn lone_star_matches_anything_even_empty() {
    assert!(glob_match("*", ""));
    assert!(glob_match("*", "C:\\anything\\at\\all.txt"));
}

#[test]
fn literal_pattern_matches_only_itself() {
    assert!(glob_match("abc", "abc"));
    assert!(glob_match("abc", "ABC"));
    assert!(!glob_match("abc", "abcd"));
    assert!(!glob_match("abc", "ab"));
}

#[test]
fn empty_pattern_matches_only_empty_text() {
    assert!(glob_match("", ""));
    assert!(!glob_match("", "a"));
}

#[test]
fn star_in_the_middle_backtracks() {
    assert!(glob_match("a*b*c", "axxbyyc"));
    assert!(glob_match("a*b", "abab"));
    assert!(!glob_match("a*b*c", "axxbyy"));
}

#[test]
fn chars_matching_is_case_sensitive() {
    let p: Vec<char> = "A?C".chars().collect();
    let t1: Vec<char> = "AbC".chars().collect();
    let t2: Vec<char> = "abc".chars().collect();
    assert!(glob_match_chars(&p, &t1));
    assert!(!glob_match_chars(&p, &t2));
}
