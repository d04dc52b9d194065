use codepoint_str::string;
use codepoint_str::contains;
use codepoint_str::containsChar;
use codepoint_str::startsWith;
use codepoint_str::startsWithChar;
use codepoint_str::endsWith;
use codepoint_str::endsWithChar;
use codepoint_str::isWhitespace;
use codepoint_str::trim;
use codepoint_str::trimStart;
use codepoint_str::trimEnd;
use codepoint_str::trimChar;
use codepoint_str::trimStartChar;
use codepoint_str::trimEndChar;
use codepoint_str::trimChars;
use codepoint_str::trimStartChars;
use codepoint_str::trimEndChars;

#[test]
fn contains_char_finds_multibyte() {
    let s = string("héllo");
    assert!(containsChar(&s, 'é'));
    assert!(!containsChar(&s, 'z'));
    assert!(!containsChar(&string(""), 'a'));
}

#[test]
fn contains_substring() {
    let s = string("héllo world");
    assert!(contains(&s, &string("llo w")));
    assert!(contains(&s, &string("")));
    assert!(contains(&s, &string("héllo world")));
    assert!(!contains(&s, &string("worlds")));
    assert!(!contains(&string("ab"), &string("abc")));
}

#[test]
fn starts_and_ends() {
    let s = string("héllo");
    assert!(startsWith(&s, &string("hé")));
    assert!(startsWith(&s, &string("")));
    assert!(!startsWith(&s, &string("é")));
    assert!(endsWith(&s, &string("llo")));
    assert!(endsWith(&s, &string("")));
    assert!(!endsWith(&s, &string("hé")));
    assert!(startsWithChar(&s, 'h'));
    assert!(!startsWithChar(&string(""), 'h'));
    assert!(endsWithChar(&s, 'o'));
    assert!(!endsWithChar(&string(""), 'o'));
}

#[test]
fn whitespace_test_covers_unicode_spaces() {
    assert!(isWhitespace(&string("")));
    assert!(isWhitespace(&string(" \t\r\n\u{00A0}\u{2003}\u{3000}")));
    assert!(!isWhitespace(&string(" x ")));
}

#[test]
fn trim_removes_both_ends_only() {
    let s = string("\u{3000} \t héllo wörld \r\n");
    assert!(trim(&s) == string("héllo wörld"));
    assert!(trimStart(&s) == string("héllo wörld \r\n"));
    assert!(trimEnd(&s) == string("\u{3000} \t héllo wörld"));
    assert!(trim(&string("   ")) == string(""));
    assert!(trim(&string("")) == string(""));
}

#[test]
fn trim_is_a_fixed_point() {
    let s = string("  a b  ");
    let once = trim(&s);
    let twice = trim(&once);
    assert!(twice == once);
}

#[test]
fn trim_char_removes_only_that_character() {
    let s = string("00120300");
    assert!(trimChar(&s, '0') == string("1203"));
    assert!(trimStartChar(&s, '0') == string("120300"));
    assert!(trimEndChar(&s, '0') == string("001203"));
    assert!(trimChar(&string("aaa"), 'a') == string(""));
}

#[test]
fn trim_chars_removes_any_of_the_set() {
    let s = string("xyhélloyx");
    let set = vec!['x', 'y'];
    assert!(trimChars(&s, &set) == string("héllo"));
    assert!(trimStartChars(&s, &set) == string("hélloyx"));
    assert!(trimEndChars(&s, &set) == string("xyhéllo"));
    let none: Vec<char> = vec![];
    assert!(trimChars(&s, &none) == s);
}
