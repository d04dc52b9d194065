use codepoint_str::string;
use codepoint_str::fromCharCode;
use codepoint_str::ofChar;
use codepoint_str::length;
use codepoint_str::getCharAt;
use codepoint_str::isEmpty;
use codepoint_str::fromChar;
use codepoint_str::fromChars;
use codepoint_str::fromCharsAt;
use codepoint_str::toCharArray;
use codepoint_str::toCharArrayAt;

#[test]
fn length_counts_codepoints_not_bytes() {
    let s = string("héllo");
    assert_eq!(length(&s), 5);
    let t = string("\u{1F600}ab");
    assert_eq!(length(&t), 3);
    assert_eq!(length(&string("")), 0);
}

#[test]
fn get_char_at_is_codepoint_indexed() {
    let s = string("héllo");
    assert_eq!(getCharAt(&s, 0), 'h');
    assert_eq!(getCharAt(&s, 1), 'é');
    assert_eq!(getCharAt(&s, 4), 'o');
}

#[test]
fn char_array_agrees_with_length_and_indexing() {
    let s = string("héllo");
    let a = toCharArray(&s);
    assert_eq!(a.len(), length(&s));
    let mut i: usize = 0;
    while i < a.len() {
        assert_eq!(a[i], getCharAt(&s, i));
        i += 1;
    }
}

#[test]
fn from_chars_round_trip() {
    let s = string("h\u{00E9}llo \u{3000} w\u{1F600}rld");
    let a = toCharArray(&s);
    let r = fromChars(&a);
    assert!(r == s);
    let empty = string("");
    assert!(fromChars(&toCharArray(&empty)) == empty);
}

#[test]
fn from_chars_owns_its_storage() {
    let mut a = vec!['a', 'b', 'c'];
    let s = fromChars(&a);
    a[0] = 'z';
    assert!(s == string("abc"));
}

#[test]
fn from_chars_at_takes_a_sub_range() {
    let a = vec!['a', 'b', 'c', 'd', 'e'];
    assert!(fromCharsAt(&a, 1, 3) == string("bcd"));
    assert!(fromCharsAt(&a, 0, 0) == string(""));
}

#[test]
fn to_char_array_at_takes_a_sub_range() {
    let s = string("héllo");
    assert_eq!(toCharArrayAt(&s, 1, 3), vec!['é', 'l', 'l']);
}

#[test]
fn of_char_and_from_char() {
    assert!(ofChar('é') == string("é"));
    assert!(fromChar('0', 3) == string("000"));
    assert!(fromChar('x', 0) == string(""));
}

#[test]
fn is_empty_only_on_the_empty_string() {
    assert!(isEmpty(&string("")));
    assert!(!isEmpty(&string(" ")));
}

#[test]
fn from_char_code_gives_the_codepoint() {
    assert_eq!(fromCharCode(0x48), 'H');
    assert_eq!(fromCharCode(233), 'é');
    assert_eq!(fromCharCode(0x1F600), '\u{1F600}');
}
