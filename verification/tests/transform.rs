use codepoint_str::string;
use codepoint_str::length;
use codepoint_str::insert;
use codepoint_str::remove;
use codepoint_str::removeAt;
use codepoint_str::substring;
use codepoint_str::substringAt;
use codepoint_str::padLeft;
use codepoint_str::padRight;
use codepoint_str::replicate;
use codepoint_str::join;
use codepoint_str::replace;
use codepoint_str::edit;
use codepoint_str::Str;

#[test]
fn insert_splices_before_the_offset() {
    let s = string("héllo");
    assert!(insert(&s, 1, &string("XY")) == string("hXYéllo"));
    assert!(insert(&s, 0, &string("a")) == string("ahéllo"));
    assert!(insert(&s, 5, &string("!")) == string("héllo!"));
}

#[test]
fn remove_truncates_to_the_first_codepoints() {
    let s = string("héllo");
    assert!(remove(&s, 2) == string("hé"));
    assert!(remove(&s, 0) == string(""));
    assert!(remove(&s, 5) == s);
}

#[test]
fn remove_at_deletes_the_range() {
    assert!(removeAt(&string("hello"), 1, 2) == string("hlo"));
    assert!(removeAt(&string("héllo"), 0, 5) == string(""));
    assert!(removeAt(&string("héllo"), 2, 0) == string("héllo"));
}

#[test]
fn remove_at_undoes_insert() {
    let s = string("héllo");
    let v = string("wörld");
    let i: usize = 2;
    let spliced = insert(&s, i, &v);
    assert!(removeAt(&spliced, i, length(&v)) == s);
}

#[test]
fn substring_is_codepoint_addressed() {
    let s = string("héllo");
    assert!(substringAt(&s, 1, 3) == string("éll"));
    assert!(substring(&s, 2) == string("llo"));
    assert!(substring(&s, 5) == string(""));
    assert!(substringAt(&s, 0, 0) == string(""));
}

#[test]
fn pad_left_concrete_cases() {
    assert!(padLeft(&string("7"), 3, '0') == string("007"));
    assert!(padLeft(&string("1234"), 3, '0') == string("1234"));
    assert!(padLeft(&string("ab"), 2, 'x') == string("ab"));
    assert!(padLeft(&string(""), 2, 'é') == string("éé"));
}

#[test]
fn pad_right_concrete_cases() {
    assert!(padRight(&string("7"), 3, '0') == string("700"));
    assert!(padRight(&string("1234"), 3, '0') == string("1234"));
    assert!(padRight(&string(""), 1, 'z') == string("z"));
}

#[test]
fn replicate_repeats_in_order() {
    assert!(replicate(3, &string("ab")) == string("ababab"));
    assert!(replicate(0, &string("ab")) == string(""));
    assert!(replicate(2, &string("")) == string(""));
}

#[test]
fn concat_in_sequence_order() {
    let a: Vec<Str> = vec![string("a"), string("bé"), string(""), string("c")];
    assert!(edit::concat(&a) == string("abéc"));
    let none: Vec<Str> = vec![];
    assert!(edit::concat(&none) == string(""));
}

#[test]
fn join_separates_consecutive_elements_only() {
    let a: Vec<Str> = vec![string("a"), string("b"), string("c")];
    assert!(join(&string(", "), &a) == string("a, b, c"));
    let one: Vec<Str> = vec![string("a")];
    assert!(join(&string(", "), &one) == string("a"));
    let none: Vec<Str> = vec![];
    assert!(join(&string(", "), &none) == string(""));
    let with_empties: Vec<Str> = vec![string(""), string("x"), string("")];
    assert!(join(&string("-"), &with_empties) == string("-x-"));
}

#[test]
fn replace_is_leftmost_first_non_overlapping() {
    assert!(replace(&string("aaa"), &string("aa"), &string("b")) == string("ba"));
    assert!(replace(&string("héllo"), &string("l"), &string("L")) == string("héLLo"));
    assert!(replace(&string("abcabc"), &string("bc"), &string("")) == string("aa"));
    assert!(replace(&string("xx"), &string("x"), &string("xy")) == string("xyxy"));
    assert!(replace(&string("abc"), &string("z"), &string("q")) == string("abc"));
}

#[test]
fn replace_empty_pattern_inserts_at_every_boundary() {
    assert!(replace(&string("abc"), &string(""), &string("-")) == string("-a-b-c-"));
    assert!(replace(&string(""), &string(""), &string("-")) == string("-"));
}
