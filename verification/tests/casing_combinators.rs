use std::cell::RefCell;

use codepoint_str::string;
use codepoint_str::ofChar;
use codepoint_str::toLower;
use codepoint_str::toUpper;
use codepoint_str::toLowerChar;
use codepoint_str::toUpperChar;
use codepoint_str::combinators;
use codepoint_str::mapi;
use codepoint_str::filter;
use codepoint_str::existsAny;
use codepoint_str::forAll;
use codepoint_str::iter;
use codepoint_str::iteri;
use codepoint_str::collect;
use codepoint_str::init;
use codepoint_str::fromChars;

#[test]
fn to_lower_applies_full_case_mapping() {
    assert!(toLower(&string("AbC")) == string("abc"));
    assert!(toLower(&string("ÉÈ")) == string("éè"));
    assert!(toLower(&string("")) == string(""));
}

#[test]
fn to_upper_may_change_the_length() {
    assert!(toUpper(&string("abc")) == string("ABC"));
    assert!(toUpper(&string("straße")) == string("STRASSE"));
}

#[test]
fn char_case_mapping_takes_the_first_codepoint() {
    assert_eq!(toLowerChar('A'), 'a');
    assert_eq!(toLowerChar('É'), 'é');
    assert_eq!(toLowerChar('5'), '5');
    assert_eq!(toUpperChar('a'), 'A');
    assert_eq!(toUpperChar('ß'), 'S');
}

#[test]
fn map_transforms_each_codepoint() {
    let r = combinators::map(|c: char| if c == 'a' { 'x' } else { c }, &string("banana"));
    assert!(r == string("bxnxnx"));
}

#[test]
fn mapi_pairs_each_codepoint_with_its_index() {
    let seen: RefCell<Vec<(usize, char)>> = RefCell::new(Vec::new());
    let r = mapi(
        |i: usize, c: char| {
            seen.borrow_mut().push((i, c));
            c
        },
        &string("abc"),
    );
    assert!(r == string("abc"));
    assert_eq!(*seen.borrow(), vec![(0, 'a'), (1, 'b'), (2, 'c')]);
}

#[test]
fn filter_keeps_matching_codepoints_in_order() {
    let r = filter(|c: char| c != 'l', &string("héllo"));
    assert!(r == string("héo"));
    let all = filter(|_c: char| true, &string("ab"));
    assert!(all == string("ab"));
    let none = filter(|_c: char| false, &string("ab"));
    assert!(none == string(""));
}

#[test]
fn exists_any_and_for_all() {
    assert!(existsAny(|c: char| c == 'é', &string("héllo")));
    assert!(!existsAny(|c: char| c == 'z', &string("héllo")));
    assert!(!existsAny(|_c: char| true, &string("")));
    assert!(forAll(|c: char| c.is_ascii_digit(), &string("0123")));
    assert!(!forAll(|c: char| c.is_ascii_digit(), &string("01x3")));
    assert!(forAll(|_c: char| false, &string("")));
}

#[test]
fn iter_visits_each_codepoint_in_order() {
    let seen: RefCell<Vec<char>> = RefCell::new(Vec::new());
    iter(
        |c: char| {
            seen.borrow_mut().push(c);
        },
        &string("héllo"),
    );
    assert_eq!(*seen.borrow(), vec!['h', 'é', 'l', 'l', 'o']);
}

#[test]
fn iteri_counts_codepoints_from_zero() {
    let seen: RefCell<Vec<(usize, char)>> = RefCell::new(Vec::new());
    iteri(
        |i: usize, c: char| {
            seen.borrow_mut().push((i, c));
        },
        &string("xéy"),
    );
    assert_eq!(*seen.borrow(), vec![(0, 'x'), (1, 'é'), (2, 'y')]);
}

#[test]
fn collect_expands_each_codepoint_to_a_string() {
    let r = collect(|c: char| fromChars(&vec![c, c]), &string("ab"));
    assert!(r == string("aabb"));
    let drop_l = collect(
        |c: char| if c == 'l' { string("") } else { ofChar(c) },
        &string("héllo"),
    );
    assert!(drop_l == string("héo"));
}

#[test]
fn init_concatenates_indexed_pieces_in_order() {
    let r = init(3, |i: usize| ofChar((b'0' + i as u8) as char));
    assert!(r == string("012"));
    let empty = init(0, |_i: usize| string("x"));
    assert!(empty == string(""));
}
