use learn_rust::reference::reference::{
    factorial, get_all_reference, reference_change_address, sort_works,
};
use learn_rust::reference::reference_safe::{
    f, f2, first_third, lifetime_params, reference_to_params, smallest, struct_with_reference,
    sum_r_xy, to_omit_lifetime_params, Holder, Nested, Pair, StringTable,
};
use learn_rust::reference::reference_shared_edit::{other_null_pointer, share_and_edit};
use learn_rust::slice::{array_slice, first_word, first_word_re, slice_references, string_literal};

fn table(elements: &[&str]) -> StringTable {
    StringTable { elements: elements.iter().map(|s| s.to_string()).collect() }
}

#[test]
fn reference_walkthroughs_run_to_their_end() {
    reference_change_address(true);
    reference_change_address(false);
    get_all_reference();
    reference_to_params();
    struct_with_reference();
    lifetime_params();
    to_omit_lifetime_params();
    other_null_pointer();
    share_and_edit();
    slice_references();
    string_literal();
    array_slice();
}

#[test]
fn factorial_small_values() {
    assert_eq!(factorial(0), 1);
    assert_eq!(factorial(1), 1);
    assert_eq!(factorial(2), 2);
    assert_eq!(factorial(5), 120);
}

#[test]
fn factorial_of_six() {
    assert_eq!(factorial(6), 720);
    assert_eq!(factorial(6) + 1009, 1729);
}

#[test]
fn factorial_of_twelve() {
    assert_eq!(factorial(12), 479001600);
}

#[test]
fn smallest_of_a_slice() {
    let arr = [9, 4, 1, 0, 1, 4, 9];
    assert_eq!(*smallest(&arr), 0);
}

#[test]
fn smallest_of_one_element() {
    assert_eq!(*smallest(&[5]), 5);
}

#[test]
fn smallest_at_either_end() {
    assert_eq!(*smallest(&[-7, 3, 2]), -7);
    assert_eq!(*smallest(&[3, 2, -7]), -7);
    assert_eq!(*smallest(&[i32::MAX, i32::MIN, 0]), i32::MIN);
}

#[test]
fn smallest_picks_the_first_of_equals() {
    let arr = [3, 1, 2, 1];
    assert!(std::ptr::eq(smallest(&arr), &arr[1]));
}

#[test]
fn holder_reads_its_integer() {
    let x = 10;
    let s = Holder { r: &x };
    assert_eq!(*s.r, 10);
    let t = Nested { s };
    assert_eq!(*t.s.r, 10);
}

#[test]
fn f_and_f2_return_the_first() {
    let a = 1;
    let b = 2;
    assert!(std::ptr::eq(f(&a, &b), &a));
    assert!(std::ptr::eq(f2(&a, &b), &a));
}

#[test]
fn sum_r_xy_adds_all_three() {
    let x = 20;
    let y = 300;
    assert_eq!(sum_r_xy(&1, Pair { x: &x, y: &y }), 321);
    assert_eq!(sum_r_xy(&i32::MAX, Pair { x: &0, y: &0 }), i32::MAX);
    assert_eq!(sum_r_xy(&-5, Pair { x: &-6, y: &11 }), 0);
}

#[test]
fn first_third_skips_the_middle() {
    let point = [7, 8, 9];
    let (first, third) = first_third(&point);
    assert_eq!(*first, 7);
    assert_eq!(*third, 9);
}

#[test]
fn find_by_prefix_takes_the_first_match() {
    let t = table(&["apple", "banana", "bandana", "band"]);
    assert_eq!(t.find_by_prefix("ban"), Some(&"banana".to_string()));
    assert!(std::ptr::eq(t.find_by_prefix("band").unwrap(), &t.elements[2]));
    assert_eq!(t.find_by_prefix("a"), Some(&"apple".to_string()));
}

#[test]
fn find_by_prefix_finds_nothing() {
    let t = table(&["apple", "banana"]);
    assert_eq!(t.find_by_prefix("c"), None);
    assert_eq!(t.find_by_prefix("apples"), None);
    assert_eq!(table(&[]).find_by_prefix(""), None);
}

#[test]
fn find_by_prefix_with_the_empty_prefix() {
    let t = table(&["", "x"]);
    assert!(std::ptr::eq(t.find_by_prefix("").unwrap(), &t.elements[0]));
    assert!(std::ptr::eq(t.find_by_prefix("x").unwrap(), &t.elements[1]));
}

#[test]
fn find_by_prefix_beyond_ascii() {
    let t = table(&["\u{4f60}\u{597d}", "\u{4f60}\u{5927}\u{7237}"]);
    assert!(std::ptr::eq(t.find_by_prefix("\u{4f60}\u{5927}").unwrap(), &t.elements[1]));
    assert!(std::ptr::eq(t.find_by_prefix("\u{4f60}").unwrap(), &t.elements[0]));
}

#[test]
fn first_word_ends_at_the_first_space() {
    assert_eq!(first_word(&String::from("to be")), 2);
    assert_eq!(first_word(&String::from("hello world!")), 5);
    assert_eq!(first_word(&String::from("a b c")), 1);
}

#[test]
fn first_word_without_a_space() {
    assert_eq!(first_word(&String::from("hello")), 5);
    assert_eq!(first_word(&String::new()), 0);
}

#[test]
fn first_word_with_a_leading_space() {
    assert_eq!(first_word(&String::from(" hello")), 0);
}

#[test]
fn first_word_counts_bytes() {
    assert_eq!(first_word(&String::from("\u{4f60}\u{597d} world")), 6);
    assert_eq!(first_word(&String::from("tab\there")), 8);
}

#[test]
fn first_word_re_cuts_at_the_first_space() {
    assert_eq!(first_word_re(&String::from("hello world!")), "hello");
    assert_eq!(first_word_re(&String::from("a b c")), "a");
    assert_eq!(first_word_re(&String::from(" hello")), "");
}

#[test]
fn first_word_re_without_a_space() {
    assert_eq!(first_word_re(&String::from("hello")), "hello");
    assert_eq!(first_word_re(&String::new()), "");
}

#[test]
fn first_word_re_beyond_ascii() {
    assert_eq!(first_word_re(&String::from("\u{4f60}\u{597d} world")), "\u{4f60}\u{597d}");
    assert_eq!(first_word_re(&String::from("caf\u{e9}\u{3000}au lait")), "caf\u{e9}\u{3000}au");
}

fn entry(artist: &str, works: &[&str]) -> (String, Vec<String>) {
    (artist.to_string(), works.iter().map(|w| w.to_string()).collect())
}

#[test]
fn sort_works_sorts_each_artist() {
    let mut table = vec![
        entry("Gesualdo", &["many madrigals", "Tenebrae Responsoria"]),
        entry("Garavaggio", &["Musicians", "The Calling of St. Matthew"]),
        entry("Cellini", &["Perseus with the head of Medusa", "a salt cellar"]),
    ];
    sort_works(&mut table);
    assert_eq!(
        table,
        vec![
            entry("Gesualdo", &["Tenebrae Responsoria", "many madrigals"]),
            entry("Garavaggio", &["Musicians", "The Calling of St. Matthew"]),
            entry("Cellini", &["Perseus with the head of Medusa", "a salt cellar"]),
        ]
    );
}

#[test]
fn sort_works_orders_by_character() {
    let mut table = vec![entry(
        "x",
        &["b", "ab", "", "a", "abc", "B", "\u{e9}", "z", "a\u{0}", "\u{10000}", "\u{ffff}", "ab"],
    )];
    sort_works(&mut table);
    assert_eq!(
        table,
        vec![entry(
            "x",
            &["", "B", "a", "a\u{0}", "ab", "ab", "abc", "b", "z", "\u{e9}", "\u{ffff}", "\u{10000}"],
        )]
    );
}

#[test]
fn sort_works_of_an_empty_table() {
    let mut table: Vec<(String, Vec<String>)> = Vec::new();
    sort_works(&mut table);
    assert!(table.is_empty());
    let mut table = vec![entry("nobody", &[])];
    sort_works(&mut table);
    assert_eq!(table, vec![entry("nobody", &[])]);
}
