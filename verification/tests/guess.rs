use learn_rust::guess::{judge, pick_secret, play_turn, Turn, Verdict};
use learn_rust::variables::{array_element, array_index};

#[test]
fn judge_compares_with_the_secret() {
    assert_eq!(judge(3, 50), Verdict::TooSmall);
    assert_eq!(judge(77, 50), Verdict::TooBig);
    assert_eq!(judge(50, 50), Verdict::Correct);
}

#[test]
fn judge_at_the_ends_of_the_range() {
    assert_eq!(judge(0, u32::MAX), Verdict::TooSmall);
    assert_eq!(judge(u32::MAX, 0), Verdict::TooBig);
    assert_eq!(judge(u32::MAX, u32::MAX), Verdict::Correct);
    assert_eq!(judge(0, 0), Verdict::Correct);
}

#[test]
fn pick_secret_stays_in_range() {
    for _ in 0..2000 {
        let secret = pick_secret();
        assert!(1 <= secret && secret <= 100);
    }
}

#[test]
fn pick_secret_does_not_stand_still() {
    let first = pick_secret();
    assert!((0..200).any(|_| pick_secret() != first));
}

#[test]
fn play_turn_reads_a_line_as_typed() {
    assert_eq!(play_turn("42\n", 42), Turn::Judged(Verdict::Correct));
    assert_eq!(play_turn("42\r\n", 50), Turn::Judged(Verdict::TooSmall));
    assert_eq!(play_turn("  77  \n", 50), Turn::Judged(Verdict::TooBig));
}

#[test]
fn play_turn_sets_all_white_space_aside() {
    let spaces = [
        '\u{9}', '\u{a}', '\u{b}', '\u{c}', '\u{d}', '\u{20}', '\u{85}', '\u{a0}', '\u{1680}',
        '\u{2000}', '\u{2001}', '\u{2002}', '\u{2003}', '\u{2004}', '\u{2005}', '\u{2006}',
        '\u{2007}', '\u{2008}', '\u{2009}', '\u{200a}', '\u{2028}', '\u{2029}', '\u{202f}',
        '\u{205f}', '\u{3000}',
    ];
    for c in spaces {
        let line = format!("{}7{}", c, c);
        assert_eq!(play_turn(&line, 7), Turn::Judged(Verdict::Correct));
    }
}

#[test]
fn play_turn_keeps_what_is_no_white_space() {
    for c in ['\u{200b}', '\u{180e}', '\u{feff}', '\u{1f}', '\u{e}', '\u{2060}', '_', '\u{0}'] {
        let line = format!("{}7", c);
        assert_eq!(play_turn(&line, 7), Turn::Unreadable);
        let line = format!("7{}", c);
        assert_eq!(play_turn(&line, 7), Turn::Unreadable);
    }
}

#[test]
fn play_turn_takes_a_plus_and_leading_zeros() {
    assert_eq!(play_turn("+42", 42), Turn::Judged(Verdict::Correct));
    assert_eq!(play_turn("0042", 42), Turn::Judged(Verdict::Correct));
    assert_eq!(play_turn("+0", 0), Turn::Judged(Verdict::Correct));
    assert_eq!(play_turn("00000000000000000001", 1), Turn::Judged(Verdict::Correct));
}

#[test]
fn play_turn_at_the_limit_of_u32() {
    assert_eq!(play_turn("4294967295", u32::MAX), Turn::Judged(Verdict::Correct));
    assert_eq!(play_turn("4294967296", u32::MAX), Turn::Unreadable);
    assert_eq!(play_turn("99999999999999999999", 1), Turn::Unreadable);
}

#[test]
fn play_turn_ignores_what_is_no_number() {
    for line in ["", "\n", "   ", "abc", "-5", "+", "-", "++5", "+-5", "4 2", "4_2", "4.2", "0x10", "1e3", "\u{663}", "\u{ff11}", "42a"] {
        assert_eq!(play_turn(line, 42), Turn::Unreadable);
    }
}

#[test]
fn play_turn_keeps_white_space_inside_a_plus_sign() {
    assert_eq!(play_turn("+ 5", 5), Turn::Unreadable);
    assert_eq!(play_turn(" +5 ", 5), Turn::Judged(Verdict::Correct));
}

#[test]
fn only_a_right_guess_ends_the_game() {
    assert!(Turn::Judged(Verdict::Correct).ends_game());
    assert!(!Turn::Judged(Verdict::TooSmall).ends_game());
    assert!(!Turn::Judged(Verdict::TooBig).ends_game());
    assert!(!Turn::Unreadable.ends_game());
}

#[test]
fn a_game_ends_on_the_secret() {
    let secret = pick_secret();
    let mut rounds = 0;
    let mut low = 1;
    let mut high = 100;
    loop {
        rounds += 1;
        let guess = (low + high) / 2;
        match play_turn(&format!("{}\n", guess), secret) {
            Turn::Judged(Verdict::TooSmall) => low = guess + 1,
            Turn::Judged(Verdict::TooBig) => high = guess - 1,
            Turn::Judged(Verdict::Correct) => break,
            Turn::Unreadable => panic!("a number was not read"),
        }
    }
    assert!(rounds <= 7);
}

#[test]
fn array_index_reads_a_line_as_typed() {
    assert_eq!(array_index("3\n"), Some(3));
    assert_eq!(array_index("  0 "), Some(0));
    assert_eq!(array_index("+4"), Some(4));
    assert_eq!(array_index("007"), Some(7));
}

#[test]
fn array_index_of_what_is_no_index() {
    for line in ["", "\n", "-1", "one", "1.0", "1 2", "+", "0x1"] {
        assert_eq!(array_index(line), None);
    }
}

#[test]
fn array_index_at_the_limit_of_usize() {
    assert_eq!(array_index(&usize::MAX.to_string()), Some(usize::MAX));
    let beyond = format!("{}0", usize::MAX);
    assert_eq!(array_index(&beyond), None);
    assert_eq!(array_index("340282366920938463463374607431768211456"), None);
}

#[test]
fn array_element_counts_from_one() {
    assert_eq!(array_element(0), 1);
    assert_eq!(array_element(1), 2);
    assert_eq!(array_element(4), 5);
}
