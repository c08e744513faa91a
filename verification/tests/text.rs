use task_list::decimal::{parse_numeral, push_decimal};
use task_list::text::{char_is_whitespace, chars_of, end_of_whitespace, end_of_word};

#[test]
fn whitespace_is_what_unicode_calls_white_space() {
    let mut count = 0;
    for c in '\0'..=char::MAX {
        assert_eq!(c.is_whitespace(), char_is_whitespace(c), "{:?}", c);
        if char_is_whitespace(c) {
            count += 1;
        }
    }
    assert_eq!(25, count);
}

#[test]
fn named_whitespace_characters() {
    for c in [' ', '\t', '\n', '\u{B}', '\u{C}', '\r', '\u{85}', '\u{A0}', '\u{3000}'] {
        assert!(char_is_whitespace(c), "{:?}", c);
    }
    for c in ['a', '0', '+', '-', '\0', '\u{8}', '\u{E}', '\u{1F}', '\u{200B}', '\u{FEFF}'] {
        assert!(!char_is_whitespace(c), "{:?}", c);
    }
}

#[test]
fn chars_of_keeps_every_character_in_order() {
    assert_eq!(Vec::<char>::new(), chars_of(""));
    assert_eq!(vec!['+', ' ', 'a'], chars_of("+ a"));
    assert_eq!(
        vec!['c', 'a', 'f', '\u{e9}', ' ', '\u{1F600}', '\n'],
        chars_of("caf\u{e9} \u{1F600}\n")
    );
}

#[test]
fn word_bounds() {
    let chars = chars_of("  ab \tcde");
    assert_eq!(2, end_of_whitespace(&chars, 0));
    assert_eq!(2, end_of_whitespace(&chars, 2));
    assert_eq!(4, end_of_word(&chars, 2));
    assert_eq!(4, end_of_word(&chars, 3));
    assert_eq!(4, end_of_word(&chars, 4));
    assert_eq!(6, end_of_whitespace(&chars, 4));
    assert_eq!(9, end_of_word(&chars, 6));
    assert_eq!(9, end_of_whitespace(&chars, 9));
    assert_eq!(9, end_of_word(&chars, 9));
    let blank = chars_of(" \n ");
    assert_eq!(3, end_of_whitespace(&blank, 0));
    assert_eq!(0, end_of_word(&blank, 0));
    let none = chars_of("");
    assert_eq!(0, end_of_whitespace(&none, 0));
    assert_eq!(0, end_of_word(&none, 0));
}

#[test]
fn numerals() {
    let chars = chars_of("12+345x+");
    assert_eq!(Some(12), parse_numeral(&chars, 0, 2));
    assert_eq!(Some(1), parse_numeral(&chars, 0, 1));
    assert_eq!(Some(345), parse_numeral(&chars, 2, 6));
    assert_eq!(Some(345), parse_numeral(&chars, 3, 6));
    assert_eq!(Some(45), parse_numeral(&chars, 4, 6));
    assert_eq!(None, parse_numeral(&chars, 0, 3));
    assert_eq!(None, parse_numeral(&chars, 0, 4));
    assert_eq!(None, parse_numeral(&chars, 2, 3));
    assert_eq!(None, parse_numeral(&chars, 3, 7));
    assert_eq!(None, parse_numeral(&chars, 6, 7));
    assert_eq!(None, parse_numeral(&chars, 7, 8));
    assert_eq!(None, parse_numeral(&chars, 5, 5));
    assert_eq!(None, parse_numeral(&chars, 0, 0));
    assert_eq!(None, parse_numeral(&chars, 8, 8));
}

#[test]
fn numerals_at_the_limit() {
    let largest = chars_of(&format!("{}", usize::MAX));
    assert_eq!(Some(usize::MAX), parse_numeral(&largest, 0, largest.len()));
    let one_more = chars_of(&format!("{}", usize::MAX as u128 + 1));
    assert_eq!(None, parse_numeral(&one_more, 0, one_more.len()));
    let zeros_in_front = chars_of(&format!("+000000000000000000000000{}", usize::MAX));
    assert_eq!(Some(usize::MAX), parse_numeral(&zeros_in_front, 0, zeros_in_front.len()));
    let ten_times = chars_of(&format!("{}0", usize::MAX));
    assert_eq!(None, parse_numeral(&ten_times, 0, ten_times.len()));
    assert_eq!(Some(usize::MAX), parse_numeral(&ten_times, 0, ten_times.len() - 1));
}

#[test]
fn digits_of_numbers() {
    let numbers: [usize; 14] =
        [0, 1, 9, 10, 11, 19, 20, 99, 100, 101, 1000, 65535, 4294967295, usize::MAX];
    for n in numbers {
        let mut out = String::new();
        push_decimal(&mut out, n);
        assert_eq!(format!("{}", n), out);
    }
}

#[test]
fn digits_are_appended() {
    let mut out = String::from("n = ");
    push_decimal(&mut out, 42);
    assert_eq!("n = 42", out);
    push_decimal(&mut out, 0);
    push_decimal(&mut out, 7);
    assert_eq!("n = 4207", out);
}

#[test]
fn digits_read_back_give_the_number() {
    let numbers: [usize; 10] = [0, 1, 5, 10, 42, 100, 999, 1000, 123456789, usize::MAX];
    for n in numbers {
        let mut out = String::new();
        push_decimal(&mut out, n);
        let chars = chars_of(&out);
        assert_eq!(Some(n), parse_numeral(&chars, 0, chars.len()));
    }
}
