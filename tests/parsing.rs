use rustominoes::game::Move;
use rustominoes::text::{parse_decimal, split_words};

#[test]
fn two_word_form_takes_the_given_seat() {
    assert_eq!(Move::parse_move("left 3", 2), Some(Move::Left(2, 3)));
    assert_eq!(Move::parse_move("  right\t0\n", 1), Some(Move::Right(1, 0)));
    assert_eq!(Move::parse_move("left 1 2", 0), None);
    assert_eq!(Move::parse_move("up 1", 0), None);
    assert_eq!(Move::parse_move("Left 1", 0), None);
    assert_eq!(Move::parse_move("left -1", 0), None);
    assert_eq!(Move::parse_move("left", 0), None);
    assert_eq!(Move::parse_move("", 0), None);
}

#[test]
fn three_word_form() {
    assert_eq!(Move::parse("right 3 4"), Some(Move::Right(3, 4)));
    assert_eq!(Move::parse("left +1 2"), Some(Move::Left(1, 2)));
    assert_eq!(Move::parse("left 1"), None);
    assert_eq!(Move::parse("left x 1"), None);
    assert_eq!(Move::parse("left 1 2 3"), None);
    assert_eq!(Move::parse("lef t 1 2"), None);
    assert_eq!(Move::parse("left\u{3000}1\u{a0}2"), Some(Move::Left(1, 2)));
}

#[test]
fn numbers_follow_the_standard_reading() {
    let w = |s: &str| s.chars().collect::<Vec<char>>();
    assert_eq!(parse_decimal(&w("0")), Some(0));
    assert_eq!(parse_decimal(&w("+42")), Some(42));
    assert_eq!(parse_decimal(&w("+")), None);
    assert_eq!(parse_decimal(&w("")), None);
    assert_eq!(parse_decimal(&w("12a")), None);
    assert_eq!(parse_decimal(&w("18446744073709551615")), Some(usize::MAX));
    assert_eq!(parse_decimal(&w("18446744073709551616")), None);
    assert_eq!(parse_decimal(&w("99999999999999999999x")), None);
    for s in ["7", "+7", "007", "-7", "7-", "123456789"] {
        assert_eq!(parse_decimal(&w(s)), s.parse::<usize>().ok(), "{}", s);
    }
}

#[test]
fn words_split_like_the_standard_library() {
    for s in ["a b", "  a\t\tbc \n", "", "   ", "x\u{2003}y\u{85}z", "one"] {
        let ours: Vec<String> = split_words(s).into_iter().map(|w| w.into_iter().collect()).collect();
        let std: Vec<String> = s.split_whitespace().map(|w| w.to_string()).collect();
        assert_eq!(ours, std, "{:?}", s);
    }
}
