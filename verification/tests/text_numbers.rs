use purpy::error::Error;
use purpy::number::{parse_i32, parse_u64, parse_usize};
use purpy::text::{find_char, push_decimal, push_decimal_u64, split_on, trim};
use purpy::utils::{Color, Direction};

#[test]
fn parses_numbers_as_str_parse_does() {
    assert_eq!(parse_usize("42"), Some(42));
    assert_eq!(parse_usize("+7"), Some(7));
    assert_eq!(parse_usize(""), None);
    assert_eq!(parse_usize("4a"), None);
    assert_eq!(parse_u64("18446744073709551615"), Some(u64::MAX));
    assert_eq!(parse_u64("18446744073709551616"), None);
    assert_eq!(parse_i32("-2147483648"), Some(i32::MIN));
    assert_eq!(parse_i32("2147483648"), None);
    assert_eq!(parse_i32("-"), None);
    assert_eq!(parse_i32("-12"), Some(-12));
}

#[test]
fn splits_and_trims() {
    let parts = split_on("a,,b,", ',');
    assert_eq!(parts, vec!["a", "", "b", ""]);
    assert_eq!(trim("  x y \t\n"), "x y");
    assert_eq!(find_char("ab,c", ','), Some(2));
    assert_eq!(find_char("abc", ','), None);
}

#[test]
fn appends_decimal_digits() {
    let mut s = String::from("n=");
    push_decimal(&mut s, 0);
    push_decimal(&mut s, 1234);
    assert_eq!(s, "n=01234");
    let mut t = String::new();
    push_decimal_u64(&mut t, u64::MAX);
    assert_eq!(t, "18446744073709551615");
}

#[test]
fn parses_colors() {
    assert_eq!(Color::parse("#102030").unwrap(), Color { r: 0x10, g: 0x20, b: 0x30, a: 255 });
    assert_eq!(Color::parse("#80aBcDeF").unwrap(), Color { r: 0xab, g: 0xcd, b: 0xef, a: 0x80 });
    assert_eq!(Color::parse("102030"), Err(Error::InvalidColor("102030".to_string())));
    assert_eq!(Color::parse("#10203g"), Err(Error::InvalidColor("#10203g".to_string())));
}

#[test]
fn parses_compass_letters() {
    assert_eq!(Direction::parse("N").unwrap(), Direction::Up);
    assert_eq!(Direction::parse("S").unwrap(), Direction::Down);
    assert_eq!(Direction::parse("E").unwrap(), Direction::Right);
    assert_eq!(Direction::parse("W").unwrap(), Direction::Left);
    assert_eq!(Direction::parse("NE"), Err(Error::InvalidDirection("NE".to_string())));
}
