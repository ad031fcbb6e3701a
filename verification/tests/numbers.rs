use poker_log_parser::parsers::currency::{
    encode_char, extract_currency, find_currency, get_currency_iso, parse_currency_char,
    rfind_currency,
};
use poker_log_parser::parsers::fields::{find_cards, parse_cards, parse_seat_name};
use poker_log_parser::parsers::number::{
    extract_float, extract_integer, parse_float, parse_integer, str_to_float, str_to_integer,
    NumberError,
};
use poker_log_parser::pklp::{Card, Cards, Number, Span, SpanLike, Suit};

fn nm_float(n: Number) -> f32 {
    n.hundredths() as f32 / 100.0
}

#[test]
fn separator_aware_number() {
    let (n, len) = parse_float(b"1,234.56", true).unwrap();
    assert_eq!(Number(123456), n);
    assert_eq!(1234.56, nm_float(n));
    assert_eq!(8, len);
}

#[test]
fn plain_number_under_both_policies() {
    for comma in [false, true] {
        let (n, len) = parse_float(b"1.23", comma).unwrap();
        assert_eq!(Number(123), n);
        assert_eq!(1.23, nm_float(n));
        assert_eq!(4, len);
    }
}

#[test]
fn number_without_decimals() {
    for comma in [false, true] {
        let (n, len) = parse_float(b"2", comma).unwrap();
        assert_eq!(Number(200), n);
        assert_eq!(2.0, nm_float(n));
        assert_eq!(1, len);
    }
}

#[test]
fn strict_policy_stops_at_a_separator() {
    assert_eq!(Some((Number(100), 1)), parse_float(b"1,234.56", false));
    assert_eq!(Some((1, 1)), parse_integer(b"1,234", false));
    assert_eq!(Some((1234, 5)), parse_integer(b"1,234", true));
    assert_eq!(Some(1), extract_integer(b"1,234", false));
    assert_eq!(Some(5), extract_integer(b"1,234", true));
    assert_eq!(None, extract_integer(b"x1", true));
    assert_eq!(None, extract_integer(b"", false));
}

#[test]
fn number_ends_where_its_digits_end() {
    assert_eq!(Some(5), extract_float(b"12.34 and", false));
    assert_eq!(Some(2), extract_float(b"12. and", false));
    assert_eq!(Some(2), extract_float(b"12", false));
    assert_eq!(None, extract_float(b".5", false));
    assert_eq!(Some(2), extract_float(b".5", true));
    assert_eq!(None, extract_float(b".", true));
    assert_eq!(Some((Number(50), 2)), parse_float(b".5", true));
    assert_eq!(Some((Number(1234), 5)), parse_float(b"12.34)", false));
    // Decimals beyond the second are passed over.
    assert_eq!(Some((Number(123), 6)), parse_float(b"1.2345", false));
}

#[test]
fn integer_part_of_a_number() {
    assert_eq!(Ok(1234), str_to_integer(b"1,234.56"));
    assert_eq!(Ok(0), str_to_integer(b""));
    assert_eq!(Ok(0), str_to_integer(b".5"));
    assert_eq!(Ok(u64::MAX), str_to_integer(b"18446744073709551615"));
    assert_eq!(Err(NumberError::Overflow), str_to_integer(b"18446744073709551616"));
    assert_eq!(Err(NumberError::InvalidDigit), str_to_integer(b"12a"));
    assert_eq!(Err(NumberError::InvalidDigit), str_to_integer(b"18446744073709551616x"));
}

#[test]
fn amount_errors() {
    assert_eq!(Ok(Number(u32::MAX)), str_to_float(b"42949672.95"));
    assert_eq!(Err(NumberError::Overflow), str_to_float(b"42949672.96"));
    assert_eq!(Err(NumberError::Overflow), str_to_float(b"99999999999999999999999"));
    assert_eq!(Err(NumberError::InvalidDigit), str_to_float(b"1.x"));
    assert_eq!(Err(NumberError::InvalidDigit), str_to_float(b"1.2x"));
    assert_eq!(Err(NumberError::InvalidDigit), str_to_float(b"$1"));
    assert_eq!(Ok(Number(120)), str_to_float(b"1.2"));
    assert_eq!(Ok(Number(5)), str_to_float(b".05"));
}

#[test]
fn currency_symbols() {
    assert_eq!(Some(('$', 1)), parse_currency_char(b"$1"));
    assert_eq!(Some(('\u{a3}', 2)), parse_currency_char("\u{a3}1".as_bytes()));
    assert_eq!(Some(('\u{a5}', 2)), parse_currency_char("\u{a5}1".as_bytes()));
    assert_eq!(Some(('\u{20ac}', 3)), parse_currency_char("\u{20ac}1".as_bytes()));
    assert_eq!(Some(('\u{20b9}', 3)), parse_currency_char("\u{20b9}1".as_bytes()));
    assert_eq!(None, parse_currency_char(b"1$"));
    assert_eq!(None, parse_currency_char(b""));
    assert_eq!("USD", get_currency_iso('$'));
    assert_eq!("GBP", get_currency_iso('\u{a3}'));
    assert_eq!("JPY", get_currency_iso('\u{a5}'));
    assert_eq!("EUR", get_currency_iso('\u{20ac}'));
    assert_eq!("INR", get_currency_iso('\u{20b9}'));
}

#[test]
fn characters_are_written_as_utf8() {
    for c in ['$', 'a', '\u{7f}', '\u{80}', '\u{a3}', '\u{7ff}', '\u{800}', '\u{20ac}', '\u{ffff}',
        '\u{10000}', '\u{10ffff}']
    {
        let mut buf = [0u8; 4];
        assert_eq!(c.encode_utf8(&mut buf).as_bytes(), encode_char(c).as_slice());
    }
}

#[test]
fn amounts_after_a_symbol() {
    assert_eq!(Some((Number(123), (5, 10))), find_currency(b"bets $1.23 to $4", '$', false));
    assert_eq!(Some((Number(400), (14, 16))), rfind_currency(b"bets $1.23 to $4", '$', false));
    assert_eq!(None, find_currency(b"bets 1.23", '$', false));
    assert_eq!(None, find_currency(b"bets $x", '$', false));
    assert_eq!(None, rfind_currency(b"bets $1 to $", '$', false));
    let line = "wins \u{20ac}1,000.50 now".as_bytes();
    assert_eq!(Some((Number(100050), (5, 16))), find_currency(line, '\u{20ac}', true));
    assert_eq!(Some((Number(100050), (5, 16))), rfind_currency(line, '\u{20ac}', true));
    assert_eq!(Some((Number(100), (5, 9))), find_currency(line, '\u{20ac}', false));
    assert_eq!(Some((Number(4950), 7)), extract_currency(b"($49.50 in chips)", '$', 1, false));
    assert_eq!(None, extract_currency(b"($", '$', 1, false));
    assert_eq!(None, extract_currency(b"(", '$', 5, false));
}

#[test]
fn seat_lines() {
    let (seat, name, rest) = parse_seat_name(b"Seat 2: name ($1)").unwrap();
    assert_eq!(Span::range(5, 6), seat);
    assert_eq!(b"name", name);
    assert_eq!(14, rest);
    let (seat, name, rest) = parse_seat_name(b"Seat 10: a (b) c ($1)").unwrap();
    assert_eq!(Span::range(5, 7), seat);
    assert_eq!(b"a (b) c", name);
    assert_eq!(18, rest);
    assert_eq!(None, parse_seat_name(b"Seat 2: name"));
    assert_eq!(None, parse_seat_name(b"Seat 2"));
    assert_eq!(None, parse_seat_name(b"Seat 2: ("));
}

#[test]
fn lists_of_cards() {
    let mut two = Cards::default();
    two.push(Card::new(12, Suit::Heart));
    two.push(Card::new(10, Suit::Diamond));
    assert_eq!(Some(two), parse_cards(b"Qh Td"));
    assert_eq!(None, parse_cards(b""));
    assert_eq!(None, parse_cards(b"Qh  Td"));
    assert_eq!(None, parse_cards(b"Qh Xd"));
    assert_eq!(None, parse_cards(b"2c 3c 4c 5c 6c 7c"));
    assert_eq!(5, parse_cards(b"2c 3c 4c 5c 6c").unwrap().len());

    assert_eq!(Some((two, (8, 14))), find_cards(b"showed [Qh Td] and won"));
    assert_eq!(Some((Cards::default(), (0, 0))), find_cards(b"no cards here"));
    assert_eq!(Some((Cards::default(), (0, 0))), find_cards(b"open [Qh"));
    assert_eq!(None, find_cards(b"bad [xx]"));
}
