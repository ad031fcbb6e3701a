use poker_log_parser::parsers::fields::parse_cards;
use poker_log_parser::parsers::number::str_to_float;
use poker_log_parser::pklp::{Card, Cards, Number};

fn pr_cards(list: &[&str]) -> Cards {
    let mut c = Cards::default();
    for card in list {
        c.push(Card::parse(card.as_bytes()).unwrap());
    }
    c
}

fn pr_amount(n: Number) -> f32 {
    n.hundredths() as f32 / 100.0
}

#[test]
fn test_parse_cards() {
    assert_eq!(Some(pr_cards(&["As"])), parse_cards(b"As"));
    assert_eq!(Some(pr_cards(&["As", "As"])), parse_cards(b"As As"));
    assert_eq!(Some(pr_cards(&["As", "As"])), parse_cards(b"As, As"));
    assert_eq!(Some(pr_cards(&["As", "Ad", "Ah", "Ac"])), parse_cards(b"As Ad Ah Ac"));
    assert_eq!(Some(pr_cards(&["2s"])), parse_cards(b"2s"));
    assert_eq!(Some(pr_cards(&["3s"])), parse_cards(b"3s"));
    assert_eq!(Some(pr_cards(&["4s"])), parse_cards(b"4s"));
    assert_eq!(Some(pr_cards(&["5s"])), parse_cards(b"5s"));
    assert_eq!(Some(pr_cards(&["6s"])), parse_cards(b"6s"));
    assert_eq!(Some(pr_cards(&["7s"])), parse_cards(b"7s"));
    assert_eq!(Some(pr_cards(&["8s"])), parse_cards(b"8s"));
    assert_eq!(Some(pr_cards(&["9s"])), parse_cards(b"9s"));
    assert_eq!(Some(pr_cards(&["Ts"])), parse_cards(b"Ts"));
    assert_eq!(Some(pr_cards(&["Js"])), parse_cards(b"Js"));
    assert_eq!(Some(pr_cards(&["Qs"])), parse_cards(b"Qs"));
    assert_eq!(Some(pr_cards(&["Ks"])), parse_cards(b"Ks"));
}

#[test]
fn test_str_to_float() {
    assert_eq!(Ok(1.0), str_to_float(b"1").map(pr_amount));
    assert_eq!(Ok(1.2), str_to_float(b"1.2").map(pr_amount));
    assert_eq!(Ok(1.23), str_to_float(b"1.23").map(pr_amount));
    assert_eq!(Ok(10.23), str_to_float(b"10.23").map(pr_amount));
    assert_eq!(Ok(100.23), str_to_float(b"100.23").map(pr_amount));
    assert_eq!(Ok(1000.23), str_to_float(b"1000.23").map(pr_amount));
    assert_eq!(Ok(1000.23), str_to_float(b"1,000.23").map(pr_amount));
}
