use poker_log_parser::api::{parse_string, parse_string_into, ParseError};
use poker_log_parser::parsers::detect_site;
use poker_log_parser::pklp::{HandVec, PokerSite};

#[test]
fn unrecognized_first_line_is_reported() {
    let e = detect_site("Some other site, hand 12\nnext line\n").unwrap_err();
    assert_eq!(b"Some other site, hand 12".to_vec(), e.line);
    assert_eq!(b"Invalid poker website - 'Some other site, hand 12'".to_vec(), e.message());
}

#[test]
fn unrecognized_text_is_reported_by_its_first_line() {
    assert_eq!(b"what".to_vec(), detect_site("  \n\t what\r\nis this\r\n").unwrap_err().line);
    assert_eq!(b"what\r".to_vec(), detect_site("what\r").unwrap_err().line);
    assert_eq!(b"x".to_vec(), detect_site("x\n").unwrap_err().line);
    let e = detect_site("").unwrap_err();
    assert_eq!(b"@@@".to_vec(), e.line);
    assert_eq!(b"Invalid poker website - '@@@'".to_vec(), e.message());
    assert_eq!(b"@@@".to_vec(), detect_site(" \n \n").unwrap_err().line);
}

#[test]
fn sites_are_told_by_how_a_text_begins() {
    for (text, site) in [
        ("PokerStars Hand #1: x\nTable 'Acamar V' 6-max\n", PokerSite::PokerStars),
        ("PokerStars Hand #1: x\nTable 'Pluribus Session 10' 6-max\n", PokerSite::PokerStarsPluribus),
        ("PokerStars Hand #1: x", PokerSite::PokerStars),
        ("PokerStars Hand #1: x\n", PokerSite::PokerStars),
        ("\n\n  PokerStars Zoom Hand #1: x\r\nTable 'Pluribus'\r\n", PokerSite::PokerStarsPluribus),
        ("PokerStars Hand #1: x\n\nTable 'Pluribus'\n", PokerSite::PokerStars),
        ("***** History for hand R5-1-2 *****\n", PokerSite::OnGame),
        ("BetOnline Poker Game #1", PokerSite::BetOnline),
        ("Bodog Hand #1", PokerSite::Bovada),
        ("Full Tilt Poker Game #1", PokerSite::FullTiltPoker),
        ("Everleaf Gaming Game #1", PokerSite::EverLeaf),
        ("Winamax Poker - CashGame", PokerSite::Winamax),
        ("Stage #1: Holdem", PokerSite::Absolute),
        ("#Game No : 1", PokerSite::PacificPoker),
        ("Poker Hand #1: Hold'em", PokerSite::GGPoker),
        ("MERGE_GAME #1", PokerSite::PokerTracker),
        ("Hand#1 - ", PokerSite::Cake),
        ("Table #1 - ", PokerSite::Pkr),
        ("Game started at: 2020", PokerSite::Winning),
        ("#12: Hold'em", PokerSite::KingsClub),
        ("Game #1 starts.\nsecond", PokerSite::PartyPoker),
        ("Game #1 starts.\r\nsecond", PokerSite::PartyPoker),
        ("Game #1 starts. \nsecond", PokerSite::Enet),
        ("Game #1: Holdem", PokerSite::Enet),
    ] {
        assert_eq!(Ok(site), detect_site(text), "{}", text);
    }
    assert!(detect_site("#x").is_err());
    assert!(detect_site("#").is_err());
    assert!(detect_site("Pokerstars Hand").is_err());
}

#[test]
fn a_text_that_is_not_read_is_reported() {
    let e = parse_string("nothing known\nat all").unwrap_err();
    match e {
        ParseError::UnrecognizedFormat(u) => assert_eq!(b"nothing known".to_vec(), u.line),
        other => panic!("{:?}", other),
    }
    assert_eq!(
        Err(ParseError::NotImplemented(PokerSite::Winamax)),
        parse_string("Winamax Poker - CashGame")
    );
    let mut hands = HandVec::default();
    hands.push_str(b"kept");
    let before = hands.clone();
    assert!(parse_string_into("Bodog Hand #1", &mut hands).is_err());
    assert_eq!(before, hands);
}
