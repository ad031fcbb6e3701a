use poker_log_parser::parsers::dialects::{
    ParseActionList, ParseActionStreet, ParsePreFlop, ParseStreets,
};
use poker_log_parser::parsers::parser::Parser;
use poker_log_parser::parsers::OnGame;
use poker_log_parser::pklp::{
    Action, ActionData, ActionSpan, ActionType, Card, Cards, FlopSpan, HandVec, Number, RiverSpan,
    ShowdownSpan, SpanLike, Street, TurnSpan,
};

fn og_cards(list: &[&str]) -> Cards {
    let mut c = Cards::default();
    for card in list {
        c.push(Card::parse(card.as_bytes()).unwrap());
    }
    c
}

fn og_parser(src: &str) -> Parser<'_> {
    let mut p = Parser::new(src.as_bytes(), HandVec::default());
    p.add_player(b"a: d", 0, Number(0)).unwrap();
    p.add_player(b"efgh", 1, Number(0)).unwrap();
    p
}

fn og_street_action(src: &str) -> Action {
    let mut p = og_parser(src);
    OnGame::parse_action_street(&mut p, '$').unwrap()
}

fn og_streets(src: &str) -> ((FlopSpan, TurnSpan, RiverSpan, ShowdownSpan), HandVec) {
    let mut p = og_parser(src);
    let r = OnGame::parse_streets(&mut p, '$').unwrap();
    (r, p.hands)
}

#[test]
fn header_blinds() {
    let mut p = og_parser("a: d posts small blind ($1.23)\n---");
    let r = OnGame::parse_action_list_header(&mut p, '$').unwrap();
    assert_eq!(r, ActionSpan::new(0, 1));
    assert_eq!(
        p.hands.actions[0],
        Action::new(ActionType::SmallBlind, 0, ActionData::new_num(Number(123)))
    );

    let mut p = og_parser("a: d posts big blind ($1.23)\n---");
    let r = OnGame::parse_action_list_header(&mut p, '$').unwrap();
    assert_eq!(r, ActionSpan::new(0, 1));
    assert_eq!(
        p.hands.actions[0],
        Action::new(ActionType::BigBlind, 0, ActionData::new_num(Number(123)))
    );
}

#[test]
fn ongame_preflop() {
    let src = "---\nDealing pocket cards\n\
        a: d folds\n\
        --- Dealing flop [Qh, Qh, Qh]";
    let mut p = Parser::new(src.as_bytes(), HandVec::default());
    let r = OnGame::parse_preflop(&mut p, '$').unwrap();
    assert_eq!(r, Street { cards: Cards::default(), id: 0, actions: ActionSpan::new(0, 1) });
}

#[test]
fn ongame_street_flop() {
    let (spans, r) = og_streets("--- Dealing flop [Qh Td As]\n\
        a: d folds\n\
        ---");
    assert_eq!(
        spans,
        (FlopSpan::new(0, 1), TurnSpan::default(), RiverSpan::default(), ShowdownSpan::default())
    );
    assert_eq!(og_cards(&["Qh", "Td", "As"]), r.flops[0].cards);
    assert_eq!(ActionType::Fold, r.actions[0].kind);
}

#[test]
fn ongame_street_turn() {
    let (spans, r) = og_streets("--- Dealing turn [5c]\n\
        a: d folds\n\
        ---");
    assert_eq!(
        spans,
        (FlopSpan::default(), TurnSpan::new(0, 1), RiverSpan::default(), ShowdownSpan::default())
    );
    assert_eq!(og_cards(&["5c"]), r.turns[0].cards);
    assert_eq!(ActionType::Fold, r.actions[0].kind);
}

#[test]
fn ongame_street_river() {
    let (spans, r) = og_streets("--- Dealing river [6c]\n\
        a: d folds\n\
        ---");
    assert_eq!(
        spans,
        (FlopSpan::default(), TurnSpan::default(), RiverSpan::new(0, 1), ShowdownSpan::default())
    );
    assert_eq!(og_cards(&["6c"]), r.rivers[0].cards);
    assert_eq!(ActionType::Fold, r.actions[0].kind);
}

#[test]
fn action_fold_check() {
    assert_eq!(og_street_action("a: d folds"), Action::no_data(ActionType::Fold, 0));
    assert_eq!(og_street_action("a: d checks"), Action::no_data(ActionType::Check, 0));
}

#[test]
fn ongame_action_bet_call() {
    assert_eq!(
        og_street_action("a: d bets $1,234.56"),
        Action::new(ActionType::Bet, 0, ActionData::new_num(Number(123456)))
    );
    assert_eq!(
        og_street_action("a: d bets $1,234.56 [all in]"),
        Action::new(ActionType::BetAllIn, 0, ActionData::new_num(Number(123456)))
    );
    assert_eq!(
        og_street_action("a: d calls $1,234.56"),
        Action::new(ActionType::Call, 0, ActionData::new_num(Number(123456)))
    );
    assert_eq!(
        og_street_action("a: d calls $1,234.56 [all in]"),
        Action::new(ActionType::CallAllIn, 0, ActionData::new_num(Number(123456)))
    );
}

#[test]
fn ongame_action_raise() {
    assert_eq!(
        og_street_action("a: d raises $1,234.56 to $5,678.9"),
        Action::new(ActionType::Raise, 0, ActionData::new_num(Number(123456)))
    );
    assert_eq!(
        og_street_action("a: d raises $1,234.56 to $5,678.9 [all in]"),
        Action::new(ActionType::RaiseAllIn, 0, ActionData::new_num(Number(123456)))
    );
}
