use poker_log_parser::parsers::dialects::{
    Parse, ParseAction, ParseActionHeader, ParseActionStreet, ParseHeader, ParsePreFlop,
    ParseStreets, ParseSummary, ParseSummaryPokerStars,
};
use poker_log_parser::parsers::parser::Parser;
use poker_log_parser::parsers::{PokerStars, PokerStarsPluribus};
use poker_log_parser::pklp::{
    Action, ActionData, ActionSpan, ActionType, BetType, Card, Cards, DateTime, FlopSpan, GameType,
    HandVec, Header, Number, Player, PokerSite, PotInfo, RiverSpan, ShowdownSpan, Span, SpanLike,
    Street, Summary, TurnSpan, Winner, WinnerSpan, SEAT_AFTER_DEALER, SEAT_INITIAL, SEAT_NONE,
};

fn ps_cards(list: &[&str]) -> Cards {
    let mut c = Cards::default();
    for card in list {
        c.push(Card::parse(card.as_bytes()).unwrap());
    }
    c
}

fn ps_parser(src: &str) -> Parser<'_> {
    Parser::new(src.as_bytes(), HandVec::default())
}

fn ps_parser_seated(src: &str) -> Parser<'_> {
    let mut p = ps_parser(src);
    p.add_player(b"a: d", 0, Number(0)).unwrap();
    p.add_player(b"efgh", 1, Number(0)).unwrap();
    p
}

fn ps_street_action<T: ParseActionStreet>(src: &str) -> (Action, HandVec) {
    let mut p = ps_parser_seated(src);
    let r = T::parse_action_street(&mut p, '$').unwrap();
    (r, p.hands)
}

fn ps_header_action<T: ParseActionHeader>(src: &str) -> (Action, HandVec) {
    let mut p = ps_parser_seated(src);
    let r = T::parse_action_header(&mut p, '$').unwrap();
    (r, p.hands)
}

fn ps_summary<T: ParseSummary>(src: &str) -> (Summary, HandVec) {
    let mut p = ps_parser_seated(src);
    let r = T::parse_summary(&mut p, '$').unwrap();
    (r, p.hands)
}

fn ps_results<T: ParseSummaryPokerStars>(src: &str) -> ((ActionSpan, WinnerSpan), HandVec) {
    let mut p = ps_parser_seated(src);
    let r = T::parse_summary_actions_winners(&mut p, '$').unwrap();
    (r, p.hands)
}

fn ps_streets<T: ParseStreets>(
    src: &str,
) -> ((FlopSpan, TurnSpan, RiverSpan, ShowdownSpan), HandVec) {
    let mut p = ps_parser(src);
    let r = T::parse_streets(&mut p, '$').unwrap();
    (r, p.hands)
}

//region Header

#[test]
fn parse_header() {
    let src = "PokerStars Hand #123456789:  Hold'em No Limit ($0.25/$0.50 USD) - 2020/02/08 4:01:19 ET\n\
        Table 'Acamar V' 6-max Seat #3 is the button\n\
        Seat 1: a: d ($49.50 in chips)\n\
        Seat 2: e: h ($50 in chips)\n\
        Seat 3: i: l ($50.50 in chips)\n\
        a: d: posts small blind $0.25\n\
        e: h: posts big blind $0.50\n\
        *** HOLE CARDS ***\n";
    let mut p = ps_parser(src);
    assert_eq!(
        PokerStars::parse_header(&mut p).unwrap(),
        Header {
            site: PokerSite::PokerStars,
            game_type: GameType::HoldEm,
            bet_type: BetType::NoLimit,
            max_players: 6,
            dealer: 2,
            hero: SEAT_NONE,
            small_blind: Number(25),
            big_blind: Number(50),
            currency: '$',
            start_date: DateTime::new(2020, 2, 8, 4, 1, 19),
            actions: ActionSpan::new(0, 2),
            id: Span::new(0, 9),
            table_name: Span::new(9, 8),
            ..Default::default()
        },
    );
    assert_eq!(p.hands.src, b"123456789Acamar Va: de: hi: l".to_vec());
    assert_eq!(3, p.hands.players.len());
    assert_eq!(p.hands.players[0], Player { name: Span::new(17, 4), chips: Number(4950), seat: 1 });
    assert_eq!(p.hands.players[1], Player { name: Span::new(21, 4), chips: Number(5000), seat: 2 });
    assert_eq!(p.hands.players[2], Player { name: Span::new(25, 4), chips: Number(5050), seat: 3 });
}

fn ps_header_game_type(game_type: GameType, bet_type: BetType, game_type_str: &str) {
    let src = format!(
        "{}{}{}{}{}{}{}{}{}",
        "PokerStars Hand #123456789:  ",
        game_type_str,
        " ($0.25/$0.50 USD) - 2020/02/08 4:01:19 ET\n",
        "Table 'Acamar V' 6-max Seat #3 is the button\n",
        "Seat 1: a: d ($49.50 in chips)\n",
        "Seat 2: e: h ($50 in chips)\n",
        "a: d: posts small blind $0.25\n",
        "e: h: posts big blind $0.50\n",
        "*** HOLE CARDS ***\n",
    );
    let mut p = ps_parser(&src);
    let h = PokerStars::parse_header(&mut p).unwrap();
    assert_eq!(game_type, h.game_type);
    assert_eq!(bet_type, h.bet_type);
}

#[test]
fn parse_header_game_type() {
    ps_header_game_type(GameType::HoldEm, BetType::NoLimit, "Hold'em No Limit");
    ps_header_game_type(GameType::HoldEm, BetType::Limit, "Hold'em Limit");
    ps_header_game_type(GameType::HoldEm, BetType::PotLimit, "Hold'em Pot Limit");
    ps_header_game_type(GameType::Omaha, BetType::NoLimit, "Omaha No Limit");
    ps_header_game_type(GameType::Omaha, BetType::PotLimit, "Omaha Pot Limit");
    ps_header_game_type(GameType::OmahaHiLo, BetType::NoLimit, "Omaha Hi/Lo No Limit");
    ps_header_game_type(GameType::OmahaHiLo, BetType::PotLimit, "Omaha Hi/Lo Pot Limit");
}

#[test]
fn parse_header_bet_cap() {
    let mut p = ps_parser("PokerStars Hand #123456789:  Hold'em No Limit ($0.25/$0.50 - $20 Cap -  USD) - 2020/02/08 4:01:19 ET\n\
        Table 'Acamar V' 6-max Seat #3 is the button\n\
        Seat 1: a: d ($49.50 in chips)\n\
        Seat 2: e: h ($50 in chips)\n\
        a: d: posts small blind $0.25\n\
        e: h: posts big blind $0.50\n\
        *** HOLE CARDS ***\n");
    let h = PokerStars::parse_header(&mut p).unwrap();
    assert_eq!(Number(2000), h.bet_cap);
}

//endregion

//region PreFlop

#[test]
fn pokerstars_preflop() {
    let mut p = ps_parser_seated("*** HOLE CARDS ***\n\
        a: d: folds\n\
        *** FLOP *** [Qh Qh Qh]");
    let r = PokerStars::parse_preflop(&mut p, '$').unwrap();
    assert_eq!(r, Street { cards: Cards::default(), id: 0, actions: ActionSpan::new(0, 1) });

    let mut p = ps_parser_seated("*** HOLE CARDS ***\n\
        Dealt to a: d [Qh Td]\n\
        a: d: folds\n\
        *** FLOP *** [Qh Qh Qh]");
    let r = PokerStarsPluribus::parse_preflop(&mut p, '$').unwrap();
    assert_eq!(r, Street { cards: Cards::default(), id: 0, actions: ActionSpan::new(0, 2) });
    let r = &p.hands;
    assert_eq!(Action::new(ActionType::Dealt, 0, ActionData::new_handle(0)), r.actions[0]);
    assert_eq!(Action::no_data(ActionType::Fold, 0), r.actions[1]);
    assert_eq!(ps_cards(&["Qh", "Td"]), r.cards[0]);
}

//endregion

//region Streets

fn ps_street_flop<T: Parse>() {
    let (spans, r) = ps_streets::<T>("*** FLOP *** [Qh Td As]\n\
        a: d: folds\n\
        *** SUMMARY ***");
    assert_eq!(
        spans,
        (FlopSpan::new(0, 1), TurnSpan::default(), RiverSpan::default(), ShowdownSpan::default())
    );
    assert_eq!(ps_cards(&["Qh", "Td", "As"]), r.flops[0].cards);
    assert_eq!(ActionType::Fold, r.actions[0].kind);
}

fn ps_street_turn<T: Parse>() {
    let (spans, r) = ps_streets::<T>("*** TURN *** [Qh Td As] [5c]\n\
        a: d: folds\n\
        *** SUMMARY ***");
    assert_eq!(
        spans,
        (FlopSpan::default(), TurnSpan::new(0, 1), RiverSpan::default(), ShowdownSpan::default())
    );
    assert_eq!(ps_cards(&["5c"]), r.turns[0].cards);
    assert_eq!(ActionType::Fold, r.actions[0].kind);
}

fn ps_street_river<T: Parse>() {
    let (spans, r) = ps_streets::<T>("*** RIVER *** [Qh Td As 5c] [6c]\n\
        a: d: folds\n\
        *** SUMMARY ***");
    assert_eq!(
        spans,
        (FlopSpan::default(), TurnSpan::default(), RiverSpan::new(0, 1), ShowdownSpan::default())
    );
    assert_eq!(ps_cards(&["6c"]), r.rivers[0].cards);
    assert_eq!(ActionType::Fold, r.actions[0].kind);
}

fn ps_street_showdown<T: Parse>() {
    let (spans, r) = ps_streets::<T>("*** SHOW DOWN ***\n\
        a: d: folds\n\
        *** SUMMARY ***");
    assert_eq!(
        spans,
        (FlopSpan::default(), TurnSpan::default(), RiverSpan::default(), ShowdownSpan::new(0, 1))
    );
    assert_eq!(Cards::default(), r.showdowns[0].cards);
    assert_eq!(ActionType::Fold, r.actions[0].kind);
}

#[test]
fn pokerstars_street_flop() {
    ps_street_flop::<PokerStars>();
    ps_street_flop::<PokerStarsPluribus>();
}

#[test]
fn pokerstars_street_turn() {
    ps_street_turn::<PokerStars>();
    ps_street_turn::<PokerStarsPluribus>();
}

#[test]
fn pokerstars_street_river() {
    ps_street_river::<PokerStars>();
    ps_street_river::<PokerStarsPluribus>();
}

#[test]
fn street_showdown() {
    ps_street_showdown::<PokerStars>();
    ps_street_showdown::<PokerStarsPluribus>();
}

//endregion

//region Summary

fn ps_pot(total: u32, rake: u32, main: u32, side: [u32; 3]) -> PotInfo {
    PotInfo {
        total: Number(total),
        rake: Number(rake),
        main: Number(main),
        side: [Number(side[0]), Number(side[1]), Number(side[2])],
    }
}

fn ps_summary_of_pots(total: u32, main: u32, side: u32, rake: u32) -> Summary {
    Summary {
        pot: ps_pot(total, rake, main, [side, 0, 0]),
        winners: WinnerSpan::default(),
        actions: ActionSpan::new(0, 1),
    }
}

fn ps_summary_pots<T: Parse>() {
    let (r, _) = ps_summary::<T>("*** SUMMARY ***\n\
        Total pot $1.23 | Rake $0.15\n\
        Seat 1: a: d folded on the Flop\n");
    assert_eq!(r, ps_summary_of_pots(123, 123, 0, 15));

    let (r, _) = ps_summary::<T>("*** SUMMARY ***\n\
        Total pot $1.23 | Rake 0\n\
        Seat 1: a: d folded on the Flop\n");
    assert_eq!(r, ps_summary_of_pots(123, 123, 0, 0));

    let (r, _) = ps_summary::<T>("*** SUMMARY ***\n\
        Total pot $1.23 | \n\
        Seat 1: a: d folded on the Flop\n");
    assert_eq!(r, ps_summary_of_pots(123, 123, 0, 0));

    let (r, _) = ps_summary::<T>("*** SUMMARY ***\n\
        Total pot $1.23 | Main pot $1.00. Side pot $0.23. | \n\
        Seat 1: a: d folded on the Flop\n");
    assert_eq!(r, ps_summary_of_pots(123, 100, 23, 0));

    let (r, _) = ps_summary::<T>("*** SUMMARY ***\n\
        Total pot $1.23 | Main pot $1.00. Side pot-1 $0.12. Side pot-2 $0.11. | \n\
        Seat 1: a: d folded on the Flop\n");
    assert_eq!(
        r,
        Summary {
            pot: ps_pot(123, 0, 100, [12, 11, 0]),
            winners: WinnerSpan::default(),
            actions: ActionSpan::new(0, 1)
        }
    );
}

fn ps_summary_boards<T: Parse>() {
    let (r, _) = ps_summary::<T>("*** SUMMARY ***\n\
        Total pot $1.23 | Rake $0.15\n\
        Board [Qh Td Jc]\n\
        Seat 1: a: d folded on the Flop\n");
    assert_eq!(
        r,
        Summary {
            pot: ps_pot(123, 15, 123, [0, 0, 0]),
            winners: WinnerSpan::default(),
            actions: ActionSpan::new(0, 1)
        }
    );

    let (r, _) = ps_summary::<T>("*** SUMMARY ***\n\
        Total pot $1.23 | Rake $0.15\n\
        Hand was run twice\n\
        FIRST Board [Qh Td Jc]\n\
        SECOND Board [Jc Td Qh]\n\
        Seat 1: a: d folded on the Flop\n");
    assert_eq!(
        r,
        Summary {
            pot: ps_pot(123, 15, 123, [0, 0, 0]),
            winners: WinnerSpan::default(),
            actions: ActionSpan::new(0, 1)
        }
    );
}

fn ps_summary_winners<T: Parse>() {
    let (s, r) = ps_summary::<T>("*** SUMMARY ***\n\
        Total pot $1.23 | Rake $0.15\n\
        Board [2c Th 7d]\n\
        Seat 1: a: d folded before Flop (didn't bet)\n\
        Seat 2: efgh collected ($9.26)\n");
    assert_eq!(
        s,
        Summary {
            pot: ps_pot(123, 15, 123, [0, 0, 0]),
            winners: WinnerSpan::new(0, 1),
            actions: ActionSpan::new(0, 2)
        }
    );
    assert_eq!(b"efgh", r.text_of(Span::new(4, 4)));
    assert_eq!(Winner { player_id: 1, amount: Number(926), game_id: 0 }, r.winners[0]);

    let (s, r) = ps_summary::<T>("*** SUMMARY ***\n\
        Total pot $1.23 | Rake $0.15\n\
        Board [2c Th 7d]\n\
        Seat 1: a: d folded before Flop (didn't bet)\n\
        Seat 2: efgh showed [Qh Qd] and won ($9.26) with a pair of Queens\n");
    assert_eq!(
        s,
        Summary {
            pot: ps_pot(123, 15, 123, [0, 0, 0]),
            winners: WinnerSpan::new(0, 1),
            actions: ActionSpan::new(0, 2)
        }
    );
    assert_eq!(b"efgh", r.text_of(Span::new(4, 4)));
    assert_eq!(Winner { player_id: 1, amount: Number(926), game_id: 0 }, r.winners[0]);

    let (s, r) = ps_summary::<T>("*** SUMMARY ***\n\
        Total pot $1.23 | Rake $0.15\n\
        Board [2c Th 7d]\n\
        Seat 1: a: d showed [Jh Jd] and lost with a pair of Jacks\n\
        Seat 2: efgh showed [Qh Qd] and won ($9.26) with a pair of Queens\n");
    assert_eq!(
        s,
        Summary {
            pot: ps_pot(123, 15, 123, [0, 0, 0]),
            winners: WinnerSpan::new(0, 1),
            actions: ActionSpan::new(0, 2)
        }
    );
    assert_eq!(b"efgh", r.text_of(Span::new(4, 4)));
    assert_eq!(Winner { player_id: 1, amount: Number(926), game_id: 0 }, r.winners[0]);

    let (s, r) = ps_summary::<T>("*** SUMMARY ***\n\
        Total pot $1.23 | Rake $0.15\n\
        FIRST Board [2c Th 7d]\n\
        SECOND Board [2c Th 7d]\n\
        Seat 1: a: d showed [Jh Jd] and lost with a pair of Jacks, and won ($9.26) with a pair of Jacks\n\
        Seat 2: efgh showed [Qh Qd] and won ($9.36) with a pair of Queens, and lost with a pair of Queens\n");
    assert_eq!(
        s,
        Summary {
            pot: ps_pot(123, 15, 123, [0, 0, 0]),
            winners: WinnerSpan::new(0, 2),
            actions: ActionSpan::new(0, 2)
        }
    );
    assert_eq!(b"a: d", r.text_of(Span::new(0, 4)));
    assert_eq!(b"efgh", r.text_of(Span::new(4, 4)));
    assert_eq!(Winner { player_id: 0, amount: Number(926), game_id: 1 }, r.winners[0]);
    assert_eq!(Winner { player_id: 1, amount: Number(936), game_id: 0 }, r.winners[1]);
}

fn ps_summary_actions<T: ParseSummaryPokerStars>() {
    let (spans, r) = ps_results::<T>("Seat 1: a: d mucked\n");
    assert_eq!(spans, (ActionSpan::new(0, 1), WinnerSpan::new(0, 0)));
    assert_eq!(Action::no_data(ActionType::Muck, 0), r.actions[0]);

    let (spans, r) = ps_results::<T>("Seat 1: a: d mucked [8s 8h]\n");
    assert_eq!(spans, (ActionSpan::new(0, 1), WinnerSpan::new(0, 0)));
    assert_eq!(Action::new(ActionType::Muck, 0, ActionData::new_handle(0)), r.actions[0]);
    assert_eq!(ps_cards(&["8s", "8h"]), r.cards[0]);

    let (spans, r) = ps_results::<T>("Seat 1: a: d folded before Flop (didn't bet)\n");
    assert_eq!(spans, (ActionSpan::new(0, 1), WinnerSpan::new(0, 0)));
    assert_eq!(Action::no_data(ActionType::Fold, 0), r.actions[0]);

    let (spans, r) = ps_results::<T>(
        "Seat 1: a: d showed [Kh Kc] and won ($51.40) with two pair, Kings and Fours\n",
    );
    assert_eq!(spans, (ActionSpan::new(0, 1), WinnerSpan::new(0, 1)));
    assert_eq!(Action::new(ActionType::Show, 0, ActionData::new_handle(0)), r.actions[0]);
    assert_eq!(ps_cards(&["Kh", "Kc"]), r.cards[0]);
}

#[test]
fn summary_pots() {
    ps_summary_pots::<PokerStars>();
    ps_summary_pots::<PokerStarsPluribus>();
}

#[test]
fn summary_boards() {
    ps_summary_boards::<PokerStars>();
    ps_summary_boards::<PokerStarsPluribus>();
}

#[test]
fn summary_winners() {
    ps_summary_winners::<PokerStars>();
    ps_summary_winners::<PokerStarsPluribus>();

    let (s, r) = ps_summary::<PokerStars>("*** SUMMARY ***\n\
        Total pot $1.23 | Rake $0.15\n\
        Board [2c Th 7d]\n\
        Seat 1: a: d folded before Flop (didn't bet)\n\
        Seat 2: efgh (big blind) collected ($9.26)\n");
    assert_eq!(
        s,
        Summary {
            pot: ps_pot(123, 15, 123, [0, 0, 0]),
            winners: WinnerSpan::new(0, 1),
            actions: ActionSpan::new(0, 2)
        }
    );
    assert_eq!(b"efgh", r.text_of(Span::new(4, 4)));
    assert_eq!(Winner { player_id: 1, amount: Number(926), game_id: 0 }, r.winners[0]);
}

#[test]
fn summary_actions() {
    ps_summary_actions::<PokerStars>();
    ps_summary_actions::<PokerStarsPluribus>();

    for src in [
        "Seat 1: a: d (button) mucked\n",
        "Seat 1: a: d (big blind) mucked\n",
        "Seat 1: a: d (small blind) mucked\n",
        "Seat 1: a: d (button blind) mucked\n",
    ] {
        let (spans, r) = ps_results::<PokerStars>(src);
        assert_eq!(spans, (ActionSpan::new(0, 1), WinnerSpan::new(0, 0)));
        assert_eq!(Action::no_data(ActionType::Muck, 0), r.actions[0]);
    }
}

//endregion

//region Action

fn ps_action_check<T: ParseAction>() {
    assert_eq!(ps_street_action::<T>("a: d: checks").0, Action::no_data(ActionType::Check, 0));
}

fn ps_action_not_show<T: ParseAction>() {
    assert_eq!(
        ps_street_action::<T>("a: d: doesn't show hand").0,
        Action::no_data(ActionType::Muck, 0)
    );
}

fn ps_action_fold<T: ParseAction>() {
    assert_eq!(ps_street_action::<T>("a: d: folds").0, Action::no_data(ActionType::Fold, 0));
    assert_eq!(ps_street_action::<T>("a: d: mucks hand").0, Action::no_data(ActionType::Fold, 0));
    let (a, r) = ps_street_action::<T>("a: d: folds [Qh]");
    assert_eq!(a, Action::new(ActionType::Fold, 0, ActionData::new_handle(0)));
    assert_eq!(ps_cards(&["Qh"]), r.cards[0]);
}

fn ps_action_show<T: ParseAction>() {
    let (a, r) = ps_street_action::<T>("a: d: shows [Qh]");
    assert_eq!(a, Action::new(ActionType::Show, 0, ActionData::new_handle(0)));
    assert_eq!(ps_cards(&["Qh"]), r.cards[0]);
}

fn ps_action_collected_pot<T: ParseAction>() {
    assert_eq!(
        ps_street_action::<T>("a: d collected $1.23 from pot").0,
        Action::new(ActionType::CollectMainPot, 0, ActionData::new_num(Number(123)))
    );
    assert_eq!(
        ps_street_action::<T>("a: d collected $1.23 from main pot").0,
        Action::new(ActionType::CollectMainPot, 0, ActionData::new_num(Number(123)))
    );
    assert_eq!(
        ps_street_action::<T>("a: d collected $1.23 from side pot").0,
        Action::new(ActionType::CollectSidePot1, 0, ActionData::new_num(Number(123)))
    );
    assert_eq!(
        ps_street_action::<T>("a: d collected $1.23 from side pot-2").0,
        Action::new(ActionType::CollectSidePot2, 0, ActionData::new_num(Number(123)))
    );
}

fn ps_action_uncalled_bet_returned<T: ParseAction>() {
    assert_eq!(
        ps_street_action::<T>("Uncalled bet ($1.23) returned to a: d").0,
        Action::new(ActionType::UncalledBetReturned, 0, ActionData::new_num(Number(123)))
    );
}

fn ps_action_bet_call<T: ParseAction>() {
    assert_eq!(
        ps_street_action::<T>("a: d: bets $1.23").0,
        Action::new(ActionType::Bet, 0, ActionData::new_num(Number(123)))
    );
    assert_eq!(
        ps_street_action::<T>("a: d: bets $1.23 and is all in").0,
        Action::new(ActionType::BetAllIn, 0, ActionData::new_num(Number(123)))
    );
    assert_eq!(
        ps_street_action::<T>("a: d: calls $1.23").0,
        Action::new(ActionType::Call, 0, ActionData::new_num(Number(123)))
    );
    assert_eq!(
        ps_street_action::<T>("a: d: calls $1.23 and is all in").0,
        Action::new(ActionType::CallAllIn, 0, ActionData::new_num(Number(123)))
    );
}

fn ps_action_raise<T: ParseAction>() {
    assert_eq!(
        ps_street_action::<T>("a: d: raises $1.23 to $1.24").0,
        Action::new(ActionType::Raise, 0, ActionData::new_num(Number(123)))
    );
    assert_eq!(
        ps_street_action::<T>("a: d: raises $1.23 to $1.24 and is all in").0,
        Action::new(ActionType::RaiseAllIn, 0, ActionData::new_num(Number(123)))
    );
}

fn ps_action_blind<T: ParseAction>() {
    assert_eq!(
        ps_header_action::<T>("a: d: posts small blind $1.23").0,
        Action::new(ActionType::SmallBlind, 0, ActionData::new_num(Number(123)))
    );
    assert_eq!(
        ps_header_action::<T>("a: d: posts big blind $1.23").0,
        Action::new(ActionType::BigBlind, 0, ActionData::new_num(Number(123)))
    );
    assert_eq!(
        ps_header_action::<T>("a: d: posts small & big blinds $1.23").0,
        Action::new(ActionType::BigSmallBlind, 0, ActionData::new_num(Number(123)))
    );
}

#[test]
fn action_check() {
    ps_action_check::<PokerStars>();
    ps_action_check::<PokerStarsPluribus>();
}

#[test]
fn action_not_show() {
    ps_action_not_show::<PokerStars>();
    ps_action_not_show::<PokerStarsPluribus>();
}

#[test]
fn action_fold() {
    ps_action_fold::<PokerStars>();
    ps_action_fold::<PokerStarsPluribus>();
}

#[test]
fn action_show() {
    ps_action_show::<PokerStars>();
    ps_action_show::<PokerStarsPluribus>();

    let (a, r) = ps_street_action::<PokerStars>("a: d: shows [Qh] (a Queen of Hearts)");
    assert_eq!(a, Action::new(ActionType::Show, 0, ActionData::new_handle(0)));
    assert_eq!(ps_cards(&["Qh"]), r.cards[0]);
}

#[test]
fn action_collected_pot() {
    ps_action_collected_pot::<PokerStars>();
    ps_action_collected_pot::<PokerStarsPluribus>();
}

#[test]
fn action_uncalled_bet_returned() {
    ps_action_uncalled_bet_returned::<PokerStars>();
    ps_action_uncalled_bet_returned::<PokerStarsPluribus>();
}

#[test]
fn pokerstars_action_bet_call() {
    ps_action_bet_call::<PokerStars>();
    ps_action_bet_call::<PokerStarsPluribus>();
}

#[test]
fn pokerstars_action_raise() {
    ps_action_raise::<PokerStars>();
    ps_action_raise::<PokerStarsPluribus>();
}

#[test]
fn action_blind() {
    ps_action_blind::<PokerStars>();
    ps_action_blind::<PokerStarsPluribus>();

    assert_eq!(
        ps_header_action::<PokerStars>("a: d: posts the ante $1.23").0,
        Action::new(ActionType::Ante, 0, ActionData::new_num(Number(123)))
    );
}

#[test]
fn action_say() {
    let (a, r) = ps_header_action::<PokerStars>("a: d said, \"hello\"");
    assert_eq!(a, Action::new(ActionType::Say, 0, ActionData::new_message(Span::new(8, 5))));
    assert_eq!(r.src, b"a: defghhello".to_vec());
}

#[test]
fn action_sit_out() {
    assert_eq!(
        ps_header_action::<PokerStars>("a: d: sits out").0,
        Action::no_data(ActionType::Sitout, 0)
    );
    assert_eq!(
        ps_header_action::<PokerStars>("a: d: is sitting out").0,
        Action::no_data(ActionType::Sitout, 0)
    );
}

#[test]
fn action_connect_disconnect() {
    assert_eq!(
        ps_header_action::<PokerStars>("a: d is disconnected").0,
        Action::no_data(ActionType::Leave, 0)
    );
    assert_eq!(
        ps_header_action::<PokerStars>("a: d is connected").0,
        Action::new(ActionType::Join, 0, ActionData::new_handle(SEAT_INITIAL as u32))
    );
}

#[test]
fn action_timeout() {
    for line in [
        "a: d has timed out",
        "a: d has timed out while disconnected",
        "a: d has timed out while being disconnected",
        "a: d was removed from the table for failing to post",
    ] {
        assert_eq!(ps_header_action::<PokerStars>(line).0, Action::no_data(ActionType::Leave, 0));
    }
}

#[test]
fn action_join() {
    assert_eq!(
        ps_header_action::<PokerStars>("a: d will be allowed to play after the button").0,
        Action::new(ActionType::Join, 0, ActionData::new_handle(SEAT_AFTER_DEALER as u32))
    );
    assert_eq!(
        ps_header_action::<PokerStars>("a: d joins the table at seat #6").0,
        Action::new(ActionType::Join, 0, ActionData::new_handle(6))
    );
    assert_eq!(
        ps_header_action::<PokerStars>("a: d has returned").0,
        Action::new(ActionType::Join, 0, ActionData::new_handle(SEAT_INITIAL as u32))
    );
}

#[test]
fn action_cashout() {
    let (a, r) =
        ps_street_action::<PokerStars>("a: d cashed out the hand for $1.23 | Cash Out Fee $1.24");
    assert_eq!(a, Action::new(ActionType::CashOut, 0, ActionData::new_handle(0)));
    assert_eq!(Number(123), r.nums[0]);
    assert_eq!(Number(124), r.nums[1]);

    let (a, r) = ps_street_action::<PokerStars>("a: d cashed out the hand for $1.23 | ");
    assert_eq!(a, Action::new(ActionType::CashOut, 0, ActionData::new_handle(0)));
    assert_eq!(Number(123), r.nums[0]);
    assert_eq!(Number(0), r.nums[1]);
}

//endregion
