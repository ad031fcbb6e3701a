use poker_log_parser::api::{combine, parse_string, try_combine};
use poker_log_parser::parsers::dialects::{ParseHeader, ParseSummary, ParseSync};
use poker_log_parser::parsers::parser::Parser;
use poker_log_parser::parsers::{OnGame, PokerStars, PokerStarsPluribus};
use poker_log_parser::pklp::{
    Action, ActionData, ActionSpan, ActionType, BetType, Card, Cards, DateTime, GameType, HandVec,
    Number, Player, PlayerSpan, PokerSite, Span, SpanLike, StreetType, Suit, Winner, WinnerSpan,
    SEAT_NONE,
};

const HD_SMALL_HAND: &str = "PokerStars Hand #1234:  Hold'em No Limit ($0.25/$0.50 USD) - 2020/02/08 4:01:19 ET\n\
    Table 'Acamar V' 2-max Seat #1 is the button\n\
    Seat 1: abcd ($50 in chips)\n\
    Seat 2: efgh ($50.75 in chips)\n\
    abcd: posts small blind $0.25\n\
    *** HOLE CARDS ***\n\
    efgh: folds\n\
    *** SUMMARY ***\n\
    Total pot $0.25 | Rake $0\n";

#[test]
fn a_small_hand() {
    let h = parse_string(HD_SMALL_HAND).unwrap();
    assert_eq!(1, h.hands.len());
    assert_eq!(2, h.actions.len());
    assert_eq!(2, h.players.len());

    let hand = &h.hands[0];
    assert_eq!(PokerSite::PokerStars, hand.header.site);
    assert_eq!(GameType::HoldEm, hand.header.game_type);
    assert_eq!(BetType::NoLimit, hand.header.bet_type);
    assert_eq!('$', hand.header.currency);
    assert_eq!(Number(25), hand.header.small_blind);
    assert_eq!(Number(50), hand.header.big_blind);
    assert_eq!(2, hand.header.max_players);
    assert_eq!(0, hand.header.dealer);
    assert_eq!(SEAT_NONE, hand.header.hero);
    assert_eq!(DateTime::new(2020, 2, 8, 4, 1, 19), hand.header.start_date);
    assert_eq!(0, hand.src_offset);

    // Every span reads back what the text says.
    assert_eq!(b"1234", h.text_of(hand.header.id));
    assert_eq!(b"Acamar V", h.text_of(hand.header.table_name));
    assert_eq!(PlayerSpan::new(0, 2), hand.header.players);
    let players = h.players_of(hand.header.players);
    assert_eq!(b"abcd", h.text_of(players[0].name));
    assert_eq!(b"efgh", h.text_of(players[1].name));
    assert_eq!((1, Number(5000)), (players[0].seat, players[0].chips));
    assert_eq!((2, Number(5075)), (players[1].seat, players[1].chips));
    assert_eq!(b"abcd", h.text_of(hand.header.dealer(&h).name));
    assert_eq!(b"efgh", h.text_of(hand.header.player(1, &h).name));

    assert_eq!(ActionSpan::new(0, 1), hand.header.actions);
    assert_eq!(
        Action::new(ActionType::SmallBlind, 0, ActionData::new_num(Number(25))),
        h.actions_of(hand.header.actions)[0]
    );
    assert_eq!(ActionSpan::new(1, 1), hand.preflop.actions);
    assert_eq!(Action::no_data(ActionType::Fold, 1), h.actions_of(hand.preflop.actions)[0]);
    assert!(hand.flops().is_empty());
    assert!(hand.turns().is_empty());
    assert!(hand.rivers().is_empty());
    assert!(hand.showdowns().is_empty());
    assert!(hand.street(StreetType::Flop, &h).is_empty());
    assert_eq!(Number(25), hand.summary.pot.total);
    assert_eq!(Number(25), hand.summary.pot.main);
    assert_eq!(Number(0), hand.summary.pot.rake);
    assert_eq!(WinnerSpan::new(0, 0), hand.summary.winners);
    assert_eq!(ActionSpan::new(2, 0), hand.summary.actions);
}

fn hd_hand(i: usize) -> String {
    format!(
        "PokerStars Hand #{}:  Hold'em No Limit ($0.25/$0.50 USD) - 2020/02/08 4:{:02}:19 ET\n\
         Table 'Table {}' 6-max Seat #2 is the button\n\
         Seat 1: anna{} ($49.50 in chips)\n\
         Seat 2: bert{} ($50 in chips)\n\
         Seat 3: cleo{} ($12.34 in chips)\n\
         anna{}: posts small blind $0.25\n\
         bert{}: posts big blind $0.50\n\
         *** HOLE CARDS ***\n\
         cleo{}: raises $1 to $1.50\n\
         anna{}: folds\n\
         bert{}: calls $1\n\
         *** FLOP *** [Qh Td As]\n\
         bert{}: checks\n\
         cleo{}: bets $2.{:02}\n\
         bert{}: calls $2.{:02}\n\
         *** TURN *** [Qh Td As] [5c]\n\
         bert{}: checks\n\
         cleo{}: checks\n\
         *** RIVER *** [Qh Td As 5c] [6c]\n\
         bert{}: bets $4\n\
         cleo{}: folds [Kh Kd]\n\
         Uncalled bet ($4) returned to bert{}\n\
         bert{} collected $6.90 from pot\n\
         bert{}: doesn't show hand\n\
         *** SUMMARY ***\n\
         Total pot $7.25 | Rake $0.35\n\
         Board [Qh Td As 5c 6c]\n\
         Seat 1: anna{} (small blind) folded before Flop\n\
         Seat 2: bert{} (button) collected ($6.90)\n\
         Seat 3: cleo{} folded on the River\n\
         \n\
         \n",
        1000 + i, i % 60, i, i, i, i, i, i, i, i, i, i, i, i % 100, i, i % 100, i, i, i, i, i, i, i, i, i,
        i
    )
}

fn hd_hands(from: usize, to: usize) -> String {
    let mut text = String::new();
    for i in from..to {
        text.push_str(&hd_hand(i));
    }
    text
}

#[test]
fn a_full_hand() {
    let h = parse_string(&hd_hand(7)).unwrap();
    assert_eq!(1, h.hands.len());
    assert_eq!(3, h.players.len());
    assert_eq!(1, h.flops.len());
    assert_eq!(1, h.turns.len());
    assert_eq!(1, h.rivers.len());
    assert_eq!(0, h.showdowns.len());
    assert_eq!(1, h.winners.len());
    assert_eq!(1, h.cards.len());
    let hand = &h.hands[0];
    assert_eq!(b"1007", h.text_of(hand.header.id));
    assert_eq!(b"Table 7", h.text_of(hand.header.table_name));
    assert_eq!(1, hand.header.dealer);
    assert_eq!(DateTime::new(2020, 2, 8, 4, 7, 19), hand.header.start_date);
    let names: Vec<&[u8]> =
        h.players_of(hand.header.players).iter().map(|p| h.text_of(p.name)).collect();
    assert_eq!(vec![&b"anna7"[..], &b"bert7"[..], &b"cleo7"[..]], names);

    let kinds = |span: ActionSpan| -> Vec<(ActionType, u8)> {
        h.actions_of(span).iter().map(|a| (a.kind, a.player_id)).collect()
    };
    assert_eq!(
        vec![(ActionType::SmallBlind, 0), (ActionType::BigBlind, 1)],
        kinds(hand.header.actions)
    );
    assert_eq!(
        vec![(ActionType::Raise, 2), (ActionType::Fold, 0), (ActionType::Call, 1)],
        kinds(hand.preflop.actions)
    );
    let flop = &hand.street(StreetType::Flop, &h)[0];
    assert_eq!(0, flop.id);
    assert_eq!(
        &[Card::new(12, Suit::Heart), Card::new(10, Suit::Diamond), Card::new(1, Suit::Spade)][..],
        flop.cards.values()
    );
    assert_eq!(
        vec![(ActionType::Check, 1), (ActionType::Bet, 2), (ActionType::Call, 1)],
        kinds(flop.actions)
    );
    assert_eq!(Number(207), h.actions_of(flop.actions)[1].data.num());
    let turn = &hand.street(StreetType::Turn, &h)[0];
    assert_eq!(1, turn.id);
    assert_eq!(&[Card::new(5, Suit::Club)][..], turn.cards.values());
    let river = &hand.street(StreetType::River, &h)[0];
    assert_eq!(2, river.id);
    assert_eq!(
        vec![
            (ActionType::Bet, 1),
            (ActionType::Fold, 2),
            (ActionType::UncalledBetReturned, 1),
            (ActionType::CollectMainPot, 1),
            (ActionType::Muck, 1)
        ],
        kinds(river.actions)
    );
    let folded = h.actions_of(river.actions)[1];
    assert_eq!(
        &[Card::new(13, Suit::Heart), Card::new(13, Suit::Diamond)][..],
        folded.data.cards(&h).values()
    );
    assert_eq!(Number(725), hand.summary.pot.total);
    assert_eq!(Number(35), hand.summary.pot.rake);
    assert_eq!(
        vec![(ActionType::Fold, 0), (ActionType::CollectMainPot, 1), (ActionType::Fold, 2)],
        kinds(hand.summary.actions)
    );
    assert_eq!(
        &[Winner { amount: Number(690), player_id: 1, game_id: 0 }][..],
        h.winners_of(hand.summary.winners)
    );
}

#[test]
fn fifty_hands_in_one_text_or_in_two() {
    let whole = parse_string(&hd_hands(0, 50)).unwrap();
    assert_eq!(50, whole.hands.len());
    assert_eq!(150, whole.players.len());
    for (i, hand) in whole.hands.iter().enumerate() {
        assert_eq!(format!("{}", 1000 + i).as_bytes(), whole.text_of(hand.header.id));
    }

    let first = parse_string(&hd_hands(0, 25)).unwrap();
    let second = parse_string(&hd_hands(25, 50)).unwrap();
    assert_eq!(25, first.hands.len());
    assert_eq!(25, second.hands.len());
    assert!(HandVec::can_combine(&vec![first.clone(), second.clone()]));
    let joined = combine(vec![first, second]);
    assert_eq!(whole, joined);
}

#[test]
fn combining_keeps_what_hands_say() {
    let a = parse_string(&hd_hands(0, 3)).unwrap();
    let b = parse_string(&hd_hands(3, 5)).unwrap();
    let c = parse_string(&hd_hands(5, 6)).unwrap();
    let joined = try_combine(vec![a.clone(), b.clone(), c.clone()]).unwrap();
    assert_eq!(parse_string(&hd_hands(0, 6)).unwrap(), joined);
    for (at, (arena, hand)) in
        [(0, (&a, 0)), (2, (&a, 2)), (3, (&b, 0)), (4, (&b, 1)), (5, (&c, 0))]
    {
        let was = &arena.hands[hand];
        let is = &joined.hands[at];
        assert_eq!(arena.text_of(was.header.id), joined.text_of(is.header.id));
        assert_eq!(arena.text_of(was.header.table_name), joined.text_of(is.header.table_name));
        let was_players = arena.players_of(was.header.players);
        let is_players = joined.players_of(is.header.players);
        assert_eq!(was_players.len(), is_players.len());
        for (p, q) in was_players.iter().zip(is_players) {
            assert_eq!(arena.text_of(p.name), joined.text_of(q.name));
            assert_eq!((p.seat, p.chips), (q.seat, q.chips));
        }
        let was_river = &was.street(StreetType::River, arena)[0];
        let is_river = &is.street(StreetType::River, &joined)[0];
        assert_eq!(was_river.cards, is_river.cards);
        let was_actions = arena.actions_of(was_river.actions);
        let is_actions = joined.actions_of(is_river.actions);
        assert_eq!(was_actions.len(), is_actions.len());
        for (x, y) in was_actions.iter().zip(is_actions) {
            assert_eq!((x.kind, x.player_id), (y.kind, y.player_id));
            if x.kind.can_have_cards() {
                assert_eq!(x.data.cards(arena), y.data.cards(&joined));
            } else {
                assert_eq!(x.data, y.data);
            }
        }
        assert_eq!(arena.winners_of(was.summary.winners), joined.winners_of(is.summary.winners));
    }
}

#[test]
fn one_arena_combined_is_itself() {
    let a = parse_string(&hd_hands(0, 2)).unwrap();
    assert_eq!(a, combine(vec![a.clone()]));
    assert_eq!(Some(a.clone()), try_combine(vec![a]));
    assert_eq!(None, try_combine(vec![]));
    assert!(HandVec::can_combine(&vec![]));
}

#[test]
fn arenas_without_room_are_not_combined() {
    // What is said stays where it is within its hand's text, however far
    // that is.
    let mut a = HandVec::default();
    a.push_str(b"x");
    let mut b = HandVec::default();
    let said = Action::new(ActionType::Say, 0, ActionData::new_message(Span::new(0xff_ffff, 0)));
    b.actions.push(said);
    assert!(HandVec::can_combine(&vec![a.clone(), b.clone()]));
    assert_eq!(said, try_combine(vec![a.clone(), b.clone()]).unwrap().actions[0]);
    assert!(HandVec::can_combine(&vec![b.clone(), a.clone()]));
    // A cash-out must still find its numbers by an index of 32 bits.
    let mut nums = HandVec::default();
    nums.nums.push(Number(1));
    let mut cashed = HandVec::default();
    cashed.actions.push(Action::new(ActionType::CashOut, 0, ActionData::new_handle(u32::MAX)));
    assert!(!HandVec::can_combine(&vec![nums.clone(), cashed.clone()]));
    assert_eq!(None, try_combine(vec![nums.clone(), cashed.clone()]));
    assert!(HandVec::can_combine(&vec![cashed, nums]));
    // An index into the cards must not become the mark of no cards.
    let mut cards = HandVec::default();
    cards.cards.push(Cards::default());
    let mut full = HandVec::default();
    full.actions.push(Action::new(ActionType::Show, 0, ActionData::new_handle(u32::MAX - 1)));
    assert!(!HandVec::can_combine(&vec![cards.clone(), full.clone()]));
    assert!(HandVec::can_combine(&vec![full, cards]));
}

#[test]
fn a_bad_hand_costs_no_other() {
    let text = format!(
        "{}PokerStars Hand #77:  Hold'em No Limit ($0.25/$0.50 USD) - 2020/02/08 4:01:19 ET\n\
         Table 'Broken' 6-max Seat #2 is the button\n\
         Seat 1: anna ($49.50 in chips)\n\
         this line is no action\n\
         *** HOLE CARDS ***\n\
         \n\
         {}PokerStars Hand #78 cut short\n\
         {}",
        hd_hand(1),
        hd_hand(2),
        hd_hand(3)
    );
    let h = parse_string(&text).unwrap();
    assert_eq!(3, h.hands.len());
    let ids: Vec<&[u8]> = h.hands.iter().map(|x| h.text_of(x.header.id)).collect();
    assert_eq!(vec![&b"1001"[..], &b"1002"[..], &b"1003"[..]], ids);
    // What the bad hand had added stays where it is and is referred to by
    // no hand.
    assert_eq!(10, h.players.len());
    assert_eq!(3, h.hands[1].header.players.size());
    assert_eq!(4, h.hands[1].header.players.begin());
}

#[test]
fn players_that_cannot_be_kept_fail_the_hand() {
    // A name of less than three bytes cannot be found again.
    let mut p = Parser::new(b"", HandVec::default());
    assert_eq!(None, p.add_player(b"ab", 1, Number(0)));
    assert_eq!(None, p.player_id(b"ab"));
    assert_eq!(None, p.action_no_data(ActionType::Fold, b"ab"));
    for i in 0..32u8 {
        assert_eq!(Some(i), p.add_player(&[b'a' + i / 16, b'a' + i % 16, b'x'], i, Number(0)));
    }
    // A hand seats no more than 32 players.
    assert_eq!(None, p.add_player(b"zzz", 33, Number(0)));
    assert_eq!(None, p.player_id(b"zzz"));
    assert_eq!(Some(Action::no_data(ActionType::Fold, 32)), p.action_no_data(ActionType::Fold, b"zzz"));
    assert_eq!(32, p.hands.players.len());
}

#[test]
fn pluribus_header_is_read_as_pokerstars_reads_it() {
    let text = hd_hand(4);
    let mut p = Parser::new(text.as_bytes(), HandVec::default());
    let h = PokerStarsPluribus::parse_header(&mut p).unwrap();
    assert_eq!(PokerSite::PokerStarsPluribus, h.site);
    assert_eq!(ActionSpan::new(0, 2), h.actions);
    assert_eq!(b"1004", p.hands.text_of(h.id));
}

#[test]
fn pluribus_names_lose_their_title() {
    let text = "*** SUMMARY ***\n\
        Total pot $1.23 | Rake $0.15\n\
        Seat 1: MrBlue collected ($1.08)\n";
    let mut p = Parser::new(text.as_bytes(), HandVec::default());
    p.add_player(b"Blue", 1, Number(0)).unwrap();
    let s = PokerStarsPluribus::parse_summary(&mut p, '$').unwrap();
    assert_eq!(WinnerSpan::new(0, 1), s.winners);
    assert_eq!(Winner { amount: Number(108), player_id: 0, game_id: 0 }, p.hands.winners[0]);

    // PokerStars keeps the name as it is written, and does not find it.
    let mut p = Parser::new(text.as_bytes(), HandVec::default());
    p.add_player(b"Blue", 1, Number(0)).unwrap();
    PokerStars::parse_summary(&mut p, '$').unwrap();
    assert_eq!(Winner { amount: Number(108), player_id: 32, game_id: 0 }, p.hands.winners[0]);
}

#[test]
fn sync_goes_to_the_next_hand() {
    let text = "rest of a hand\nmore of it\nPokerStars Hand #2\nnext";
    let mut p = Parser::new(text.as_bytes(), HandVec::default());
    PokerStars::parse_sync(&mut p);
    assert_eq!(b"PokerStars Hand #2", p.line);
    PokerStars::parse_sync(&mut p);
    assert_eq!(b"PokerStars Hand #2", p.line);
    let mut p = Parser::new(text.as_bytes(), HandVec::default());
    PokerStarsPluribus::parse_sync(&mut p);
    assert_eq!(b"rest of a hand", p.line);
    let mut p = Parser::new(b"x\n***** End of hand R5-1 *****\n\n***** History", HandVec::default());
    OnGame::parse_sync(&mut p);
    assert_eq!(b"", p.line);
    let mut p = Parser::new(b"x\ny", HandVec::default());
    OnGame::parse_sync(&mut p);
    assert!(p.eof());
}

const HD_ONGAME_HAND: &str = "***** History for hand R5-1631690-1825 *****\n\
    Start hand: Wed Jul 01 00:00:00 GMT-0910 2009\n\
    Table: YAT4jKACpEQGFsSRkTUtLA [1631690] (NO_LIMIT TEXAS_HOLDEM $3/$6, Real money)\n\
    Button: seat 5\n\
    Players in round: 3\n\
    Seat 1: alpha ($1,234.50)\n\
    Seat 5: bravo ($600)\n\
    Seat 9: charlie ($75.25)\n\
    alpha posts small blind ($3)\n\
    bravo posts big blind ($6)\n\
    ---\n\
    Dealing pocket cards\n\
    charlie raises $12 to $12\n\
    alpha folds\n\
    bravo calls $6\n\
    --- Dealing flop [3h, 5d, Kc]\n\
    bravo checks\n\
    charlie bets $20 [all in]\n\
    bravo folds\n\
    ---\n\
    Summary:\n\
    Main pot: $47 won by charlie ($45)\n\
    Rake taken: $2\n\
    Seat 1: alpha ($1,231.50), net: -$3\n\
    Seat 5: bravo ($588), net: -$12\n\
    Seat 9: charlie ($108.25), net: +$33, [As, Kd]\n\
    ***** End of hand R5-1631690-1825 *****\n\
    \n";

#[test]
fn an_ongame_hand() {
    let text = format!("{}{}", HD_ONGAME_HAND, HD_ONGAME_HAND);
    let h = parse_string(&text).unwrap();
    assert_eq!(2, h.hands.len());
    assert_eq!(6, h.players.len());
    let hand = &h.hands[1];
    assert_eq!(PokerSite::OnGame, hand.header.site);
    assert_eq!(GameType::HoldEm, hand.header.game_type);
    assert_eq!(b"1631690", h.text_of(hand.header.id));
    assert_eq!(b"YAT4jKACpEQGFsSRkTUtLA", h.text_of(hand.header.table_name));
    assert_eq!('$', hand.header.currency);
    assert_eq!(Number(300), hand.header.small_blind);
    assert_eq!(Number(600), hand.header.big_blind);
    assert_eq!(3, hand.header.max_players);
    assert_eq!(1, hand.header.dealer);
    assert_eq!(PlayerSpan::new(3, 3), hand.header.players);
    let players = h.players_of(hand.header.players);
    assert_eq!(
        Player { name: players[0].name, seat: 1, chips: Number(123450) },
        players[0]
    );
    assert_eq!(b"alpha", h.text_of(players[0].name));
    assert_eq!(b"charlie", h.text_of(players[2].name));
    assert_eq!(
        &[
            Action::new(ActionType::SmallBlind, 0, ActionData::new_num(Number(300))),
            Action::new(ActionType::BigBlind, 1, ActionData::new_num(Number(600)))
        ][..],
        h.actions_of(hand.header.actions)
    );
    assert_eq!(
        &[
            Action::new(ActionType::Raise, 2, ActionData::new_num(Number(1200))),
            Action::no_data(ActionType::Fold, 0),
            Action::new(ActionType::Call, 1, ActionData::new_num(Number(600)))
        ][..],
        h.actions_of(hand.preflop.actions)
    );
    let flop = &hand.street(StreetType::Flop, &h)[0];
    assert_eq!(
        &[Card::new(3, Suit::Heart), Card::new(5, Suit::Diamond), Card::new(13, Suit::Club)][..],
        flop.cards.values()
    );
    assert_eq!(
        Action::new(ActionType::BetAllIn, 2, ActionData::new_num(Number(2000))),
        h.actions_of(flop.actions)[1]
    );
    assert_eq!(Number(4700), hand.summary.pot.total);
    assert_eq!(Number(4700), hand.summary.pot.main);
    assert_eq!(Number(200), hand.summary.pot.rake);
    assert_eq!(
        &[Winner { amount: Number(4500), player_id: 2, game_id: 0 }][..],
        h.winners_of(hand.summary.winners)
    );
    let shown = h.actions_of(hand.summary.actions);
    assert_eq!(1, shown.len());
    assert_eq!((ActionType::Show, 2), (shown[0].kind, shown[0].player_id));
    assert_eq!(
        &[Card::new(1, Suit::Spade), Card::new(13, Suit::Diamond)][..],
        shown[0].data.cards(&h).values()
    );
}

#[test]
fn what_is_said_is_kept_with_its_hand() {
    let text = format!(
        "{}PokerStars Hand #5:  Hold'em No Limit ($0.25/$0.50 USD) - 2020/02/08 4:01:19 ET\n\
         Table 'Chatty' 6-max Seat #1 is the button\n\
         Seat 1: anna ($49.50 in chips)\n\
         anna said, \"hello there\"\n\
         newcomer joins the table at seat #4\n\
         *** HOLE CARDS ***\n\
         *** SUMMARY ***\n\
         Total pot $0 | Rake $0\n",
        hd_hand(0)
    );
    let h = parse_string(&text).unwrap();
    assert_eq!(2, h.hands.len());
    let hand = &h.hands[1];
    let actions = h.actions_of(hand.header.actions);
    assert_eq!(2, actions.len());
    assert_eq!(ActionType::Say, actions[0].kind);
    assert_eq!(b"hello there", actions[0].data.message(1, &h));
    assert_eq!(Action::new(ActionType::Join, 1, ActionData::new_handle(4)), actions[1]);
    let players = h.players_of(hand.header.players);
    assert_eq!(2, players.len());
    assert_eq!(b"newcomer", h.text_of(players[1].name));
    assert_eq!(4, players[1].seat);
}

fn hd_chatty_hand(i: usize) -> String {
    format!(
        "PokerStars Hand #{}:  Hold'em No Limit ($0.25/$0.50 USD) - 2020/02/08 4:01:19 ET\n\
         Table 'Chatty {}' 6-max Seat #1 is the button\n\
         Seat 1: anna ($49.50 in chips)\n\
         anna said, \"hello number {}\"\n\
         *** HOLE CARDS ***\n\
         anna said, \"and again {}\"\n\
         *** SUMMARY ***\n\
         Total pot $0 | Rake $0\n\n",
        500 + i,
        i,
        i,
        i
    )
}

#[test]
fn what_is_said_is_read_the_same_after_combining() {
    let first = format!("{}{}", hd_hand(0), hd_chatty_hand(1));
    let second = format!("{}{}{}", hd_chatty_hand(2), hd_hand(3), hd_chatty_hand(4));
    let a = parse_string(&first).unwrap();
    let b = parse_string(&second).unwrap();
    assert_eq!(2, a.hands.len());
    assert_eq!(3, b.hands.len());
    let joined = combine(vec![a.clone(), b.clone()]);
    assert_eq!(parse_string(&format!("{}{}", first, second)).unwrap(), joined);
    for (at, (arena, hand, word)) in
        [(1, (&a, 1, "1")), (2, (&b, 0, "2")), (4, (&b, 2, "4"))]
    {
        let was = &arena.hands[hand];
        let is = &joined.hands[at];
        let was_header = arena.actions_of(was.header.actions);
        let is_header = joined.actions_of(is.header.actions);
        assert_eq!(was_header, is_header);
        assert_eq!(ActionType::Say, is_header[0].kind);
        assert_eq!(
            format!("hello number {}", word).as_bytes(),
            is_header[0].data.message(at, &joined)
        );
        assert_eq!(
            was_header[0].data.message(hand, arena),
            is_header[0].data.message(at, &joined)
        );
        let was_preflop = arena.actions_of(was.preflop.actions);
        let is_preflop = joined.actions_of(is.preflop.actions);
        assert_eq!(was_preflop, is_preflop);
        assert_eq!(
            format!("and again {}", word).as_bytes(),
            is_preflop[0].data.message(at, &joined)
        );
    }
}

#[test]
fn a_players_row_can_be_changed() {
    let mut p = Parser::new(b"", HandVec::default());
    p.hands.players.push(Player { name: Span::new(0, 0), seat: 0, chips: Number(0) });
    p.players_begin = 1;
    assert_eq!(Some(0), p.add_player(b"anna", 1, Number(5)));
    assert_eq!(Some(1), p.add_player(b"bert", 2, Number(6)));
    p.player_mut(1).seat = 7;
    assert_eq!(Player { name: Span::new(4, 4), seat: 7, chips: Number(6) }, p.hands.players[2]);
    p.set_seat(0, 9);
    assert_eq!(Player { name: Span::new(0, 4), seat: 9, chips: Number(5) }, p.hands.players[1]);
    assert_eq!(0, p.hands.players[0].seat);
}

#[test]
fn the_currency_of_a_hand_has_a_name() {
    let h = parse_string(HD_SMALL_HAND).unwrap();
    assert_eq!("USD", h.hands[0].header.currency_iso());
}

#[test]
fn hands_are_read_into_an_arena_that_holds_some() {
    let mut h = parse_string(&hd_hands(0, 2)).unwrap();
    poker_log_parser::api::parse_string_into(&hd_hands(2, 4), &mut h).unwrap();
    assert_eq!(parse_string(&hd_hands(0, 4)).unwrap(), h);
    let mut h = HandVec::default();
    poker_log_parser::parsers::hands::parse_str(PokerSite::OnGame, b"no hand at all\n", &mut h);
    assert_eq!(HandVec::default(), h);
}
