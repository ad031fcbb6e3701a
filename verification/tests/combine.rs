use poker_log_parser::pklp::{
    Action, ActionData, ActionSpan, ActionType, Card, Cards, Hand, HandVec, Number, Player,
    PlayerSpan, SpanLike, Winner, WinnerSpan,
};

fn cb_make_hand_vec(index: usize) -> HandVec {
    let mut h = HandVec::default();
    let mut hand = Hand::default();

    // Info
    hand.header.currency = '$';
    hand.header.max_players = 2;
    hand.header.id = h.push_str(format!("Id{}", index).as_bytes());
    hand.header.table_name = h.push_str(format!("Name{}", index).as_bytes());
    let p1 = h.push_str(format!("abcd{}", index).as_bytes());
    let p2 = h.push_str(format!("efgh{}", index).as_bytes());

    // Players
    h.players.push(Player { name: p1, seat: 1, chips: Number(100) });
    h.players.push(Player { name: p2, seat: 2, chips: Number(100) });
    hand.header.players = PlayerSpan::new(0, 2);

    // Action
    h.actions.push(Action::no_data(ActionType::Fold, 0));
    hand.header.actions = ActionSpan::new(0, 1);

    // All Action types
    let mut cards = Cards::default();
    cards.push(Card::parse(b"Qh").unwrap());
    h.cards.push(cards);
    h.actions.push(Action::new(ActionType::Fold, 0, ActionData::new_handle(0)));

    let msg = h.push_str(format!("Message{}", index).as_bytes());
    h.actions.push(Action::new(ActionType::Say, 0, ActionData::new_message(msg)));

    h.nums.push(Number(123 + 100 * index as u32));
    h.nums.push(Number(124 + 100 * index as u32));
    h.actions.push(Action::new(ActionType::CashOut, 0, ActionData::new_handle(0)));

    hand.preflop.actions = ActionSpan::new(1, 3);

    // Summary
    h.winners.push(Winner { player_id: 0, game_id: 0, amount: Number(1000) });
    hand.summary.winners = WinnerSpan::new(0, 1);

    h.hands.push(hand);
    h
}

#[test]
fn combine_hand_vec() {
    let c = HandVec::combine(vec![cb_make_hand_vec(0), cb_make_hand_vec(1)]);

    assert_eq!(2, c.hands.len());
    assert_eq!(8, c.actions.len());
    assert_eq!(4, c.players.len());
    assert_eq!(2, c.winners.len());
    assert_eq!(4, c.nums.len());
    assert_eq!(2, c.cards.len());

    // The arenas keep their order: the first hand is that of the first.
    assert_eq!(b"Id0", c.text_of(c.hands[0].header.id));
    assert_eq!(b"Name0", c.text_of(c.hands[0].header.table_name));

    assert_eq!(b"Id1", c.text_of(c.hands[1].header.id));
    assert_eq!(b"Name1", c.text_of(c.hands[1].header.table_name));

    assert_eq!(b"abcd0", c.text_of(c.players_of(c.hands[0].header.players)[0].name));
    assert_eq!(b"efgh0", c.text_of(c.players_of(c.hands[0].header.players)[1].name));

    assert_eq!(b"abcd1", c.text_of(c.players_of(c.hands[1].header.players)[0].name));
    assert_eq!(b"efgh1", c.text_of(c.players_of(c.hands[1].header.players)[1].name));
}

#[test]
fn rows_are_moved_on_by_what_stands_before() {
    let a = cb_make_hand_vec(0);
    let b = cb_make_hand_vec(1);
    assert_eq!(26, a.src.len());
    let c = HandVec::combine(vec![a.clone(), b.clone()]);

    // The first arena stays as it is.
    assert_eq!(a.hands[0], c.hands[0]);
    assert_eq!(a.actions[..], c.actions[..4]);
    assert_eq!(a.players[..], c.players[..2]);

    // The second is moved on by the rows of the first.
    let was = &b.hands[0];
    let is = &c.hands[1];
    assert_eq!(26, is.src_offset);
    assert_eq!(poker_log_parser::pklp::Span::new(26, 3), is.header.id);
    assert_eq!(poker_log_parser::pklp::Span::new(29, 5), is.header.table_name);
    assert_eq!(PlayerSpan::new(2, 2), is.header.players);
    assert_eq!(ActionSpan::new(4, 1), is.header.actions);
    assert_eq!(ActionSpan::new(5, 3), is.preflop.actions);
    assert_eq!(WinnerSpan::new(1, 1), is.summary.winners);
    assert_eq!(was.summary.pot, is.summary.pot);
    assert_eq!(poker_log_parser::pklp::Span::new(34, 5), c.players[2].name);
    assert_eq!(poker_log_parser::pklp::Span::new(39, 5), c.players[3].name);

    // An action without cards stays; cards and numbers are found further on.
    assert_eq!(Action::no_data(ActionType::Fold, 0), c.actions[4]);
    assert_eq!(Action::new(ActionType::Fold, 0, ActionData::new_handle(1)), c.actions[5]);
    assert_eq!(b.cards[0], c.actions[5].data.cards(&c));
    assert_eq!(Action::new(ActionType::CashOut, 0, ActionData::new_handle(2)), c.actions[7]);
    assert_eq!((Number(223), Number(224)), c.actions[7].data.pair(&c));
    assert_eq!((Number(123), Number(124)), c.actions[3].data.pair(&c));
    // What is said keeps its place within its hand's text, which is found
    // 26 bytes further on.
    assert_eq!(
        Action::new(
            ActionType::Say,
            0,
            ActionData::new_message(poker_log_parser::pklp::Span::new(18, 8))
        ),
        c.actions[6]
    );
    assert_eq!(b.actions[2], c.actions[6]);
    assert_eq!(b"Message0", c.actions[2].data.message(0, &c));
    assert_eq!(b"Message1", c.actions[6].data.message(1, &c));
    assert_eq!(b.actions[2].data.message(0, &b), c.actions[6].data.message(1, &c));
}
