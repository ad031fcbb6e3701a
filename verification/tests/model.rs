use poker_log_parser::pklp::{
    Action, ActionData, ActionSpan, ActionType, Blind, Card, Cards, DateTime, HandSpan, HandVec,
    HandVecExpectedSize, Number, Pot, Span, SpanLike, Suit, TypedSpanStorage, MAX_RANK,
};
use poker_log_parser::simd::NameCacheSimd;

#[test]
fn span_keeps_begin_and_size() {
    let s = Span::new(5, 7);
    assert_eq!(5, s.begin());
    assert_eq!(7, s.size());
    assert_eq!(12, s.end());
    assert!(!s.is_empty());
    assert_eq!(s, Span::range(5, 12));
    assert!(Span::default().is_empty());
    assert_eq!(0, Span::default().begin());
}

#[test]
fn span_holds_forty_and_twenty_four_bits() {
    let s = Span::new(0xff_ffff_ffff, 0xff_ffff);
    assert_eq!(0xff_ffff_ffff, s.begin());
    assert_eq!(0xff_ffff, s.size());
    let s = Span::new(0xff_ffff_ffff, 0);
    assert_eq!(0xff_ffff_ffff, s.begin());
    assert!(s.is_empty());
}

#[test]
fn typed_spans_follow_their_columns() {
    let mut h = HandVec::default();
    let begun = h.begin_span(ActionSpan::default());
    assert_eq!(ActionSpan::new(0, 0), begun);
    h.actions.push(Action::no_data(ActionType::Check, 0));
    h.actions.push(Action::no_data(ActionType::Fold, 1));
    let ended = h.end_span(begun);
    assert_eq!(ActionSpan::new(0, 2), ended);
    assert_eq!(2, h.actions_of(ended).len());
    assert_eq!(ActionType::Fold, h.actions_of(ended)[1].kind);
    let later = h.begin_span(ActionSpan::default());
    assert_eq!(ActionSpan::new(2, 0), later);
    assert_eq!(HandSpan::new(0, 0), h.begin_span(HandSpan::default()));
}

#[test]
fn push_str_returns_where_the_text_stands() {
    let mut h = HandVec::default();
    let a = h.push_str(b"abc");
    let b = h.push_str(b"defgh");
    assert_eq!(Span::new(0, 3), a);
    assert_eq!(Span::new(3, 5), b);
    assert_eq!(b"abc", h.text_of(a));
    assert_eq!(b"defgh", h.text_of(b));
    assert_eq!(b"cd", h.text_of(Span::new(2, 2)));
}

#[test]
fn card_packs_rank_and_suit() {
    for (suit, code) in [(Suit::Spade, 0), (Suit::Club, 1), (Suit::Heart, 2), (Suit::Diamond, 3)] {
        for n in 1..=13u8 {
            let c = Card::new(n, suit);
            assert_eq!(n, c.n());
            assert_eq!(suit, c.suit());
            assert_eq!(n | (code << 6), c.0);
        }
    }
    assert_eq!(MAX_RANK, Card::new(MAX_RANK, Suit::Diamond).n());
}

#[test]
fn card_letters() {
    assert_eq!('A', Card::num_to_char(1));
    assert_eq!('2', Card::num_to_char(2));
    assert_eq!('9', Card::num_to_char(9));
    assert_eq!('T', Card::num_to_char(10));
    assert_eq!('J', Card::num_to_char(11));
    assert_eq!('Q', Card::num_to_char(12));
    assert_eq!('K', Card::num_to_char(13));
    assert_eq!('s', Suit::Spade.char());
    assert_eq!('c', Suit::Club.char());
    assert_eq!('h', Suit::Heart.char());
    assert_eq!('d', Suit::Diamond.char());
    assert_eq!(Suit::Heart, Suit::from_char('h'));
    assert_eq!(Suit::Diamond, Suit::from_char('d'));
    assert_eq!('\u{2660}', Suit::Spade.unicode());
    assert_eq!('\u{2665}', Suit::Heart.unicode());
    assert_eq!('\u{2663}', Suit::Club.unicode());
    assert_eq!('\u{2666}', Suit::Diamond.unicode());
}

#[test]
fn card_is_read_from_text() {
    assert_eq!(Some(Card::new(12, Suit::Heart)), Card::parse(b"Qh"));
    assert_eq!(Some(Card::new(10, Suit::Club)), Card::parse(b"Tc"));
    assert_eq!(Some(Card::new(10, Suit::Club)), Card::parse(b"10c"));
    assert_eq!(Some(Card::new(1, Suit::Spade)), Card::parse(b"AS"));
    assert_eq!(Some(Card::new(7, Suit::Diamond)), Card::parse(b"7d]"));
    assert_eq!(None, Card::parse(b"Q"));
    assert_eq!(None, Card::parse(b"Qx"));
    assert_eq!(None, Card::parse(b"1c"));
    assert_eq!(None, Card::parse(b"0c"));
    assert_eq!(None, Card::parse(b""));
}

#[test]
fn cards_hold_up_to_five() {
    let mut c = Cards::default();
    assert_eq!(0, c.values().len());
    for n in 1..=5u8 {
        c.push(Card::new(n, Suit::Club));
    }
    assert_eq!(5, c.len());
    assert_eq!(5, c.values().len());
    assert_eq!(Card::new(3, Suit::Club), c.values()[2]);
    assert_eq!(Card::new(3, Suit::Club), c.get(2));
}

#[test]
fn date_packs_six_fields() {
    let d = DateTime::new(2020, 2, 8, 4, 1, 19);
    assert_eq!(19 | (1 << 6) | (4 << 12) | (7 << 17) | (1 << 22) | (20 << 26), d.0);
    assert_eq!(1347305555, d.0);
    assert_eq!(2020, d.year());
    assert_eq!(2, d.month());
    assert_eq!(8, d.day());
    assert_eq!(4, d.hour());
    assert_eq!(1, d.min());
    assert_eq!(19, d.sec());
    let d = DateTime::new(2063, 12, 31, 23, 59, 59);
    assert_eq!(2063, d.year());
    assert_eq!(12, d.month());
    assert_eq!(31, d.day());
    assert_eq!(23, d.hour());
    assert_eq!(59, d.min());
    assert_eq!(59, d.sec());
    let d = DateTime::new(2000, 1, 1, 0, 0, 0);
    assert_eq!(DateTime::default(), d);
    assert_eq!(2000, d.year());
    assert_eq!(1, d.month());
    assert_eq!(1, d.day());
}

#[test]
fn action_data_by_kind() {
    assert_eq!(u32::MAX, ActionData::invalid().handle());
    assert_eq!(7, ActionData::new_handle(7).handle());
    assert_eq!(Number(123), ActionData::new_num(Number(123)).num());
    let d = ActionData::new_message(Span::new(8, 5));
    assert_eq!(8 | (5 << 24), d.handle());
    assert_eq!(Span::new(8, 5), d.message_span(0));
    assert_eq!(Span::new(108, 5), d.message_span(100));
    let d = ActionData::new_message(Span::new(0xff_ffff, 255));
    assert_eq!(Span::new(0xff_ffff, 255), d.message_span(0));
    assert_eq!(
        Action { kind: ActionType::Fold, player_id: 3, data: ActionData::invalid() },
        Action::no_data(ActionType::Fold, 3)
    );
}

#[test]
fn action_data_reads_the_arena() {
    let mut h = HandVec::default();
    let mut hand = poker_log_parser::pklp::Hand::default();
    h.push_str(b"before");
    hand.src_offset = 6;
    let said = h.push_str(b"hello");
    h.hands.push(hand);
    let mut cards = Cards::default();
    cards.push(Card::new(12, Suit::Heart));
    h.cards.push(cards);
    h.nums.push(Number(123));
    h.nums.push(Number(45));

    let d = ActionData::new_message(Span::new(said.begin() - 6, said.size()));
    assert_eq!(b"hello", d.message(0, &h));
    assert_eq!(cards, ActionData::new_handle(0).cards(&h));
    assert_eq!(Cards::default(), ActionData::invalid().cards(&h));
    assert_eq!((Number(123), Number(45)), ActionData::new_handle(0).pair(&h));
}

#[test]
fn action_kinds() {
    let all = [
        ActionType::Bet, ActionType::Call, ActionType::Raise, ActionType::BetAllIn, ActionType::CallAllIn, ActionType::RaiseAllIn, ActionType::Check, ActionType::Fold, ActionType::Muck, ActionType::Show, ActionType::Dealt, ActionType::Ante,
        ActionType::BigBlind, ActionType::SmallBlind, ActionType::BigSmallBlind, ActionType::DeadBlind, ActionType::ExtraBlind, ActionType::CashOut, ActionType::CollectMainPot,
        ActionType::CollectSidePot1, ActionType::CollectSidePot2, ActionType::CollectSidePot3, ActionType::UncalledBetReturned, ActionType::Join, ActionType::Leave,
        ActionType::Sitout, ActionType::Say,
    ];
    for k in all {
        assert_eq!(matches!(k, ActionType::BetAllIn | ActionType::CallAllIn | ActionType::RaiseAllIn), k.is_all_in());
        assert_eq!(
            matches!(k, ActionType::Bet | ActionType::Call | ActionType::Raise | ActionType::BetAllIn | ActionType::CallAllIn | ActionType::RaiseAllIn),
            k.can_have_all_in()
        );
        assert_eq!(
            matches!(k, ActionType::CollectMainPot | ActionType::CollectSidePot1 | ActionType::CollectSidePot2 | ActionType::CollectSidePot3),
            k.can_have_pot()
        );
        assert_eq!(
            matches!(k, ActionType::Ante | ActionType::BigBlind | ActionType::SmallBlind | ActionType::BigSmallBlind | ActionType::DeadBlind | ActionType::ExtraBlind),
            k.can_have_blind()
        );
        assert_eq!(matches!(k, ActionType::Fold | ActionType::Muck | ActionType::Show | ActionType::Dealt), k.can_have_cards());
        assert_eq!(
            k.can_have_all_in() || k.can_have_pot() || k.can_have_blind()
                || k == ActionType::UncalledBetReturned,
            k.can_have_num()
        );
    }
    assert_eq!(Pot::Side2, Pot::of(ActionType::CollectSidePot2));
    assert_eq!(Pot::Main, Pot::from_u8(0));
    assert_eq!(Pot::Side3, Pot::from_u8(3));
    assert_eq!(Blind::Both, Blind::of(ActionType::BigSmallBlind));
    assert_eq!(Blind::Ante, Blind::of(ActionType::Ante));
    assert_eq!(Blind::Small, Blind::from_u8(0));
    assert_eq!(Blind::Extra, Blind::from_u8(4));
}

#[test]
fn number_counts_hundredths() {
    assert_eq!(Some(Number(123456)), Number::from_parts(1234, 56));
    assert_eq!(Some(Number(u32::MAX)), Number::from_parts(42_949_672, 95));
    assert_eq!(None, Number::from_parts(42_949_672, 96));
    assert_eq!(None, Number::from_parts(1, 100));
    let n = Number::from_hundredths(123456);
    assert_eq!(123456, n.hundredths());
    assert_eq!(1234, n.units());
    assert_eq!(56, n.fraction());
    assert_eq!(Number(0), Number::zero());
    assert_eq!(Some(Number(120)), Number(2340).checked_sub(Number(2220)));
    assert_eq!(None, Number(1).checked_sub(Number(2)));
}

#[test]
fn name_cache_finds_the_first_of_a_prefix() {
    let mut cache = NameCacheSimd::new();
    assert_eq!(32, cache.find(b"james"));
    cache.add(b"james");
    cache.add(b"jamie");
    cache.add(b"sandy");
    assert_eq!(3, cache.len());
    // `jamie` begins as `james` does and is found where `james` is.
    assert_eq!(0, cache.find(b"jamie"));
    assert_eq!(0, cache.find(b"jam"));
    assert_eq!(2, cache.find(b"sandy"));
    assert_eq!(32, cache.find(b"frank"));
    cache.clear();
    assert_eq!(0, cache.len());
    assert_eq!(32, cache.find(b"james"));
}

#[test]
fn name_cache_holds_thirty_two_names() {
    let mut cache = NameCacheSimd::new();
    for i in 0..32u8 {
        cache.add(&[b'a' + i / 16, b'a' + i % 16, b'x']);
    }
    assert_eq!(32, cache.len());
    for i in 0..32u8 {
        assert_eq!(i, cache.find(&[b'a' + i / 16, b'a' + i % 16, b'x', b'y']));
    }
    assert_eq!(32, cache.find(b"zzz"));
    // Three bytes of nothing are a name like any other, not an empty slot.
    let empty = NameCacheSimd::new();
    assert_eq!(32, empty.find(&[0, 0, 0]));
}

#[test]
fn sizes_round_up_to_powers_of_two() {
    assert_eq!(0, HandVecExpectedSize::round_up_pot2(0));
    assert_eq!(1, HandVecExpectedSize::round_up_pot2(1));
    assert_eq!(2, HandVecExpectedSize::round_up_pot2(2));
    assert_eq!(4, HandVecExpectedSize::round_up_pot2(3));
    assert_eq!(1024, HandVecExpectedSize::round_up_pot2(1024));
    assert_eq!(2048, HandVecExpectedSize::round_up_pot2(1025));
    assert_eq!(1 << 40, HandVecExpectedSize::round_up_pot2((1 << 39) + 1));
    assert_eq!(1usize << 63, HandVecExpectedSize::round_up_pot2(1usize << 63));
    assert_eq!(0, HandVecExpectedSize::round_up_pot2((1usize << 63) + 1));
}

#[test]
fn sizes_keep_the_largest_and_the_mean() {
    let mut a = HandVec::default();
    a.push_str(b"abc");
    a.nums.push(Number(1));
    let mut b = HandVec::default();
    b.push_str(b"abcdefghi");
    let mut sizes = HandVecExpectedSize::default();
    sizes.update(&[a, b]);
    let max = sizes.max_rounded_up();
    assert_eq!(16, max[0]);
    assert_eq!(0, max[1]);
    assert_eq!(1, max[8]);
    let avg = sizes.avg_rounded_up();
    assert_eq!(8, avg[0]);
    assert_eq!(0, avg[8]);
}

#[test]
fn payloads_are_shown_under_a_word() {
    assert_eq!("amount", ActionData::fmt_key(ActionType::Bet));
    assert_eq!("amount", ActionData::fmt_key(ActionType::CollectSidePot3));
    assert_eq!("amount", ActionData::fmt_key(ActionType::UncalledBetReturned));
    assert_eq!("cards", ActionData::fmt_key(ActionType::Dealt));
    assert_eq!("msg", ActionData::fmt_key(ActionType::Say));
    assert_eq!("seat", ActionData::fmt_key(ActionType::Join));
    assert_eq!("data", ActionData::fmt_key(ActionType::CashOut));
    assert_eq!("data", ActionData::fmt_key(ActionType::Check));
}

#[test]
fn streets_are_kept_by_kind() {
    let mut h = HandVec::default();
    let street = poker_log_parser::pklp::Street::default();
    h.streets_mut(poker_log_parser::pklp::StreetType::River).push(street);
    assert_eq!(1, h.rivers.len());
    assert_eq!(1, h.streets(poker_log_parser::pklp::StreetType::River).len());
    assert_eq!(0, h.streets(poker_log_parser::pklp::StreetType::Flop).len());
    assert_eq!(0, h.streets(poker_log_parser::pklp::StreetType::Turn).len());
    assert_eq!(0, h.streets(poker_log_parser::pklp::StreetType::Showdown).len());
}
