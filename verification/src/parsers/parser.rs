//! The line cursor and what every site's parser does with it.
//!
//! A `Parser` walks the lines of one text and fills one arena. Each
//! operation is stated over `State`, the plain-value picture of a parser:
//! what the operation returns and the state it leaves are a function of the
//! state it found.

use vstd::prelude::*;
use crate::parsers::split::{split_lines, line_separator, FastSplit, Split};
use crate::parsers::text::cut;
use crate::pklp::action::{Action, ActionData, ActionType, SEAT_NONE};
use crate::pklp::cards::Cards;
use crate::pklp::hand::{Arena, HandVec, Player};
use crate::pklp::number::Number;
use crate::pklp::span::{span_fits, Span, SpanLike, MAX_SPAN_BEGIN, MAX_SPAN_SIZE};
use crate::simd::{prefix_of, spec_find, NameCacheSimd, LANES, STRIDE};

verus! {

/// A cursor on the lines of a text, and the arena that the text is read
/// into.
pub struct Parser<'a> {
    pub lines: FastSplit<'a, 'static>,
    /// The line the cursor is on; empty once the text is used up.
    pub line: &'a [u8],
    pub data: &'a [u8],
    pub hands: HandVec,
    /// The players of the hand being read.
    pub players: NameCacheSimd,
    /// Where in the players column the players of this hand begin.
    pub players_begin: usize,
    /// Where in the text buffer the text of this hand begins.
    pub src_offset: usize,
    /// Whether the cursor has passed the last line.
    pub at_end: bool,
}

/// A parser as plain values.
pub struct State {
    pub lines: Split,
    pub line: Seq<u8>,
    pub at_end: bool,
    pub hands: Arena,
    pub players: Seq<Seq<u8>>,
    pub players_begin: int,
    pub src_offset: int,
}

impl State {
    /// The state once the cursor has moved to the next line. Past the last
    /// line the cursor stays where it is, on an empty line.
    pub open spec fn advance(self) -> State {
        match self.lines.next() {
            Some(((begin, end), after)) => State {
                lines: after,
                line: self.lines.data.subrange(begin, end),
                at_end: false,
                ..self
            },
            None => State { line: Seq::empty(), at_end: true, ..self },
        }
    }

    /// The cursor: what moving to the next line changes.
    pub open spec fn cursor(self) -> (Split, Seq<u8>, bool) {
        (self.lines, self.line, self.at_end)
    }

    /// A bound on how many more times the cursor can move: it falls with
    /// every move until the text is used up.
    pub open spec fn remaining(self) -> int {
        if self.at_end {
            0
        } else {
            self.lines.remaining() + 1
        }
    }

    pub open spec fn wf(self) -> bool {
        &&& self.lines.wf()
        &&& self.players.len() <= LANES
        &&& 0 <= self.players_begin
        &&& self.players_begin + self.players.len() == self.hands.players.len()
        &&& self.at_end ==> self.lines.remaining() == 0
        &&& 0 <= self.src_offset <= self.hands.src.len()
        &&& forall|k: int|
            self.players_begin <= k < self.hands.players.len() ==> self.hands.has_text(
                (#[trigger] self.hands.players[k]).name,
            )
    }

    /// Whether what the actions added since `old` point at is there.
    pub open spec fn new_actions_ok(self, old: State) -> bool {
        forall|k: int|
            old.hands.actions.len() <= k < self.hands.actions.len() ==> self.hands.action_ok(
                self.src_offset,
                #[trigger] self.hands.actions[k],
            )
    }

    /// Whether what the actions from `begin` on point at is there.
    pub open spec fn actions_ok_from(self, begin: int) -> bool {
        forall|k: int|
            begin <= k < self.hands.actions.len() ==> self.hands.action_ok(
                self.src_offset,
                #[trigger] self.hands.actions[k],
            )
    }

    /// Actions that were there stay there as more is read.
    pub proof fn lemma_actions_ok_from(self, old: State, begin: int)
        requires
            0 <= begin,
            self.hands.grows_from(old.hands),
            self.same_hand(old),
            old.actions_ok_from(begin),
            self.new_actions_ok(old),
        ensures
            self.actions_ok_from(begin),
    {
        assert forall|k: int| begin <= k < self.hands.actions.len() implies self.hands.action_ok(
            self.src_offset,
            #[trigger] self.hands.actions[k],
        ) by {
            if k < old.hands.actions.len() {
                assert(self.hands.actions[k] == old.hands.actions[k]);
                self.hands.lemma_action_ok_grows(old.hands, self.src_offset, old.hands.actions[k]);
            }
        }
    }

    /// Whether `self` came from `old` by reading on: the cursor is sound and
    /// did not move back.
    pub open spec fn moved_on(self, old: State) -> bool {
        self.sound() && self.remaining() <= old.remaining()
    }

    /// Whether the cursor is sound: within its text, and at the end only
    /// where nothing is left.
    pub open spec fn sound(self) -> bool {
        self.lines.wf() && (self.at_end ==> self.lines.remaining() == 0)
    }

    /// Moving to the next line leaves less to read, unless nothing was
    /// left.
    pub proof fn lemma_advance(self)
        requires
            self.sound(),
        ensures
            self.advance().moved_on(self),
            !self.at_end ==> self.advance().remaining() < self.remaining(),
            self.advance().lines.wf(),
    {
        self.lines.lemma_next();
    }

    /// Whether `self` is reading the hand that `old` was reading.
    pub open spec fn same_hand(self, old: State) -> bool {
        &&& self.src_offset == old.src_offset
        &&& self.players_begin == old.players_begin
        &&& self.hands.hands == old.hands.hands
    }

    /// The state with `v` appended to the text buffer, and where `v` stands
    /// there; no change and `None` where the range does not fit a span.
    pub open spec fn push_str(self, v: Seq<u8>) -> (State, Option<Span>) {
        if span_fits(self.hands.src.len() as int, v.len() as int) {
            (
                State { hands: Arena { src: self.hands.src + v, ..self.hands }, ..self },
                Some(Span::spec_new(self.hands.src.len() as int, v.len() as int)),
            )
        } else {
            (self, None)
        }
    }

    /// The id under which `name` is found among the players of this hand:
    /// 32 where it is not. `None` for a name of less than three bytes, which
    /// cannot be looked up.
    pub open spec fn find_player(self, name: Seq<u8>) -> Option<u8> {
        if name.len() < STRIDE {
            None
        } else {
            Some(spec_find(self.players, prefix_of(name)) as u8)
        }
    }

    /// An action of `name` that carries nothing.
    pub open spec fn action_no_data(self, kind: ActionType, name: Seq<u8>) -> Option<Action> {
        match self.find_player(name) {
            Some(id) => Some(Action { kind, player_id: id, data: ActionData::spec_invalid() }),
            None => None,
        }
    }

    /// An action of `name` that carries an amount.
    pub open spec fn action_num(self, kind: ActionType, name: Seq<u8>, amount: Number) -> Option<
        Action,
    > {
        match self.find_player(name) {
            Some(id) => Some(Action { kind, player_id: id, data: ActionData(amount.0) }),
            None => None,
        }
    }

    /// An action of `name` that carries cards: the cards become the last
    /// row of their column and the action holds the row's index.
    pub open spec fn action_cards(self, kind: ActionType, name: Seq<u8>, cards: Cards) -> (
        State,
        Option<Action>,
    ) {
        match self.find_player(name) {
            Some(id) => if self.hands.cards.len() < u32::MAX {
                (
                    State {
                        hands: Arena { cards: self.hands.cards.push(cards), ..self.hands },
                        ..self
                    },
                    Some(
                        Action {
                            kind,
                            player_id: id,
                            data: ActionData(self.hands.cards.len() as u32),
                        },
                    ),
                )
            } else {
                (self, None)
            },
            None => (self, None),
        }
    }

    /// An action of `name` that carries two numbers: they become the last
    /// two rows of their column and the action holds the index of the first.
    pub open spec fn action_num_pair(
        self,
        kind: ActionType,
        name: Seq<u8>,
        v0: Number,
        v1: Number,
    ) -> (State, Option<Action>) {
        match self.find_player(name) {
            Some(id) => if self.hands.nums.len() + 1 < u32::MAX {
                (
                    State {
                        hands: Arena { nums: self.hands.nums.push(v0).push(v1), ..self.hands },
                        ..self
                    },
                    Some(
                        Action {
                            kind,
                            player_id: id,
                            data: ActionData(self.hands.nums.len() as u32),
                        },
                    ),
                )
            } else {
                (self, None)
            },
            None => (self, None),
        }
    }

    /// A new player of this hand: the name goes to the text buffer, the
    /// player becomes the last row of the players column, and the id is the
    /// number of players the hand had. No change and `None` where the name
    /// has less than three bytes, the hand has 32 players already, or the
    /// name does not fit a span.
    pub open spec fn add_player(self, name: Seq<u8>, seat: u8, chips: Number) -> (
        State,
        Option<u8>,
    ) {
        if name.len() >= STRIDE && self.players.len() < LANES && span_fits(
            self.hands.src.len() as int,
            name.len() as int,
        ) {
            (
                State {
                    hands: Arena {
                        src: self.hands.src + name,
                        players: self.hands.players.push(
                            Player {
                                name: Span::spec_new(
                                    self.hands.src.len() as int,
                                    name.len() as int,
                                ),
                                seat,
                                chips,
                            },
                        ),
                        ..self.hands
                    },
                    players: self.players.push(prefix_of(name)),
                    ..self
                },
                Some(self.players.len() as u8),
            )
        } else {
            (self, None)
        }
    }

    /// The id of `name`, which becomes a player without seat or chips where
    /// it is not one yet.
    pub open spec fn player_id(self, name: Seq<u8>) -> (State, Option<u8>) {
        match self.find_player(name) {
            Some(id) => if id != LANES {
                (self, Some(id))
            } else {
                self.add_player(name, SEAT_NONE, Number(0))
            },
            None => (self, None),
        }
    }

    /// The state with a new last row in the actions column.
    pub open spec fn push_action(self, action: Action) -> State {
        State { hands: Arena { actions: self.hands.actions.push(action), ..self.hands }, ..self }
    }

    /// The state with another seat for the player with id `id`.
    pub open spec fn set_seat(self, id: u8, seat: u8) -> State {
        let at = self.players_begin + id;
        State {
            hands: Arena {
                players: self.hands.players.update(
                    at,
                    Player { seat, ..self.hands.players[at] },
                ),
                ..self.hands
            },
            ..self
        }
    }
}

impl<'a> Parser<'a> {
    pub open spec fn view(&self) -> State {
        State {
            lines: self.lines@,
            line: self.line@,
            at_end: self.at_end,
            hands: self.hands@,
            players: self.players@,
            players_begin: self.players_begin as int,
            src_offset: self.src_offset as int,
        }
    }

    pub open spec fn wf(&self) -> bool {
        &&& self@.wf()
        &&& self.players.wf()
        &&& self.lines.haystack() == self.data
    }

    /// A parser on the first line of `s`, filling `hands`.
    pub fn new(s: &'a [u8], hands: HandVec) -> (p: Parser<'a>)
        ensures
            p.wf(),
            p.data == s,
            p@ == (State {
                lines: Split { data: s@, sep: line_separator(s@), prev: 0 },
                line: Seq::empty(),
                at_end: false,
                hands: hands@,
                players: Seq::empty(),
                players_begin: hands@.players.len() as int,
                src_offset: 0,
            }).advance(),
    {
        let lines = split_lines(s);
        let players_begin = hands.players.len();
        let mut p = Parser {
            lines,
            line: cut(s, 0, 0),
            data: s,
            hands,
            players: NameCacheSimd::new(),
            players_begin,
            src_offset: 0,
            at_end: false,
        };
        assert(p.line@ =~= Seq::<u8>::empty());
        p.advance();
        p
    }

    /// Whether the cursor has passed the last line.
    pub fn eof(&self) -> (e: bool)
        ensures
            e == self@.at_end,
    {
        self.at_end
    }

    /// Moves the cursor to the next line.
    pub fn advance(&mut self)
        requires
            old(self).wf(),
        ensures
            final(self).wf(),
            final(self).data == old(self).data,
        final(self)@.hands.grows_from(old(self)@.hands),
        final(self)@.same_hand(old(self)@),
            final(self)@ == old(self)@.advance(),
            !old(self)@.at_end ==> final(self)@.remaining() < old(self)@.remaining(),
            old(self)@.at_end ==> final(self)@.at_end,
    {
        proof {
            self.lines@.lemma_next();
        }
        match self.lines.next() {
            Some(r) => {
                self.line = cut(self.data, r.start, r.end);
                self.at_end = false;
            },
            None => {
                self.line = cut(self.data, 0, 0);
                self.at_end = true;
                assert(self.line@ =~= Seq::<u8>::empty());
            },
        }
    }

    /// Appends `v` to the text buffer.
    pub fn push_str(&mut self, v: &[u8]) -> (s: Option<Span>)
        requires
            old(self).wf(),
        ensures
            final(self).wf(),
            final(self).data == old(self).data,
        final(self)@.hands.grows_from(old(self)@.hands),
        final(self)@.same_hand(old(self)@),
            (final(self)@, s) == old(self)@.push_str(v@),
    {
        if self.hands.src.len() as u64 > MAX_SPAN_BEGIN || v.len() as u64 > MAX_SPAN_SIZE {
            return None;
        }
        Some(self.hands.push_str(v))
    }

    fn find_player(&self, name: &[u8]) -> (id: Option<u8>)
        requires
            self.wf(),
        ensures
            id == self@.find_player(name@),
            id matches Some(i) ==> i == LANES || i < self@.players.len(),
    {
        if name.len() < STRIDE {
            None
        } else {
            Some(self.players.find(name))
        }
    }

    /// An action of `name` that carries nothing.
    pub fn action_no_data(&self, kind: ActionType, name: &[u8]) -> (a: Option<Action>)
        requires
            self.wf(),
        ensures
            a == self@.action_no_data(kind, name@),
    {
        match self.find_player(name) {
            Some(id) => Some(Action::no_data(kind, id)),
            None => None,
        }
    }

    /// An action of `name` that carries an amount.
    pub fn action_num(&mut self, kind: ActionType, name: &[u8], amount: Number) -> (a: Option<
        Action,
    >)
        requires
            old(self).wf(),
        ensures
            final(self).wf(),
            final(self).data == old(self).data,
        final(self)@.hands.grows_from(old(self)@.hands),
        final(self)@.same_hand(old(self)@),
            final(self)@ == old(self)@,
            a == old(self)@.action_num(kind, name@, amount),
    {
        match self.find_player(name) {
            Some(id) => Some(Action::new(kind, id, ActionData::new_num(amount))),
            None => None,
        }
    }

    /// An action of `name` that carries cards.
    pub fn action_cards(&mut self, kind: ActionType, name: &[u8], cards: Cards) -> (a: Option<
        Action,
    >)
        requires
            old(self).wf(),
        ensures
            final(self).wf(),
            final(self).data == old(self).data,
        final(self)@.hands.grows_from(old(self)@.hands),
        final(self)@.same_hand(old(self)@),
            (final(self)@, a) == old(self)@.action_cards(kind, name@, cards),
    {
        match self.find_player(name) {
            Some(player_id) => {
                let n = self.hands.cards.len();
                if n >= u32::MAX as usize {
                    return None;
                }
                self.hands.cards.push(cards);
                Some(Action::new(kind, player_id, ActionData::new_handle(n as u32)))
            },
            None => None,
        }
    }

    /// An action of `name` that carries two numbers.
    pub fn action_num_pair(&mut self, kind: ActionType, name: &[u8], v0: Number, v1: Number) -> (a:
        Option<Action>)
        requires
            old(self).wf(),
        ensures
            final(self).wf(),
            final(self).data == old(self).data,
        final(self)@.hands.grows_from(old(self)@.hands),
        final(self)@.same_hand(old(self)@),
            (final(self)@, a) == old(self)@.action_num_pair(kind, name@, v0, v1),
    {
        match self.find_player(name) {
            Some(player_id) => {
                let n = self.hands.nums.len();
                if n >= u32::MAX as usize - 1 {
                    return None;
                }
                self.hands.nums.push(v0);
                self.hands.nums.push(v1);
                Some(Action::new(kind, player_id, ActionData::new_handle(n as u32)))
            },
            None => None,
        }
    }

    /// Makes `name` a player of this hand and returns the id.
    pub fn add_player(&mut self, name: &[u8], seat: u8, chips: Number) -> (id: Option<u8>)
        requires
            old(self).wf(),
        ensures
            final(self).wf(),
            final(self).data == old(self).data,
        final(self)@.hands.grows_from(old(self)@.hands),
        final(self)@.same_hand(old(self)@),
            (final(self)@, id) == old(self)@.add_player(name@, seat, chips),
    {
        if name.len() < STRIDE || self.players.len() >= LANES as usize
            || self.hands.src.len() as u64 > MAX_SPAN_BEGIN || name.len() as u64 > MAX_SPAN_SIZE {
            return None;
        }
        let n = self.hands.push_str(name);
        let id = self.players.len() as u8;
        self.players.add(name);
        self.hands.players.push(Player { name: n, seat, chips });
        proof {
            Span::lemma_fields(old(self)@.hands.src.len() as int, name@.len() as int);
            assert forall|k: int|
                self@.players_begin <= k < self@.hands.players.len() implies self@.hands.has_text(
                (#[trigger] self@.hands.players[k]).name,
            ) by {
                if k < old(self)@.hands.players.len() {
                    assert(old(self)@.hands.has_text(old(self)@.hands.players[k].name));
                }
            }
        }
        Some(id)
    }

    /// The id of `name`, which becomes a player where it is not one yet.
    pub fn player_id(&mut self, name: &[u8]) -> (id: Option<u8>)
        requires
            old(self).wf(),
        ensures
            final(self).wf(),
            final(self).data == old(self).data,
        final(self)@.hands.grows_from(old(self)@.hands),
        final(self)@.same_hand(old(self)@),
            (final(self)@, id) == old(self)@.player_id(name@),
            id matches Some(i) ==> i < final(self)@.players.len(),
    {
        match self.find_player(name) {
            Some(id) => {
                if id != LANES {
                    Some(id)
                } else {
                    self.add_player(name, SEAT_NONE, Number(0))
                }
            },
            None => None,
        }
    }

    /// Gives the player with id `id` another seat.
    pub fn set_seat(&mut self, id: u8, seat: u8)
        requires
            old(self).wf(),
            id < old(self)@.players.len(),
        ensures
            final(self).wf(),
            final(self).data == old(self).data,
        final(self)@.hands.grows_from(old(self)@.hands),
        final(self)@.same_hand(old(self)@),
            final(self)@ == old(self)@.set_seat(id, seat),
    {
        let _rows = self.hands.players.len();
        let at = self.players_begin + id as usize;
        let player = self.hands.players[at];
        self.hands.players.set(at, Player { seat, ..player });
    }

    /// The row of the player with id `id`, to be changed in place. What is
    /// written to it is the caller's to keep sound: the name must stay a
    /// range of the text.
    pub fn player_mut(&mut self, id: u8) -> (player: &mut Player)
        requires
            old(self).wf(),
            id < old(self)@.players.len(),
        ensures
            *player == old(self)@.hands.players[old(self)@.players_begin + id],
            final(self)@ == (State {
                hands: Arena {
                    players: old(self)@.hands.players.update(
                        old(self)@.players_begin + id,
                        *final(player),
                    ),
                    ..old(self)@.hands
                },
                ..old(self)@
            }),
            final(self).data == old(self).data,
    {
        let _rows = self.hands.players.len();
        let at = self.players_begin + id as usize;
        &mut self.hands.players[at]
    }

    /// Adds `action` as the last row of the actions column.
    pub fn push_action(&mut self, action: Action)
        requires
            old(self).wf(),
        ensures
            final(self).wf(),
            final(self).data == old(self).data,
        final(self)@.hands.grows_from(old(self)@.hands),
        final(self)@.same_hand(old(self)@),
            final(self)@ == old(self)@.push_action(action),
    {
        self.hands.actions.push(action);
    }
}

} // verus!
