//! Hands and the rows they refer to.

use vstd::prelude::*;
use crate::pklp::action::{ActionData, SEAT_NONE};
use crate::pklp::cards::Cards;
use crate::pklp::datetime::DateTime;
use crate::pklp::number::Number;
use crate::pklp::span::{
    ActionSpan, FlopSpan, PlayerSpan, RiverSpan, ShowdownSpan, Span, SpanLike, TurnSpan,
    WinnerSpan,
};

verus! {

/// The kinds of streets that a hand can go through after the deal.
#[derive(Debug, Clone, Copy, PartialEq, Eq, Structural)]
pub enum StreetType {
    Flop,
    Turn,
    River,
    Showdown,
}

/// How much a player may bet.
#[derive(Debug, Clone, Copy, PartialEq, Eq, Structural)]
pub enum BetType {
    NoLimit,
    Limit,
    PotLimit,
}

/// The game that is played.
#[derive(Debug, Clone, Copy, PartialEq, Eq, Structural)]
pub enum GameType {
    HoldEm,
    Omaha,
    OmahaHiLo,
}

/// The sites whose texts are recognized. Hands are read of the first
/// three.
#[derive(Debug, Clone, Copy, PartialEq, Eq, Structural)]
pub enum PokerSite {
    PokerStars,
    /// The part of the PokerStars format that logs of Pluribus matches use.
    PokerStarsPluribus,
    OnGame,
    Absolute,
    EverLeaf,
    BetOnline,
    FullTiltPoker,
    PacificPoker,
    PokerTracker,
    PartyPoker,
    GGPoker,
    Winamax,
    KingsClub,
    Bovada,
    Enet,
    Cake,
    Pkr,
    Winning,
}

/// The four lists of streets of one hand. A hand that is run twice has two
/// boards of a kind, so each is a range and not a single row.
pub type StreetArray = (FlopSpan, TurnSpan, RiverSpan, ShowdownSpan);

/// What a hand says before its cards are dealt: where and what is played,
/// for how much, and by whom.
#[derive(Debug, Clone, Copy, PartialEq, Eq)]
pub struct Header {
    pub players: PlayerSpan,
    pub max_players: u8,
    pub site: PokerSite,
    pub game_type: GameType,
    pub dealer: u8,
    pub hero: u8,
    pub currency: char,
    pub ante: Number,
    pub small_blind: Number,
    pub big_blind: Number,
    pub bet_type: BetType,
    pub bet_cap: Number,
    pub id: Span,
    pub table_name: Span,
    pub actions: ActionSpan,
    pub start_date: DateTime,
    pub is_tournament: bool,
}

/// One round of betting, or the show-down: the cards that came and what
/// the players did.
#[derive(Debug, Clone, Copy, PartialEq, Eq)]
pub struct Street {
    pub cards: Cards,
    /// Which board of the hand this street belongs to, counted from 0.
    pub id: u8,
    pub actions: ActionSpan,
}

/// The pots of a hand. The main pot is the total where there is no side
/// pot.
#[derive(Debug, Clone, Copy, PartialEq, Eq)]
pub struct PotInfo {
    pub total: Number,
    pub rake: Number,
    pub main: Number,
    pub side: [Number; 3],
}

/// How a hand ended: the pots, who won, and what became of each seat.
#[derive(Debug, Clone, Copy, PartialEq, Eq)]
pub struct Summary {
    pub pot: PotInfo,
    pub winners: WinnerSpan,
    pub actions: ActionSpan,
}

/// A player of one hand. The id of a player is the place among the players
/// of the hand.
#[derive(Debug, Clone, Copy, PartialEq, Eq)]
pub struct Player {
    pub name: Span,
    pub chips: Number,
    pub seat: u8,
}

/// What a player won in one run of a hand.
#[derive(Debug, Clone, Copy, PartialEq, Eq, Structural)]
pub struct Winner {
    pub amount: Number,
    pub player_id: u8,
    /// Which run of the hand the amount was won in, counted from 0.
    pub game_id: u8,
}

/// One hand, from the deal to the summary.
#[derive(Debug, Clone, Copy, PartialEq, Eq)]
pub struct Hand {
    pub header: Header,
    pub preflop: Street,
    pub summary: Summary,
    pub streets: StreetArray,
    /// Where in the text buffer this hand's own text begins. Messages are
    /// placed relative to it.
    pub src_offset: usize,
}

impl Default for PokerSite {
    fn default() -> (s: Self)
        ensures
            s == PokerSite::PokerStars,
    {
        PokerSite::PokerStars
    }
}

impl Default for GameType {
    fn default() -> (s: Self)
        ensures
            s == GameType::HoldEm,
    {
        GameType::HoldEm
    }
}

impl Default for BetType {
    fn default() -> (s: Self)
        ensures
            s == BetType::NoLimit,
    {
        BetType::NoLimit
    }
}

impl Header {
    /// A header with nothing read into it yet.
    pub open spec fn spec_default() -> Header {
        Header {
            players: PlayerSpan::spec_new(0, 0),
            max_players: 0,
            site: PokerSite::PokerStars,
            game_type: GameType::HoldEm,
            dealer: 0,
            hero: 0,
            currency: '\0',
            ante: Number(0),
            small_blind: Number(0),
            big_blind: Number(0),
            bet_type: BetType::NoLimit,
            bet_cap: Number(0),
            id: Span::spec_new(0, 0),
            table_name: Span::spec_new(0, 0),
            actions: ActionSpan::spec_new(0, 0),
            start_date: DateTime(0),
            is_tournament: false,
        }
    }
}

impl Default for Header {
    fn default() -> (h: Self)
        ensures
            h == Header::spec_default(),
    {
        Header {
            players: PlayerSpan::new(0, 0),
            max_players: 0,
            site: PokerSite::PokerStars,
            game_type: GameType::HoldEm,
            dealer: 0,
            hero: 0,
            currency: '\0',
            ante: Number(0),
            small_blind: Number(0),
            big_blind: Number(0),
            bet_type: BetType::NoLimit,
            bet_cap: Number(0),
            id: Span::new(0, 0),
            table_name: Span::new(0, 0),
            actions: ActionSpan::new(0, 0),
            start_date: DateTime(0),
            is_tournament: false,
        }
    }
}

impl Default for Street {
    fn default() -> (s: Self)
        ensures
            s.cards.wf(),
            s.cards.size == 0,
            s.id == 0,
            s.actions == ActionSpan::spec_new(0, 0),
    {
        Street { cards: Cards::default(), id: 0, actions: ActionSpan::new(0, 0) }
    }
}

impl Default for PotInfo {
    fn default() -> (p: Self)
        ensures
            p.total == Number(0),
            p.rake == Number(0),
            p.main == Number(0),
            p.side@ == seq![Number(0), Number(0), Number(0)],
    {
        let p = PotInfo {
            total: Number(0),
            rake: Number(0),
            main: Number(0),
            side: [Number(0), Number(0), Number(0)],
        };
        assert(p.side@ =~= seq![Number(0), Number(0), Number(0)]);
        p
    }
}

impl Default for Summary {
    fn default() -> (s: Self)
        ensures
            s.pot.total == Number(0),
            s.pot.rake == Number(0),
            s.pot.main == Number(0),
            s.pot.side@ == seq![Number(0), Number(0), Number(0)],
            s.winners == WinnerSpan::spec_new(0, 0),
            s.actions == ActionSpan::spec_new(0, 0),
    {
        Summary {
            pot: PotInfo::default(),
            winners: WinnerSpan::new(0, 0),
            actions: ActionSpan::new(0, 0),
        }
    }
}

impl Default for Player {
    fn default() -> (p: Self)
        ensures
            p == (Player { name: Span::spec_new(0, 0), chips: Number(0), seat: 0 }),
    {
        Player { name: Span::new(0, 0), chips: Number(0), seat: 0 }
    }
}

impl Default for Winner {
    fn default() -> (w: Self)
        ensures
            w == (Winner { amount: Number(0), player_id: 0, game_id: 0 }),
    {
        Winner { amount: Number(0), player_id: 0, game_id: 0 }
    }
}

impl Default for Hand {
    fn default() -> (h: Self)
        ensures
            h.header == Header::spec_default(),
            h.preflop.cards.wf(),
            h.preflop.cards.size == 0,
            h.preflop.id == 0,
            h.preflop.actions == ActionSpan::spec_new(0, 0),
            h.summary.pot.total == Number(0),
            h.summary.pot.rake == Number(0),
            h.summary.pot.main == Number(0),
            h.summary.pot.side@ == seq![Number(0), Number(0), Number(0)],
            h.summary.winners == WinnerSpan::spec_new(0, 0),
            h.summary.actions == ActionSpan::spec_new(0, 0),
            h.streets == (
                FlopSpan::spec_new(0, 0),
                TurnSpan::spec_new(0, 0),
                RiverSpan::spec_new(0, 0),
                ShowdownSpan::spec_new(0, 0),
            ),
            h.src_offset == 0,
    {
        Hand {
            header: Header::default(),
            preflop: Street::default(),
            summary: Summary::default(),
            streets: (FlopSpan::new(0, 0), TurnSpan::new(0, 0), RiverSpan::new(0, 0), ShowdownSpan::new(0, 0)),
            src_offset: 0,
        }
    }
}

impl Hand {
    pub fn flops(&self) -> (s: FlopSpan)
        ensures
            s == self.streets.0,
    {
        self.streets.0
    }

    pub fn turns(&self) -> (s: TurnSpan)
        ensures
            s == self.streets.1,
    {
        self.streets.1
    }

    pub fn rivers(&self) -> (s: RiverSpan)
        ensures
            s == self.streets.2,
    {
        self.streets.2
    }

    pub fn showdowns(&self) -> (s: ShowdownSpan)
        ensures
            s == self.streets.3,
    {
        self.streets.3
    }
}

/// The arena: the text and every column of rows, each growing by push and
/// never shrinking. Rows refer to each other by spans and indexes into these
/// columns.
#[derive(Debug, Clone, PartialEq, Eq)]
pub struct HandVec {
    pub src: Vec<u8>,
    pub hands: Vec<Hand>,
    pub players: Vec<Player>,
    pub flops: Vec<Street>,
    pub turns: Vec<Street>,
    pub rivers: Vec<Street>,
    pub showdowns: Vec<Street>,
    pub actions: Vec<Action>,
    pub nums: Vec<Number>,
    pub cards: Vec<Cards>,
    pub winners: Vec<Winner>,
}

/// What an arena holds, as plain sequences.
pub struct Arena {
    pub src: Seq<u8>,
    pub hands: Seq<Hand>,
    pub players: Seq<Player>,
    pub flops: Seq<Street>,
    pub turns: Seq<Street>,
    pub rivers: Seq<Street>,
    pub showdowns: Seq<Street>,
    pub actions: Seq<Action>,
    pub nums: Seq<Number>,
    pub cards: Seq<Cards>,
    pub winners: Seq<Winner>,
}

use crate::pklp::action::Action;

impl Arena {
    pub open spec fn empty() -> Arena {
        Arena {
            src: Seq::empty(),
            hands: Seq::empty(),
            players: Seq::empty(),
            flops: Seq::empty(),
            turns: Seq::empty(),
            rivers: Seq::empty(),
            showdowns: Seq::empty(),
            actions: Seq::empty(),
            nums: Seq::empty(),
            cards: Seq::empty(),
            winners: Seq::empty(),
        }
    }

    /// The streets of kind `t`.
    pub open spec fn streets(self, t: StreetType) -> Seq<Street> {
        match t {
            StreetType::Flop => self.flops,
            StreetType::Turn => self.turns,
            StreetType::River => self.rivers,
            StreetType::Showdown => self.showdowns,
        }
    }

    /// The bytes that `s` covers.
    pub open spec fn text(self, s: Span) -> Seq<u8> {
        self.src.subrange(s.spec_begin(), s.spec_begin() + s.spec_size())
    }

    /// Whether `s` lies within the text.
    pub open spec fn has_text(self, s: Span) -> bool {
        s.spec_begin() + s.spec_size() <= self.src.len()
    }

    /// Whether `self` has the hands, streets, actions and winners that `old`
    /// has: reading one action changes none of them.
    pub open spec fn keeps_rows(self, old: Arena) -> bool {
        &&& self.hands == old.hands
        &&& self.flops == old.flops
        &&& self.turns == old.turns
        &&& self.rivers == old.rivers
        &&& self.showdowns == old.showdowns
        &&& self.actions == old.actions
        &&& self.winners == old.winners
    }

    /// Whether `self` came from `old` by reading on: every column begins
    /// with the rows it had, unchanged but for the seat of a player, which
    /// a later line can correct.
    pub open spec fn grows_from(self, old: Arena) -> bool {
        &&& old.src.is_prefix_of(self.src)
        &&& old.hands.is_prefix_of(self.hands)
        &&& old.players.len() <= self.players.len()
        &&& forall|i: int|
            0 <= i < old.players.len() ==> (#[trigger] self.players[i]).name == old.players[i].name
                && self.players[i].chips == old.players[i].chips
        &&& old.flops.is_prefix_of(self.flops)
        &&& old.turns.is_prefix_of(self.turns)
        &&& old.rivers.is_prefix_of(self.rivers)
        &&& old.showdowns.is_prefix_of(self.showdowns)
        &&& old.actions.is_prefix_of(self.actions)
        &&& old.nums.is_prefix_of(self.nums)
        &&& old.cards.is_prefix_of(self.cards)
        &&& old.winners.is_prefix_of(self.winners)
    }
}

impl Arena {
    /// Text that was there reads the same as the arena grows.
    pub proof fn lemma_text_grows(self, old: Arena, s: Span)
        requires
            self.grows_from(old),
            old.has_text(s),
        ensures
            self.has_text(s),
            self.text(s) == old.text(s),
    {
        s.lemma_canonical();
        assert(self.text(s) =~= old.text(s));
    }
}

impl View for HandVec {
    type V = Arena;

    open spec fn view(&self) -> Arena {
        Arena {
            src: self.src@,
            hands: self.hands@,
            players: self.players@,
            flops: self.flops@,
            turns: self.turns@,
            rivers: self.rivers@,
            showdowns: self.showdowns@,
            actions: self.actions@,
            nums: self.nums@,
            cards: self.cards@,
            winners: self.winners@,
        }
    }
}

impl HandVec {
    pub fn new() -> (v: Self)
        ensures
            v@ == Arena::empty(),
    {
        HandVec {
            src: Vec::with_capacity(131072),
            hands: Vec::with_capacity(1024),
            players: Vec::with_capacity(4096),
            flops: Vec::with_capacity(512),
            turns: Vec::with_capacity(256),
            rivers: Vec::with_capacity(256),
            showdowns: Vec::with_capacity(16),
            actions: Vec::with_capacity(8192),
            nums: Vec::with_capacity(256),
            cards: Vec::with_capacity(512),
            winners: Vec::with_capacity(1024),
        }
    }

    /// An arena with nothing in it and no room set aside.
    pub fn empty() -> (v: Self)
        ensures
            v@ == Arena::empty(),
    {
        HandVec {
            src: Vec::new(),
            hands: Vec::new(),
            players: Vec::new(),
            flops: Vec::new(),
            turns: Vec::new(),
            rivers: Vec::new(),
            showdowns: Vec::new(),
            actions: Vec::new(),
            nums: Vec::new(),
            cards: Vec::new(),
            winners: Vec::new(),
        }
    }

    /// Appends `v` to the text and returns where it now stands.
    pub fn push_str(&mut self, v: &[u8]) -> (s: Span)
        requires
            crate::pklp::span::span_fits(old(self).src@.len() as int, v@.len() as int),
        ensures
            final(self)@ == (Arena { src: old(self).src@ + v@, ..old(self)@ }),
            s == Span::spec_new(old(self).src@.len() as int, v@.len() as int),
            final(self)@.text(s) == v@,
    {
        let begin = self.src.len();
        let mut i: usize = 0;
        while i < v.len()
            invariant
                i <= v@.len(),
                self.src@ == old(self).src@ + v@.subrange(0, i as int),
                self.hands == old(self).hands,
                self.players == old(self).players,
                self.flops == old(self).flops,
                self.turns == old(self).turns,
                self.rivers == old(self).rivers,
                self.showdowns == old(self).showdowns,
                self.actions == old(self).actions,
                self.nums == old(self).nums,
                self.cards == old(self).cards,
                self.winners == old(self).winners,
            decreases v@.len() - i,
        {
            self.src.push(v[i]);
            i += 1;
        }
        assert(v@.subrange(0, v@.len() as int) == v@);
        proof {
            Span::lemma_fields(begin as int, v@.len() as int);
            assert(self@.text(Span::spec_new(begin as int, v@.len() as int)) =~= v@);
        }
        Span::new(begin, v.len())
    }

    /// The bytes that `s` covers.
    pub fn text_of(&self, s: Span) -> (t: &[u8])
        requires
            self@.has_text(s),
        ensures
            t@ == self@.text(s),
    {
        proof {
            s.lemma_canonical();
        }
        let text = self.src.as_slice();
        let _len = text.len();
        vstd::slice::slice_subrange(text, s.begin(), s.end())
    }

    /// The column of streets of kind `t`.
    pub fn streets(&self, t: StreetType) -> (v: &Vec<Street>)
        ensures
            v@ == self@.streets(t),
    {
        match t {
            StreetType::Flop => &self.flops,
            StreetType::Turn => &self.turns,
            StreetType::River => &self.rivers,
            StreetType::Showdown => &self.showdowns,
        }
    }
}

impl HandVec {
    /// The column of streets of kind `t`, to be changed in place.
    pub fn streets_mut(&mut self, t: StreetType) -> (v: &mut Vec<Street>)
        ensures
            v@ == old(self)@.streets(t),
            final(self)@ == (match t {
                StreetType::Flop => Arena { flops: final(v)@, ..old(self)@ },
                StreetType::Turn => Arena { turns: final(v)@, ..old(self)@ },
                StreetType::River => Arena { rivers: final(v)@, ..old(self)@ },
                StreetType::Showdown => Arena { showdowns: final(v)@, ..old(self)@ },
            }),
    {
        match t {
            StreetType::Flop => &mut self.flops,
            StreetType::Turn => &mut self.turns,
            StreetType::River => &mut self.rivers,
            StreetType::Showdown => &mut self.showdowns,
        }
    }
}

impl Default for HandVec {
    fn default() -> (v: Self)
        ensures
            v@ == Arena::empty(),
    {
        HandVec::new()
    }
}

} // verus!
