//! Playing cards, and the short lists of them that a street or a hand shows.

use vstd::prelude::*;

verus! {

/// The four suits, in the order of their two-bit codes.
#[derive(Debug, Clone, Copy, PartialEq, Eq, Structural)]
pub enum Suit {
    Spade,
    Club,
    Heart,
    Diamond,
}

/// A rank in the low six bits and a suit in the high two.
#[derive(Debug, Clone, Copy, PartialEq, Eq, Structural)]
pub struct Card(pub u8);

/// Up to five cards: no street ever shows more.
#[derive(Debug, Clone, Copy, PartialEq, Eq)]
pub struct Cards {
    pub values: [Card; 5],
    pub size: u8,
}

/// The largest rank that fits beside the suit.
pub const MAX_RANK: u8 = 63;

impl Suit {
    /// The suit's two-bit code.
    pub open spec fn spec_code(self) -> u8 {
        match self {
            Suit::Spade => 0,
            Suit::Club => 1,
            Suit::Heart => 2,
            Suit::Diamond => 3,
        }
    }

    pub open spec fn spec_from_u8(v: u8) -> Suit {
        if v == 0 {
            Suit::Spade
        } else if v == 1 {
            Suit::Club
        } else if v == 2 {
            Suit::Heart
        } else {
            Suit::Diamond
        }
    }

    pub open spec fn spec_char(self) -> char {
        match self {
            Suit::Spade => 's',
            Suit::Club => 'c',
            Suit::Heart => 'h',
            Suit::Diamond => 'd',
        }
    }

    /// The suit written as the byte `b`, in either case.
    pub open spec fn spec_from_byte(b: u8) -> Option<Suit> {
        if b == 0x73 || b == 0x53 {
            Some(Suit::Spade)
        } else if b == 0x68 || b == 0x48 {
            Some(Suit::Heart)
        } else if b == 0x64 || b == 0x44 {
            Some(Suit::Diamond)
        } else if b == 0x63 || b == 0x43 {
            Some(Suit::Club)
        } else {
            None
        }
    }

    pub fn code(self) -> (v: u8)
        ensures
            v == self.spec_code(),
            v < 4,
    {
        match self {
            Suit::Spade => 0,
            Suit::Club => 1,
            Suit::Heart => 2,
            Suit::Diamond => 3,
        }
    }

    pub fn from_u8(v: u8) -> (s: Suit)
        requires
            v < 4,
        ensures
            s == Suit::spec_from_u8(v),
            s.spec_code() == v,
    {
        if v == 0 {
            Suit::Spade
        } else if v == 1 {
            Suit::Club
        } else if v == 2 {
            Suit::Heart
        } else {
            Suit::Diamond
        }
    }

    pub fn char(self) -> (c: char)
        ensures
            c == self.spec_char(),
    {
        match self {
            Suit::Spade => 's',
            Suit::Club => 'c',
            Suit::Heart => 'h',
            Suit::Diamond => 'd',
        }
    }

    pub fn from_char(c: char) -> (s: Suit)
        requires
            c == 's' || c == 'c' || c == 'h' || c == 'd',
        ensures
            s.spec_char() == c,
    {
        if c == 's' {
            Suit::Spade
        } else if c == 'c' {
            Suit::Club
        } else if c == 'h' {
            Suit::Heart
        } else {
            Suit::Diamond
        }
    }

    pub fn from_byte(b: u8) -> (s: Option<Suit>)
        ensures
            s == Suit::spec_from_byte(b),
    {
        if b == 0x73 || b == 0x53 {
            Some(Suit::Spade)
        } else if b == 0x68 || b == 0x48 {
            Some(Suit::Heart)
        } else if b == 0x64 || b == 0x44 {
            Some(Suit::Diamond)
        } else if b == 0x63 || b == 0x43 {
            Some(Suit::Club)
        } else {
            None
        }
    }

    /// The suit's pip.
    pub fn unicode(self) -> (c: char)
        ensures
            c == (match self {
                Suit::Spade => '\u{2660}',
                Suit::Heart => '\u{2665}',
                Suit::Club => '\u{2663}',
                Suit::Diamond => '\u{2666}',
            }),
    {
        match self {
            Suit::Spade => '\u{2660}',
            Suit::Heart => '\u{2665}',
            Suit::Club => '\u{2663}',
            Suit::Diamond => '\u{2666}',
        }
    }
}

proof fn lemma_card_bits(n: u8, s: u8)
    by (bit_vector)
    requires
        n <= 63,
        s < 4,
    ensures
        (n | (s << 6)) & 0x3f == n,
        (n | (s << 6)) >> 6 == s,
{
}

proof fn lemma_card_split(w: u8)
    by (bit_vector)
    ensures
        w >> 6 < 4,
        w & 0x3f <= 63,
        (w & 0x3f) | ((w >> 6) << 6) == w,
{
}

impl Card {
    pub open spec fn spec_new(n: u8, suit: Suit) -> Card {
        Card(n | (suit.spec_code() << 6))
    }

    pub open spec fn spec_n(self) -> u8 {
        self.0 & 0x3f
    }

    pub open spec fn spec_suit(self) -> Suit {
        Suit::spec_from_u8(self.0 >> 6)
    }

    /// The rank that the byte `b` writes: `A`, `2` to `9`, `T` (or the `1`
    /// of `10`), `J`, `Q`, `K`.
    pub open spec fn spec_rank_of_byte(b: u8) -> Option<u8> {
        if b == 0x41 {
            Some(1u8)
        } else if b == 0x54 || b == 0x31 {
            Some(10u8)
        } else if b == 0x4a {
            Some(11u8)
        } else if b == 0x51 {
            Some(12u8)
        } else if b == 0x4b {
            Some(13u8)
        } else if 0x32 <= b <= 0x39 {
            Some((b - 0x30) as u8)
        } else {
            None
        }
    }

    /// The card that `text` begins with: a rank, then a suit; after the `1`
    /// of `10` one more byte is passed over. What follows the suit is not
    /// read.
    pub open spec fn spec_parse(text: Seq<u8>) -> Option<Card> {
        if text.len() < 2 {
            None
        } else {
            match Card::spec_rank_of_byte(text[0]) {
                None => None,
                Some(n) => {
                    let at: int = if text[0] == 0x31 {
                        2
                    } else {
                        1
                    };
                    if at >= text.len() {
                        None
                    } else {
                        match Suit::spec_from_byte(text[at]) {
                            None => None,
                            Some(suit) => Some(Card::spec_new(n, suit)),
                        }
                    }
                },
            }
        }
    }

    /// A card is its rank and its suit.
    pub proof fn lemma_fields(n: u8, suit: Suit)
        requires
            n <= MAX_RANK,
        ensures
            Card::spec_new(n, suit).spec_n() == n,
            Card::spec_new(n, suit).spec_suit() == suit,
    {
        lemma_card_bits(n, suit.spec_code());
    }

    pub fn new(n: u8, suit: Suit) -> (c: Card)
        requires
            n <= MAX_RANK,
        ensures
            c == Card::spec_new(n, suit),
            c.spec_n() == n,
            c.spec_suit() == suit,
    {
        proof {
            lemma_card_bits(n, suit.spec_code());
        }
        Card(n | (suit.code() << 6))
    }

    pub fn n(self) -> (n: u8)
        ensures
            n == self.spec_n(),
            n <= MAX_RANK,
    {
        proof {
            lemma_card_split(self.0);
        }
        self.0 & 0x3f
    }

    pub fn suit(self) -> (s: Suit)
        ensures
            s == self.spec_suit(),
    {
        proof {
            lemma_card_split(self.0);
        }
        Suit::from_u8(self.0 >> 6)
    }

    /// The letter or digit that stands for rank `n`.
    pub open spec fn spec_num_to_char(n: u8) -> char {
        if n == 1 {
            'A'
        } else if n == 10 {
            'T'
        } else if n == 11 {
            'J'
        } else if n == 12 {
            'Q'
        } else if n == 13 {
            'K'
        } else {
            ((0x30 + n) as u8) as char
        }
    }

    pub fn num_to_char(n: u8) -> (c: char)
        requires
            n <= 0xff - 0x30,
        ensures
            c == Card::spec_num_to_char(n),
    {
        if n == 1 {
            'A'
        } else if n == 10 {
            'T'
        } else if n == 11 {
            'J'
        } else if n == 12 {
            'Q'
        } else if n == 13 {
            'K'
        } else {
            (0x30 + n) as char
        }
    }

    fn rank_of_byte(b: u8) -> (r: Option<u8>)
        ensures
            r == Card::spec_rank_of_byte(b),
            r matches Some(n) ==> 1 <= n <= 13,
    {
        if b == 0x41 {
            Some(1u8)
        } else if b == 0x54 || b == 0x31 {
            Some(10u8)
        } else if b == 0x4a {
            Some(11u8)
        } else if b == 0x51 {
            Some(12u8)
        } else if b == 0x4b {
            Some(13u8)
        } else if 0x32 <= b && b <= 0x39 {
            Some(b - 0x30)
        } else {
            None
        }
    }

    /// Reads the card that `text` begins with.
    pub fn parse(text: &[u8]) -> (c: Option<Card>)
        ensures
            c == Card::spec_parse(text@),
    {
        if text.len() < 2 {
            return None;
        }
        match Card::rank_of_byte(text[0]) {
            None => None,
            Some(n) => {
                let at: usize = if text[0] == 0x31 {
                    2
                } else {
                    1
                };
                if at >= text.len() {
                    None
                } else {
                    match Suit::from_byte(text[at]) {
                        None => None,
                        Some(suit) => Some(Card::new(n, suit)),
                    }
                }
            },
        }
    }
}

impl Cards {
    /// The card that fills the slots that do not count.
    pub open spec fn filler() -> Card {
        Card::spec_new(1, Suit::Spade)
    }

    /// Whether the count is one that the five slots can hold, and every slot
    /// beyond the count still holds the filler. Such a list is known by its
    /// view alone.
    pub open spec fn wf(&self) -> bool {
        &&& self.size <= 5
        &&& forall|i: int| self.size <= i < 5 ==> self.values[i] == Cards::filler()
    }

    /// The cards held, in the order they were pushed.
    pub open spec fn view(&self) -> Seq<Card> {
        self.values@.subrange(0, self.size as int)
    }

    /// Two well-formed lists with the same cards are the same list.
    pub proof fn lemma_view_injective(a: Cards, b: Cards)
        requires
            a.wf(),
            b.wf(),
            a@ == b@,
        ensures
            a == b,
    {
        assert(a.size == b.size) by {
            assert(a@.len() == a.size);
            assert(b@.len() == b.size);
        }
        assert forall|i: int| 0 <= i < 5 implies a.values[i] == b.values[i] by {
            if i < a.size {
                assert(a@[i] == a.values[i]);
                assert(b@[i] == b.values[i]);
            }
        }
        assert(a.values =~= b.values);
    }

    pub fn push(&mut self, card: Card)
        requires
            old(self).size < 5,
        ensures
            final(self).size == old(self).size + 1,
            final(self)@ == old(self)@.push(card),
            old(self).wf() ==> final(self).wf(),
    {
        self.values[self.size as usize] = card;
        self.size += 1;
        assert(self@ =~= old(self)@.push(card));
    }

    pub fn values(&self) -> (v: &[Card])
        requires
            self.size <= 5,
        ensures
            v@ == self@,
    {
        vstd::slice::slice_subrange(self.values.as_slice(), 0, self.size as usize)
    }

    pub fn len(&self) -> (n: usize)
        ensures
            n == self.size,
    {
        self.size as usize
    }

    pub fn get(&self, index: usize) -> (c: Card)
        requires
            index < 5,
        ensures
            c == self.values[index as int],
    {
        self.values[index]
    }
}

impl Default for Cards {
    fn default() -> (c: Self)
        ensures
            c.wf(),
            c.size == 0,
            c@ == Seq::<Card>::empty(),
    {
        let c = Cards { values: [Card::new(1, Suit::Spade); 5], size: 0 };
        assert(c@ =~= Seq::<Card>::empty());
        c
    }
}

} // verus!
