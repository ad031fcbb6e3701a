//! A whole hand, and a whole text of hands.

use vstd::prelude::*;
use crate::parsers::header::{parse_header, Cursor};
use crate::parsers::parser::{Parser, State};
use crate::parsers::stages::is_pokerstars;
use crate::parsers::streets::{parse_preflop, parse_streets};
use crate::parsers::summary::parse_summary;
use crate::parsers::text::{lit, spec_starts_with, starts_with};
use crate::pklp::hand::{Arena, Hand, HandVec, PokerSite};
use crate::pklp::span::{span_fits, PlayerSpan, SpanLike, MAX_SPAN_BEGIN};
use crate::simd::NameCacheSimd;

verus! {

/// Whether hands of `site` can be read.
pub open spec fn is_implemented(site: PokerSite) -> bool {
    site == PokerSite::PokerStars || site == PokerSite::PokerStarsPluribus || site
        == PokerSite::OnGame
}

impl State {
    /// The state at the start of a hand: no players yet, and the hand's
    /// players and text begin where their columns now end.
    pub open spec fn begin_hand(self) -> State {
        State {
            players: Seq::empty(),
            players_begin: self.hands.players.len() as int,
            src_offset: self.hands.src.len() as int,
            ..self
        }
    }

    /// One hand: the header, what lies before the flop, the streets and
    /// the summary, read one after the other; nothing where one of them
    /// cannot be read. The players of the hand are those added while it was
    /// read.
    #[verifier::opaque]
    pub open spec fn hand(self, site: PokerSite) -> (State, Option<Hand>) {
        let begun = self.begin_hand();
        let (s1, header) = begun.header(site);
        match header {
            None => (s1, None),
            Some(header) => {
                let (s2, preflop) = s1.preflop(site, header.currency);
                match preflop {
                    None => (s2, None),
                    Some(preflop) => {
                        let (s3, streets) = s2.streets(site, header.currency);
                        match streets {
                            None => (s3, None),
                            Some(streets) => {
                                let (s4, summary) = s3.summary(site, header.currency);
                                match summary {
                                    None => (s4, None),
                                    Some(summary) => if s4.players_begin > MAX_SPAN_BEGIN {
                                        (s4, None)
                                    } else {
                                        (
                                            s4,
                                            Some(
                                                Hand {
                                                    header: crate::pklp::hand::Header {
                                                        players: PlayerSpan::spec_new(
                                                            s4.players_begin,
                                                            s4.players.len() as int,
                                                        ),
                                                        ..header
                                                    },
                                                    preflop,
                                                    streets,
                                                    summary,
                                                    src_offset: s4.src_offset as usize,
                                                },
                                            ),
                                        )
                                    },
                                }
                            },
                        }
                    },
                }
            },
        }
    }

    /// The lines passed over after a hand that could not be read, up to
    /// where the next hand may begin. A PokerStars hand begins with
    /// `PokerStars `; an OnGame hand begins after the line `***** End ...`
    /// of the one before it, or at a line `***** ...` of its own; Pluribus
    /// logs are read on from where they are.
    pub open spec fn sync(self, site: PokerSite) -> State
        decreases self.remaining(),
        when self.lines.wf()
    {
        if site == PokerSite::PokerStars {
            if !self.at_end && !spec_starts_with(self.line, lit("PokerStars ")) {
                proof {
                    self.lines.lemma_next();
                }
                self.advance().sync(site)
            } else {
                self
            }
        } else if site == PokerSite::OnGame {
            if !self.at_end && !spec_starts_with(self.line, lit("***** ")) {
                proof {
                    self.lines.lemma_next();
                }
                self.advance().sync(site)
            } else if !self.at_end && spec_starts_with(self.line, lit("***** End")) {
                self.advance()
            } else {
                self
            }
        } else {
            self
        }
    }

    /// The state with a new last row in the hands column.
    pub open spec fn push_hand(self, hand: Hand) -> State {
        State { hands: Arena { hands: self.hands.hands.push(hand), ..self.hands }, ..self }
    }

    /// What reading one hand leaves: the hand in its column, or, where it
    /// could not be read, whatever rows it had added, with the cursor where
    /// the next hand may begin.
    pub open spec fn hand_or_sync(self, site: PokerSite) -> State {
        let (read, hand) = self.hand(site);
        match hand {
            Some(hand) => read.push_hand(hand),
            None => read.sync(site),
        }
    }

    /// Reading a hand moves the cursor on.
    pub proof fn lemma_hand_moves(self, site: PokerSite)
        requires
            self.sound(),
        ensures
            self.hand(site).0.moved_on(self),
            !self.at_end ==> self.hand(site).0.remaining() < self.remaining(),
    {
        reveal(State::hand);
        let begun = self.begin_hand();
        begun.lemma_header_moves(site);
        let (s1, header) = begun.header(site);
        match header {
            None => {},
            Some(header) => {
                s1.lemma_streets_moves(site, header.currency);
                let (s2, preflop) = s1.preflop(site, header.currency);
                match preflop {
                    None => {},
                    Some(preflop) => {
                        s2.lemma_streets_moves(site, header.currency);
                        let (s3, streets) = s2.streets(site, header.currency);
                        match streets {
                            None => {},
                            Some(streets) => {
                                s3.lemma_summary_moves(site, header.currency);
                            },
                        }
                    },
                }
            },
        }
    }

    /// Passing the lines to the next hand never moves the cursor back.
    pub proof fn lemma_sync_moves(self, site: PokerSite)
        requires
            self.sound(),
        ensures
            self.sync(site).moved_on(self),
        decreases self.remaining(),
    {
        self.lemma_advance();
        if site == PokerSite::PokerStars {
            if !self.at_end && !spec_starts_with(self.line, lit("PokerStars ")) {
                self.advance().lemma_sync_moves(site);
            }
        } else if site == PokerSite::OnGame {
            if !self.at_end && !spec_starts_with(self.line, lit("***** ")) {
                self.advance().lemma_sync_moves(site);
            }
        }
    }

    /// Every hand moves the cursor on, whether or not it can be read.
    pub proof fn lemma_hand_or_sync_moves(self, site: PokerSite)
        requires
            self.sound(),
        ensures
            self.hand_or_sync(site).moved_on(self),
            !self.at_end ==> self.hand_or_sync(site).remaining() < self.remaining(),
    {
        self.lemma_hand_moves(site);
        let (read, hand) = self.hand(site);
        read.lemma_sync_moves(site);
    }

    /// The whole text read: empty lines are passed over, and from every
    /// other line on a hand is read. A hand that cannot be read is left
    /// behind, and costs no other hand. Reading stops at the end of the
    /// text.
    pub open spec fn parse(self, site: PokerSite) -> State
        decreases self.remaining(),
        when self.sound()
    {
        if self.at_end {
            self
        } else if self.line.len() == 0 {
            proof {
                self.lines.lemma_next();
            }
            self.advance().parse(site)
        } else {
            proof {
                self.lemma_hand_or_sync_moves(site);
            }
            self.hand_or_sync(site).parse(site)
        }
    }

    /// The places in the text at which the hands that are read begin, in
    /// their order: the cursor on the first line of each. A place from
    /// which no hand can be read is not among them.
    pub open spec fn hand_starts(self, site: PokerSite) -> Seq<Cursor>
        decreases self.remaining(),
        when self.sound()
    {
        if self.at_end {
            Seq::empty()
        } else if self.line.len() == 0 {
            proof {
                self.lines.lemma_next();
            }
            self.advance().hand_starts(site)
        } else {
            proof {
                self.lemma_hand_or_sync_moves(site);
            }
            let rest = self.hand_or_sync(site).hand_starts(site);
            if self.hand(site).1 is Some {
                seq![self.cursor()] + rest
            } else {
                rest
            }
        }
    }
}

impl Arena {
    /// Whether the hands from `first` on read back what the lines at which
    /// they begin say of them: hand `first + i` begins at `starts[i]`, and
    /// its id, the name of its table and the names of its players are in
    /// the text buffer as they stand in those lines.
    pub open spec fn reads_back(self, first: int, starts: Seq<Cursor>, site: PokerSite) -> bool {
        &&& 0 <= first
        &&& first + starts.len() <= self.hands.len()
        &&& forall|i: int|
            0 <= i < starts.len() ==> self.says_literals(
                #[trigger] starts[i],
                site,
                self.hands[first + i].header,
                self.hands[first + i].header.players.spec_begin(),
            )
    }

    /// Hands that read back what their lines say still do as the arena
    /// grows.
    pub proof fn lemma_reads_back_grows(
        self,
        old: Arena,
        first: int,
        starts: Seq<Cursor>,
        site: PokerSite,
    )
        requires
            self.grows_from(old),
            old.reads_back(first, starts, site),
        ensures
            self.reads_back(first, starts, site),
    {
        assert forall|i: int| 0 <= i < starts.len() implies self.says_literals(
            #[trigger] starts[i],
            site,
            self.hands[first + i].header,
            self.hands[first + i].header.players.spec_begin(),
        ) by {
            let h = old.hands[first + i];
            assert(self.hands[first + i] == h);
            self.lemma_says_literals_grows(
                old,
                starts[i],
                site,
                h.header,
                h.header.players.spec_begin(),
            );
        }
    }
}

/// Reads one hand.
pub fn parse_hand(p: &mut Parser, site: PokerSite) -> (r: Option<Hand>)
    requires
        old(p).wf(),
    ensures
        final(p).wf(),
        final(p).data == old(p).data,
        final(p)@.hands.grows_from(old(p)@.hands),
        (final(p)@, r) == old(p)@.hand(site),
        final(p)@.remaining() <= old(p)@.remaining(),
        !old(p)@.at_end ==> final(p)@.remaining() < old(p)@.remaining(),
        r matches Some(hand) ==> final(p)@.hands.hand_ok(hand),
        r matches Some(hand) ==> final(p)@.hands.says_literals(
            old(p)@.cursor(),
            site,
            hand.header,
            hand.header.players.spec_begin(),
        ),
        final(p)@.hands.hands == old(p)@.hands.hands,
{
    let ghost given = p@;
    reveal(State::hand);
    p.players.clear();
    p.players_begin = p.hands.players.len();
    p.src_offset = p.hands.src.len();
    let header = match parse_header(p, site) {
        Some(header) => header,
        None => {
            return None;
        },
    };
    let ghost s1 = p@;
    let ghost read = header;
    let preflop = match parse_preflop(p, site, header.currency) {
        Some(preflop) => preflop,
        None => {
            return None;
        },
    };
    let ghost s2 = p@;
    let streets = match parse_streets(p, site, header.currency) {
        Some(streets) => streets,
        None => {
            return None;
        },
    };
    let ghost s3 = p@;
    let summary = match parse_summary(p, site, header.currency) {
        Some(summary) => summary,
        None => {
            return None;
        },
    };
    if p.players_begin as u64 > MAX_SPAN_BEGIN {
        return None;
    }
    let mut header = header;
    header.players = PlayerSpan::new(p.players_begin, p.players.len());
    let hand = Hand { header, preflop, streets, summary, src_offset: p.src_offset };
    proof {
        let a = p@.hands;
        let at = p@.src_offset;
        PlayerSpan::lemma_fields(p@.players_begin, p@.players.len() as int);
        a.lemma_says_literals_grows(s1.hands, given.cursor(), site, read, p@.players_begin);
        crate::parsers::header::lemma_says_literals_site(
            a,
            given.cursor(),
            site,
            read,
            header,
            p@.players_begin,
        );
        a.lemma_actions_ok_grows(s1.hands, at, header.actions);
        a.lemma_actions_ok_grows(s2.hands, at, preflop.actions);
        a.lemma_streets_ok_grows(
            s3.hands,
            at,
            s3.hands.flops,
            a.flops,
            streets.0.spec_begin(),
            streets.0.spec_size(),
        );
        a.lemma_streets_ok_grows(
            s3.hands,
            at,
            s3.hands.turns,
            a.turns,
            streets.1.spec_begin(),
            streets.1.spec_size(),
        );
        a.lemma_streets_ok_grows(
            s3.hands,
            at,
            s3.hands.rivers,
            a.rivers,
            streets.2.spec_begin(),
            streets.2.spec_size(),
        );
        a.lemma_streets_ok_grows(
            s3.hands,
            at,
            s3.hands.showdowns,
            a.showdowns,
            streets.3.spec_begin(),
            streets.3.spec_size(),
        );
    }
    Some(hand)
}

/// Passes the lines up to where the next hand may begin.
pub fn parse_sync(p: &mut Parser, site: PokerSite)
    requires
        old(p).wf(),
    ensures
        final(p).wf(),
        final(p).data == old(p).data,
        final(p)@.hands == old(p)@.hands,
        final(p)@.same_hand(old(p)@),
        final(p)@ == old(p)@.sync(site),
        final(p)@.remaining() <= old(p)@.remaining(),
{
    if site == PokerSite::PokerStars {
        while !p.eof() && !starts_with(p.line, "PokerStars ".as_bytes())
            invariant
                p.wf(),
                p.data == old(p).data,
                p@.hands == old(p)@.hands,
            p@.same_hand(old(p)@),
                p@.remaining() <= old(p)@.remaining(),
                site == PokerSite::PokerStars,
                old(p)@.sync(site) == p@.sync(site),
            decreases p@.remaining(),
        {
            p.advance();
        }
    } else if site == PokerSite::OnGame {
        while !p.eof() && !starts_with(p.line, "***** ".as_bytes())
            invariant
                p.wf(),
                p.data == old(p).data,
                p@.hands == old(p)@.hands,
            p@.same_hand(old(p)@),
                p@.remaining() <= old(p)@.remaining(),
                site == PokerSite::OnGame,
                old(p)@.sync(site) == p@.sync(site),
            decreases p@.remaining(),
        {
            p.advance();
        }
        if !p.eof() && starts_with(p.line, "***** End".as_bytes()) {
            p.advance();
        }
    }
}

/// Reads the whole text.
pub fn parse(p: &mut Parser, site: PokerSite)
    requires
        old(p).wf(),
    ensures
        final(p).wf(),
        final(p).data == old(p).data,
        final(p)@.hands.grows_from(old(p)@.hands),
        final(p)@ == old(p)@.parse(site),
        final(p)@.at_end,
        old(p)@.hands.wf() ==> final(p)@.hands.wf(),
        final(p)@.hands.hands.len() == old(p)@.hands.hands.len() + old(p)@.hand_starts(site).len(),
        final(p)@.hands.reads_back(
            old(p)@.hands.hands.len() as int,
            old(p)@.hand_starts(site),
            site,
        ),
{
    let ghost first = p@.hands.hands.len() as int;
    let ghost done: Seq<Cursor> = Seq::empty();
    proof {
        assert(done + p@.hand_starts(site) =~= p@.hand_starts(site));
    }
    while !p.eof()
        invariant
            p.wf(),
            p.data == old(p).data,
            p@.hands.grows_from(old(p)@.hands),
            old(p)@.parse(site) == p@.parse(site),
            old(p)@.hands.wf() ==> p@.hands.wf(),
            first == old(p)@.hands.hands.len(),
            old(p)@.hand_starts(site) == done + p@.hand_starts(site),
            p@.hands.hands.len() == first + done.len(),
            p@.hands.reads_back(first, done, site),
        decreases p@.remaining(),
    {
        if p.line.len() == 0 {
            p.advance();
            continue ;
        }
        let ghost before = p@.hands;
        let ghost at = p@;
        match parse_hand(p, site) {
            Some(hand) => {
                proof {
                    if before.wf() {
                        p@.hands.lemma_wf_grows(before);
                    }
                }
                let ghost read = p@.hands;
                p.hands.hands.push(hand);
                proof {
                    let rest = p@.hand_starts(site);
                    assert(at.hand_starts(site) == seq![at.cursor()] + rest);
                    assert(done + (seq![at.cursor()] + rest) =~= done.push(at.cursor()) + rest);
                    read.lemma_reads_back_grows(before, first, done, site);
                    p@.hands.lemma_reads_back_grows(read, first, done, site);
                    p@.hands.lemma_says_literals_grows(
                        read,
                        at.cursor(),
                        site,
                        hand.header,
                        hand.header.players.spec_begin(),
                    );
                    done = done.push(at.cursor());
                    assert(p@.hands.hands[first + done.len() - 1] == hand);
                }
                proof {
                    if before.wf() {
                        assert forall|i: int| 0 <= i < p@.hands.hands.len() implies p@.hands.hand_ok(
                            #[trigger] p@.hands.hands[i],
                        ) by {
                            if i < read.hands.len() {
                                assert(p@.hands.hands[i] == read.hands[i]);
                                assert(read.hand_ok(read.hands[i]));
                                p@.hands.lemma_hand_ok_grows(read, read.hands[i]);
                            } else {
                                p@.hands.lemma_hand_ok_grows(read, hand);
                            }
                        }
                    }
                }
            },
            None => {
                proof {
                    if before.wf() {
                        p@.hands.lemma_wf_grows(before);
                    }
                    p@.hands.lemma_reads_back_grows(before, first, done, site);
                }
                parse_sync(p, site);
            },
        }
    }
}

/// The state of a parser set on the first line of `text`, filling `arena`.
pub open spec fn start(text: Seq<u8>, arena: Arena) -> State {
    (State {
        lines: crate::parsers::split::Split {
            data: text,
            sep: crate::parsers::split::line_separator(text),
            prev: 0,
        },
        line: Seq::empty(),
        at_end: false,
        hands: arena,
        players: Seq::empty(),
        players_begin: arena.players.len() as int,
        src_offset: 0,
    }).advance()
}

/// The arena that reading `text` as hands of `site` makes of `arena`.
pub open spec fn spec_parse_str(site: PokerSite, text: Seq<u8>, arena: Arena) -> Arena {
    start(text, arena).parse(site).hands
}

/// The places in `text` at which the hands begin that are read into
/// `arena`, in their order.
pub open spec fn spec_hand_starts(site: PokerSite, text: Seq<u8>, arena: Arena) -> Seq<Cursor> {
    start(text, arena).hand_starts(site)
}

/// A text whose first line begins a hand that can be read has that line as
/// the place at which its first hand begins.
pub proof fn law_first_hand_start(site: PokerSite, text: Seq<u8>, arena: Arena)
    requires
        !start(text, arena).at_end,
        start(text, arena).line.len() > 0,
        start(text, arena).hand(site).1 is Some,
    ensures
        spec_hand_starts(site, text, arena).len() >= 1,
        spec_hand_starts(site, text, arena)[0] == start(text, arena).cursor(),
{
    let before = State {
        lines: crate::parsers::split::Split {
            data: text,
            sep: crate::parsers::split::line_separator(text),
            prev: 0,
        },
        line: Seq::empty(),
        at_end: false,
        hands: arena,
        players: Seq::empty(),
        players_begin: arena.players.len() as int,
        src_offset: 0,
    };
    before.lemma_advance();
    let s = start(text, arena);
    assert(s.sound());
    s.lemma_hand_or_sync_moves(site);
    let rest = s.hand_or_sync(site).hand_starts(site);
    assert(s.hand_starts(site) == seq![s.cursor()] + rest);
}

/// A place from which no hand can be read costs no other hand: the text is
/// read on from where the next hand may begin, and the hands read from
/// there on are those that the text gives.
pub proof fn law_bad_hand_is_passed(s: State, site: PokerSite)
    requires
        s.sound(),
        !s.at_end,
        s.line.len() > 0,
        s.hand(site).1 is None,
    ensures
        s.parse(site) == s.hand(site).0.sync(site).parse(site),
        s.hand_starts(site) == s.hand(site).0.sync(site).hand_starts(site),
{
    s.lemma_hand_or_sync_moves(site);
}

/// Whether hands of `site` can be read.
pub fn implemented(site: PokerSite) -> (b: bool)
    ensures
        b == is_implemented(site),
{
    site == PokerSite::PokerStars || site == PokerSite::PokerStarsPluribus || site
        == PokerSite::OnGame
}

/// Reads the hands of `site` that `s` holds into `hands`.
pub fn parse_str(site: PokerSite, s: &[u8], hands: &mut HandVec)
    requires
        is_implemented(site),
    ensures
        final(hands)@ == spec_parse_str(site, s@, old(hands)@),
        final(hands)@.grows_from(old(hands)@),
        old(hands)@.wf() ==> final(hands)@.wf(),
        final(hands)@.hands.len() == old(hands)@.hands.len() + spec_hand_starts(
            site,
            s@,
            old(hands)@,
        ).len(),
        final(hands)@.reads_back(
            old(hands)@.hands.len() as int,
            spec_hand_starts(site, s@, old(hands)@),
            site,
        ),
{
    let mut taken = HandVec::empty();
    core::mem::swap(hands, &mut taken);
    let mut p = Parser::new(s, taken);
    parse(&mut p, site);
    *hands = p.hands;
}

} // verus!
