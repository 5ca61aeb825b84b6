//! The card model: ranks, suits, and cards, with their textual forms.
use vstd::prelude::*;

use crate::text::decimal_digits;
use crate::text::decimal_string;

verus! {

/// The face value of a card: a number from 2 through 10, or a face.
#[derive(Debug, Clone, Copy, PartialEq, Eq, Structural)]
pub enum Rank {
    Ace,
    Number(u8),
    Jack,
    Queen,
    King,
}

/// One of the four card categories.
#[derive(Debug, Clone, Copy, PartialEq, Eq, Structural)]
pub enum Suit {
    Spade,
    Club,
    Heart,
    Diamond,
}

/// One rank paired with one suit. Two cards of equal rank and suit are
/// interchangeable.
#[derive(Debug, Clone, Copy, PartialEq, Eq, Structural)]
pub struct Card {
    pub rank: Rank,
    pub suit: Suit,
}

impl Rank {
    /// A rank as the standard build path makes it: a number rank carries a
    /// value in [2, 10].
    pub open spec fn is_standard(self) -> bool {
        match self {
            Rank::Number(n) => 2 <= n <= 10,
            _ => true,
        }
    }

    /// The characters of this rank's textual form.
    pub open spec fn text(self) -> Seq<char> {
        match self {
            Rank::Ace => seq!['A'],
            Rank::Jack => seq!['J'],
            Rank::Queen => seq!['Q'],
            Rank::King => seq!['K'],
            Rank::Number(n) => decimal_digits(n as nat),
        }
    }

    /// Renders the rank: "A", "J", "Q", "K", or the decimal digits of the
    /// number with no leading zero.
    pub fn textual_form(&self) -> (s: String)
        ensures
            s@ == self.text(),
    {
        match self {
            Rank::Ace => {
                let s = String::from_str("A");
                proof {
                    reveal_strlit("A");
                    assert(s@ =~= seq!['A']);
                }
                s
            },
            Rank::Jack => {
                let s = String::from_str("J");
                proof {
                    reveal_strlit("J");
                    assert(s@ =~= seq!['J']);
                }
                s
            },
            Rank::Queen => {
                let s = String::from_str("Q");
                proof {
                    reveal_strlit("Q");
                    assert(s@ =~= seq!['Q']);
                }
                s
            },
            Rank::King => {
                let s = String::from_str("K");
                proof {
                    reveal_strlit("K");
                    assert(s@ =~= seq!['K']);
                }
                s
            },
            Rank::Number(n) => decimal_string(*n as usize),
        }
    }
}

impl Suit {
    /// The characters of this suit's textual form: a single symbolic glyph.
    pub open spec fn text(self) -> Seq<char> {
        match self {
            Suit::Spade => seq!['♠'],
            Suit::Club => seq!['♣'],
            Suit::Heart => seq!['♥'],
            Suit::Diamond => seq!['♦'],
        }
    }

    /// Renders the suit as its one-character glyph.
    pub fn textual_form(&self) -> (s: String)
        ensures
            s@ == self.text(),
    {
        match self {
            Suit::Spade => {
                let s = String::from_str("♠");
                proof {
                    reveal_strlit("♠");
                    assert(s@ =~= seq!['♠']);
                }
                s
            },
            Suit::Club => {
                let s = String::from_str("♣");
                proof {
                    reveal_strlit("♣");
                    assert(s@ =~= seq!['♣']);
                }
                s
            },
            Suit::Heart => {
                let s = String::from_str("♥");
                proof {
                    reveal_strlit("♥");
                    assert(s@ =~= seq!['♥']);
                }
                s
            },
            Suit::Diamond => {
                let s = String::from_str("♦");
                proof {
                    reveal_strlit("♦");
                    assert(s@ =~= seq!['♦']);
                }
                s
            },
        }
    }
}

impl Card {
    /// A card of the standard deck: its rank is one the build path makes.
    pub open spec fn is_standard(self) -> bool {
        self.rank.is_standard()
    }

    /// The characters of this card's textual form: rank then suit, with no
    /// separator.
    pub open spec fn text(self) -> Seq<char> {
        self.rank.text() + self.suit.text()
    }

    /// Renders the card: the rank's textual form followed immediately by the
    /// suit's.
    pub fn textual_form(&self) -> (s: String)
        ensures
            s@ == self.text(),
    {
        let mut s = self.rank.textual_form();
        let suit = self.suit.textual_form();
        s.append(suit.as_str());
        s
    }
}

} // verus!
