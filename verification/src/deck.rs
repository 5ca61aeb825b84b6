//! The deck: an ordered, exclusively owned sequence of cards, with building,
//! shuffling, and removal.
use vstd::prelude::*;

use crate::card::Card;
use crate::card::Rank;
use crate::card::Suit;
use crate::rng::EntropySource;
use crate::rng::RandomSource;
use crate::rng::SeededSource;
use crate::rng::lcg_draw;
use crate::rng::lcg_step;
use crate::text::decimal_digits;
use crate::text::decimal_string;
use vstd::arithmetic::div_mod::lemma_fundamental_div_mod;
use vstd::arithmetic::div_mod::lemma_fundamental_div_mod_converse;
use vstd::arithmetic::div_mod::lemma_mod_bound;
use vstd::seq_lib::to_multiset_update;

verus! {

/// The suit at a given position of the fixed build order.
pub open spec fn suit_of_index(s: int) -> Suit {
    if s == 0 {
        Suit::Spade
    } else if s == 1 {
        Suit::Club
    } else if s == 2 {
        Suit::Heart
    } else {
        Suit::Diamond
    }
}

/// The rank for a build value: 2 through 10 are number ranks, and 11, 12, 13,
/// 14 stand for Jack, Queen, King, Ace.
pub open spec fn rank_of_value(v: int) -> Rank {
    if v == 11 {
        Rank::Jack
    } else if v == 12 {
        Rank::Queen
    } else if v == 13 {
        Rank::King
    } else if v == 14 {
        Rank::Ace
    } else {
        Rank::Number(v as u8)
    }
}

/// The card at a given position of the as-built order: suits in blocks of 13
/// (Spade, Club, Heart, Diamond), ranks ascending from 2 to Ace within each.
pub open spec fn built_card(i: int) -> Card {
    Card { rank: rank_of_value(2 + i % 13), suit: suit_of_index(i / 13) }
}

/// The full standard deck in the as-built order: 52 cards, one of each rank
/// and suit combination.
pub open spec fn standard_deck() -> Seq<Card> {
    Seq::new(52, |i: int| built_card(i))
}

/// The position of a suit in the fixed build order.
pub open spec fn suit_index(s: Suit) -> int {
    match s {
        Suit::Spade => 0,
        Suit::Club => 1,
        Suit::Heart => 2,
        Suit::Diamond => 3,
    }
}

/// The build value of a rank: the number itself, or 11 through 14 for Jack,
/// Queen, King, Ace.
pub open spec fn rank_value(r: Rank) -> int {
    match r {
        Rank::Number(n) => n as int,
        Rank::Jack => 11,
        Rank::Queen => 12,
        Rank::King => 13,
        Rank::Ace => 14,
    }
}

/// The card at each build position is standard, and its suit and rank read
/// back the position's quotient and remainder by 13.
proof fn lemma_built_card_fields(i: int)
    requires
        0 <= i < 52,
    ensures
        built_card(i).is_standard(),
        suit_index(built_card(i).suit) == i / 13,
        rank_value(built_card(i).rank) == 2 + i % 13,
{
    lemma_mod_bound(i, 13);
    lemma_fundamental_div_mod(i, 13);
}

/// Distinct build positions hold distinct cards.
proof fn lemma_built_cards_distinct(i: int, j: int)
    requires
        0 <= i < 52,
        0 <= j < 52,
        i != j,
    ensures
        built_card(i) != built_card(j),
{
    lemma_built_card_fields(i);
    lemma_built_card_fields(j);
    if built_card(i) == built_card(j) {
        lemma_fundamental_div_mod(i, 13);
        lemma_fundamental_div_mod(j, 13);
    }
}

/// A standard card sits at the build position given by its suit block and
/// rank offset.
proof fn lemma_standard_card_position(c: Card)
    requires
        c.is_standard(),
    ensures
        0 <= 13 * suit_index(c.suit) + rank_value(c.rank) - 2 < 52,
        built_card(13 * suit_index(c.suit) + rank_value(c.rank) - 2) == c,
{
    let i = 13 * suit_index(c.suit) + rank_value(c.rank) - 2;
    lemma_fundamental_div_mod_converse(i, 13, suit_index(c.suit), rank_value(c.rank) - 2);
}

/// Build completeness: the standard deck holds 52 cards, no two alike, and a
/// card stands in it exactly when its rank is one the build path makes; so
/// its multiset holds each rank and suit combination exactly once.
pub proof fn lemma_standard_deck_complete()
    ensures
        standard_deck().len() == 52,
        standard_deck().no_duplicates(),
        forall|c: Card| #[trigger] standard_deck().contains(c) <==> c.is_standard(),
        forall|c: Card|
            #[trigger] standard_deck().to_multiset().count(c) == if c.is_standard() {
                1nat
            } else {
                0nat
            },
{
    broadcast use vstd::seq_lib::group_to_multiset_ensures;

    let deck = standard_deck();
    assert forall|i: int, j: int|
        0 <= i < deck.len() && 0 <= j < deck.len() && i != j implies deck[i] != deck[j] by {
        lemma_built_cards_distinct(i, j);
    }
    assert forall|c: Card| #[trigger] deck.contains(c) <==> c.is_standard() by {
        if c.is_standard() {
            lemma_standard_card_position(c);
            let i = 13 * suit_index(c.suit) + rank_value(c.rank) - 2;
            assert(deck[i] == c);
            assert(deck.contains(c));
        }
        if deck.contains(c) {
            let i = choose|i: int| 0 <= i < deck.len() && deck[i] == c;
            lemma_built_card_fields(i);
        }
    }
    deck.lemma_multiset_has_no_duplicates();
    assert forall|c: Card|
        #[trigger] deck.to_multiset().count(c) == if c.is_standard() {
            1nat
        } else {
            0nat
        } by {
        if c.is_standard() {
            assert(deck.contains(c));
            assert(deck.to_multiset().count(c) > 0);
        } else {
            assert(!deck.contains(c));
        }
    }
}

/// The cards and generator state after the first `k` swaps of a seeded
/// shuffle: for each position in turn, the generator steps, an index below
/// the full length is drawn from the stepped state, and the two positions are
/// exchanged.
pub open spec fn seeded_shuffle_step(cards: Seq<Card>, state: u64, k: nat) -> (Seq<Card>, u64)
    decreases k,
{
    if k == 0 {
        (cards, state)
    } else {
        let prev = seeded_shuffle_step(cards, state, (k - 1) as nat);
        let stepped = lcg_step(prev.1);
        let i = k - 1;
        let j = lcg_draw(stepped, cards.len() as usize) as int;
        (prev.0.update(i, prev.0[j]).update(j, prev.0[i]), stepped)
    }
}

/// The cards after a full seeded shuffle: one swap for each position, so the
/// result is a function of the card sequence and the seed alone.
pub open spec fn seeded_shuffle(cards: Seq<Card>, state: u64) -> Seq<Card> {
    seeded_shuffle_step(cards, state, cards.len()).0
}

/// Fixed-seed reproducibility: a seeded shuffle is a function of the card
/// sequence and the seed alone, so shuffling equal card sequences from equal
/// seeds yields equal sequences, position by position.
pub proof fn lemma_seeded_shuffle_reproducible(
    cards1: Seq<Card>,
    seed1: u64,
    cards2: Seq<Card>,
    seed2: u64,
)
    requires
        cards1 == cards2,
        seed1 == seed2,
    ensures
        seeded_shuffle(cards1, seed1) == seeded_shuffle(cards2, seed2),
{
}

/// The characters of the card list inside a deck's textual form: each card's
/// text followed by two spaces.
pub open spec fn cards_text(cards: Seq<Card>) -> Seq<char>
    decreases cards.len(),
{
    if cards.len() == 0 {
        Seq::empty()
    } else {
        cards_text(cards.drop_last()) + cards.last().text() + "  "@
    }
}

/// The characters of a deck's textual form: the count, the literal
/// " cards: [  ", the card list, and the closing bracket.
pub open spec fn deck_text(cards: Seq<Card>) -> Seq<char> {
    decimal_digits(cards.len()) + " cards: [  "@ + cards_text(cards) + "]"@
}

/// The suit at a given position of the fixed build order.
fn suit_from_index(s: usize) -> (suit: Suit)
    requires
        s < 4,
    ensures
        suit == suit_of_index(s as int),
{
    if s == 0 {
        Suit::Spade
    } else if s == 1 {
        Suit::Club
    } else if s == 2 {
        Suit::Heart
    } else {
        Suit::Diamond
    }
}

/// The rank for a build value in [2, 14].
fn rank_from_value(v: usize) -> (rank: Rank)
    requires
        2 <= v <= 14,
    ensures
        rank == rank_of_value(v as int),
{
    if v == 11 {
        Rank::Jack
    } else if v == 12 {
        Rank::Queen
    } else if v == 13 {
        Rank::King
    } else if v == 14 {
        Rank::Ace
    } else {
        Rank::Number(v as u8)
    }
}

/// An ordered, mutable sequence of cards. It shrinks as cards are removed;
/// no card is ever added back, and it may reach zero cards.
#[derive(Debug)]
pub struct Deck {
    pub cards: Vec<Card>,
}

impl View for Deck {
    type V = Seq<Card>;

    open spec fn view(&self) -> Seq<Card> {
        self.cards@
    }
}

impl Deck {
    /// Constructs the full deck of 52 cards, one of each rank and suit
    /// combination, in the as-built order: suits Spade, Club, Heart, Diamond,
    /// and within each suit the ranks ascending from 2 to Ace.
    pub fn build() -> (deck: Self)
        ensures
            deck@ == standard_deck(),
            deck@.len() == 52,
    {
        let mut cards: Vec<Card> = Vec::with_capacity(52);
        for s in 0..4usize
            invariant
                cards@ =~= standard_deck().take(13 * s as int),
        {
            let suit = suit_from_index(s);
            for v in 2..15usize
                invariant
                    s < 4,
                    suit == suit_of_index(s as int),
                    cards@ =~= standard_deck().take(13 * s as int + (v - 2)),
            {
                let rank = rank_from_value(v);
                let ghost i: int = 13 * s as int + (v - 2);
                proof {
                    lemma_fundamental_div_mod_converse(i, 13, s as int, v - 2);
                    assert(built_card(i) == Card { rank, suit });
                    assert(standard_deck().take(i + 1) =~= standard_deck().take(i).push(
                        built_card(i),
                    ));
                }
                cards.push(Card { rank, suit });
            }
        }
        proof {
            assert(standard_deck().take(52) =~= standard_deck());
        }
        Deck { cards }
    }

    /// Removes and returns the last card, or reports the absence explicitly
    /// when the deck is empty; the deck is unchanged in that case.
    pub fn pull_top_card(&mut self) -> (card: Option<Card>)
        ensures
            old(self)@.len() == 0 ==> card is None && final(self)@ == old(self)@,
            old(self)@.len() > 0 ==> card == Some(old(self)@.last()) && final(self)@ == old(
                self,
            )@.drop_last(),
    {
        self.cards.pop()
    }

    /// Removes and returns the card at a uniformly random index drawn from
    /// the given source; the cards after the gap shift down by one.
    pub fn pull_random_card_with<R: RandomSource>(&mut self, rng: &mut R) -> (card: Card)
        requires
            old(self)@.len() > 0,
        ensures
            final(self)@.len() == old(self)@.len() - 1,
            exists|i: int|
                0 <= i < old(self)@.len() && card == old(self)@[i] && final(self)@ == old(
                    self,
                )@.remove(i),
            final(self)@.to_multiset() == old(self)@.to_multiset().remove(card),
    {
        let i = rng.random_below(self.cards.len());
        let card = self.cards.remove(i);
        proof {
            broadcast use vstd::seq_lib::group_to_multiset_ensures;

            assert(old(self)@.remove(i as int).to_multiset() =~= old(self)@.to_multiset().remove(
                card,
            ));
        }
        card
    }

    /// Removes and returns a card at a uniformly random position, drawn from
    /// the process entropy source. The deck must not be empty: a random draw
    /// over an empty range is undefined.
    pub fn pull_random_card(&mut self) -> (card: Card)
        requires
            old(self)@.len() > 0,
        ensures
            final(self)@.len() == old(self)@.len() - 1,
            exists|i: int|
                0 <= i < old(self)@.len() && card == old(self)@[i] && final(self)@ == old(
                    self,
                )@.remove(i),
            final(self)@.to_multiset() == old(self)@.to_multiset().remove(card),
    {
        let mut rng = EntropySource;
        self.pull_random_card_with(&mut rng)
    }

    /// Permutes the cards in place: for each index in turn, swaps it with an
    /// index drawn from the given source over the full current length. The
    /// result holds exactly the cards held before.
    pub fn shuffle_with<R: RandomSource>(&mut self, rng: &mut R)
        ensures
            final(self)@.len() == old(self)@.len(),
            final(self)@.to_multiset() == old(self)@.to_multiset(),
    {
        let n = self.cards.len();
        for i in 0..n
            invariant
                self.cards.len() == n,
                n == old(self)@.len(),
                self.cards@.to_multiset() == old(self)@.to_multiset(),
        {
            let j = rng.random_below(n);
            let ghost before = self.cards@;
            let a = self.cards[i];
            let b = self.cards[j];
            self.cards[i] = b;
            self.cards[j] = a;
            proof {
                lemma_swap_keeps_multiset(before, i as int, j as int);
                assert(self.cards@ =~= before.update(i as int, before[j as int]).update(
                    j as int,
                    before[i as int],
                ));
            }
        }
    }

    /// Permutes the cards in place, drawing from the given seeded
    /// deterministic source. The result and the final generator state are
    /// exact functions of the cards and the state before the call, so a
    /// fixed seed reproduces the same permutation byte for byte.
    pub fn shuffle_seeded(&mut self, rng: &mut SeededSource)
        ensures
            final(self)@ == seeded_shuffle(old(self)@, old(rng).state),
            final(rng).state == seeded_shuffle_step(old(self)@, old(rng).state, old(self)@.len()).1,
            final(self)@.len() == old(self)@.len(),
            final(self)@.to_multiset() == old(self)@.to_multiset(),
    {
        let n = self.cards.len();
        for i in 0..n
            invariant
                self.cards.len() == n,
                n == old(self)@.len(),
                self.cards@ == seeded_shuffle_step(old(self)@, old(rng).state, i as nat).0,
                rng.state == seeded_shuffle_step(old(self)@, old(rng).state, i as nat).1,
                self.cards@.to_multiset() == old(self)@.to_multiset(),
        {
            let j = rng.random_below(n);
            let ghost before = self.cards@;
            let a = self.cards[i];
            let b = self.cards[j];
            self.cards[i] = b;
            self.cards[j] = a;
            proof {
                lemma_swap_keeps_multiset(before, i as int, j as int);
                assert(self.cards@ =~= before.update(i as int, before[j as int]).update(
                    j as int,
                    before[i as int],
                ));
                assert(seeded_shuffle_step(old(self)@, old(rng).state, (i + 1) as nat).0
                    == self.cards@);
            }
        }
    }

    /// Renders the deck: the count, then each card's textual form separated
    /// by two spaces, between "[  " and "]".
    pub fn textual_form(&self) -> (s: String)
        ensures
            s@ == deck_text(self@),
    {
        let mut s = decimal_string(self.cards.len());
        s.append(" cards: [  ");
        for i in 0..self.cards.len()
            invariant
                s@ == decimal_digits(self@.len()) + " cards: [  "@ + cards_text(
                    self@.take(i as int),
                ),
        {
            let card_str = self.cards[i].textual_form();
            s.append(card_str.as_str());
            s.append("  ");
            proof {
                let taken = self@.take(i + 1);
                assert(taken.drop_last() =~= self@.take(i as int));
                assert(taken.last() == self@[i as int]);
                assert(s@ =~= decimal_digits(self@.len()) + " cards: [  "@ + cards_text(taken));
            }
        }
        s.append("]");
        proof {
            assert(self@.take(self@.len() as int) =~= self@);
            assert(s@ =~= deck_text(self@));
        }
        s
    }

    /// Permutes the cards in place, drawing from the process entropy source.
    pub fn shuffle(&mut self)
        ensures
            final(self)@.len() == old(self)@.len(),
            final(self)@.to_multiset() == old(self)@.to_multiset(),
    {
        let mut rng = EntropySource;
        self.shuffle_with(&mut rng);
    }
}

/// Exchanging two positions of a sequence leaves its multiset of elements
/// unchanged.
proof fn lemma_swap_keeps_multiset(s: Seq<Card>, i: int, j: int)
    requires
        0 <= i < s.len(),
        0 <= j < s.len(),
    ensures
        s.update(i, s[j]).update(j, s[i]).to_multiset() == s.to_multiset(),
{
    broadcast use vstd::seq_lib::group_to_multiset_ensures;
    broadcast use to_multiset_update;

    if i == j {
        assert(s.update(i, s[j]).update(j, s[i]) =~= s);
    } else {
        let t = s.update(i, s[j]);
        assert(t[j] == s[j]);
        assert(t.update(j, s[i]).to_multiset() =~= s.to_multiset());
    }
}

} // verus!


