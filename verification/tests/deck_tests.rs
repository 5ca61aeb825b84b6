use card_deck::card::Card;
use card_deck::card::Rank;
use card_deck::card::Suit;
use card_deck::deck::Deck;
use card_deck::rng::RandomSource;
use card_deck::rng::SeededSource;

fn all_ranks() -> Vec<Rank> {
    let mut ranks = Vec::new();
    for n in 2..=10u8 {
        ranks.push(Rank::Number(n));
    }
    ranks.push(Rank::Jack);
    ranks.push(Rank::Queen);
    ranks.push(Rank::King);
    ranks.push(Rank::Ace);
    ranks
}

fn all_suits() -> Vec<Suit> {
    vec![Suit::Spade, Suit::Club, Suit::Heart, Suit::Diamond]
}

fn count_card(cards: &[Card], card: Card) -> usize {
    cards.iter().filter(|c| **c == card).count()
}

#[test]
fn build_yields_52_cards() {
    let deck = Deck::build();
    assert_eq!(deck.cards.len(), 52);
}

#[test]
fn build_holds_each_combination_exactly_once() {
    let deck = Deck::build();
    for suit in all_suits() {
        for rank in all_ranks() {
            assert_eq!(count_card(&deck.cards, Card { rank, suit }), 1);
        }
    }
}

#[test]
fn shuffle_is_a_permutation() {
    let mut deck = Deck::build();
    let before = deck.cards.clone();
    let mut rng = SeededSource::new(1234);
    deck.shuffle_with(&mut rng);
    assert_eq!(deck.cards.len(), before.len());
    for suit in all_suits() {
        for rank in all_ranks() {
            let card = Card { rank, suit };
            assert_eq!(count_card(&deck.cards, card), count_card(&before, card));
        }
    }
}

#[test]
fn shuffle_with_fixed_seed_is_reproducible() {
    let mut first = Deck::build();
    let mut second = Deck::build();
    let mut rng_a = SeededSource::new(99);
    let mut rng_b = SeededSource::new(99);
    first.shuffle_seeded(&mut rng_a);
    second.shuffle_seeded(&mut rng_b);
    assert_eq!(first.cards, second.cards);
    assert_eq!(first.textual_form(), second.textual_form());
    assert_eq!(rng_a.state, rng_b.state);
}

#[test]
fn seeded_shuffle_agrees_with_the_generic_source() {
    // The seeded shuffle runs the same algorithm as shuffling with the
    // source handed in through the trait.
    let mut first = Deck::build();
    let mut second = Deck::build();
    let mut rng_a = SeededSource::new(31);
    let mut rng_b = SeededSource::new(31);
    first.shuffle_seeded(&mut rng_a);
    second.shuffle_with(&mut rng_b);
    assert_eq!(first.cards, second.cards);
    assert_eq!(rng_a.state, rng_b.state);
}

#[test]
fn seeded_shuffle_moves_cards_for_most_seeds() {
    // A degenerate generator could leave every deck unchanged; the real one
    // must not.
    let before = Deck::build();
    let mut moved = 0usize;
    for seed in 0..20u64 {
        let mut deck = Deck::build();
        let mut rng = SeededSource::new(seed);
        deck.shuffle_seeded(&mut rng);
        if deck.cards != before.cards {
            moved += 1;
        }
    }
    assert!(moved >= 19);
}

#[test]
fn shuffle_spreads_a_card_over_all_regions() {
    // A coarse uniformity check: across many seeds, the card that starts
    // first must sometimes end up in the first position, sometimes in the
    // last, and in every quarter of the deck.
    let tracked_card = Card {
        rank: Rank::Number(2),
        suit: Suit::Spade,
    };
    let mut first = 0usize;
    let mut last = 0usize;
    let mut quarter_hits = [0usize; 4];
    for seed in 0..2000u64 {
        let mut deck = Deck::build();
        let mut rng = SeededSource::new(seed);
        deck.shuffle_with(&mut rng);
        let pos = deck
            .cards
            .iter()
            .position(|c| *c == tracked_card)
            .expect("card must survive the shuffle");
        if pos == 0 {
            first += 1;
        }
        if pos == 51 {
            last += 1;
        }
        quarter_hits[pos / 13] += 1;
    }
    assert!(first > 0);
    assert!(last > 0);
    for hits in quarter_hits {
        assert!(hits > 0);
    }
}

#[test]
fn random_pull_removes_exactly_one_card() {
    let mut deck = Deck::build();
    let before = deck.cards.clone();
    let mut rng = SeededSource::new(7);
    let card = deck.pull_random_card_with(&mut rng);
    assert_eq!(deck.cards.len(), 51);
    assert_eq!(count_card(&before, card), 1);
    assert_eq!(count_card(&deck.cards, card), 0);
    // Order-preserving removal: the remainder is the old sequence with the
    // one gap closed.
    let gap = before.iter().position(|c| *c == card).unwrap();
    let mut expected = before.clone();
    expected.remove(gap);
    assert_eq!(deck.cards, expected);
}

#[test]
fn random_pull_from_entropy_removes_exactly_one_card() {
    let mut deck = Deck::build();
    let before = deck.cards.clone();
    let card = deck.pull_random_card();
    assert_eq!(deck.cards.len(), 51);
    assert_eq!(count_card(&before, card), 1);
    assert_eq!(count_card(&deck.cards, card), 0);
}

#[test]
fn top_pull_removes_exactly_the_last_card() {
    let mut deck = Deck::build();
    let before = deck.cards.clone();
    let card = deck.pull_top_card();
    assert_eq!(card, Some(before[51]));
    assert_eq!(deck.cards.len(), 51);
    assert_eq!(deck.cards, before[..51].to_vec());
}

#[test]
fn top_pull_on_empty_deck_always_yields_absence() {
    let mut deck = Deck {
        cards: Vec::new(),
    };
    for _ in 0..5 {
        assert_eq!(deck.pull_top_card(), None);
        assert_eq!(deck.cards.len(), 0);
    }
}

#[test]
fn deck_drains_to_empty_by_top_pulls() {
    let mut deck = Deck::build();
    for _ in 0..52 {
        assert!(deck.pull_top_card().is_some());
    }
    assert_eq!(deck.cards.len(), 0);
    assert_eq!(deck.pull_top_card(), None);
}

#[test]
fn seeded_source_stays_below_its_bound() {
    let mut rng = SeededSource::new(5);
    for bound in 1..60usize {
        for _ in 0..20 {
            assert!(rng.random_below(bound) < bound);
        }
    }
}
