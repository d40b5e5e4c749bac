use blacktext::cards::Rank::{Ace, Jack, King, Queen, R10, R2, R3, R4, R5, R6, R7, R8, R9};
use blacktext::cards::Suit::{Clubs, Diamonds, Hearts, Spades};
use blacktext::cards::{Card, Rank, Suit};
use blacktext::game_logic::{dealer_should_hit, determine_outcome};
use blacktext::game_state::{GameMode, Hand, Outcome};

fn hand(cards: &[(Suit, Rank)]) -> Hand {
    Hand(cards.iter().map(|&(s, r)| Card::new(s, r)).collect())
}

#[test]
fn test_dealer_stands_on_hard_17() {
    let d = hand(&[(Spades, R10), (Hearts, R7)]);
    assert!(!dealer_should_hit(&d, GameMode::SingleDeck));
    assert!(!dealer_should_hit(&d, GameMode::SixDeck));
}

#[test]
fn test_dealer_hits_low() {
    let d = hand(&[(Spades, R10), (Hearts, R6)]);
    assert!(dealer_should_hit(&d, GameMode::SingleDeck));
}

#[test]
fn test_soft_17_rule_varies_by_mode() {
    let d = hand(&[(Spades, Ace), (Hearts, R6)]);
    assert!(!dealer_should_hit(&d, GameMode::SingleDeck));
    assert!(dealer_should_hit(&d, GameMode::SixDeck));
}

#[test]
fn test_outcomes() {
    let player = hand(&[(Spades, R10), (Hearts, R9)]);
    let dealer = hand(&[(Clubs, R10), (Diamonds, R7)]);
    assert_eq!(determine_outcome(&player, &dealer), Outcome::PlayerWin);

    let dealer = hand(&[(Clubs, R10), (Diamonds, King), (Spades, R5)]);
    assert_eq!(determine_outcome(&player, &dealer), Outcome::DealerBust);

    let player_bj = hand(&[(Spades, Ace), (Hearts, King)]);
    let dealer = hand(&[(Clubs, R10), (Diamonds, R8)]);
    assert_eq!(
        determine_outcome(&player_bj, &dealer),
        Outcome::PlayerBlackjack
    );

    let dealer_bj = hand(&[(Clubs, Ace), (Diamonds, Queen)]);
    assert_eq!(determine_outcome(&player_bj, &dealer_bj), Outcome::Push);
}

#[test]
fn dealer_policy_from_18_up_and_on_soft_18() {
    let hard_18 = hand(&[(Spades, R10), (Hearts, R8)]);
    let soft_18 = hand(&[(Spades, Ace), (Hearts, R7)]);
    let soft_16 = hand(&[(Spades, Ace), (Hearts, R5)]);
    for mode in [GameMode::SingleDeck, GameMode::SixDeck] {
        assert!(!dealer_should_hit(&hard_18, mode));
        assert!(!dealer_should_hit(&soft_18, mode));
        assert!(dealer_should_hit(&soft_16, mode));
    }
    // A soft 17 made of three cards.
    let soft_17 = hand(&[(Spades, Ace), (Hearts, R3), (Clubs, R3)]);
    assert!(!dealer_should_hit(&soft_17, GameMode::SingleDeck));
    assert!(dealer_should_hit(&soft_17, GameMode::SixDeck));
}

#[test]
fn settlement_order() {
    let bust_player = hand(&[(Spades, R10), (Hearts, R6), (Clubs, King)]);
    let bust_dealer = hand(&[(Clubs, R10), (Diamonds, R6), (Spades, Queen)]);
    assert_eq!(determine_outcome(&bust_player, &bust_dealer), Outcome::PlayerBust);

    let dealer_bj = hand(&[(Clubs, Ace), (Diamonds, Jack)]);
    let twenty_one = hand(&[(Spades, R7), (Hearts, R7), (Clubs, R7)]);
    assert_eq!(determine_outcome(&twenty_one, &dealer_bj), Outcome::DealerWin);

    let p = hand(&[(Spades, R10), (Hearts, R8)]);
    let d = hand(&[(Clubs, R9), (Diamonds, R9)]);
    assert_eq!(determine_outcome(&p, &d), Outcome::Push);
    let d = hand(&[(Clubs, R10), (Diamonds, R9)]);
    assert_eq!(determine_outcome(&p, &d), Outcome::DealerWin);
}
