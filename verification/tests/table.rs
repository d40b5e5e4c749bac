use blacktext::cards::Rank::{Ace, Jack, King, Queen, R10, R2, R3, R4, R5, R6, R7, R8, R9};
use blacktext::cards::Suit::{Clubs, Diamonds, Hearts, Spades};
use blacktext::cards::{Card, Rank, Suit};
use blacktext::game_state::{decimal, GameMode, GameState, Hand, Outcome, Phase};

fn cards(cs: &[(Suit, Rank)]) -> Vec<Card> {
    cs.iter().map(|&(s, r)| Card::new(s, r)).collect()
}

/// A shoe whose top cards, from the top down, are `top`, padded below to 20 cards.
fn shoe_with_top(top: &[(Suit, Rank)]) -> Vec<Card> {
    let mut shoe = cards(&vec![(Clubs, R2); 20 - top.len()]);
    let mut rest = cards(top);
    rest.reverse();
    shoe.extend(rest);
    shoe
}

fn table(phase: Phase, player: &[(Suit, Rank)], dealer: &[(Suit, Rank)], top: &[(Suit, Rank)]) -> GameState {
    GameState {
        game_mode: GameMode::SingleDeck,
        shoe: shoe_with_top(top),
        dealer: Hand(cards(dealer)),
        player: Hand(cards(player)),
        bankroll: 90,
        bet: 10,
        phase,
        outcome: None,
        hole_hidden: phase == Phase::PlayerTurn,
    }
}

#[test]
fn deal_takes_top_cards_alternately() {
    let mut gs = table(Phase::Betting, &[], &[], &[(Spades, R9), (Hearts, R5), (Clubs, R8), (Hearts, R10)]);
    gs.bankroll = 100;
    gs.deal_round();
    assert_eq!(gs.player.0, cards(&[(Spades, R9), (Clubs, R8)]));
    assert_eq!(gs.dealer.0, cards(&[(Hearts, R5), (Hearts, R10)]));
    assert_eq!(gs.shoe.len(), 16);
    assert_eq!(gs.phase, Phase::PlayerTurn);
    assert_eq!(gs.bankroll, 90);
    assert!(gs.hole_hidden);
    assert_eq!(gs.outcome, None);
}

#[test]
fn natural_blackjack_pays_three_to_two_at_the_deal() {
    let mut gs = table(Phase::Betting, &[], &[], &[(Spades, Ace), (Hearts, R5), (Clubs, King), (Hearts, R10)]);
    gs.bankroll = 100;
    gs.deal_round();
    assert_eq!(gs.phase, Phase::RoundOver);
    assert_eq!(gs.outcome, Some(Outcome::PlayerBlackjack));
    assert_eq!(gs.bankroll, 100 - 10 + 25);
    assert!(!gs.hole_hidden);
    // The dealer draws nothing on a natural.
    assert_eq!(gs.dealer.0.len(), 2);
}

#[test]
fn dealer_natural_settles_at_the_deal() {
    let mut gs = table(Phase::Betting, &[], &[], &[(Spades, R9), (Hearts, Ace), (Clubs, R8), (Hearts, Queen)]);
    gs.bankroll = 100;
    gs.deal_round();
    assert_eq!(gs.outcome, Some(Outcome::DealerWin));
    assert_eq!(gs.bankroll, 90);
}

#[test]
fn both_naturals_push() {
    let mut gs = table(Phase::Betting, &[], &[], &[(Spades, Ace), (Hearts, Ace), (Clubs, Jack), (Hearts, Queen)]);
    gs.bankroll = 100;
    gs.deal_round();
    assert_eq!(gs.outcome, Some(Outcome::Push));
    assert_eq!(gs.bankroll, 100);
}

#[test]
fn deal_clamps_the_wager_and_reshuffles_a_low_shoe() {
    let mut gs = table(Phase::Betting, &[], &[], &[]);
    gs.shoe.truncate(3);
    gs.bankroll = 7;
    gs.bet = 50;
    gs.deal_round();
    assert_eq!(gs.bet, 7);
    assert_eq!(gs.shoe.len(), 48);
    assert_eq!(gs.player.0.len(), 2);
}

#[test]
fn deal_outside_betting_or_when_broke_does_nothing() {
    let gs0 = table(Phase::Betting, &[], &[], &[]);
    let mut gs = gs0.clone();
    gs.bankroll = 4;
    let before = gs.clone();
    assert!(gs.is_broke());
    gs.deal_round();
    assert_eq!(gs, before);

    let mut gs = table(Phase::PlayerTurn, &[(Spades, R9), (Hearts, R7)], &[(Clubs, R10), (Hearts, R6)], &[]);
    let before = gs.clone();
    gs.deal_round();
    assert_eq!(gs, before);
}

#[test]
fn hit_draws_the_top_card_and_busts() {
    let mut gs = table(Phase::PlayerTurn, &[(Spades, R10), (Hearts, R9)], &[(Clubs, R10), (Hearts, R7)], &[(Diamonds, King)]);
    gs.player_hit();
    assert_eq!(gs.player.0.len(), 3);
    assert_eq!(gs.player.0[2], Card::new(Diamonds, King));
    assert_eq!(gs.outcome, Some(Outcome::PlayerBust));
    assert_eq!(gs.phase, Phase::RoundOver);
    assert_eq!(gs.bankroll, 90);
    assert!(!gs.hole_hidden);
    assert_eq!(gs.shoe.len(), 19);
}

#[test]
fn hit_without_bust_keeps_playing() {
    let mut gs = table(Phase::PlayerTurn, &[(Spades, R5), (Hearts, R4)], &[(Clubs, R10), (Hearts, R7)], &[(Diamonds, R3)]);
    gs.player_hit();
    assert_eq!(gs.phase, Phase::PlayerTurn);
    assert_eq!(gs.player.total(), 12);
    assert_eq!(gs.outcome, None);
    assert!(gs.hole_hidden);
}

#[test]
fn hit_from_an_empty_shoe_draws_from_a_fresh_one() {
    let mut gs = table(Phase::PlayerTurn, &[(Spades, R2), (Hearts, R2)], &[(Clubs, R10), (Hearts, R7)], &[]);
    gs.shoe.clear();
    gs.player_hit();
    assert_eq!(gs.shoe.len(), 51);
    assert_eq!(gs.player.0.len(), 3);
}

#[test]
fn stand_lets_the_dealer_draw_to_17() {
    let mut gs = table(Phase::PlayerTurn, &[(Spades, R10), (Hearts, R8)], &[(Clubs, R10), (Hearts, R2)], &[(Diamonds, R3), (Spades, R4), (Clubs, King)]);
    gs.player_stand();
    // 12 + 3 = 15, + 4 = 19: stands.
    assert_eq!(gs.dealer.0.len(), 4);
    assert_eq!(gs.dealer.total(), 19);
    assert_eq!(gs.outcome, Some(Outcome::DealerWin));
    assert_eq!(gs.bankroll, 90);
    assert_eq!(gs.shoe.len(), 18);
}

#[test]
fn stand_wins_even_money() {
    let mut gs = table(Phase::PlayerTurn, &[(Spades, R10), (Hearts, R9)], &[(Clubs, R10), (Hearts, R7)], &[]);
    gs.player_stand();
    assert_eq!(gs.dealer.0.len(), 2);
    assert_eq!(gs.outcome, Some(Outcome::PlayerWin));
    assert_eq!(gs.bankroll, 110);
}

#[test]
fn dealer_busting_pays_and_push_returns_the_bet() {
    let mut gs = table(Phase::PlayerTurn, &[(Spades, R10), (Hearts, R5)], &[(Clubs, R10), (Hearts, R6)], &[(Diamonds, King)]);
    gs.player_stand();
    assert_eq!(gs.outcome, Some(Outcome::DealerBust));
    assert_eq!(gs.bankroll, 110);

    let mut gs = table(Phase::PlayerTurn, &[(Spades, R10), (Hearts, R7)], &[(Clubs, R10), (Hearts, R7)], &[]);
    gs.player_stand();
    assert_eq!(gs.outcome, Some(Outcome::Push));
    assert_eq!(gs.bankroll, 100);
}

#[test]
fn soft_17_in_the_six_deck_game() {
    let mut gs = table(Phase::PlayerTurn, &[(Spades, R10), (Hearts, R8)], &[(Clubs, Ace), (Hearts, R6)], &[(Diamonds, R2)]);
    gs.game_mode = GameMode::SixDeck;
    gs.player_stand();
    assert_eq!(gs.dealer.0.len(), 3);
    assert_eq!(gs.dealer.total(), 19);
    assert_eq!(gs.outcome, Some(Outcome::DealerWin));

    let mut gs = table(Phase::PlayerTurn, &[(Spades, R10), (Hearts, R8)], &[(Clubs, Ace), (Hearts, R6)], &[(Diamonds, R2)]);
    gs.player_stand();
    assert_eq!(gs.dealer.0.len(), 2);
    assert_eq!(gs.outcome, Some(Outcome::PlayerWin));
}

#[test]
fn double_doubles_the_wager_and_takes_one_card() {
    let mut gs = table(Phase::PlayerTurn, &[(Spades, R5), (Hearts, R6)], &[(Clubs, R10), (Hearts, R7)], &[(Diamonds, R10)]);
    assert!(gs.can_double());
    gs.player_double();
    assert_eq!(gs.bet, 20);
    assert_eq!(gs.player.0.len(), 3);
    assert_eq!(gs.player.total(), 21);
    assert_eq!(gs.outcome, Some(Outcome::PlayerWin));
    assert_eq!(gs.bankroll, 90 - 10 + 40);
}

#[test]
fn double_not_allowed_changes_nothing() {
    let mut gs = table(Phase::PlayerTurn, &[(Spades, R5), (Hearts, R6), (Clubs, R2)], &[(Clubs, R10), (Hearts, R7)], &[]);
    assert!(!gs.can_double());
    let before = gs.clone();
    gs.player_double();
    assert_eq!(gs, before);

    let mut gs = table(Phase::PlayerTurn, &[(Spades, R5), (Hearts, R6)], &[(Clubs, R10), (Hearts, R7)], &[]);
    gs.bankroll = 9;
    assert!(!gs.can_double());
}

#[test]
fn double_and_bust_loses_twice_the_wager() {
    let mut gs = table(Phase::PlayerTurn, &[(Spades, R10), (Hearts, R6)], &[(Clubs, Ace), (Hearts, King)], &[(Diamonds, R10)]);
    gs.player_double();
    assert_eq!(gs.outcome, Some(Outcome::PlayerBust));
    assert_eq!(gs.bankroll, 80);
    assert_eq!(gs.bet, 20);
}

#[test]
fn actions_outside_the_players_turn_change_nothing() {
    let mut gs = table(Phase::RoundOver, &[(Spades, R10), (Hearts, R6)], &[(Clubs, R10), (Hearts, R7)], &[]);
    gs.outcome = Some(Outcome::DealerWin);
    let before = gs.clone();
    gs.player_hit();
    gs.player_stand();
    gs.player_double();
    assert_eq!(gs, before);
}

#[test]
fn betting_steps_and_limits() {
    let mut gs = GameState::init(GameMode::SingleDeck);
    assert_eq!(gs.bet, 10);
    assert_eq!(gs.bankroll, 100);
    assert_eq!(gs.max_bet(), 100);
    gs.bet_up();
    assert_eq!(gs.bet, 15);
    gs.bet_down();
    assert_eq!(gs.bet, 10);
    gs.bet_down();
    gs.bet_down();
    assert_eq!(gs.bet, GameState::MIN_BET);
    gs.bet = 98;
    gs.bet_up();
    assert_eq!(gs.bet, 100);
    gs.bankroll = 3;
    assert_eq!(gs.max_bet(), 3);
}

#[test]
fn next_round_resets_the_table_and_clamps_the_bet() {
    let mut gs = table(Phase::RoundOver, &[(Spades, R10), (Hearts, R6)], &[(Clubs, R10), (Hearts, R7)], &[]);
    gs.outcome = Some(Outcome::DealerWin);
    gs.bankroll = 20;
    gs.bet = 40;
    gs.next_round();
    assert_eq!(gs.phase, Phase::Betting);
    assert!(gs.player.0.is_empty());
    assert!(gs.dealer.0.is_empty());
    assert_eq!(gs.outcome, None);
    assert!(!gs.hole_hidden);
    assert_eq!(gs.bet, 20);
    gs.bankroll = 0;
    gs.next_round();
    assert_eq!(gs.bet, GameState::MIN_BET);
    assert!(gs.is_broke());
}

#[test]
fn full_round_accounting() {
    let mut gs = GameState::init(GameMode::SixDeck);
    let start = gs.bankroll;
    gs.deal_round();
    while gs.phase == Phase::PlayerTurn {
        if gs.player.total() < 15 {
            gs.player_hit();
        } else {
            gs.player_stand();
        }
        if gs.phase == Phase::PlayerTurn {
            assert_eq!(gs.bankroll + gs.bet, start);
        }
    }
    assert_eq!(gs.phase, Phase::RoundOver);
    let outcome = gs.outcome.unwrap();
    let bet = gs.bet;
    let payout = match outcome {
        Outcome::PlayerBlackjack => bet + bet * 3 / 2,
        Outcome::PlayerWin | Outcome::DealerBust => 2 * bet,
        Outcome::Push => bet,
        Outcome::DealerWin | Outcome::PlayerBust => 0,
    };
    assert_eq!(gs.bankroll, start - bet + payout);
}

#[test]
fn overflow_checks() {
    let mut gs = table(Phase::Betting, &[], &[], &[(Spades, Ace), (Hearts, R5), (Clubs, King), (Hearts, R10)]);
    assert!(gs.deal_fits_check());
    gs.bankroll = u32::MAX;
    gs.bet = u32::MAX;
    assert!(!gs.deal_fits_check());
    let gs = table(Phase::PlayerTurn, &[(Spades, R10), (Hearts, R6)], &[(Clubs, R10), (Hearts, R7)], &[]);
    assert!(gs.hit_fits_check());
    assert!(gs.stand_fits_check());
    assert!(gs.double_fits_check());
}

#[test]
fn max_bet_is_the_bankroll() {
    let mut gs = GameState::init(GameMode::SingleDeck);
    gs.bankroll = 3;
    assert_eq!(gs.max_bet(), 3);
    gs.bankroll = 0;
    assert_eq!(gs.max_bet(), 0);
    gs.bankroll = 250;
    assert_eq!(gs.max_bet(), 250);
}

#[test]
fn overflow_checks_follow_the_known_deal() {
    // A losing deal near the top of the u32 range runs.
    let mut gs = table(Phase::Betting, &[], &[], &[(Spades, R9), (Hearts, R5), (Clubs, R8), (Hearts, R10)]);
    gs.bankroll = u32::MAX;
    gs.bet = u32::MAX / 2;
    assert!(gs.deal_fits_check());
    gs.deal_round();
    assert_eq!(gs.phase, Phase::PlayerTurn);
    // A blackjack at the same stakes would overflow.
    let mut gs = table(Phase::Betting, &[], &[], &[(Spades, Ace), (Hearts, R5), (Clubs, King), (Hearts, R10)]);
    gs.bankroll = u32::MAX;
    gs.bet = u32::MAX / 2;
    assert!(!gs.deal_fits_check());
    // A dealer natural settles for nothing, whatever the stakes.
    let mut gs = table(Phase::Betting, &[], &[], &[(Spades, R9), (Hearts, Ace), (Clubs, R8), (Hearts, Queen)]);
    gs.bankroll = u32::MAX;
    gs.bet = u32::MAX;
    assert!(gs.deal_fits_check());
    gs.deal_round();
    assert_eq!(gs.outcome, Some(Outcome::DealerWin));
    assert_eq!(gs.bankroll, 0);
}

#[test]
fn double_into_a_known_bust_needs_no_room_for_a_win() {
    let mut gs = table(Phase::PlayerTurn, &[(Spades, R10), (Hearts, R6)], &[(Clubs, R10), (Hearts, R7)], &[(Diamonds, R10)]);
    gs.bankroll = u32::MAX - 10;
    assert!(gs.double_fits_check());
    let mut gs = table(Phase::PlayerTurn, &[(Spades, R5), (Hearts, R6)], &[(Clubs, R10), (Hearts, R7)], &[(Diamonds, R10)]);
    gs.bankroll = u32::MAX - 10;
    assert!(!gs.double_fits_check());
}

#[test]
fn wager_stays_in_bounds_over_rounds() {
    let mut gs = GameState::init(GameMode::SingleDeck);
    for _ in 0..20 {
        if gs.is_broke() {
            break;
        }
        assert!(GameState::MIN_BET <= gs.bet && gs.bet <= gs.max_bet());
        gs.bet_up();
        gs.deal_round();
        while gs.phase == Phase::PlayerTurn {
            assert!(gs.bet >= GameState::MIN_BET);
            gs.player_stand();
        }
        assert!(gs.bet >= GameState::MIN_BET);
        gs.next_round();
    }
}

#[test]
fn broke_player_keeps_the_minimum_wager() {
    let mut gs = GameState::init(GameMode::SingleDeck);
    gs.bankroll = 3;
    gs.bet = 5;
    gs.bet_up();
    assert_eq!(gs.bet, GameState::MIN_BET);
    gs.bet_down();
    assert_eq!(gs.bet, GameState::MIN_BET);
}

#[test]
fn a_known_loss_near_the_top_of_the_range_is_settled() {
    // Stand on 16 against a hard 20: a loss, whatever the bankroll.
    let mut gs = table(Phase::PlayerTurn, &[(Spades, R10), (Hearts, R6)], &[(Clubs, R10), (Hearts, Queen)], &[]);
    gs.bankroll = u32::MAX - 10;
    assert!(gs.stand_fits_check());
    gs.player_stand();
    assert_eq!(gs.outcome, Some(Outcome::DealerWin));
    assert_eq!(gs.bankroll, u32::MAX - 10);
    // The same table won would overflow.
    let gs = table(Phase::PlayerTurn, &[(Spades, R10), (Hearts, Ace)], &[(Clubs, R10), (Hearts, R9)], &[(Spades, R5)]);
    let mut gs = gs;
    gs.player.0.push(Card::new(Diamonds, R9));
    gs.bankroll = u32::MAX - 10;
    assert!(!gs.stand_fits_check());
    // The dealer draws to a bust from a known shoe: that win overflows too.
    let mut gs = table(Phase::PlayerTurn, &[(Spades, R10), (Hearts, R6)], &[(Clubs, R10), (Hearts, R6)], &[(Spades, King)]);
    gs.bankroll = u32::MAX - 10;
    assert!(!gs.stand_fits_check());
    // A dealer that draws to 17 from a known shoe beats 16.
    let mut gs = table(Phase::PlayerTurn, &[(Spades, R10), (Hearts, R6)], &[(Clubs, R10), (Hearts, R6)], &[(Spades, Ace)]);
    gs.bankroll = u32::MAX - 10;
    assert!(gs.stand_fits_check());
    gs.player_stand();
    assert_eq!(gs.outcome, Some(Outcome::DealerWin));
}

#[test]
fn a_known_losing_double_near_the_top_of_the_range_runs() {
    // Double 11 into a 5 for 16 against a hard 20.
    let mut gs = table(Phase::PlayerTurn, &[(Spades, R5), (Hearts, R6)], &[(Clubs, R10), (Hearts, Queen)], &[(Diamonds, R5)]);
    gs.bankroll = u32::MAX - 30;
    assert!(gs.double_fits_check());
    gs.player_double();
    assert_eq!(gs.outcome, Some(Outcome::DealerWin));
    assert_eq!(gs.bankroll, u32::MAX - 40);
}

#[test]
fn table_labels() {
    let mut gs = table(Phase::PlayerTurn, &[(Spades, R10), (Hearts, R6)], &[(Clubs, Ace), (Hearts, King)], &[]);
    assert_eq!(gs.dealer_label(), "Dealer: 11 + ?");
    assert_eq!(gs.player_label(), "You: 16");
    gs.hole_hidden = false;
    assert_eq!(gs.dealer_label(), "Dealer: 21");
    gs.dealer = Hand(Vec::new());
    gs.player = Hand(Vec::new());
    assert_eq!(gs.dealer_label(), "Dealer");
    assert_eq!(gs.player_label(), "You");
    let many: Vec<(Suit, Rank)> = (0..21).map(|_| (Spades, Ace)).collect();
    gs.player = Hand(cards(&many));
    assert_eq!(gs.player_label(), "You: 21");
}

#[test]
fn decimal_text() {
    assert_eq!(decimal(0), "0");
    assert_eq!(decimal(7), "7");
    assert_eq!(decimal(10), "10");
    assert_eq!(decimal(99), "99");
    assert_eq!(decimal(100), "100");
    assert_eq!(decimal(255), "255");
}
