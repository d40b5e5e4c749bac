//! The dealer's drawing policy and the settlement of a finished hand.

use vstd::prelude::*;

use crate::game_state::{countable, dealer_hits, outcome_countable, outcome_of, GameMode, Hand, Outcome};

verus! {

/// Standard dealer policy: draw to 17, then stand. In rule sets that hit a
/// soft 17 the dealer takes one more card on a soft total of exactly 17.
pub fn dealer_should_hit(dealer: &Hand, mode: GameMode) -> (b: bool)
    requires
        countable(dealer@),
    ensures
        b == dealer_hits(dealer@, mode),
{
    let total = dealer.total();
    if total < 17 {
        return true;
    }
    if total == 17 && dealer.is_soft() && mode.dealer_hits_soft_17() {
        return true;
    }
    false
}

/// Settle a completed hand. Assumes the dealer has already finished drawing.
pub fn determine_outcome(player: &Hand, dealer: &Hand) -> (o: Outcome)
    requires
        outcome_countable(player@, dealer@),
    ensures
        o == outcome_of(player@, dealer@),
{
    let player_bj = player.is_blackjack();
    let dealer_bj = dealer.is_blackjack();

    if player_bj && dealer_bj {
        return Outcome::Push;
    }
    if player_bj {
        return Outcome::PlayerBlackjack;
    }
    if dealer_bj {
        return Outcome::DealerWin;
    }
    if player.is_bust() {
        return Outcome::PlayerBust;
    }
    if dealer.is_bust() {
        return Outcome::DealerBust;
    }
    let player_total = player.total();
    let dealer_total = dealer.total();
    if player_total > dealer_total {
        Outcome::PlayerWin
    } else if player_total < dealer_total {
        Outcome::DealerWin
    } else {
        Outcome::Push
    }
}

} // verus!
