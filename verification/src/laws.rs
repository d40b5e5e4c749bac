//! What holds of the library as a whole: of decks and shoes, of counting a
//! hand, of the dealer's policy, of settlement, of betting, and of a round
//! played through the table's operations.

use vstd::prelude::*;

use crate::cards::{decks_view, deck_card, ordered_deck_view, Card, Rank};
use crate::game_state::{
    ace_count, dealer_hits, hand_blackjack, hand_bust, hand_soft, hand_total, lemma_settle,
    lemma_total_bounds, lemma_two_cards, outcome_of, payout, raw_sum, GameMode, GameState,
    Outcome, Phase,
};
use crate::app::{is_confirm, App, GameKey};
use crate::selection::{available_view, clamped_cursor, PlayerAction};

verus! {

proof fn lemma_deck_card_indices(i: int)
    requires
        0 <= i < 52,
    ensures
        deck_card(i).suit.index() == i / 13,
        deck_card(i).rank.index() == i % 13,
        i == 13 * (i / 13) + i % 13,
{
    assert(0 <= i / 13 < 4 && 0 <= i % 13 < 13 && i == 13 * (i / 13) + i % 13) by (nonlinear_arith)
        requires
            0 <= i < 52,
    ;
}

/// The ordered deck holds each of the 52 cards exactly once: every suit with
/// every rank, and no card twice.
pub proof fn law_ordered_deck_is_complete()
    ensures
        ordered_deck_view().len() == 52,
        ordered_deck_view().no_duplicates(),
        forall|c: Card| #[trigger] ordered_deck_view().contains(c),
        forall|c: Card| #[trigger] ordered_deck_view().to_multiset().count(c) == 1,
{
    let deck = ordered_deck_view();
    assert forall|i: int, j: int| 0 <= i < deck.len() && 0 <= j < deck.len() && i != j implies deck[i]
        != deck[j] by {
        lemma_deck_card_indices(i);
        lemma_deck_card_indices(j);
    }
    assert forall|c: Card| #[trigger] deck.contains(c) by {
        let i = 13 * c.suit.index() + c.rank.index();
        lemma_deck_card_indices(i);
        assert(i / 13 == c.suit.index() && i % 13 == c.rank.index()) by (nonlinear_arith)
            requires
                i == 13 * c.suit.index() + c.rank.index(),
                0 <= c.rank.index() < 13,
        ;
        assert(deck[i] == c);
    }
    deck.lemma_multiset_has_no_duplicates();
    assert forall|c: Card| #[trigger] deck.to_multiset().count(c) == 1 by {
        assert(deck.contains(c));
        vstd::seq_lib::to_multiset_contains(deck, c);
    }
}

/// A shoe of `n` decks holds each card exactly `n` times.
pub proof fn law_shoe_counts(n: nat)
    ensures
        forall|c: Card| #[trigger] decks_view(n).to_multiset().count(c) == n,
    decreases n,
{
    if n > 0 {
        law_shoe_counts((n - 1) as nat);
        law_ordered_deck_is_complete();
        vstd::seq_lib::lemma_multiset_commutative(decks_view((n - 1) as nat), ordered_deck_view());
    } else {
        assert forall|c: Card| #[trigger] decks_view(n).to_multiset().count(c) == n by {
            assert(decks_view(n) =~= Seq::<Card>::empty());
            vstd::seq_lib::to_multiset_contains(decks_view(n), c);
        }
    }
}

/// The total of a hand is its best count: the count reached by taking some
/// of its aces as 1 and the rest as 11, the highest such count that is not
/// over 21; where every such count is over 21, every ace counts 1. A soft
/// total is never over 21.
pub proof fn law_total_is_best_count(cards: Seq<Card>)
    ensures
        exists|k: int|
            0 <= k <= ace_count(cards) && #[trigger] (raw_sum(cards) - 10 * k) == hand_total(cards),
        forall|k: int|
            0 <= k <= ace_count(cards) && raw_sum(cards) - 10 * k <= 21 ==> #[trigger] (raw_sum(
                cards,
            ) - 10 * k) <= hand_total(cards),
        hand_total(cards) > 21 ==> hand_total(cards) == raw_sum(cards) - 10 * ace_count(cards),
        hand_soft(cards) ==> hand_total(cards) <= 21,
{
    crate::game_state::lemma_low_sum(cards);
    lemma_settle(raw_sum(cards), ace_count(cards));
    lemma_total_bounds(cards);
    let k = ace_count(cards) - crate::game_state::settle(raw_sum(cards), ace_count(cards)).1;
    assert(raw_sum(cards) - 10 * k == hand_total(cards));
}

/// A blackjack totals 21 and is never bust, and no two cards are bust.
pub proof fn law_two_card_hands(cards: Seq<Card>)
    requires
        cards.len() == 2,
    ensures
        !hand_bust(cards),
        hand_blackjack(cards) ==> hand_total(cards) == 21,
{
    lemma_two_cards(cards);
}

/// The dealer draws below 17 and stands from 18 up, in every rule set; on 17
/// the dealer stands on a hard total, and on a soft one hits exactly in the
/// six-deck game. A dealer who stands holds at least 17.
pub proof fn law_dealer_policy(cards: Seq<Card>, mode: GameMode)
    ensures
        hand_total(cards) < 17 ==> dealer_hits(cards, mode),
        hand_total(cards) >= 18 ==> !dealer_hits(cards, mode),
        hand_total(cards) == 17 && !hand_soft(cards) ==> !dealer_hits(cards, mode),
        hand_total(cards) == 17 && hand_soft(cards) ==> (dealer_hits(cards, mode) <==> mode
            == GameMode::SixDeck),
        !dealer_hits(cards, mode) ==> hand_total(cards) >= 17,
{
}

/// Settlement: a natural beats anything but a natural, which pushes; without
/// naturals a bust player loses whatever the dealer holds, a bust dealer
/// loses to a standing player, and otherwise the higher total wins.
pub proof fn law_settlement(player: Seq<Card>, dealer: Seq<Card>)
    ensures
        hand_blackjack(player) && hand_blackjack(dealer) ==> outcome_of(player, dealer)
            == Outcome::Push,
        hand_blackjack(player) && !hand_blackjack(dealer) ==> outcome_of(player, dealer)
            == Outcome::PlayerBlackjack,
        !hand_blackjack(player) && hand_blackjack(dealer) ==> outcome_of(player, dealer)
            == Outcome::DealerWin,
        !hand_blackjack(player) && !hand_blackjack(dealer) && hand_bust(player) ==> outcome_of(
            player,
            dealer,
        ) == Outcome::PlayerBust,
        !hand_blackjack(player) && !hand_blackjack(dealer) && !hand_bust(player) && hand_bust(
            dealer,
        ) ==> outcome_of(player, dealer) == Outcome::DealerBust,
        !hand_blackjack(player) && !hand_blackjack(dealer) && !hand_bust(player) && !hand_bust(
            dealer,
        ) ==> (outcome_of(player, dealer).won() <==> hand_total(player) > hand_total(dealer)),
        outcome_of(player, dealer) == Outcome::Push ==> hand_total(player) == hand_total(dealer)
            || (hand_blackjack(player) && hand_blackjack(dealer)),
{
}

/// What a settled wager pays back: a win returns more than the stake (3:2 on
/// a blackjack, rounded down, else even money), a push returns the stake, a
/// loss returns nothing.
pub proof fn law_payouts(outcome: Outcome, bet: int)
    requires
        bet > 0,
    ensures
        outcome.won() <==> payout(outcome, bet) > bet,
        outcome == Outcome::Push <==> payout(outcome, bet) == bet,
        payout(outcome, bet) == 0 <==> (outcome == Outcome::DealerWin || outcome
            == Outcome::PlayerBust),
        payout(Outcome::PlayerBlackjack, bet) == bet + (3 * bet) / 2,
        payout(Outcome::PlayerWin, bet) == 2 * bet,
        payout(Outcome::DealerBust, bet) == 2 * bet,
{
}

/// Stepping the wager keeps it between the minimum bet and the most the
/// player can bet, and a step down undoes a step up that was not cut off.
pub proof fn law_bet_steps(s0: GameState, s1: GameState, s2: GameState)
    requires
        GameState::MIN_BET <= s0.bet <= s0.max_bet_view(),
    ensures
        GameState::bet_up_post(s0, s1) ==> GameState::MIN_BET <= s1.bet <= s1.max_bet_view(),
        GameState::bet_down_post(s0, s1) ==> GameState::MIN_BET <= s1.bet <= s1.max_bet_view(),
        GameState::bet_up_post(s0, s1) && GameState::bet_down_post(s1, s2) && s0.bet + GameState::BET_STEP
            <= s0.max_bet_view() ==> s2 == s0,
{
}

/// A deal with enough cards in the shoe takes the top four cards, alternating
/// player and dealer, and charges the wager, clamped to what the player has.
pub proof fn law_deal_takes_top_cards(old: GameState, new: GameState)
    requires
        GameState::deal_post(old, new),
        old.phase == Phase::Betting,
        old.bankroll >= GameState::MIN_BET,
        old.shoe@.len() >= GameState::RESHUFFLE_AT,
    ensures
        new.player@ == seq![old.shoe@[old.shoe@.len() - 1], old.shoe@[old.shoe@.len() - 3]],
        new.dealer@ == seq![old.shoe@[old.shoe@.len() - 2], old.shoe@[old.shoe@.len() - 4]],
        new.shoe@ == old.shoe@.take(old.shoe@.len() - 4),
        GameState::MIN_BET <= new.bet <= old.bankroll,
        new.phase == Phase::PlayerTurn ==> new.bankroll == old.bankroll - new.bet,
{
    let s = new.deal_source();
    assert(new.player@ =~= seq![s[s.len() - 1], s[s.len() - 3]]);
    assert(new.dealer@ =~= seq![s[s.len() - 2], s[s.len() - 4]]);
    assert(new.shoe@ =~= s.take(s.len() - 4));
}

/// A player with too few chips to bet is not dealt in: the deal changes
/// nothing.
pub proof fn law_broke_player_is_not_dealt(old: GameState, new: GameState)
    requires
        old.broke(),
        GameState::deal_post(old, new),
    ensures
        new == old,
{
}

/// The chips of a round, at the deal: the wager leaves the bankroll, so that
/// bankroll and wager together make the chips held before the deal; a natural
/// is settled at once on that wager.
pub proof fn law_deal_stakes_the_bet(s0: GameState, s1: GameState)
    requires
        s0.phase == Phase::Betting,
        s0.bankroll >= GameState::MIN_BET,
        GameState::deal_post(s0, s1),
    ensures
        s1.phase == Phase::PlayerTurn ==> s1.bankroll + s1.bet == s0.bankroll,
        s1.phase == Phase::RoundOver ==> s1.outcome is Some && s1.bankroll == s0.bankroll - s1.bet
            + payout(s1.outcome->0, s1.bet as int),
{
}

/// The chips of a round, during the player's turn: hitting and doubling keep
/// bankroll and wager together equal to the chips held before the deal, and
/// when the round is settled the bankroll is those chips, less the final
/// wager, plus what the outcome pays on it.
pub proof fn law_round_accounting(s1: GameState, s2: GameState, chips: int)
    requires
        s1.phase == Phase::PlayerTurn,
        s1.bankroll + s1.bet == chips,
        GameState::hit_post(s1, s2) || GameState::stand_post(s1, s2) || GameState::double_post(
            s1,
            s2,
        ),
    ensures
        s2.phase == Phase::PlayerTurn || s2.phase == Phase::RoundOver,
        s2.phase == Phase::PlayerTurn ==> s2.bankroll + s2.bet == chips,
        s2.phase == Phase::RoundOver ==> s2.outcome is Some && s2.bankroll == chips - s2.bet
            + payout(s2.outcome->0, s2.bet as int),
{
}

/// The table's round protocol holds in every state the operations reach:
/// an outcome is shown exactly when the round is over; the dealer's hole
/// card is hidden exactly during the player's turn; while betting no cards
/// are out; during the player's turn the dealer holds two cards, no natural
/// is on the table and the player is not bust; the wager is always at least
/// the minimum bet, and while betting, unless the player is broke, at most
/// what the player can bet.
pub proof fn law_rounds_stay_consistent(old: GameState, new: GameState)
    requires
        old.round_consistent(),
        GameState::deal_post(old, new) || GameState::hit_post(old, new) || GameState::stand_post(
            old,
            new,
        ) || GameState::double_post(old, new) || GameState::next_round_post(old, new)
            || GameState::bet_up_post(old, new) || GameState::bet_down_post(old, new),
    ensures
        new.round_consistent(),
{
    if GameState::deal_post(old, new) && old.phase == Phase::Betting && old.bankroll
        >= GameState::MIN_BET {
        lemma_two_cards(new.player@);
    }
}

/// A new game starts in a consistent state.
pub proof fn law_new_game_is_consistent(gs: GameState, mode: GameMode)
    requires
        gs.initial(mode),
    ensures
        gs.round_consistent(),
{
}

/// The player is always offered to hit and to stand, and to double exactly
/// when doubling is allowed; the cursor, once clamped, rests on an offered
/// action.
pub proof fn law_offered_actions(game_state: GameState, cursor: int)
    requires
        cursor >= 0,
    ensures
        available_view(game_state)[0] == PlayerAction::Hit,
        available_view(game_state)[1] == PlayerAction::Stand,
        available_view(game_state).contains(PlayerAction::Double) <==> game_state.can_double_view(),
        0 <= clamped_cursor(cursor, game_state) < available_view(game_state).len(),
{
    if !game_state.can_double_view() {
        assert(!available_view(game_state).contains(PlayerAction::Double)) by {
            let a = available_view(game_state);
            assert forall|i: int| 0 <= i < a.len() implies a[i] != PlayerAction::Double by {}
        }
    } else {
        assert(available_view(game_state)[2] == PlayerAction::Double);
    }
}

/// While the hole card is hidden, the dealer's label shows only the up card:
/// two tables whose dealers share the up card show the same label.
pub proof fn law_hidden_hole_card(a: GameState, b: GameState)
    requires
        a.hole_hidden,
        b.hole_hidden,
        a.dealer@.len() > 0,
        b.dealer@.len() > 0,
        a.dealer@[0] == b.dealer@[0],
    ensures
        a.dealer_label_view() == b.dealer_label_view(),
{
    assert(a.dealer@.take(1) =~= b.dealer@.take(1));
}

/// Without a natural and with neither hand bust, the hands are compared by
/// total: the higher total wins, and equal totals push, the bet returned.
pub proof fn law_totals_decide(player: Seq<Card>, dealer: Seq<Card>, bet: int)
    requires
        !hand_blackjack(player),
        !hand_blackjack(dealer),
        !hand_bust(player),
        !hand_bust(dealer),
        bet >= 0,
    ensures
        hand_total(player) > hand_total(dealer) ==> outcome_of(player, dealer)
            == Outcome::PlayerWin,
        hand_total(player) < hand_total(dealer) ==> outcome_of(player, dealer)
            == Outcome::DealerWin,
        hand_total(player) == hand_total(dealer) ==> outcome_of(player, dealer) == Outcome::Push
            && payout(outcome_of(player, dealer), bet) == bet,
{
}

/// A step up raises the wager by one step when the bankroll covers it, else
/// to the whole bankroll, and never below the minimum bet; a step down lowers
/// it by one step, but not below the minimum bet. Nothing else changes.
pub proof fn law_bet_step_values(old: GameState, new: GameState)
    ensures
        GameState::bet_up_post(old, new) ==> {
            &&& new.same_but_bet(old)
            &&& old.bet + GameState::BET_STEP <= old.bankroll ==> new.bet == old.bet
                + GameState::BET_STEP
            &&& old.bet + GameState::BET_STEP > old.bankroll && old.bankroll
                >= GameState::MIN_BET ==> new.bet == old.bankroll
            &&& old.bankroll < GameState::MIN_BET ==> new.bet == GameState::MIN_BET
        },
        GameState::bet_down_post(old, new) ==> {
            &&& new.same_but_bet(old)
            &&& old.bet >= GameState::MIN_BET + GameState::BET_STEP ==> new.bet == old.bet
                - GameState::BET_STEP
            &&& old.bet < GameState::MIN_BET + GameState::BET_STEP ==> new.bet
                == GameState::MIN_BET
        },
{
}

/// The next round keeps the wager when the player can afford it; a wager
/// below the minimum is raised to it, one above the bankroll cut to the
/// bankroll, and a player who cannot afford the minimum is left at it. The
/// table is cleared for betting and the chips and shoe are kept.
pub proof fn law_next_round_wager(old: GameState, new: GameState)
    requires
        GameState::next_round_post(old, new),
    ensures
        GameState::MIN_BET <= old.bet <= old.bankroll ==> new.bet == old.bet,
        old.bet < GameState::MIN_BET ==> new.bet == GameState::MIN_BET,
        old.bet > old.bankroll && old.bankroll >= GameState::MIN_BET ==> new.bet == old.bankroll,
        old.bankroll < GameState::MIN_BET ==> new.bet == GameState::MIN_BET,
        new.phase == Phase::Betting,
        new.player@.len() == 0,
        new.dealer@.len() == 0,
        new.outcome is None,
        !new.hole_hidden,
        new.bankroll == old.bankroll,
        new.shoe == old.shoe,
{
}

/// Doubling is offered, and taken, exactly on a two-card hand in the
/// player's turn when the bankroll covers one more stake: the wager doubles,
/// the stake leaves the bankroll and the player gets exactly one card.
/// Otherwise doubling changes nothing.
pub proof fn law_doubling(old: GameState, new: GameState)
    ensures
        old.can_double_view() <==> (old.phase == Phase::PlayerTurn && old.player@.len() == 2
            && old.bankroll >= old.bet),
        available_view(old).contains(PlayerAction::Double) <==> (old.phase == Phase::PlayerTurn
            && old.player@.len() == 2 && old.bankroll >= old.bet),
        GameState::double_post(old, new) && old.phase == Phase::PlayerTurn && old.player@.len()
            == 2 && old.bankroll >= old.bet ==> {
            &&& new.bet == 2 * old.bet
            &&& new.player@.len() == 3
            &&& new.player@.take(2) == old.player@
            &&& new.phase == Phase::RoundOver
            &&& new.outcome is Some
            &&& new.bankroll == old.bankroll - old.bet + payout(new.outcome->0, 2 * old.bet)
        },
        GameState::double_post(old, new) && !(old.phase == Phase::PlayerTurn
            && old.player@.len() == 2 && old.bankroll >= old.bet) ==> new == old,
{
    law_offered_actions(old, 0);
    if GameState::double_post(old, new) && old.can_double_view() {
        assert(new.player@.take(2) =~= new.player@.drop_last());
    }
}

/// The cursor picks the action it rests on, counted from the left: Hit,
/// then Stand, then Double when it is offered; past the row it picks none.
pub proof fn law_cursor_picks_action(app: App)
    ensures
        app.cursor == 0 ==> app.action_at_cursor() == Some(PlayerAction::Hit),
        app.cursor == 1 ==> app.action_at_cursor() == Some(PlayerAction::Stand),
        app.cursor == 2 && app.game_state.can_double_view() ==> app.action_at_cursor() == Some(
            PlayerAction::Double,
        ),
        app.cursor == 2 && !app.game_state.can_double_view() ==> app.action_at_cursor() is None,
        app.cursor >= 3 ==> app.action_at_cursor() is None,
        app.cursor < available_view(app.game_state).len() ==> app.action_at_cursor() == Some(
            available_view(app.game_state)[app.cursor as int],
        ),
{
}

/// Confirming during the player's turn runs the highlighted action: Hit on
/// the first button, Stand on the second, Double on the third; the cursor
/// goes back to the first button.
pub proof fn law_confirm_runs_highlighted_action(old: App, key: GameKey, new: App)
    requires
        App::game_key_post(old, key, new),
        old.game_state.phase == Phase::PlayerTurn,
        is_confirm(key),
    ensures
        old.cursor == 0 ==> GameState::hit_post(old.game_state, new.game_state),
        old.cursor == 1 ==> GameState::stand_post(old.game_state, new.game_state),
        old.cursor == 2 && old.game_state.can_double_view() ==> GameState::double_post(
            old.game_state,
            new.game_state,
        ),
        old.cursor >= 3 ==> new.game_state == old.game_state,
        new.cursor == clamped_cursor(0, new.game_state),
{
    law_cursor_picks_action(old);
    assert(key != GameKey::Char('?') && key != GameKey::Char('d') && key != GameKey::Esc);
}

/// Two cards are a blackjack exactly when one is an ace and the other counts
/// ten.
pub proof fn law_blackjack_cards(cards: Seq<Card>)
    requires
        cards.len() == 2,
    ensures
        hand_blackjack(cards) <==> (cards[0].rank == Rank::Ace && cards[1].rank.points() == 10)
            || (cards[1].rank == Rank::Ace && cards[0].rank.points() == 10),
{
    let first = cards.drop_last();
    assert(first.last() == cards[0]);
    assert(first.drop_last() =~= Seq::<Card>::empty());
    assert(raw_sum(first.drop_last()) == 0 && ace_count(first.drop_last()) == 0);
    assert(raw_sum(first) == cards[0].rank.points());
    assert(ace_count(first) == if cards[0].rank == Rank::Ace {
        1int
    } else {
        0int
    });
    lemma_settle(raw_sum(cards), ace_count(cards));
    if cards[0].rank == Rank::Ace && cards[1].rank == Rank::Ace {
        assert(crate::game_state::settle(22, 2) == crate::game_state::settle(12, 1));
    }
}

/// A hit in the player's turn gives the player exactly one more card and
/// keeps the wager and the dealer's hand; a total over 21 loses the round at
/// once with the hole card shown and no chips returned, any other total
/// keeps the player's turn. Outside the player's turn a hit changes nothing.
pub proof fn law_hit(old: GameState, new: GameState)
    requires
        GameState::hit_post(old, new),
    ensures
        old.phase != Phase::PlayerTurn ==> new == old,
        old.phase == Phase::PlayerTurn ==> {
            &&& new.player@.len() == old.player@.len() + 1
            &&& new.player@.take(old.player@.len() as int) == old.player@
            &&& new.bet == old.bet
            &&& new.dealer == old.dealer
            &&& new.bankroll == old.bankroll
            &&& hand_total(new.player@) > 21 ==> new.outcome == Some(Outcome::PlayerBust)
                && new.phase == Phase::RoundOver && !new.hole_hidden
            &&& hand_total(new.player@) <= 21 ==> new.phase == Phase::PlayerTurn && new.outcome
                == old.outcome && new.hole_hidden == old.hole_hidden
        },
{
    if old.phase == Phase::PlayerTurn {
        assert(new.player@.take(old.player@.len() as int) =~= new.player@.drop_last());
    }
}

/// Keys while betting: right or up steps the wager up, left or down steps it
/// down, Home sets the minimum bet, End the most the player can bet (not
/// below the minimum), Enter or space deals; the cursor goes back to the
/// first button on a deal and stays otherwise.
pub proof fn law_betting_keys(old: App, key: GameKey, new: App, cursor: int)
    requires
        old.game_state.phase == Phase::Betting,
        App::betting_key_post(old, key, new.game_state, cursor),
    ensures
        key == GameKey::Right || key == GameKey::Up ==> GameState::bet_up_post(
            old.game_state,
            new.game_state,
        ) && cursor == old.cursor,
        key == GameKey::Left || key == GameKey::Down ==> GameState::bet_down_post(
            old.game_state,
            new.game_state,
        ) && cursor == old.cursor,
        key == GameKey::Home ==> new.game_state.same_but_bet(old.game_state) && new.game_state.bet
            == GameState::MIN_BET,
        key == GameKey::End && old.game_state.bankroll >= GameState::MIN_BET
            ==> new.game_state.same_but_bet(old.game_state) && new.game_state.bet
            == old.game_state.bankroll,
        key == GameKey::End && old.game_state.bankroll < GameState::MIN_BET
            ==> new.game_state.bet == GameState::MIN_BET,
        key == GameKey::Enter || key == GameKey::Char(' ') ==> GameState::deal_post(
            old.game_state,
            new.game_state,
        ) && cursor == 0,
{
}

/// Arrow keys in the player's turn move the cursor one button left or
/// right, stopping at either end of the row, and change nothing else.
pub proof fn law_cursor_keys(old: App, key: GameKey, new: App, cursor: int)
    requires
        old.game_state.phase == Phase::PlayerTurn,
        App::player_turn_key_post(old, key, new.game_state, cursor),
        old.cursor < available_view(old.game_state).len(),
    ensures
        key == GameKey::Left ==> new.game_state == old.game_state && cursor == if old.cursor
            == 0 {
            0
        } else {
            old.cursor - 1
        },
        key == GameKey::Right ==> new.game_state == old.game_state && cursor == if old.cursor + 1
            < available_view(old.game_state).len() {
            old.cursor + 1
        } else {
            old.cursor as int
        },
{
}

/// Standing in the player's turn ends the round: with no natural on the
/// table the dealer draws to at least 17, keeping the two cards held, and
/// the hand is settled on the player's cards and the dealer's final cards;
/// the bankroll receives that outcome's payout on the wager.
pub proof fn law_stand(old: GameState, new: GameState)
    requires
        GameState::stand_post(old, new),
        old.phase == Phase::PlayerTurn,
    ensures
        new.phase == Phase::RoundOver,
        !new.hole_hidden,
        new.player == old.player,
        new.bet == old.bet,
        new.dealer@.len() >= old.dealer@.len(),
        new.dealer@.take(old.dealer@.len() as int) == old.dealer@,
        !hand_blackjack(old.player@) && !hand_blackjack(old.dealer@) ==> hand_total(new.dealer@)
            >= 17,
        hand_blackjack(old.player@) || hand_blackjack(old.dealer@) ==> new.dealer@ == old.dealer@,
        new.outcome == Some(outcome_of(old.player@, new.dealer@)),
        new.bankroll == old.bankroll + payout(outcome_of(old.player@, new.dealer@), old.bet as int),
{
    if !hand_blackjack(old.player@) && !hand_blackjack(old.dealer@) {
        law_dealer_policy(new.dealer@, old.game_mode);
    }
}

} // verus!
