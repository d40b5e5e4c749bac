//! Hands and their totals, table rules, and the state of one table.

use vstd::prelude::*;

use crate::cards::{is_shoe_of, Card, Rank};
use crate::game_logic;

verus! {

// ---------------------------------------------------------------------------
// Counting a hand
// ---------------------------------------------------------------------------

/// Sum of the cards with every ace counted as 11.
pub open spec fn raw_sum(cards: Seq<Card>) -> int
    decreases cards.len(),
{
    if cards.len() == 0 {
        0
    } else {
        raw_sum(cards.drop_last()) + cards.last().rank.points()
    }
}

/// Number of aces among the cards.
pub open spec fn ace_count(cards: Seq<Card>) -> int
    decreases cards.len(),
{
    if cards.len() == 0 {
        0
    } else {
        ace_count(cards.drop_last()) + if cards.last().rank == Rank::Ace {
            1int
        } else {
            0int
        }
    }
}

/// Sum of the cards with every ace counted as 1 (the "hard" count).
pub open spec fn low_sum(cards: Seq<Card>) -> int
    decreases cards.len(),
{
    if cards.len() == 0 {
        0
    } else {
        low_sum(cards.drop_last()) + cards.last().rank.low_points()
    }
}

/// Starting from `sum` with `aces` aces counted as 11, demote one ace at a
/// time to 1 while the sum is over 21. Gives the final sum and the number of
/// aces still counted as 11.
pub open spec fn settle(sum: int, aces: int) -> (int, int)
    decreases aces,
{
    if sum > 21 && aces > 0 {
        settle(sum - 10, aces - 1)
    } else {
        (sum, aces)
    }
}

/// The blackjack total of a hand.
pub open spec fn hand_total(cards: Seq<Card>) -> int {
    settle(raw_sum(cards), ace_count(cards)).0
}

/// Whether an ace of the hand is still counted as 11.
pub open spec fn hand_soft(cards: Seq<Card>) -> bool {
    settle(raw_sum(cards), ace_count(cards)).1 > 0
}

pub open spec fn hand_bust(cards: Seq<Card>) -> bool {
    hand_total(cards) > 21
}

/// A two-card 21.
pub open spec fn hand_blackjack(cards: Seq<Card>) -> bool {
    cards.len() == 2 && hand_total(cards) == 21
}

/// A hand is counted without overflow when its sum with aces high fits a byte.
pub open spec fn countable(cards: Seq<Card>) -> bool {
    raw_sum(cards) <= 255
}

pub proof fn lemma_counts_of_prefix(cards: Seq<Card>, i: int)
    requires
        0 <= i <= cards.len(),
    ensures
        raw_sum(cards.take(i)) <= raw_sum(cards),
        ace_count(cards.take(i)) <= ace_count(cards),
        0 <= ace_count(cards),
        11 * ace_count(cards) <= raw_sum(cards),
    decreases cards.len(),
{
    if cards.len() == 0 {
        assert(cards.take(i) =~= cards);
    } else {
        let init = cards.drop_last();
        if i == cards.len() {
            assert(cards.take(i) =~= cards);
            lemma_counts_of_prefix(init, 0);
        } else {
            assert(cards.take(i) =~= init.take(i));
            lemma_counts_of_prefix(init, i);
        }
    }
}

/// The hard count is the count with every ace demoted, and every card counts
/// at least 1 in it.
pub proof fn lemma_low_sum(cards: Seq<Card>)
    ensures
        low_sum(cards) == raw_sum(cards) - 10 * ace_count(cards),
        ace_count(cards) <= low_sum(cards),
        cards.len() <= low_sum(cards),
        0 <= ace_count(cards) <= cards.len(),
    decreases cards.len(),
{
    if cards.len() > 0 {
        lemma_low_sum(cards.drop_last());
    }
}

/// What demoting aces one at a time gives: a sum reached by demoting some
/// number of aces, the highest such sum that is not over 21, and, when every
/// such sum is over 21, the sum with every ace demoted.
pub proof fn lemma_settle(sum: int, aces: int)
    requires
        aces >= 0,
    ensures
        0 <= settle(sum, aces).1 <= aces,
        settle(sum, aces).0 == sum - 10 * (aces - settle(sum, aces).1),
        settle(sum, aces).1 > 0 ==> settle(sum, aces).0 <= 21,
        settle(sum, aces).0 > 21 ==> settle(sum, aces).1 == 0,
        sum <= 21 ==> settle(sum, aces) == (sum, aces),
        forall|k: int|
            0 <= k <= aces && sum - 10 * k <= 21 ==> #[trigger] (sum - 10 * k) <= settle(sum, aces).0,
        settle(sum, aces).0 >= sum - 10 * aces,
    decreases aces,
{
    if sum > 21 && aces > 0 {
        lemma_settle(sum - 10, aces - 1);
        assert forall|k: int| 0 <= k <= aces && sum - 10 * k <= 21 implies #[trigger] (sum - 10
            * k) <= settle(sum, aces).0 by {
            assert(k >= 1);
            assert((sum - 10) - 10 * (k - 1) == sum - 10 * k);
        }
    }
}

/// Totals and the hard count: the total lies between the hard count and the
/// count with aces high, and a hand whose hard count is over 21 is bust.
pub proof fn lemma_total_bounds(cards: Seq<Card>)
    ensures
        low_sum(cards) <= hand_total(cards) <= raw_sum(cards),
        hand_soft(cards) ==> hand_total(cards) <= 21,
        hand_total(cards) > 21 ==> hand_total(cards) == low_sum(cards),
        ace_count(cards) <= hand_total(cards),
{
    lemma_low_sum(cards);
    lemma_settle(raw_sum(cards), ace_count(cards));
}

/// Two cards are never bust, and their count with aces high is at most 22.
pub proof fn lemma_two_cards(cards: Seq<Card>)
    requires
        cards.len() == 2,
    ensures
        raw_sum(cards) <= 22,
        !hand_bust(cards),
{
    let a = cards[0];
    let b = cards[1];
    let first = cards.drop_last();
    assert(first.last() == a);
    assert(first.drop_last() =~= Seq::<Card>::empty());
    assert(raw_sum(first.drop_last()) == 0);
    assert(ace_count(first.drop_last()) == 0);
    assert(raw_sum(first) == a.rank.points());
    assert(raw_sum(cards) == a.rank.points() + b.rank.points());
    assert(ace_count(first) == if a.rank == Rank::Ace { 1int } else { 0int });
    lemma_low_sum(cards);
    lemma_settle(raw_sum(cards), ace_count(cards));
    if a.rank == Rank::Ace && b.rank == Rank::Ace {
        assert(ace_count(cards) == 2);
        assert(settle(22, 2) == settle(12, 1));
    }
}

// ---------------------------------------------------------------------------
// Hand
// ---------------------------------------------------------------------------

#[derive(Debug, Clone, PartialEq, Eq)]
pub struct Hand(pub Vec<Card>);

impl View for Hand {
    type V = Seq<Card>;

    open spec fn view(&self) -> Seq<Card> {
        self.0@
    }
}

impl Default for Hand {
    fn default() -> (h: Hand)
        ensures
            h@ == Seq::<Card>::empty(),
    {
        Hand(Vec::new())
    }
}

impl Hand {
    /// Sum with aces high, then aces demoted to 1 one at a time while over 21;
    /// gives the sum and the number of aces left at 11.
    fn settled(&self) -> (r: (u8, u8))
        requires
            countable(self@),
        ensures
            r.0 == settle(raw_sum(self@), ace_count(self@)).0,
            r.1 == settle(raw_sum(self@), ace_count(self@)).1,
    {
        let mut sum: u8 = 0;
        let mut aces: u8 = 0;
        let mut i: usize = 0;
        while i < self.0.len()
            invariant
                i <= self@.len(),
                raw_sum(self@) <= 255,
                sum == raw_sum(self@.take(i as int)),
                aces == ace_count(self@.take(i as int)),
            decreases self@.len() - i,
        {
            let card = self.0[i];
            proof {
                assert(self@.take(i + 1).drop_last() =~= self@.take(i as int));
                lemma_counts_of_prefix(self@, i + 1);
            }
            sum += card.rank.blackjack_value();
            if card.rank == Rank::Ace {
                aces += 1;
            }
            i = i + 1;
        }
        assert(self@.take(i as int) =~= self@);
        proof {
            lemma_counts_of_prefix(self@, 0);
        }
        while sum > 21 && aces > 0
            invariant
                settle(sum as int, aces as int) == settle(raw_sum(self@), ace_count(self@)),
            decreases aces,
        {
            sum -= 10;
            aces -= 1;
        }
        (sum, aces)
    }

    /// The count of the cards with aces high, capped at 256: enough to tell
    /// whether it fits a byte.
    fn capped_raw_sum(&self) -> (r: u32)
        ensures
            r == if raw_sum(self@) < 256 {
                raw_sum(self@)
            } else {
                256
            },
    {
        let mut sum: u32 = 0;
        let mut i: usize = 0;
        while i < self.0.len()
            invariant
                i <= self@.len(),
                sum == if raw_sum(self@.take(i as int)) < 256 {
                    raw_sum(self@.take(i as int))
                } else {
                    256
                },
            decreases self@.len() - i,
        {
            proof {
                assert(self@.take(i + 1).drop_last() =~= self@.take(i as int));
            }
            let v = self.0[i].rank.blackjack_value() as u32;
            sum = if sum + v < 256 {
                sum + v
            } else {
                256
            };
            i = i + 1;
        }
        assert(self@.take(i as int) =~= self@);
        sum
    }

    /// Whether the hand can be counted without overflow (its count with aces
    /// high fits a byte).
    pub fn is_countable(&self) -> (b: bool)
        ensures
            b == countable(self@),
    {
        self.capped_raw_sum() <= 255
    }

    /// Best (highest non-busting if possible) blackjack total.
    pub fn total(&self) -> (t: u8)
        requires
            countable(self@),
        ensures
            t == hand_total(self@),
    {
        self.settled().0
    }

    /// True when an ace is still counted as 11 (a "soft" total).
    pub fn is_soft(&self) -> (b: bool)
        requires
            countable(self@),
        ensures
            b == hand_soft(self@),
    {
        self.settled().1 > 0
    }

    pub fn is_bust(&self) -> (b: bool)
        requires
            countable(self@),
        ensures
            b == hand_bust(self@),
    {
        self.total() > 21
    }

    /// A two-card 21.
    pub fn is_blackjack(&self) -> (b: bool)
        ensures
            b == hand_blackjack(self@),
    {
        if self.0.len() == 2 {
            proof {
                lemma_two_cards(self@);
            }
            self.total() == 21
        } else {
            false
        }
    }
}

// ---------------------------------------------------------------------------
// Table rules
// ---------------------------------------------------------------------------

#[derive(Debug, Copy, Clone, Eq, PartialEq, Structural)]
pub enum GameMode {
    /// One deck, dealer stands on all 17s.
    SingleDeck,
    /// Six-deck shoe, dealer hits soft 17.
    SixDeck,
}

impl Default for GameMode {
    fn default() -> (m: GameMode)
        ensures
            m == GameMode::SingleDeck,
    {
        GameMode::SingleDeck
    }
}

impl GameMode {
    pub open spec fn deck_count(self) -> nat {
        match self {
            GameMode::SingleDeck => 1,
            GameMode::SixDeck => 6,
        }
    }

    pub open spec fn hits_soft_17(self) -> bool {
        self == GameMode::SixDeck
    }

    pub fn decks(self) -> (n: usize)
        ensures
            n == self.deck_count(),
    {
        match self {
            GameMode::SingleDeck => 1,
            GameMode::SixDeck => 6,
        }
    }

    /// Whether the dealer hits a soft 17 in this rule set.
    pub fn dealer_hits_soft_17(self) -> (b: bool)
        ensures
            b == self.hits_soft_17(),
    {
        match self {
            GameMode::SixDeck => true,
            GameMode::SingleDeck => false,
        }
    }

    pub open spec fn label_view(self) -> Seq<char> {
        match self {
            GameMode::SingleDeck => "Single Deck"@,
            GameMode::SixDeck => "Six Deck Shoe"@,
        }
    }

    pub fn label(self) -> (s: &'static str)
        ensures
            s@ == self.label_view(),
    {
        match self {
            GameMode::SingleDeck => "Single Deck",
            GameMode::SixDeck => "Six Deck Shoe",
        }
    }
}

#[derive(Debug, Copy, Clone, Eq, PartialEq, Structural)]
pub enum Phase {
    /// Choosing a wager before the cards are dealt.
    Betting,
    /// The player is deciding to hit, stand, or double.
    PlayerTurn,
    /// The hand is settled; waiting to deal the next round.
    RoundOver,
}

impl Default for Phase {
    fn default() -> (p: Phase)
        ensures
            p == Phase::Betting,
    {
        Phase::Betting
    }
}

#[derive(Debug, Copy, Clone, Eq, PartialEq, Structural)]
pub enum Outcome {
    PlayerBlackjack,
    PlayerWin,
    DealerBust,
    Push,
    DealerWin,
    PlayerBust,
}

impl Outcome {
    pub open spec fn message_view(self) -> Seq<char> {
        match self {
            Outcome::PlayerBlackjack => "Blackjack! You win 3:2"@,
            Outcome::PlayerWin => "You win!"@,
            Outcome::DealerBust => "Dealer busts. You win!"@,
            Outcome::Push => "Push. Bet returned."@,
            Outcome::DealerWin => "Dealer wins."@,
            Outcome::PlayerBust => "Bust! You lose."@,
        }
    }

    pub fn message(self) -> (s: &'static str)
        ensures
            s@ == self.message_view(),
    {
        match self {
            Outcome::PlayerBlackjack => "Blackjack! You win 3:2",
            Outcome::PlayerWin => "You win!",
            Outcome::DealerBust => "Dealer busts. You win!",
            Outcome::Push => "Push. Bet returned.",
            Outcome::DealerWin => "Dealer wins.",
            Outcome::PlayerBust => "Bust! You lose.",
        }
    }

    pub open spec fn won(self) -> bool {
        self == Outcome::PlayerBlackjack || self == Outcome::PlayerWin || self
            == Outcome::DealerBust
    }

    pub fn player_won(self) -> (b: bool)
        ensures
            b == self.won(),
    {
        match self {
            Outcome::PlayerBlackjack | Outcome::PlayerWin | Outcome::DealerBust => true,
            Outcome::Push | Outcome::DealerWin | Outcome::PlayerBust => false,
        }
    }
}

/// What the player gets back on a settled wager of `bet`: the stake plus 3:2
/// (rounded down) on a blackjack, twice the stake on a win, the stake on a
/// push, nothing on a loss.
pub open spec fn payout(outcome: Outcome, bet: int) -> int {
    match outcome {
        Outcome::PlayerBlackjack => bet + (3 * bet) / 2,
        Outcome::PlayerWin | Outcome::DealerBust => 2 * bet,
        Outcome::Push => bet,
        Outcome::DealerWin | Outcome::PlayerBust => 0,
    }
}

/// How a completed hand is settled, the dealer having finished drawing:
/// naturals first (two naturals push), then a bust player loses, then a bust
/// dealer loses, then the higher total wins and equal totals push.
pub open spec fn outcome_of(player: Seq<Card>, dealer: Seq<Card>) -> Outcome {
    if hand_blackjack(player) && hand_blackjack(dealer) {
        Outcome::Push
    } else if hand_blackjack(player) {
        Outcome::PlayerBlackjack
    } else if hand_blackjack(dealer) {
        Outcome::DealerWin
    } else if hand_bust(player) {
        Outcome::PlayerBust
    } else if hand_bust(dealer) {
        Outcome::DealerBust
    } else if hand_total(player) > hand_total(dealer) {
        Outcome::PlayerWin
    } else if hand_total(player) < hand_total(dealer) {
        Outcome::DealerWin
    } else {
        Outcome::Push
    }
}

/// The dealer's policy: draw to 17, then stand; where the rules say so, also
/// draw on a soft 17.
pub open spec fn dealer_hits(cards: Seq<Card>, mode: GameMode) -> bool {
    hand_total(cards) < 17 || (hand_total(cards) == 17 && hand_soft(cards) && mode.hits_soft_17())
}

/// The hands that settling reads can be counted without overflow.
pub open spec fn outcome_countable(player: Seq<Card>, dealer: Seq<Card>) -> bool {
    !hand_blackjack(player) && !hand_blackjack(dealer) ==> countable(player) && (!hand_bust(player)
        ==> countable(dealer))
}

// ---------------------------------------------------------------------------
// Drawing from the shoe
// ---------------------------------------------------------------------------

/// One card drawn: the top (last) card of a non-empty shoe, or, from an
/// empty shoe, the top card of a fresh shoe of `decks` decks.
pub open spec fn drawn_from(before: Seq<Card>, after: Seq<Card>, card: Card, decks: nat) -> bool {
    if before.len() > 0 {
        after.push(card) == before
    } else {
        is_shoe_of(after.push(card), decks)
    }
}

/// `shoes` lists the shoe before each draw and after the last one, while the
/// cards `cards` are drawn in order.
pub open spec fn shoe_steps(shoes: Seq<Seq<Card>>, cards: Seq<Card>, decks: nat) -> bool {
    &&& shoes.len() == cards.len() + 1
    &&& forall|i: int|
        #![trigger cards[i]]
        0 <= i < cards.len() ==> drawn_from(shoes[i], shoes[i + 1], cards[i], decks)
}

/// The cards `cards` drawn one after another, in that order, take the shoe
/// from `before` to `after`.
pub open spec fn drawn_in_turn(before: Seq<Card>, after: Seq<Card>, cards: Seq<Card>, decks: nat) -> bool {
    exists|shoes: Seq<Seq<Card>>|
        #[trigger] shoe_steps(shoes, cards, decks) && shoes[0] == before && shoes.last() == after
}

pub proof fn lemma_no_draw(shoe: Seq<Card>, decks: nat)
    ensures
        drawn_in_turn(shoe, shoe, Seq::empty(), decks),
{
    let shoes = seq![shoe];
    assert(shoe_steps(shoes, Seq::empty(), decks));
}

/// Drawing no card leaves the shoe as it was.
pub proof fn lemma_no_draw_same(before: Seq<Card>, after: Seq<Card>, decks: nat)
    requires
        drawn_in_turn(before, after, Seq::empty(), decks),
    ensures
        after == before,
{
    let shoes = choose|shoes: Seq<Seq<Card>>|
        #[trigger] shoe_steps(shoes, Seq::empty(), decks) && shoes[0] == before && shoes.last()
            == after;
}

/// One card drawn is a turn of one draw.
pub proof fn lemma_one_draw(before: Seq<Card>, after: Seq<Card>, card: Card, decks: nat)
    requires
        drawn_from(before, after, card, decks),
    ensures
        drawn_in_turn(before, after, seq![card], decks),
{
    lemma_no_draw(before, decks);
    lemma_draw_one_more(before, before, after, Seq::empty(), card, decks);
    assert(Seq::<Card>::empty().push(card) =~= seq![card]);
}

/// The count of a hand with one more card.
pub proof fn lemma_counts_push(cards: Seq<Card>, card: Card)
    ensures
        raw_sum(cards.push(card)) == raw_sum(cards) + card.rank.points(),
        low_sum(cards.push(card)) == low_sum(cards) + card.rank.low_points(),
        card.rank.low_points() >= 1,
        card.rank.points() <= 11,
{
    assert(cards.push(card).drop_last() =~= cards);
}

pub proof fn lemma_draw_one_more(
    before: Seq<Card>,
    mid: Seq<Card>,
    after: Seq<Card>,
    cards: Seq<Card>,
    card: Card,
    decks: nat,
)
    requires
        drawn_in_turn(before, mid, cards, decks),
        drawn_from(mid, after, card, decks),
    ensures
        drawn_in_turn(before, after, cards.push(card), decks),
{
    let shoes = choose|shoes: Seq<Seq<Card>>|
        #[trigger] shoe_steps(shoes, cards, decks) && shoes[0] == before && shoes.last() == mid;
    let more = shoes.push(after);
    let cs = cards.push(card);
    assert forall|i: int| #![trigger cs[i]] 0 <= i < cs.len() implies drawn_from(
        more[i],
        more[i + 1],
        cs[i],
        decks,
    ) by {
        if i < cards.len() {
            assert(cs[i] == cards[i]);
            assert(drawn_from(shoes[i], shoes[i + 1], cards[i], decks));
        }
    }
    assert(shoe_steps(more, cs, decks));
}

pub proof fn lemma_draws_chain(
    before: Seq<Card>,
    mid: Seq<Card>,
    after: Seq<Card>,
    first: Seq<Card>,
    then: Seq<Card>,
    decks: nat,
)
    requires
        drawn_in_turn(before, mid, first, decks),
        drawn_in_turn(mid, after, then, decks),
    ensures
        drawn_in_turn(before, after, first + then, decks),
{
    let s1 = choose|shoes: Seq<Seq<Card>>|
        #[trigger] shoe_steps(shoes, first, decks) && shoes[0] == before && shoes.last() == mid;
    let s2 = choose|shoes: Seq<Seq<Card>>|
        #[trigger] shoe_steps(shoes, then, decks) && shoes[0] == mid && shoes.last() == after;
    let all = s1 + s2.drop_first();
    let cs = first + then;
    let n = first.len() as int;
    assert forall|i: int| #![trigger cs[i]] 0 <= i < cs.len() implies drawn_from(
        all[i],
        all[i + 1],
        cs[i],
        decks,
    ) by {
        if i < n {
            assert(cs[i] == first[i]);
            assert(drawn_from(s1[i], s1[i + 1], first[i], decks));
            if i + 1 == n {
                assert(all[i + 1] == s2[0]);
            }
        } else {
            let j = i - n;
            assert(cs[i] == then[j]);
            assert(drawn_from(s2[j], s2[j + 1], then[j], decks));
            if j == 0 {
                assert(all[i] == s1[n]);
            }
        }
    }
    assert(shoe_steps(all, cs, decks));
    assert(all.last() == after);
}

proof fn lemma_steps_from_top(shoes: Seq<Seq<Card>>, cards: Seq<Card>, decks: nat, j: int)
    requires
        shoe_steps(shoes, cards, decks),
        cards.len() <= shoes[0].len(),
        0 <= j <= cards.len(),
    ensures
        shoes[j] == shoes[0].take(shoes[0].len() - j),
        forall|i: int| 0 <= i < j ==> cards[i] == shoes[0][shoes[0].len() - 1 - i],
    decreases j,
{
    let top = shoes[0];
    if j == 0 {
        assert(top.take(top.len() as int) =~= top);
    } else {
        lemma_steps_from_top(shoes, cards, decks, j - 1);
        assert(drawn_from(shoes[j - 1], shoes[j], cards[j - 1], decks));
        assert(shoes[j - 1].len() > 0);
        assert(shoes[j] =~= shoes[j - 1].drop_last());
        assert(shoes[j] =~= top.take(top.len() - j));
        assert(cards[j - 1] == shoes[j - 1].last());
    }
}

/// Cards drawn while the shoe still holds them come off its top, one after
/// another, and leave the rest of the shoe in place.
pub proof fn lemma_draws_from_top(before: Seq<Card>, after: Seq<Card>, cards: Seq<Card>, decks: nat)
    requires
        drawn_in_turn(before, after, cards, decks),
        cards.len() <= before.len(),
    ensures
        after == before.take(before.len() - cards.len()),
        forall|i: int| 0 <= i < cards.len() ==> cards[i] == before[before.len() - 1 - i],
{
    let shoes = choose|shoes: Seq<Seq<Card>>|
        #[trigger] shoe_steps(shoes, cards, decks) && shoes[0] == before && shoes.last() == after;
    lemma_steps_from_top(shoes, cards, decks, cards.len() as int);
}

/// The dealer, starting from `start`, drew each card while the policy said to
/// hit, and stopped at `end` where it says to stand.
pub open spec fn dealer_plays(start: Seq<Card>, end: Seq<Card>, mode: GameMode) -> bool {
    &&& start.len() <= end.len()
    &&& end.take(start.len() as int) == start
    &&& forall|i: int| start.len() <= i < end.len() ==> #[trigger] dealer_hits(end.take(i), mode)
    &&& !dealer_hits(end, mode)
}

/// The dealer hits only on a hard count of at most 17, so a hitting hand has
/// at most 17 cards' worth of aces and a small count with aces high.
pub proof fn lemma_hitting_hand(cards: Seq<Card>, mode: GameMode)
    requires
        dealer_hits(cards, mode),
    ensures
        low_sum(cards) <= 17,
        raw_sum(cards) <= 187,
{
    lemma_total_bounds(cards);
    lemma_low_sum(cards);
}

/// The dealer's hand after playing out `dealer` from the top of `shoe`,
/// drawing while the policy says hit; none when the shoe runs out first (the
/// rest of the dealer's cards then come from a fresh shuffle).
pub open spec fn dealer_play(dealer: Seq<Card>, shoe: Seq<Card>, mode: GameMode) -> Option<
    Seq<Card>,
>
    decreases shoe.len(),
{
    if !dealer_hits(dealer, mode) {
        Some(dealer)
    } else if shoe.len() == 0 {
        None
    } else {
        dealer_play(dealer.push(shoe.last()), shoe.drop_last(), mode)
    }
}

/// Without a player blackjack, a hand pays at most twice the stake.
pub proof fn lemma_payout_without_blackjack(player: Seq<Card>, dealer: Seq<Card>, bet: int)
    requires
        bet >= 0,
    ensures
        !hand_blackjack(player) ==> outcome_of(player, dealer) != Outcome::PlayerBlackjack
            && payout(outcome_of(player, dealer), bet) <= 2 * bet,
{
}

pub open spec fn clamp(x: int, lo: int, hi: int) -> int {
    if x < lo {
        lo
    } else if x > hi {
        hi
    } else {
        x
    }
}

/// `x` brought into `lo..=hi`.
fn clamp_u32(x: u32, lo: u32, hi: u32) -> (r: u32)
    requires
        lo <= hi,
    ensures
        r == clamp(x as int, lo as int, hi as int),
{
    if x < lo {
        lo
    } else if x > hi {
        hi
    } else {
        x
    }
}

// ---------------------------------------------------------------------------
// Game state
// ---------------------------------------------------------------------------

#[derive(Debug, Clone, Eq, PartialEq)]
pub struct GameState {
    pub game_mode: GameMode,
    pub shoe: Vec<Card>,
    pub dealer: Hand,
    pub player: Hand,
    pub bankroll: u32,
    pub bet: u32,
    pub phase: Phase,
    pub outcome: Option<Outcome>,
    /// Hide the dealer's second card while the player is acting.
    pub hole_hidden: bool,
}

impl GameState {
    /// The chips a new game starts with.
    pub const STARTING_BANKROLL: u32 = 100;

    /// The smallest wager.
    pub const MIN_BET: u32 = 5;

    /// How much one step up or down changes the wager.
    pub const BET_STEP: u32 = 5;

    /// Reshuffle the shoe once it drops below this many cards.
    pub const RESHUFFLE_AT: usize = 15;

    pub open spec fn decks(self) -> nat {
        self.game_mode.deck_count()
    }

    /// The highest bet the player can afford: the whole bankroll.
    pub open spec fn max_bet_view(self) -> int {
        self.bankroll as int
    }

    pub open spec fn can_double_view(self) -> bool {
        self.phase == Phase::PlayerTurn && self.player@.len() == 2 && self.bankroll >= self.bet
    }

    pub open spec fn broke(self) -> bool {
        self.phase == Phase::Betting && self.bankroll < GameState::MIN_BET
    }

    /// The round protocol: an outcome is shown exactly when the round is
    /// over; while betting no cards are out and nothing is hidden; during the
    /// player's turn the hole card is hidden, the dealer holds two cards, no
    /// natural is on the table and the player is not bust. The wager is
    /// always at least the minimum bet, and while betting, unless the player
    /// is broke, at most what the player can bet.
    pub open spec fn round_consistent(self) -> bool {
        &&& (self.phase == Phase::RoundOver) == (self.outcome is Some)
        &&& self.phase == Phase::Betting ==> {
            &&& self.player@.len() == 0
            &&& self.dealer@.len() == 0
            &&& !self.hole_hidden
        }
        &&& self.phase == Phase::PlayerTurn ==> {
            &&& self.hole_hidden
            &&& self.dealer@.len() == 2
            &&& self.player@.len() >= 2
            &&& !hand_bust(self.player@)
            &&& !hand_blackjack(self.player@)
            &&& !hand_blackjack(self.dealer@)
        }
        &&& self.phase == Phase::RoundOver ==> !self.hole_hidden
        &&& self.bet >= GameState::MIN_BET
        &&& self.phase == Phase::Betting && !self.broke() ==> self.bet <= self.max_bet_view()
    }

    /// Every field but the shoe is as in `other`.
    pub open spec fn same_but_shoe(self, other: GameState) -> bool {
        &&& self.game_mode == other.game_mode
        &&& self.dealer == other.dealer
        &&& self.player == other.player
        &&& self.bankroll == other.bankroll
        &&& self.bet == other.bet
        &&& self.phase == other.phase
        &&& self.outcome == other.outcome
        &&& self.hole_hidden == other.hole_hidden
    }

    /// Paying `outcome` on the current wager cannot overflow.
    pub open spec fn payout_fits(self, outcome: Outcome) -> bool {
        &&& outcome == Outcome::PlayerBlackjack ==> 3 * self.bet <= u32::MAX
        &&& self.bankroll + payout(outcome, self.bet as int) <= u32::MAX
    }

    /// Settling the current wager cannot overflow. With a natural on the
    /// table, or a bust player, the outcome is fixed before the dealer draws;
    /// when the shoe holds the dealer's whole play, the outcome is fixed by
    /// it; otherwise the player is paid at most twice the stake.
    pub open spec fn settle_fits(self) -> bool {
        if hand_blackjack(self.player@) || hand_blackjack(self.dealer@) {
            self.payout_fits(outcome_of(self.player@, self.dealer@))
        } else if hand_bust(self.player@) {
            true
        } else {
            match dealer_play(self.dealer@, self.shoe@, self.game_mode) {
                Some(dealer) => self.payout_fits(outcome_of(self.player@, dealer)),
                None => self.bankroll + 2 * self.bet <= u32::MAX,
            }
        }
    }

    /// The dealer's turn and the settlement can run without overflow.
    pub open spec fn finish_fits(self) -> bool {
        &&& !hand_blackjack(self.player@) && !hand_blackjack(self.dealer@) ==> countable(self.player@)
            && countable(self.dealer@)
        &&& self.settle_fits()
    }

    /// The next card, whichever it is, can be added to `hand` and counted.
    pub open spec fn next_card_fits(self, hand: Seq<Card>) -> bool {
        if self.shoe@.len() > 0 {
            raw_sum(hand) + self.shoe@.last().rank.points() <= 255
        } else {
            raw_sum(hand) <= 244
        }
    }

    /// The player's two cards of a deal from the top of `shoe`.
    pub open spec fn top_player_cards(shoe: Seq<Card>) -> Seq<Card> {
        seq![shoe[shoe.len() - 1], shoe[shoe.len() - 3]]
    }

    /// The dealer's two cards of a deal from the top of `shoe`.
    pub open spec fn top_dealer_cards(shoe: Seq<Card>) -> Seq<Card> {
        seq![shoe[shoe.len() - 2], shoe[shoe.len() - 4]]
    }

    /// The deal and, on a natural, its settlement cannot overflow. Only a
    /// player's blackjack against no dealer blackjack pays more than the
    /// stake at the deal; when the shoe holds enough cards, the deal is known
    /// and only that deal counts.
    pub open spec fn deal_fits(self) -> bool {
        self.phase == Phase::Betting && self.bankroll >= GameState::MIN_BET ==> {
            let b = clamp(self.bet as int, GameState::MIN_BET as int, self.bankroll as int);
            let blackjack_paid = if self.shoe@.len() >= GameState::RESHUFFLE_AT {
                hand_blackjack(GameState::top_player_cards(self.shoe@)) && !hand_blackjack(
                    GameState::top_dealer_cards(self.shoe@),
                )
            } else {
                true
            };
            blackjack_paid ==> 3 * b <= u32::MAX && self.bankroll + (3 * b) / 2 <= u32::MAX
        }
    }

    pub open spec fn hit_fits(self) -> bool {
        self.phase == Phase::PlayerTurn ==> self.next_card_fits(self.player@)
    }

    pub open spec fn stand_fits(self) -> bool {
        self.phase == Phase::PlayerTurn ==> self.finish_fits()
    }

    /// The next card is known and busts the player.
    pub open spec fn next_card_busts(self) -> bool {
        self.shoe@.len() > 0 && hand_bust(self.player@.push(self.shoe@.last()))
    }

    /// Doubling cannot overflow: the doubled wager, the card drawn, and,
    /// unless that card is known to bust the player or the dealer holds a
    /// natural (both lose the doubled wager at once), the dealer's turn and
    /// the payout on the doubled wager: the one the shoe fixes when it holds
    /// the card and the dealer's whole play, else at most twice that wager.
    pub open spec fn double_fits(self) -> bool {
        self.can_double_view() ==> {
            &&& 2 * self.bet <= u32::MAX
            &&& self.next_card_fits(self.player@)
            &&& !self.next_card_busts() && !hand_blackjack(self.dealer@) ==> {
                &&& countable(self.dealer@)
                &&& if self.shoe@.len() > 0 {
                    match dealer_play(self.dealer@, self.shoe@.drop_last(), self.game_mode) {
                        Some(dealer) => self.bankroll - self.bet + payout(
                            outcome_of(self.player@.push(self.shoe@.last()), dealer),
                            2 * self.bet,
                        ) <= u32::MAX,
                        None => self.bankroll + 3 * self.bet <= u32::MAX,
                    }
                } else {
                    self.bankroll + 3 * self.bet <= u32::MAX
                }
            }
        }
    }

    /// The hand is settled with `outcome` on the wager `bet`, the bankroll
    /// before the payout being `bankroll`.
    pub open spec fn settled_with(self, bankroll: int, bet: int, outcome: Outcome) -> bool {
        &&& self.outcome == Some(outcome)
        &&& self.phase == Phase::RoundOver
        &&& !self.hole_hidden
        &&& self.bankroll == bankroll + payout(outcome, bet)
    }

    /// The dealer's turn from `old`: no draw when either hand is a natural,
    /// else the dealer's policy followed; the dealer's new cards come from the
    /// shoe in turn.
    pub open spec fn dealer_turn(old: GameState, player: Seq<Card>, new: GameState) -> bool {
        &&& hand_blackjack(player) || hand_blackjack(old.dealer@) ==> new.dealer@ == old.dealer@
        &&& !hand_blackjack(player) && !hand_blackjack(old.dealer@) ==> dealer_plays(
            old.dealer@,
            new.dealer@,
            old.game_mode,
        )
        &&& old.dealer@.len() <= new.dealer@.len()
        &&& new.dealer@.take(old.dealer@.len() as int) == old.dealer@
    }

    /// The hand played out by the dealer and settled.
    pub open spec fn finish_post(old: GameState, new: GameState) -> bool {
        &&& GameState::dealer_turn(old, old.player@, new)
        &&& drawn_in_turn(
            old.shoe@,
            new.shoe@,
            new.dealer@.skip(old.dealer@.len() as int),
            old.decks(),
        )
        &&& new.player == old.player
        &&& new.game_mode == old.game_mode
        &&& new.bet == old.bet
        &&& new.settled_with(
            old.bankroll as int,
            old.bet as int,
            outcome_of(new.player@, new.dealer@),
        )
    }

    /// The shoe the four cards of a deal came from: the shoe left after the
    /// deal with the cards put back on top in reverse order of drawing (player,
    /// dealer, player, dealer).
    pub open spec fn deal_source(self) -> Seq<Card> {
        self.shoe@.push(self.dealer@[1]).push(self.player@[1]).push(self.dealer@[0]).push(
            self.player@[0],
        )
    }

    pub open spec fn deal_post(old: GameState, new: GameState) -> bool {
        if !(old.phase == Phase::Betting && old.bankroll >= GameState::MIN_BET) {
            new == old
        } else {
            let b = clamp(old.bet as int, GameState::MIN_BET as int, old.bankroll as int);
            let natural = hand_blackjack(new.player@) || hand_blackjack(new.dealer@);
            &&& new.game_mode == old.game_mode
            &&& new.bet == b
            &&& new.player@.len() == 2
            &&& new.dealer@.len() == 2
            &&& old.shoe@.len() >= GameState::RESHUFFLE_AT ==> new.deal_source() == old.shoe@
            &&& old.shoe@.len() < GameState::RESHUFFLE_AT ==> is_shoe_of(new.deal_source(), old.decks())
            &&& natural ==> new.settled_with(
                old.bankroll - b,
                b,
                outcome_of(new.player@, new.dealer@),
            )
            &&& !natural ==> {
                &&& new.phase == Phase::PlayerTurn
                &&& new.outcome == None::<Outcome>
                &&& new.hole_hidden
                &&& new.bankroll == old.bankroll - b
            }
        }
    }

    pub open spec fn hit_post(old: GameState, new: GameState) -> bool {
        if old.phase != Phase::PlayerTurn {
            new == old
        } else {
            let card = new.player@.last();
            &&& new.player@.len() == old.player@.len() + 1
            &&& new.player@.drop_last() == old.player@
            &&& drawn_in_turn(old.shoe@, new.shoe@, seq![card], old.decks())
            &&& new.game_mode == old.game_mode
            &&& new.dealer == old.dealer
            &&& new.bet == old.bet
            &&& hand_bust(new.player@) ==> new.settled_with(
                old.bankroll as int,
                old.bet as int,
                Outcome::PlayerBust,
            )
            &&& !hand_bust(new.player@) ==> {
                &&& new.bankroll == old.bankroll
                &&& new.phase == old.phase
                &&& new.outcome == old.outcome
                &&& new.hole_hidden == old.hole_hidden
            }
        }
    }

    pub open spec fn stand_post(old: GameState, new: GameState) -> bool {
        if old.phase != Phase::PlayerTurn {
            new == old
        } else {
            GameState::finish_post(old, new)
        }
    }

    pub open spec fn double_post(old: GameState, new: GameState) -> bool {
        if !old.can_double_view() {
            new == old
        } else {
            let card = new.player@.last();
            &&& new.player@.len() == old.player@.len() + 1
            &&& new.player@.drop_last() == old.player@
            &&& new.game_mode == old.game_mode
            &&& new.bet == 2 * old.bet
            &&& drawn_in_turn(
                old.shoe@,
                new.shoe@,
                seq![card] + new.dealer@.skip(old.dealer@.len() as int),
                old.decks(),
            )
            &&& hand_bust(new.player@) ==> {
                &&& new.dealer == old.dealer
                &&& new.settled_with(
                    old.bankroll - old.bet,
                    2 * old.bet,
                    Outcome::PlayerBust,
                )
            }
            &&& !hand_bust(new.player@) ==> {
                &&& GameState::dealer_turn(old, new.player@, new)
                &&& new.settled_with(
                    old.bankroll - old.bet,
                    2 * old.bet,
                    outcome_of(new.player@, new.dealer@),
                )
            }
        }
    }

    pub open spec fn next_round_post(old: GameState, new: GameState) -> bool {
        &&& new.player@ == Seq::<Card>::empty()
        &&& new.dealer@ == Seq::<Card>::empty()
        &&& new.outcome == None::<Outcome>
        &&& !new.hole_hidden
        &&& new.phase == Phase::Betting
        &&& new.bet == if old.max_bet_view() >= GameState::MIN_BET {
            clamp(old.bet as int, GameState::MIN_BET as int, old.max_bet_view())
        } else {
            GameState::MIN_BET as int
        }
        &&& new.game_mode == old.game_mode
        &&& new.shoe == old.shoe
        &&& new.bankroll == old.bankroll
    }

    /// Every field but the wager is as in `other`.
    pub open spec fn same_but_bet(self, other: GameState) -> bool {
        &&& self.game_mode == other.game_mode
        &&& self.shoe == other.shoe
        &&& self.dealer == other.dealer
        &&& self.player == other.player
        &&& self.bankroll == other.bankroll
        &&& self.phase == other.phase
        &&& self.outcome == other.outcome
        &&& self.hole_hidden == other.hole_hidden
    }

    /// A step up: the wager grows by a step, capped at the most the player
    /// can bet, and never below the minimum bet.
    pub open spec fn bet_up_post(old: GameState, new: GameState) -> bool {
        let stepped = if old.bet + GameState::BET_STEP <= old.max_bet_view() {
            old.bet + GameState::BET_STEP
        } else {
            old.max_bet_view()
        };
        &&& new.same_but_bet(old)
        &&& new.bet == if stepped >= GameState::MIN_BET {
            stepped
        } else {
            GameState::MIN_BET as int
        }
    }

    pub open spec fn bet_down_post(old: GameState, new: GameState) -> bool {
        &&& new.same_but_bet(old)
        &&& new.bet == if old.bet >= GameState::MIN_BET + GameState::BET_STEP {
            old.bet - GameState::BET_STEP
        } else {
            GameState::MIN_BET as int
        }
    }

    /// A new game in `mode`: a freshly shuffled shoe, empty hands, the
    /// starting bankroll, a wager of 10, waiting for the first bet.
    pub open spec fn initial(self, mode: GameMode) -> bool {
        &&& self.game_mode == mode
        &&& is_shoe_of(self.shoe@, mode.deck_count())
        &&& self.dealer@ == Seq::<Card>::empty()
        &&& self.player@ == Seq::<Card>::empty()
        &&& self.bankroll == GameState::STARTING_BANKROLL
        &&& self.bet == 10
        &&& self.phase == Phase::Betting
        &&& self.outcome == None::<Outcome>
        &&& !self.hole_hidden
    }

    pub fn init(mode: GameMode) -> (gs: GameState)
        ensures
            gs.initial(mode),
    {
        GameState {
            game_mode: mode,
            shoe: Card::shuffled_shoe(mode.decks()),
            dealer: Hand::default(),
            player: Hand::default(),
            bankroll: GameState::STARTING_BANKROLL,
            bet: GameState::MIN_BET.max(10),
            phase: Phase::Betting,
            outcome: None,
            hole_hidden: false,
        }
    }

    /// Highest bet the player can currently afford.
    pub fn max_bet(&self) -> (m: u32)
        ensures
            m == self.max_bet_view(),
            m <= self.bankroll,
            self.bankroll >= GameState::MIN_BET ==> m == self.bankroll,
    {
        self.bankroll
    }

    pub fn bet_up(&mut self)
        requires
            old(self).bet + GameState::BET_STEP <= u32::MAX,
        ensures
            GameState::bet_up_post(*old(self), *final(self)),
    {
        let limit = self.max_bet();
        self.bet = (self.bet + GameState::BET_STEP).min(limit).max(GameState::MIN_BET);
    }

    pub fn bet_down(&mut self)
        ensures
            GameState::bet_down_post(*old(self), *final(self)),
    {
        self.bet = self.bet.saturating_sub(GameState::BET_STEP).max(GameState::MIN_BET);
    }

    fn draw_card(&mut self) -> (c: Card)
        ensures
            drawn_from(old(self).shoe@, final(self).shoe@, c, old(self).decks()),
            final(self).same_but_shoe(*old(self)),
    {
        if self.shoe.len() == 0 {
            self.shoe = Card::shuffled_shoe(self.game_mode.decks());
        }
        let ghost full = self.shoe@;
        let c = self.shoe.pop().expect("freshly filled shoe is non-empty");
        assert(self.shoe@.push(c) =~= full);
        c
    }

    fn reshuffle_if_low(&mut self)
        ensures
            final(self).same_but_shoe(*old(self)),
            old(self).shoe@.len() >= GameState::RESHUFFLE_AT ==> final(self).shoe == old(self).shoe,
            old(self).shoe@.len() < GameState::RESHUFFLE_AT ==> is_shoe_of(final(self).shoe@, old(self).decks()),
            final(self).shoe@.len() >= GameState::RESHUFFLE_AT,
    {
        if self.shoe.len() < GameState::RESHUFFLE_AT {
            self.shoe = Card::shuffled_shoe(self.game_mode.decks());
        }
    }

    fn resolve(&mut self, outcome: Outcome)
        requires
            old(self).payout_fits(outcome),
        ensures
            final(self).bankroll == old(self).bankroll + payout(outcome, old(self).bet as int),
            final(self).outcome == Some(outcome),
            final(self).phase == Phase::RoundOver,
            final(self).game_mode == old(self).game_mode,
            final(self).shoe == old(self).shoe,
            final(self).dealer == old(self).dealer,
            final(self).player == old(self).player,
            final(self).bet == old(self).bet,
            final(self).hole_hidden == old(self).hole_hidden,
    {
        let payout = match outcome {
            Outcome::PlayerBlackjack => self.bet + (self.bet * 3) / 2,
            Outcome::PlayerWin | Outcome::DealerBust => self.bet * 2,
            Outcome::Push => self.bet,
            Outcome::DealerWin | Outcome::PlayerBust => 0,
        };
        self.bankroll += payout;
        self.outcome = Some(outcome);
        self.phase = Phase::RoundOver;
    }

    /// Reveal the hole card, let the dealer play out, and settle the hand.
    fn finish_with_dealer(&mut self)
        requires
            old(self).finish_fits(),
        ensures
            GameState::finish_post(*old(self), *final(self)),
    {
        self.hole_hidden = false;
        let ghost start = *self;
        let ghost n0 = self.dealer@.len() as int;
        proof {
            lemma_no_draw(self.shoe@, self.decks());
            assert(self.dealer@.take(n0) =~= self.dealer@);
            assert(self.dealer@.skip(n0) =~= Seq::<Card>::empty());
        }
        if !self.player.is_blackjack() && !self.dealer.is_blackjack() {
            while game_logic::dealer_should_hit(&self.dealer, self.game_mode)
                invariant
                    self.game_mode == start.game_mode,
                    self.player == start.player,
                    self.bet == start.bet,
                    self.bankroll == start.bankroll,
                    self.phase == start.phase,
                    self.outcome == start.outcome,
                    self.hole_hidden == start.hole_hidden,
                    countable(self.dealer@),
                    n0 == start.dealer@.len(),
                    n0 <= self.dealer@.len(),
                    self.dealer@.take(n0) == start.dealer@,
                    forall|i: int|
                        n0 <= i < self.dealer@.len() ==> #[trigger] dealer_hits(
                            self.dealer@.take(i),
                            start.game_mode,
                        ),
                    drawn_in_turn(start.shoe@, self.shoe@, self.dealer@.skip(n0), start.decks()),
                    dealer_play(start.dealer@, start.shoe@, start.game_mode) is Some ==> dealer_play(
                        self.dealer@,
                        self.shoe@,
                        start.game_mode,
                    ) == dealer_play(start.dealer@, start.shoe@, start.game_mode),
                decreases 28 - low_sum(self.dealer@),
            {
                proof {
                    lemma_hitting_hand(self.dealer@, self.game_mode);
                }
                let ghost before = *self;
                let c = self.draw_card();
                self.dealer.0.push(c);
                proof {
                    let prev = before.dealer@;
                    lemma_counts_push(prev, c);
                    assert(self.dealer@ =~= prev.push(c));
                    assert(self.dealer@.skip(n0) =~= prev.skip(n0).push(c));
                    lemma_draw_one_more(start.shoe@, before.shoe@, self.shoe@, prev.skip(n0), c, start.decks());
                    assert(self.dealer@.take(n0) =~= prev.take(n0));
                    assert forall|i: int| n0 <= i < self.dealer@.len() implies #[trigger] dealer_hits(
                        self.dealer@.take(i),
                        start.game_mode,
                    ) by {
                        if i < prev.len() {
                            assert(self.dealer@.take(i) =~= prev.take(i));
                        } else {
                            assert(self.dealer@.take(i) =~= prev);
                        }
                    }
                    if dealer_play(start.dealer@, start.shoe@, start.game_mode) is Some {
                        assert(before.shoe@.len() > 0);
                        assert(self.shoe@ =~= before.shoe@.drop_last());
                        assert(c == before.shoe@.last());
                    }
                }
            }
        }
        proof {
            lemma_payout_without_blackjack(self.player@, self.dealer@, self.bet as int);
        }
        let outcome = game_logic::determine_outcome(&self.player, &self.dealer);
        self.resolve(outcome);
    }

    /// Deduct the wager and deal two cards each. Resolves immediately on a
    /// natural blackjack.
    pub fn deal_round(&mut self)
        requires
            old(self).deal_fits(),
        ensures
            GameState::deal_post(*old(self), *final(self)),
    {
        if self.phase != Phase::Betting || self.bankroll < GameState::MIN_BET {
            return;
        }
        self.reshuffle_if_low();
        let ghost source = self.shoe@;
        self.bet = clamp_u32(self.bet, GameState::MIN_BET, self.bankroll);
        self.bankroll -= self.bet;

        self.player = Hand::default();
        self.dealer = Hand::default();
        // Two rounds of one card to the player, then one to the dealer.
        let c = self.draw_card();
        self.player.0.push(c);
        let c = self.draw_card();
        self.dealer.0.push(c);
        let c = self.draw_card();
        self.player.0.push(c);
        let c = self.draw_card();
        self.dealer.0.push(c);
        self.hole_hidden = true;
        self.phase = Phase::PlayerTurn;
        self.outcome = None;
        assert(self.deal_source() =~= source);
        assert(self.player@ =~= GameState::top_player_cards(source));
        assert(self.dealer@ =~= GameState::top_dealer_cards(source));
        proof {
            lemma_two_cards(self.player@);
            lemma_two_cards(self.dealer@);
        }

        if self.player.is_blackjack() || self.dealer.is_blackjack() {
            let ghost dealt = *self;
            self.finish_with_dealer();
            proof {
                assert(dealt.dealer@.skip(2) =~= Seq::<Card>::empty());
                lemma_no_draw_same(dealt.shoe@, self.shoe@, dealt.decks());
            }
        }
    }

    /// Whether doubling down is currently allowed.
    pub fn can_double(&self) -> (b: bool)
        ensures
            b == self.can_double_view(),
    {
        self.phase == Phase::PlayerTurn && self.player.0.len() == 2 && self.bankroll >= self.bet
    }

    pub fn player_hit(&mut self)
        requires
            old(self).hit_fits(),
        ensures
            GameState::hit_post(*old(self), *final(self)),
    {
        if self.phase != Phase::PlayerTurn {
            return;
        }
        let ghost before = *self;
        let c = self.draw_card();
        self.player.0.push(c);
        proof {
            lemma_counts_push(before.player@, c);
            assert(self.player@.drop_last() =~= before.player@);
            lemma_one_draw(before.shoe@, self.shoe@, c, before.decks());
        }
        if self.player.is_bust() {
            self.hole_hidden = false;
            self.resolve(Outcome::PlayerBust);
        }
    }

    pub fn player_stand(&mut self)
        requires
            old(self).stand_fits(),
        ensures
            GameState::stand_post(*old(self), *final(self)),
    {
        if self.phase != Phase::PlayerTurn {
            return;
        }
        self.finish_with_dealer();
    }

    pub fn player_double(&mut self)
        requires
            old(self).double_fits(),
        ensures
            GameState::double_post(*old(self), *final(self)),
    {
        if !self.can_double() {
            return;
        }
        let ghost start = *self;
        self.bankroll -= self.bet;
        self.bet *= 2;
        let c = self.draw_card();
        self.player.0.push(c);
        proof {
            lemma_counts_push(start.player@, c);
            assert(self.player@.drop_last() =~= start.player@);
            lemma_one_draw(start.shoe@, self.shoe@, c, start.decks());
        }
        if self.player.is_bust() {
            self.hole_hidden = false;
            self.resolve(Outcome::PlayerBust);
            assert(self.dealer@.skip(start.dealer@.len() as int) =~= Seq::<Card>::empty());
            assert(seq![c] + Seq::<Card>::empty() =~= seq![c]);
        } else {
            let ghost doubled = *self;
            proof {
                if start.shoe@.len() > 0 {
                    assert(self.shoe@ =~= start.shoe@.drop_last());
                    assert(c == start.shoe@.last());
                }
            }
            self.finish_with_dealer();
            proof {
                lemma_draws_chain(
                    start.shoe@,
                    doubled.shoe@,
                    self.shoe@,
                    seq![c],
                    self.dealer@.skip(start.dealer@.len() as int),
                    start.decks(),
                );
            }
        }
    }

    /// Return to the betting phase for the next hand.
    pub fn next_round(&mut self)
        ensures
            GameState::next_round_post(*old(self), *final(self)),
    {
        self.player = Hand::default();
        self.dealer = Hand::default();
        self.outcome = None;
        self.hole_hidden = false;
        self.phase = Phase::Betting;
        let limit = self.max_bet();
        // A player who cannot afford the minimum is left at the minimum.
        self.bet = if limit >= GameState::MIN_BET {
            clamp_u32(self.bet, GameState::MIN_BET, limit)
        } else {
            GameState::MIN_BET
        };
    }

    pub fn is_broke(&self) -> (b: bool)
        ensures
            b == self.broke(),
    {
        self.phase == Phase::Betting && self.bankroll < GameState::MIN_BET
    }

    fn next_card_fits_check(&self, hand: &Hand) -> (b: bool)
        ensures
            b == self.next_card_fits(hand@),
    {
        let sum = hand.capped_raw_sum();
        let n = self.shoe.len();
        if n > 0 {
            sum + self.shoe[n - 1].rank.blackjack_value() as u32 <= 255
        } else {
            sum <= 244
        }
    }

    /// What `outcome` pays on a wager of `bet`.
    fn payout_amount(outcome: Outcome, bet: u64) -> (paid: u64)
        requires
            bet <= u32::MAX,
        ensures
            paid == payout(outcome, bet as int),
    {
        match outcome {
            Outcome::PlayerBlackjack => bet + (3 * bet) / 2,
            Outcome::PlayerWin | Outcome::DealerBust => 2 * bet,
            Outcome::Push => bet,
            Outcome::DealerWin | Outcome::PlayerBust => 0,
        }
    }

    fn payout_fits_check(&self, outcome: Outcome) -> (b: bool)
        ensures
            b == self.payout_fits(outcome),
    {
        let bet = self.bet as u64;
        if outcome == Outcome::PlayerBlackjack && 3 * bet > u32::MAX as u64 {
            return false;
        }
        self.bankroll as u64 + GameState::payout_amount(outcome, bet) <= u32::MAX as u64
    }

    /// Plays the dealer's hand out from the top `upto` cards of `shoe`,
    /// leaving both untouched; none when those cards run out first.
    fn dealer_play_check(dealer: &Hand, shoe: &Vec<Card>, upto: usize, mode: GameMode) -> (r:
        Option<Hand>)
        requires
            countable(dealer@),
            upto <= shoe@.len(),
        ensures
            match r {
                Some(h) => dealer_play(dealer@, shoe@.take(upto as int), mode) == Some(h@)
                    && countable(h@),
                None => dealer_play(dealer@, shoe@.take(upto as int), mode) is None,
            },
    {
        let mut hand = Hand(dealer.0.clone());
        assert(hand@ =~= dealer@);
        let mut k: usize = upto;
        while game_logic::dealer_should_hit(&hand, mode)
            invariant
                k <= upto,
                upto <= shoe@.len(),
                countable(hand@),
                dealer_play(hand@, shoe@.take(k as int), mode) == dealer_play(
                    dealer@,
                    shoe@.take(upto as int),
                    mode,
                ),
            decreases k,
        {
            if k == 0 {
                return None;
            }
            proof {
                lemma_hitting_hand(hand@, mode);
                lemma_counts_push(hand@, shoe@[k - 1]);
                assert(shoe@.take(k as int).last() == shoe@[k - 1]);
                assert(shoe@.take(k as int).drop_last() =~= shoe@.take(k - 1));
            }
            k = k - 1;
            hand.0.push(shoe[k]);
        }
        Some(hand)
    }

    fn finish_fits_check(&self) -> (b: bool)
        ensures
            b == self.finish_fits(),
    {
        if self.player.is_blackjack() || self.dealer.is_blackjack() {
            let outcome = game_logic::determine_outcome(&self.player, &self.dealer);
            return self.payout_fits_check(outcome);
        }
        if !(self.player.is_countable() && self.dealer.is_countable()) {
            return false;
        }
        if self.player.is_bust() {
            return true;
        }
        assert(self.shoe@.take(self.shoe@.len() as int) =~= self.shoe@);
        match GameState::dealer_play_check(&self.dealer, &self.shoe, self.shoe.len(), self.game_mode) {
            Some(dealer) => {
                let outcome = game_logic::determine_outcome(&self.player, &dealer);
                self.payout_fits_check(outcome)
            },
            None => self.bankroll as u64 + 2 * (self.bet as u64) <= u32::MAX as u64,
        }
    }

    /// Whether `deal_round` can run without overflow.
    pub fn deal_fits_check(&self) -> (b: bool)
        ensures
            b == self.deal_fits(),
    {
        if self.phase != Phase::Betting || self.bankroll < GameState::MIN_BET {
            return true;
        }
        let n = self.shoe.len();
        let blackjack_paid = if n >= GameState::RESHUFFLE_AT {
            let player = Hand(vec![self.shoe[n - 1], self.shoe[n - 3]]);
            let dealer = Hand(vec![self.shoe[n - 2], self.shoe[n - 4]]);
            assert(player@ =~= GameState::top_player_cards(self.shoe@));
            assert(dealer@ =~= GameState::top_dealer_cards(self.shoe@));
            player.is_blackjack() && !dealer.is_blackjack()
        } else {
            true
        };
        let b = clamp_u32(self.bet, GameState::MIN_BET, self.bankroll) as u64;
        !blackjack_paid || (3 * b <= u32::MAX as u64 && self.bankroll as u64 + (3 * b) / 2
            <= u32::MAX as u64)
    }

    /// Whether `player_hit` can run without overflow.
    pub fn hit_fits_check(&self) -> (b: bool)
        ensures
            b == self.hit_fits(),
    {
        self.phase != Phase::PlayerTurn || self.next_card_fits_check(&self.player)
    }

    /// Whether `player_stand` can run without overflow.
    pub fn stand_fits_check(&self) -> (b: bool)
        ensures
            b == self.stand_fits(),
    {
        self.phase != Phase::PlayerTurn || self.finish_fits_check()
    }

    /// Whether `player_double` can run without overflow.
    pub fn double_fits_check(&self) -> (b: bool)
        ensures
            b == self.double_fits(),
    {
        if !self.can_double() {
            return true;
        }
        if !(self.bet as u64 * 2 <= u32::MAX as u64 && self.next_card_fits_check(&self.player)) {
            return false;
        }
        let bet = self.bet as u64;
        let bankroll = self.bankroll as u64;
        let n = self.shoe.len();
        if n == 0 {
            return self.dealer.is_blackjack() || (self.dealer.is_countable() && bankroll + 3 * bet
                <= u32::MAX as u64);
        }
        let mut next = Hand(self.player.0.clone());
        assert(next@ =~= self.player@);
        next.0.push(self.shoe[n - 1]);
        proof {
            lemma_counts_push(self.player@, self.shoe@.last());
        }
        if next.is_bust() || self.dealer.is_blackjack() {
            return true;
        }
        if !self.dealer.is_countable() {
            return false;
        }
        assert(self.shoe@.take(n - 1) =~= self.shoe@.drop_last());
        match GameState::dealer_play_check(&self.dealer, &self.shoe, n - 1, self.game_mode) {
            Some(dealer) => {
                let outcome = game_logic::determine_outcome(&next, &dealer);
                bankroll - bet + GameState::payout_amount(outcome, 2 * bet) <= u32::MAX as u64
            },
            None => bankroll + 3 * bet <= u32::MAX as u64,
        }
    }

    /// The dealer's label over the table: the dealer's total, or, while the
    /// hole card is hidden, the up card's total and a question mark.
    pub open spec fn dealer_label_view(self) -> Seq<char> {
        if self.dealer@.len() == 0 {
            "Dealer"@
        } else if self.hole_hidden {
            "Dealer: "@ + decimal_view(hand_total(self.dealer@.take(1)) as nat) + " + ?"@
        } else {
            "Dealer: "@ + decimal_view(hand_total(self.dealer@) as nat)
        }
    }

    /// The player's label over the table: the player's total.
    pub open spec fn player_label_view(self) -> Seq<char> {
        if self.player@.len() == 0 {
            "You"@
        } else {
            "You: "@ + decimal_view(hand_total(self.player@) as nat)
        }
    }

    /// The dealer's label over the table, e.g. `Dealer: 10 + ?` while the hole
    /// card is hidden.
    pub fn dealer_label(&self) -> (s: String)
        requires
            self.dealer@.len() > 0 && !self.hole_hidden ==> countable(self.dealer@),
        ensures
            s@ == self.dealer_label_view(),
    {
        if self.dealer.0.len() == 0 {
            return String::from_str("Dealer");
        }
        let mut s = String::from_str("Dealer: ");
        if self.hole_hidden {
            // Only the up card is known to the player.
            let up = Hand(vec![self.dealer.0[0]]);
            assert(up@ =~= self.dealer@.take(1));
            proof {
                lemma_counts_push(Seq::<Card>::empty(), self.dealer@[0]);
                assert(Seq::<Card>::empty().push(self.dealer@[0]) =~= up@);
            }
            let total = decimal(up.total());
            s.append(total.as_str());
            s.append(" + ?");
        } else {
            let total = decimal(self.dealer.total());
            s.append(total.as_str());
        }
        s
    }

    /// The player's label over the table, e.g. `You: 17`.
    pub fn player_label(&self) -> (s: String)
        requires
            countable(self.player@),
        ensures
            s@ == self.player_label_view(),
    {
        if self.player.0.len() == 0 {
            return String::from_str("You");
        }
        let mut s = String::from_str("You: ");
        let total = decimal(self.player.total());
        s.append(total.as_str());
        s
    }
}

// ---------------------------------------------------------------------------
// Numbers as text
// ---------------------------------------------------------------------------

pub open spec fn digit_view(d: int) -> Seq<char> {
    if d <= 0 {
        "0"@
    } else if d == 1 {
        "1"@
    } else if d == 2 {
        "2"@
    } else if d == 3 {
        "3"@
    } else if d == 4 {
        "4"@
    } else if d == 5 {
        "5"@
    } else if d == 6 {
        "6"@
    } else if d == 7 {
        "7"@
    } else if d == 8 {
        "8"@
    } else {
        "9"@
    }
}

/// `n` written in decimal, without leading zeros.
pub open spec fn decimal_view(n: nat) -> Seq<char>
    decreases n,
{
    if n < 10 {
        digit_view(n as int)
    } else {
        decimal_view(n / 10) + digit_view((n % 10) as int)
    }
}

fn digit(d: u8) -> (s: &'static str)
    requires
        d < 10,
    ensures
        s@ == digit_view(d as int),
{
    if d == 0 {
        "0"
    } else if d == 1 {
        "1"
    } else if d == 2 {
        "2"
    } else if d == 3 {
        "3"
    } else if d == 4 {
        "4"
    } else if d == 5 {
        "5"
    } else if d == 6 {
        "6"
    } else if d == 7 {
        "7"
    } else if d == 8 {
        "8"
    } else {
        "9"
    }
}

/// `n` written in decimal, without leading zeros.
pub fn decimal(n: u8) -> (s: String)
    ensures
        s@ == decimal_view(n as nat),
{
    if n < 10 {
        String::from_str(digit(n))
    } else if n < 100 {
        let mut s = String::from_str(digit(n / 10));
        s.append(digit(n % 10));
        proof {
            assert(decimal_view(n as nat) == decimal_view((n / 10) as nat) + digit_view(
                (n % 10) as int,
            ));
            assert(decimal_view((n / 10) as nat) == digit_view((n / 10) as int));
            assert(s@ =~= decimal_view(n as nat));
        }
        s
    } else {
        let mut s = String::from_str(digit(n / 100));
        s.append(digit((n / 10) % 10));
        s.append(digit(n % 10));
        proof {
            let m: nat = (n / 10) as nat;
            assert(m / 10 == n / 100);
            assert(m >= 10);
            assert(decimal_view(m) == decimal_view(m / 10) + digit_view((m % 10) as int));
            assert(decimal_view(n as nat) == decimal_view(m) + digit_view((n % 10) as int));
            assert(decimal_view((n / 100) as nat) == digit_view((n / 100) as int));
            assert(s@ =~= decimal_view(n as nat));
        }
        s
    }
}

} // verus!
