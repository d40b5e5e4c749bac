//! Cards, the standard 52-card deck, and shuffled multi-deck shoes.

use rand::seq::SliceRandom;
use vstd::prelude::*;

verus! {

/// The thread-local random generator of `rand`, carried through opaquely.
#[verifier::external_type_specification]
#[verifier::external_body]
pub struct ExThreadRng(rand::rngs::ThreadRng);

#[derive(Debug, Copy, Clone, PartialEq, Eq, Structural, PartialOrd, Ord, Hash)]
pub enum Rank {
    Ace,
    R2,
    R3,
    R4,
    R5,
    R6,
    R7,
    R8,
    R9,
    R10,
    Jack,
    Queen,
    King,
}

impl Rank {
    /// Position of the rank in a suit, from 0 (ace) to 12 (king).
    pub open spec fn index(self) -> int {
        match self {
            Rank::Ace => 0,
            Rank::R2 => 1,
            Rank::R3 => 2,
            Rank::R4 => 3,
            Rank::R5 => 4,
            Rank::R6 => 5,
            Rank::R7 => 6,
            Rank::R8 => 7,
            Rank::R9 => 8,
            Rank::R10 => 9,
            Rank::Jack => 10,
            Rank::Queen => 11,
            Rank::King => 12,
        }
    }

    /// The rank at position `i` of a suit (`i` taken in 0..13).
    pub open spec fn at(i: int) -> Rank {
        if i <= 0 {
            Rank::Ace
        } else if i == 1 {
            Rank::R2
        } else if i == 2 {
            Rank::R3
        } else if i == 3 {
            Rank::R4
        } else if i == 4 {
            Rank::R5
        } else if i == 5 {
            Rank::R6
        } else if i == 6 {
            Rank::R7
        } else if i == 7 {
            Rank::R8
        } else if i == 8 {
            Rank::R9
        } else if i == 9 {
            Rank::R10
        } else if i == 10 {
            Rank::Jack
        } else if i == 11 {
            Rank::Queen
        } else {
            Rank::King
        }
    }

    /// Blackjack points with the ace counted high: ace 11, face cards 10,
    /// every other rank its pip count.
    pub open spec fn points(self) -> int {
        match self {
            Rank::Ace => 11,
            Rank::Jack | Rank::Queen | Rank::King => 10,
            _ => self.index() + 1,
        }
    }

    /// Blackjack points with the ace counted low (1).
    pub open spec fn low_points(self) -> int {
        if self == Rank::Ace {
            1
        } else {
            self.points()
        }
    }

    /// Base blackjack value. Aces count as 11 here; a `Hand` demotes them to 1
    /// as needed to avoid busting.
    pub fn blackjack_value(self) -> (v: u8)
        ensures
            v == self.points(),
    {
        match self {
            Rank::Ace => 11,
            Rank::R2 => 2,
            Rank::R3 => 3,
            Rank::R4 => 4,
            Rank::R5 => 5,
            Rank::R6 => 6,
            Rank::R7 => 7,
            Rank::R8 => 8,
            Rank::R9 => 9,
            Rank::R10 => 10,
            Rank::Jack | Rank::Queen | Rank::King => 10,
        }
    }

    pub open spec fn symbol_view(self) -> Seq<char> {
        match self {
            Rank::Ace => "A"@,
            Rank::R2 => "2"@,
            Rank::R3 => "3"@,
            Rank::R4 => "4"@,
            Rank::R5 => "5"@,
            Rank::R6 => "6"@,
            Rank::R7 => "7"@,
            Rank::R8 => "8"@,
            Rank::R9 => "9"@,
            Rank::R10 => "10"@,
            Rank::Jack => "J"@,
            Rank::Queen => "Q"@,
            Rank::King => "K"@,
        }
    }

    /// The rank as printed on a card face: `A`, `2` .. `10`, `J`, `Q`, `K`.
    pub fn symbol(self) -> (s: &'static str)
        ensures
            s@ == self.symbol_view(),
    {
        match self {
            Rank::Ace => "A",
            Rank::R2 => "2",
            Rank::R3 => "3",
            Rank::R4 => "4",
            Rank::R5 => "5",
            Rank::R6 => "6",
            Rank::R7 => "7",
            Rank::R8 => "8",
            Rank::R9 => "9",
            Rank::R10 => "10",
            Rank::Jack => "J",
            Rank::Queen => "Q",
            Rank::King => "K",
        }
    }

    /// Every rank in deck order, ace to king.
    pub fn all() -> (ranks: Vec<Rank>)
        ensures
            ranks@.len() == 13,
            forall|i: int| 0 <= i < 13 ==> #[trigger] ranks@[i] == Rank::at(i),
    {
        let ranks = vec![
            Rank::Ace,
            Rank::R2,
            Rank::R3,
            Rank::R4,
            Rank::R5,
            Rank::R6,
            Rank::R7,
            Rank::R8,
            Rank::R9,
            Rank::R10,
            Rank::Jack,
            Rank::Queen,
            Rank::King,
        ];
        assert forall|i: int| 0 <= i < 13 implies #[trigger] ranks@[i] == Rank::at(i) by {}
        ranks
    }
}

#[derive(Debug, Copy, Clone, PartialEq, Eq, Structural, Hash)]
pub enum Suit {
    Hearts,
    Spades,
    Diamonds,
    Clubs,
}

impl Suit {
    /// Position of the suit in deck order, from 0 (hearts) to 3 (clubs).
    pub open spec fn index(self) -> int {
        match self {
            Suit::Hearts => 0,
            Suit::Spades => 1,
            Suit::Diamonds => 2,
            Suit::Clubs => 3,
        }
    }

    /// The suit at position `i` of the deck order (`i` taken in 0..4).
    pub open spec fn at(i: int) -> Suit {
        if i <= 0 {
            Suit::Hearts
        } else if i == 1 {
            Suit::Spades
        } else if i == 2 {
            Suit::Diamonds
        } else {
            Suit::Clubs
        }
    }

    pub open spec fn red(self) -> bool {
        self == Suit::Hearts || self == Suit::Diamonds
    }

    pub fn is_red(self) -> (b: bool)
        ensures
            b == self.red(),
    {
        match self {
            Self::Hearts | Self::Diamonds => true,
            Self::Spades | Self::Clubs => false,
        }
    }

    pub open spec fn symbol_view(self) -> Seq<char> {
        match self {
            Suit::Hearts => "♥"@,
            Suit::Spades => "♠"@,
            Suit::Diamonds => "♦"@,
            Suit::Clubs => "♣"@,
        }
    }

    /// The suit's symbol: `♥`, `♠`, `♦` or `♣`.
    pub fn symbol(self) -> (s: &'static str)
        ensures
            s@ == self.symbol_view(),
    {
        match self {
            Self::Hearts => "♥",
            Self::Spades => "♠",
            Self::Diamonds => "♦",
            Self::Clubs => "♣",
        }
    }

    /// Every suit in deck order: hearts, spades, diamonds, clubs.
    pub fn all() -> (suits: Vec<Suit>)
        ensures
            suits@.len() == 4,
            forall|i: int| 0 <= i < 4 ==> #[trigger] suits@[i] == Suit::at(i),
    {
        let suits = vec![Suit::Hearts, Suit::Spades, Suit::Diamonds, Suit::Clubs];
        assert forall|i: int| 0 <= i < 4 implies #[trigger] suits@[i] == Suit::at(i) by {}
        suits
    }
}

#[derive(Debug, Copy, Clone, PartialEq, Eq, Structural, Hash)]
pub struct Card {
    pub suit: Suit,
    pub rank: Rank,
}

/// The card at position `i` of the ordered deck: suits in the order hearts,
/// spades, diamonds, clubs, and within each suit ace up to king.
pub open spec fn deck_card(i: int) -> Card {
    Card { suit: Suit::at(i / 13), rank: Rank::at(i % 13) }
}

/// The ordered 52-card deck.
pub open spec fn ordered_deck_view() -> Seq<Card> {
    Seq::new(52, |i: int| deck_card(i))
}

/// `n` ordered decks one after the other.
pub open spec fn decks_view(n: nat) -> Seq<Card>
    decreases n,
{
    if n == 0 {
        Seq::empty()
    } else {
        decks_view((n - 1) as nat) + ordered_deck_view()
    }
}

/// `shoe` holds exactly the cards of `decks` ordered decks, in some order.
pub open spec fn is_shoe_of(shoe: Seq<Card>, decks: nat) -> bool {
    &&& shoe.len() == 52 * decks
    &&& shoe.to_multiset() == decks_view(decks).to_multiset()
}

/// Calls `rand::rng`, which hands out the thread-local generator. Nothing is
/// claimed of the generator, which is carried through unopened; the call
/// panics only when the operating system cannot seed it.
#[verifier::external_body]
fn thread_rng() -> rand::rngs::ThreadRng {
    rand::rng()
}

/// Calls `SliceRandom::shuffle` on the cards. Its documentation promises an
/// in-place permutation: the same cards, each as often as before, in an order
/// chosen by the generator. Nothing is claimed of that order.
#[verifier::external_body]
fn shuffle_cards(cards: &mut Vec<Card>, rng: &mut rand::rngs::ThreadRng)
    ensures
        final(cards)@.len() == old(cards)@.len(),
        final(cards)@.to_multiset() == old(cards)@.to_multiset(),
{
    cards.shuffle(rng)
}

impl Card {
    pub fn new(suit: Suit, rank: Rank) -> (c: Card)
        ensures
            c.suit == suit,
            c.rank == rank,
    {
        Card { suit, rank }
    }

    /// The card's face as printed: rank then suit symbol, e.g. `A♠`.
    pub open spec fn face_view(self) -> Seq<char> {
        self.rank.symbol_view() + self.suit.symbol_view()
    }

    /// The card's face as printed: rank then suit symbol, e.g. `A♠`.
    pub fn face(self) -> (s: String)
        ensures
            s@ == self.face_view(),
    {
        let mut s = String::from_str(self.rank.symbol());
        s.append(self.suit.symbol());
        s
    }

    /// The 52 cards of a deck, suit by suit (hearts, spades, diamonds,
    /// clubs), each suit from ace to king.
    pub fn ordered_deck() -> (cards: Vec<Card>)
        ensures
            cards@ == ordered_deck_view(),
    {
        let suits = Suit::all();
        let ranks = Rank::all();
        let mut cards: Vec<Card> = Vec::new();
        let mut s: usize = 0;
        while s < 4
            invariant
                s <= 4,
                suits@.len() == 4,
                ranks@.len() == 13,
                forall|i: int| 0 <= i < 4 ==> #[trigger] suits@[i] == Suit::at(i),
                forall|i: int| 0 <= i < 13 ==> #[trigger] ranks@[i] == Rank::at(i),
                cards@.len() == 13 * s,
                forall|j: int| 0 <= j < cards@.len() ==> cards@[j] == deck_card(j),
            decreases 4 - s,
        {
            let suit = suits[s];
            let mut r: usize = 0;
            while r < 13
                invariant
                    s < 4,
                    r <= 13,
                    ranks@.len() == 13,
                    forall|i: int| 0 <= i < 13 ==> #[trigger] ranks@[i] == Rank::at(i),
                    suit == Suit::at(s as int),
                    cards@.len() == 13 * s + r,
                    forall|j: int| 0 <= j < cards@.len() ==> cards@[j] == deck_card(j),
                decreases 13 - r,
            {
                let rank = ranks[r];
                proof {
                    let k: int = 13 * s + r;
                    assert(k / 13 == s as int && k % 13 == r as int) by (nonlinear_arith)
                        requires
                            k == 13 * s + r,
                            r < 13,
                    ;
                }
                cards.push(Card { suit, rank });
                r = r + 1;
            }
            s = s + 1;
        }
        assert(cards@ =~= ordered_deck_view());
        cards
    }

    /// A shuffled shoe made of `decks` standard 52-card decks.
    pub fn shuffled_shoe(decks: usize) -> (shoe: Vec<Card>)
        requires
            decks <= usize::MAX / 52,
        ensures
            is_shoe_of(shoe@, decks as nat),
    {
        let n: usize = decks;
        let mut shoe: Vec<Card> = Vec::new();
        let mut i: usize = 0;
        while i < n
            invariant
                i <= n,
                n <= usize::MAX / 52,
                shoe@ == decks_view(i as nat),
                shoe@.len() == 52 * i,
            decreases n - i,
        {
            let mut deck = Card::ordered_deck();
            shoe.append(&mut deck);
            i = i + 1;
        }
        let mut rng = thread_rng();
        shuffle_cards(&mut shoe, &mut rng);
        shoe
    }
}

} // verus!
