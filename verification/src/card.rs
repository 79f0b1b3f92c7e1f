//! Suits, ranks and cards, with the point value of each rank.

use crate::text::{decimal, digit_char, push_decimal};
use vstd::prelude::*;
use vstd::std_specs::cmp::PartialEqSpec;
use vstd::std_specs::cmp::PartialEqSpecImpl;

verus! {

/// The four suits. They carry no order.
#[derive(Debug, Clone, Copy)]
pub enum Suit {
    Diamonds,
    Clubs,
    Spades,
    Hearts,
}

impl Suit {
    /// The letter that stands for the suit in a card's code.
    pub open spec fn letter(self) -> char {
        match self {
            Suit::Diamonds => 'D',
            Suit::Clubs => 'C',
            Suit::Spades => 'S',
            Suit::Hearts => 'H',
        }
    }

    /// The suit's name.
    pub open spec fn name(self) -> Seq<char> {
        match self {
            Suit::Diamonds => "Diamonds"@,
            Suit::Clubs => "Clubs"@,
            Suit::Spades => "Spades"@,
            Suit::Hearts => "Hearts"@,
        }
    }

    /// The suit's name as a string.
    pub fn to_string(&self) -> (s: String)
        ensures
            s@ == self.name(),
    {
        match self {
            Suit::Diamonds => String::from_str("Diamonds"),
            Suit::Clubs => String::from_str("Clubs"),
            Suit::Spades => String::from_str("Spades"),
            Suit::Hearts => String::from_str("Hearts"),
        }
    }

    fn letter_of(&self) -> (c: char)
        ensures
            c == self.letter(),
    {
        match self {
            Suit::Diamonds => 'D',
            Suit::Clubs => 'C',
            Suit::Spades => 'S',
            Suit::Hearts => 'H',
        }
    }
}

/// A rank: a pip card with its number, a face card or an ace.
#[derive(Debug, Clone, Copy)]
pub enum Rank {
    Number(u8),
    Jack,
    Queen,
    King,
    Ace,
}

impl Rank {
    /// The points a rank is worth: a pip card its number, a face card 10,
    /// an ace 15.
    pub open spec fn spec_value(self) -> nat {
        match self {
            Rank::Number(n) => n as nat,
            Rank::Ace => 15,
            Rank::Jack | Rank::Queen | Rank::King => 10,
        }
    }

    /// Whether the rank occurs in a standard deck: a pip card from 2 to 10,
    /// a face card or an ace.
    pub open spec fn is_standard(self) -> bool {
        match self {
            Rank::Number(n) => 2 <= n <= 10,
            _ => true,
        }
    }

    /// The rank's name: a pip card's number in decimal, else the word.
    pub open spec fn name(self) -> Seq<char> {
        match self {
            Rank::Number(n) => decimal(n as nat),
            Rank::Jack => "Jack"@,
            Rank::Queen => "Queen"@,
            Rank::King => "King"@,
            Rank::Ace => "Ace"@,
        }
    }

    /// The character that stands for the rank in a card's code: the first
    /// character of a pip card's number, so `1` for a ten, else the word's
    /// initial.
    pub open spec fn letter(self) -> char {
        match self {
            Rank::Number(n) => decimal(n as nat)[0],
            Rank::Jack => 'J',
            Rank::Queen => 'Q',
            Rank::King => 'K',
            Rank::Ace => 'A',
        }
    }

    pub fn value(&self) -> (points: u32)
        ensures
            points == self.spec_value(),
    {
        match self {
            Rank::Number(n) => {
                let points: u32 = (*n).into();
                points
            },
            Rank::Ace => 15,
            _ => 10,
        }
    }

    /// The rank's name as a string.
    pub fn to_string(&self) -> (s: String)
        ensures
            s@ == self.name(),
    {
        match self {
            Rank::Number(n) => {
                let mut s = String::new();
                let n: u8 = *n;
                push_decimal(&mut s, n as usize);
                assert(s@ == decimal(n as nat)) by {
                    assert(Seq::<char>::empty() + decimal(n as nat) == decimal(n as nat));
                }
                s
            },
            Rank::Jack => String::from_str("Jack"),
            Rank::Queen => String::from_str("Queen"),
            Rank::King => String::from_str("King"),
            Rank::Ace => String::from_str("Ace"),
        }
    }

    fn letter_of(&self) -> (c: char)
        ensures
            c == self.letter(),
    {
        match self {
            Rank::Number(n) => {
                let n: u8 = *n;
                let first: u8 = if n < 10 {
                    n
                } else if n < 100 {
                    n / 10
                } else {
                    n / 100
                };
                proof {
                    lemma_first_digit(n as nat);
                }
                (first + 48) as char
            },
            Rank::Jack => 'J',
            Rank::Queen => 'Q',
            Rank::King => 'K',
            Rank::Ace => 'A',
        }
    }
}

/// The first digit of a numeral of up to three digits.
proof fn lemma_first_digit(n: nat)
    requires
        n < 1000,
    ensures
        decimal(n)[0] == digit_char(
            if n < 10 {
                n
            } else if n < 100 {
                n / 10
            } else {
                n / 100
            },
        ),
{
    reveal_with_fuel(decimal, 3);
    if n >= 100 {
        assert(n / 10 / 10 == n / 100);
    }
}

/// A playing card. As a value it is the pair of its suit and its rank; the
/// operator `==` looks at the points only, so that any two face cards are
/// equal to each other, and so are two aces of different suits.
#[derive(Debug, Clone, Copy)]
pub struct Card {
    pub suit: Suit,
    pub rank: Rank,
}

impl Card {
    /// The points of the card's rank.
    pub open spec fn spec_value(self) -> nat {
        self.rank.spec_value()
    }

    /// Two cards are worth the same points.
    pub open spec fn same_rank_value(self, other: Card) -> bool {
        self.spec_value() == other.spec_value()
    }

    /// The card's code of two characters: the rank's, then the suit's.
    pub open spec fn code(self) -> Seq<char> {
        seq![self.rank.letter(), self.suit.letter()]
    }

    pub fn new(suit: Suit, rank: Rank) -> (card: Card)
        ensures
            card == (Card { suit, rank }),
    {
        Card { suit, rank }
    }

    pub fn value(&self) -> (points: u32)
        ensures
            points == self.spec_value(),
    {
        self.rank.value()
    }

    /// The card's code as a string, such as `JH` for the jack of hearts.
    pub fn to_string(&self) -> (s: String)
        ensures
            s@ == self.code(),
    {
        let mut s = String::new();
        s.push(self.rank.letter_of());
        s.push(self.suit.letter_of());
        assert(s@ == self.code());
        s
    }

    /// Whether the card's code is the given text.
    pub fn has_code(&self, text: &Vec<char>) -> (found: bool)
        ensures
            found == (self.code() == text@),
    {
        let found = text.len() == 2 && text[0] == self.rank.letter_of() && text[1]
            == self.suit.letter_of();
        assert(found == (self.code() == text@)) by {
            if found {
                assert(self.code() =~= text@);
            }
        }
        found
    }
}

/// The text that lists the given cards: each card's code, with ` | ` after
/// each of them.
pub open spec fn listing(cards: Seq<Card>) -> Seq<char>
    decreases cards.len(),
{
    if cards.len() == 0 {
        Seq::<char>::empty()
    } else {
        listing(cards.drop_last()) + cards.last().code() + " | "@
    }
}

/// A list of cards that is to be shown.
pub struct CardVec<'a>(pub &'a Vec<Card>);

impl<'a> CardVec<'a> {
    /// The listing of the cards as a string.
    pub fn to_string(&self) -> (s: String)
        ensures
            s@ == listing(self.0@),
    {
        let mut s = String::new();
        let mut i: usize = 0;
        while i < self.0.len()
            invariant
                i <= self.0.len(),
                s@ == listing(self.0@.take(i as int)),
            decreases self.0.len() - i,
        {
            assert(self.0@.take(i + 1).drop_last() == self.0@.take(i as int));
            let code = self.0[i].to_string();
            s.append(code.as_str());
            s.append(" | ");
            i += 1;
        }
        assert(self.0@.take(self.0@.len() as int) == self.0@);
        s
    }
}

impl PartialEq for Card {
    fn eq(&self, other: &Self) -> (equal: bool) {
        self.rank.value() == other.rank.value()
    }
}

impl PartialEqSpecImpl for Card {
    open spec fn obeys_eq_spec() -> bool {
        true
    }

    open spec fn eq_spec(&self, other: &Self) -> bool {
        self.same_rank_value(*other)
    }
}

/// The operator `==` on cards holds exactly when the two cards are worth the
/// same points, whatever their suits.
pub proof fn lemma_eq_is_same_value(a: Card, b: Card)
    ensures
        PartialEqSpec::eq_spec(&a, &b) <==> a.spec_value() == b.spec_value(),
        a.rank == b.rank ==> PartialEqSpec::eq_spec(&a, &b),
{
}

} // verus!
