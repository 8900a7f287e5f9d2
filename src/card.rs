use vstd::prelude::*;
use vstd::string::*;

verus! {

/// The abstract value of a card: the text of its suit and its rank
/// (1 is an Ace, 11, 12 and 13 are Jack, Queen and King).
pub type CardView = (Seq<char>, int);

/// The most cards one hand can hold; it keeps every total inside `i64`.
pub const MAX_HAND_CARDS: usize = usize::MAX / 32;

pub open spec fn valid_rank(rank: int) -> bool {
    1 <= rank <= 13
}

/// What a card of this rank adds to a hand before any Ace is promoted.
pub open spec fn card_points(rank: int) -> int {
    if rank >= 11 {
        10
    } else {
        rank
    }
}

/// The sum of the cards' points, every Ace counted as 1.
pub open spec fn raw_sum(cards: Seq<CardView>) -> int
    decreases cards.len(),
{
    if cards.len() == 0 {
        0
    } else {
        raw_sum(cards.drop_last()) + card_points(cards.last().1)
    }
}

/// How many of the cards are Aces.
pub open spec fn ace_count(cards: Seq<CardView>) -> int
    decreases cards.len(),
{
    if cards.len() == 0 {
        0
    } else {
        ace_count(cards.drop_last()) + if cards.last().1 == 1 {
            1int
        } else {
            0int
        }
    }
}

/// The blackjack value of a hand: one Ace counts 11 instead of 1 when that
/// keeps the total at 21 or under.
pub open spec fn hand_value(cards: Seq<CardView>) -> int {
    if ace_count(cards) > 0 && raw_sum(cards) < 12 {
        raw_sum(cards) + 10
    } else {
        raw_sum(cards)
    }
}

pub open spec fn is_blackjack_hand(cards: Seq<CardView>) -> bool {
    cards.len() == 2 && hand_value(cards) == 21
}

pub open spec fn valid_cards(cards: Seq<CardView>) -> bool {
    forall|i: int| 0 <= i < cards.len() ==> valid_rank(#[trigger] cards[i].1)
}

/// The text of a rank: `A`, `2` to `10`, `J`, `Q` or `K`.
pub open spec fn rank_text(rank: int) -> Seq<char> {
    if rank == 1 {
        "A"@
    } else if rank == 2 {
        "2"@
    } else if rank == 3 {
        "3"@
    } else if rank == 4 {
        "4"@
    } else if rank == 5 {
        "5"@
    } else if rank == 6 {
        "6"@
    } else if rank == 7 {
        "7"@
    } else if rank == 8 {
        "8"@
    } else if rank == 9 {
        "9"@
    } else if rank == 10 {
        "10"@
    } else if rank == 11 {
        "J"@
    } else if rank == 12 {
        "Q"@
    } else {
        "K"@
    }
}

/// The text of a card: its rank's text followed by its suit.
pub open spec fn card_text(c: CardView) -> Seq<char> {
    rank_text(c.1) + c.0
}

pub open spec fn digit_text(d: nat) -> Seq<char> {
    if d == 0 {
        "0"@
    } else if d == 1 {
        "1"@
    } else if d == 2 {
        "2"@
    } else if d == 3 {
        "3"@
    } else if d == 4 {
        "4"@
    } else if d == 5 {
        "5"@
    } else if d == 6 {
        "6"@
    } else if d == 7 {
        "7"@
    } else if d == 8 {
        "8"@
    } else {
        "9"@
    }
}

/// The decimal digits of `n`, most significant first.
pub open spec fn decimal_text(n: nat) -> Seq<char>
    decreases n,
{
    if n < 10 {
        digit_text(n)
    } else {
        decimal_text(n / 10) + digit_text(n % 10)
    }
}

/// Each card's text followed by a space.
pub open spec fn cards_text(cards: Seq<CardView>) -> Seq<char>
    decreases cards.len(),
{
    if cards.len() == 0 {
        Seq::empty()
    } else {
        cards_text(cards.drop_last()) + card_text(cards.last()) + " "@
    }
}

/// The text of a hand: its cards, then its value in parentheses.
pub open spec fn hand_text(cards: Seq<CardView>) -> Seq<char> {
    cards_text(cards) + "("@ + decimal_text(hand_value(cards) as nat) + ")"@
}

/// Every card adds between 1 and 10 points, and the value adds at most 10.
pub proof fn lemma_value_bounds(cards: Seq<CardView>)
    requires
        valid_cards(cards),
    ensures
        cards.len() <= raw_sum(cards) <= 10 * cards.len(),
        0 <= ace_count(cards) <= cards.len(),
        raw_sum(cards) <= hand_value(cards) <= raw_sum(cards) + 10,
    decreases cards.len(),
{
    if cards.len() > 0 {
        let rest = cards.drop_last();
        assert(valid_cards(rest)) by {
            assert forall|i: int| 0 <= i < rest.len() implies valid_rank(#[trigger] rest[i].1) by {
                assert(rest[i] == cards[i]);
            }
        }
        assert(valid_rank(cards[cards.len() - 1].1));
        lemma_value_bounds(rest);
    }
}

/// A hand is promoted at most once, however many Aces it holds: its value is
/// its raw sum, or the raw sum plus 10 when it holds an Ace and stays at 21
/// or under.
pub proof fn lemma_single_soft_promotion(cards: Seq<CardView>)
    ensures
        hand_value(cards) == raw_sum(cards) || (hand_value(cards) == raw_sum(cards) + 10
            && ace_count(cards) > 0 && hand_value(cards) <= 21),
{
}

/// A playing card: a suit and a rank from 1 (Ace) to 13 (King).
pub struct Card {
    suit: String,
    rank: i64,
}

impl View for Card {
    type V = CardView;

    closed spec fn view(&self) -> CardView {
        (self.suit@, self.rank as int)
    }
}

impl Card {
    pub open spec fn wf(&self) -> bool {
        valid_rank(self@.1)
    }

    pub fn new(suit: String, rank: i64) -> (r: Card)
        requires
            valid_rank(rank as int),
        ensures
            r@ == (suit@, rank as int),
            r.wf(),
    {
        Card { suit, rank }
    }

    /// The rank's text (`A`, `2`-`10`, `J`, `Q`, `K`) followed by the suit,
    /// as in `JD`, `10H` or `AS`.
    pub fn to_string(&self) -> (r: String)
        requires
            self.wf(),
        ensures
            r@ == card_text(self@),
    {
        let rank: &str = if self.rank == 1 {
            "A"
        } else if self.rank == 2 {
            "2"
        } else if self.rank == 3 {
            "3"
        } else if self.rank == 4 {
            "4"
        } else if self.rank == 5 {
            "5"
        } else if self.rank == 6 {
            "6"
        } else if self.rank == 7 {
            "7"
        } else if self.rank == 8 {
            "8"
        } else if self.rank == 9 {
            "9"
        } else if self.rank == 10 {
            "10"
        } else if self.rank == 11 {
            "J"
        } else if self.rank == 12 {
            "Q"
        } else {
            "K"
        };
        let mut text = String::from_str(rank);
        text.append(self.suit.as_str());
        text
    }
}

fn digit_str(d: u64) -> (r: &'static str)
    requires
        d < 10,
    ensures
        r@ == digit_text(d as nat),
{
    if d == 0 {
        "0"
    } else if d == 1 {
        "1"
    } else if d == 2 {
        "2"
    } else if d == 3 {
        "3"
    } else if d == 4 {
        "4"
    } else if d == 5 {
        "5"
    } else if d == 6 {
        "6"
    } else if d == 7 {
        "7"
    } else if d == 8 {
        "8"
    } else {
        "9"
    }
}

fn decimal_string(n: u64) -> (r: String)
    ensures
        r@ == decimal_text(n as nat),
    decreases n,
{
    if n < 10 {
        String::from_str(digit_str(n))
    } else {
        let mut text = decimal_string(n / 10);
        text.append(digit_str(n % 10));
        text
    }
}

/// The cards a player or the dealer holds, in the order they were dealt.
pub struct Hand {
    cards: Vec<Card>,
}

impl View for Hand {
    type V = Seq<CardView>;

    closed spec fn view(&self) -> Seq<CardView> {
        self.cards@.map_values(|c: Card| c@)
    }
}

impl Hand {
    pub open spec fn wf(&self) -> bool {
        self@.len() <= MAX_HAND_CARDS && valid_cards(self@)
    }

    pub fn new(card1: Card, card2: Card) -> (r: Hand)
        requires
            card1.wf(),
            card2.wf(),
        ensures
            r@ == seq![card1@, card2@],
            r.wf(),
    {
        let mut cards: Vec<Card> = Vec::new();
        cards.push(card1);
        cards.push(card2);
        let r = Hand { cards };
        assert(r@ =~= seq![card1@, card2@]);
        r
    }

    /// The hand's blackjack value (see `hand_value`).
    pub fn get_value(&self) -> (r: i64)
        requires
            self.wf(),
        ensures
            r == hand_value(self@),
    {
        let ghost cards = self@;
        let mut sum: i64 = 0;
        let mut aces: i64 = 0;
        let mut i: usize = 0;
        while i < self.cards.len()
            invariant
                cards == self@,
                self.wf(),
                i <= cards.len(),
                sum == raw_sum(cards.take(i as int)),
                aces == ace_count(cards.take(i as int)),
                0 <= sum <= 10 * i,
                0 <= aces <= i,
            decreases cards.len() - i,
        {
            let card = &self.cards[i];
            assert(cards.take(i as int + 1).drop_last() =~= cards.take(i as int));
            assert(cards[i as int] == card@);
            assert(valid_rank(cards[i as int].1));
            if card.rank == 11 || card.rank == 12 || card.rank == 13 {
                sum = sum + 10;
            } else {
                sum = sum + card.rank;
            }
            if card.rank == 1 {
                aces = aces + 1;
            }
            i = i + 1;
        }
        assert(cards.take(i as int) =~= cards);
        if sum < 12 && aces > 0 {
            sum = sum + 10;
        }
        sum
    }

    /// True exactly for a two-card hand worth 21.
    pub fn is_blackjack(&self) -> (r: bool)
        requires
            self.wf(),
        ensures
            r == is_blackjack_hand(self@),
    {
        self.cards.len() == 2 && self.get_value() == 21
    }

    /// Each card's text followed by a space, then the value in parentheses,
    /// as in `JS AH (21)`.
    pub fn to_string(&self) -> (r: String)
        requires
            self.wf(),
        ensures
            r@ == hand_text(self@),
    {
        let ghost cards = self@;
        let mut text = String::new();
        let mut i: usize = 0;
        while i < self.cards.len()
            invariant
                cards == self@,
                self.wf(),
                i <= cards.len(),
                text@ == cards_text(cards.take(i as int)),
            decreases cards.len() - i,
        {
            let card = &self.cards[i];
            assert(cards.take(i as int + 1).drop_last() =~= cards.take(i as int));
            assert(cards[i as int] == card@);
            assert(valid_rank(cards[i as int].1));
            let card_str = card.to_string();
            text.append(card_str.as_str());
            text.append(" ");
            i = i + 1;
        }
        assert(cards.take(i as int) =~= cards);
        let value = self.get_value();
        proof {
            lemma_value_bounds(cards);
        }
        text.append("(");
        let digits = decimal_string(value as u64);
        text.append(digits.as_str());
        text.append(")");
        text
    }

    /// Appends `card` to the hand.
    pub fn add_card(&mut self, card: Card)
        requires
            old(self).wf(),
            card.wf(),
            old(self)@.len() < MAX_HAND_CARDS,
        ensures
            final(self)@ == old(self)@.push(card@),
            final(self).wf(),
    {
        self.cards.push(card);
        assert(self@ =~= old(self)@.push(card@));
    }
}

} // verus!
