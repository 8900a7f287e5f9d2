use vstd::prelude::*;

verus! {

/// Hit.
pub const HIT: i32 = 1;
/// Stand.
pub const STAND: i32 = 2;
/// Double when two cards are held, else hit.
pub const DOUBLE_OR_HIT: i32 = 3;
/// Double when two cards are held, else stand.
pub const DOUBLE_OR_STAND: i32 = 4;
/// Split.
pub const SPLIT: i32 = 5;
/// No recommendation: the hand lies outside the tables.
pub const NO_PLAY: i32 = -1;

/// Actions for hard totals 5 to 21 (rows) against dealer cards 2 to 11
/// (columns).
pub open spec fn hard_table() -> Seq<Seq<i32>> {
    seq![
        seq![1, 1, 1, 1, 1, 1, 1, 1, 1, 1],
        seq![1, 1, 1, 1, 1, 1, 1, 1, 1, 1],
        seq![1, 1, 1, 1, 1, 1, 1, 1, 1, 1],
        seq![1, 1, 1, 1, 1, 1, 1, 1, 1, 1],
        seq![1, 3, 3, 3, 3, 1, 1, 1, 1, 1],
        seq![3, 3, 3, 3, 3, 3, 3, 3, 1, 1],
        seq![3, 3, 3, 3, 3, 3, 3, 3, 3, 1],
        seq![1, 1, 2, 2, 2, 1, 1, 1, 1, 1],
        seq![2, 2, 2, 2, 2, 1, 1, 1, 1, 1],
        seq![2, 2, 2, 2, 2, 1, 1, 1, 1, 1],
        seq![2, 2, 2, 2, 2, 1, 1, 1, 1, 1],
        seq![2, 2, 2, 2, 2, 1, 1, 1, 1, 1],
        seq![2, 2, 2, 2, 2, 2, 2, 2, 2, 2],
        seq![2, 2, 2, 2, 2, 2, 2, 2, 2, 2],
        seq![2, 2, 2, 2, 2, 2, 2, 2, 2, 2],
        seq![2, 2, 2, 2, 2, 2, 2, 2, 2, 2],
        seq![2, 2, 2, 2, 2, 2, 2, 2, 2, 2],
    ]
}

/// Actions for soft totals 13 to 21 against dealer cards 2 to 11.
pub open spec fn soft_table() -> Seq<Seq<i32>> {
    seq![
        seq![1, 1, 1, 3, 3, 1, 1, 1, 1, 1],
        seq![1, 1, 1, 3, 3, 1, 1, 1, 1, 1],
        seq![1, 1, 3, 3, 3, 1, 1, 1, 1, 1],
        seq![1, 1, 3, 3, 3, 1, 1, 1, 1, 1],
        seq![1, 3, 3, 3, 3, 1, 1, 1, 1, 1],
        seq![2, 4, 4, 4, 4, 2, 2, 1, 1, 1],
        seq![2, 2, 2, 2, 2, 2, 2, 2, 2, 2],
        seq![2, 2, 2, 2, 2, 2, 2, 2, 2, 2],
        seq![2, 2, 2, 2, 2, 2, 2, 2, 2, 2],
    ]
}

/// Actions for pairs of 2s to 10s, then of Aces, against dealer cards 2
/// to 11.
pub open spec fn pair_table() -> Seq<Seq<i32>> {
    seq![
        seq![5, 5, 5, 5, 5, 5, 1, 1, 1, 1],
        seq![5, 5, 5, 5, 5, 5, 1, 1, 1, 1],
        seq![1, 1, 1, 5, 5, 1, 1, 1, 1, 1],
        seq![3, 3, 3, 3, 3, 3, 3, 3, 1, 1],
        seq![5, 5, 5, 5, 5, 1, 1, 1, 1, 1],
        seq![5, 5, 5, 5, 5, 5, 1, 1, 1, 1],
        seq![5, 5, 5, 5, 5, 5, 5, 5, 5, 5],
        seq![5, 5, 5, 5, 5, 2, 5, 5, 2, 2],
        seq![2, 2, 2, 2, 2, 2, 2, 2, 2, 2],
        seq![5, 5, 5, 5, 5, 5, 5, 5, 5, 5],
    ]
}

/// Every entry is a point value: 1 for an Ace, 10 for a ten or a face card.
pub open spec fn point_values(hand: Seq<i32>) -> bool {
    forall|i: int| 0 <= i < hand.len() ==> 1 <= #[trigger] hand[i] <= 10
}

/// A dealer up-card the tables have a column for: 2 to 10, or 11 for an Ace.
pub open spec fn valid_dealer_card(dealer_card: i32) -> bool {
    2 <= dealer_card <= 11
}

/// How many Aces (point value 1) the hand holds.
pub open spec fn aces_in(hand: Seq<i32>) -> int
    decreases hand.len(),
{
    if hand.len() == 0 {
        0
    } else {
        aces_in(hand.drop_last()) + if hand.last() == 1 {
            1int
        } else {
            0int
        }
    }
}

/// The sum of the cards that are not Aces.
pub open spec fn non_ace_sum(hand: Seq<i32>) -> int
    decreases hand.len(),
{
    if hand.len() == 0 {
        0
    } else {
        non_ace_sum(hand.drop_last()) + if hand.last() == 1 {
            0int
        } else {
            hand.last() as int
        }
    }
}

/// What `aces` Aces add: 1 each, and 10 more once when there is an Ace and
/// the Aces alone stay under 12.
pub open spec fn ace_part(aces: int) -> int {
    if aces > 0 && aces < 12 {
        aces + 10
    } else {
        aces
    }
}

/// The total the advisor looks up.
pub open spec fn advisor_total(hand: Seq<i32>) -> int {
    ace_part(aces_in(hand)) + non_ace_sum(hand)
}

/// Exactly two cards of equal point value.
pub open spec fn is_pair(hand: Seq<i32>) -> bool {
    hand.len() == 2 && hand[0] == hand[1]
}

pub open spec fn is_soft(hand: Seq<i32>) -> bool {
    aces_in(hand) > 0
}

pub open spec fn pair_play(hand: Seq<i32>, dealer_card: i32) -> i32 {
    if hand[0] == 1 {
        SPLIT
    } else if valid_dealer_card(dealer_card) {
        pair_table()[hand[0] - 2][dealer_card - 2]
    } else {
        NO_PLAY
    }
}

pub open spec fn soft_play(hand: Seq<i32>, dealer_card: i32) -> i32 {
    let t = advisor_total(hand);
    if 13 <= t <= 21 && valid_dealer_card(dealer_card) {
        soft_table()[t - 13][dealer_card - 2]
    } else {
        NO_PLAY
    }
}

pub open spec fn hard_play(hand: Seq<i32>, dealer_card: i32) -> i32 {
    let t = advisor_total(hand);
    if 5 <= t <= 21 && valid_dealer_card(dealer_card) {
        hard_table()[t - 5][dealer_card - 2]
    } else {
        NO_PLAY
    }
}

/// The recommended action: a pair is looked up in the pair table (a pair of
/// Aces is always split), else a hand with an Ace in the soft table, else
/// the hand in the hard table; `NO_PLAY` when the total or the dealer card
/// lies outside the table.
pub open spec fn correct_play(hand: Seq<i32>, dealer_card: i32) -> i32 {
    if is_pair(hand) {
        pair_play(hand, dealer_card)
    } else if is_soft(hand) {
        soft_play(hand, dealer_card)
    } else {
        hard_play(hand, dealer_card)
    }
}

/// Adding cards never lowers the sum of the non-Ace cards.
pub proof fn lemma_non_ace_sum_prefix(hand: Seq<i32>, j: int)
    requires
        point_values(hand),
        0 <= j <= hand.len(),
    ensures
        0 <= non_ace_sum(hand.take(j)) <= non_ace_sum(hand),
    decreases hand.len(),
{
    if hand.len() > 0 {
        let rest = hand.drop_last();
        assert(point_values(rest)) by {
            assert forall|i: int| 0 <= i < rest.len() implies 1 <= #[trigger] rest[i] <= 10 by {
                assert(rest[i] == hand[i]);
            }
        }
        assert(1 <= hand[hand.len() - 1] <= 10);
        if j == hand.len() {
            assert(hand.take(j) =~= hand);
            lemma_non_ace_sum_prefix(rest, rest.len() as int);
            assert(rest.take(rest.len() as int) =~= rest);
        } else {
            assert(hand.take(j) =~= rest.take(j));
            lemma_non_ace_sum_prefix(rest, j);
        }
    } else {
        assert(hand.take(j) =~= hand);
    }
}

/// A pair of Aces is split whatever the dealer shows.
pub proof fn lemma_ace_pair_splits(dealer_card: i32)
    ensures
        correct_play(seq![1i32, 1i32], dealer_card) == SPLIT,
{
}

/// The advisor's tables: three fixed decision matrices.
pub struct BlackjackBasicStrategy {
    hard: [[i32; 10]; 17],
    soft: [[i32; 10]; 9],
    pair: [[i32; 10]; 10],
}

pub open spec fn table_matches<const R: usize>(t: [[i32; 10]; R], spec_t: Seq<Seq<i32>>) -> bool {
    &&& spec_t.len() == R
    &&& forall|i: int| 0 <= i < R ==> (#[trigger] t@[i])@ == spec_t[i]
}

impl BlackjackBasicStrategy {
    /// The tables hold the fixed matrices.
    pub closed spec fn wf(&self) -> bool {
        &&& table_matches(self.hard, hard_table())
        &&& table_matches(self.soft, soft_table())
        &&& table_matches(self.pair, pair_table())
    }

    pub fn new() -> (r: Self)
        ensures
            r.wf(),
    {
        let hard = [
            [1, 1, 1, 1, 1, 1, 1, 1, 1, 1],
            [1, 1, 1, 1, 1, 1, 1, 1, 1, 1],
            [1, 1, 1, 1, 1, 1, 1, 1, 1, 1],
            [1, 1, 1, 1, 1, 1, 1, 1, 1, 1],
            [1, 3, 3, 3, 3, 1, 1, 1, 1, 1],
            [3, 3, 3, 3, 3, 3, 3, 3, 1, 1],
            [3, 3, 3, 3, 3, 3, 3, 3, 3, 1],
            [1, 1, 2, 2, 2, 1, 1, 1, 1, 1],
            [2, 2, 2, 2, 2, 1, 1, 1, 1, 1],
            [2, 2, 2, 2, 2, 1, 1, 1, 1, 1],
            [2, 2, 2, 2, 2, 1, 1, 1, 1, 1],
            [2, 2, 2, 2, 2, 1, 1, 1, 1, 1],
            [2, 2, 2, 2, 2, 2, 2, 2, 2, 2],
            [2, 2, 2, 2, 2, 2, 2, 2, 2, 2],
            [2, 2, 2, 2, 2, 2, 2, 2, 2, 2],
            [2, 2, 2, 2, 2, 2, 2, 2, 2, 2],
            [2, 2, 2, 2, 2, 2, 2, 2, 2, 2],
        ];
        let soft = [
            [1, 1, 1, 3, 3, 1, 1, 1, 1, 1],
            [1, 1, 1, 3, 3, 1, 1, 1, 1, 1],
            [1, 1, 3, 3, 3, 1, 1, 1, 1, 1],
            [1, 1, 3, 3, 3, 1, 1, 1, 1, 1],
            [1, 3, 3, 3, 3, 1, 1, 1, 1, 1],
            [2, 4, 4, 4, 4, 2, 2, 1, 1, 1],
            [2, 2, 2, 2, 2, 2, 2, 2, 2, 2],
            [2, 2, 2, 2, 2, 2, 2, 2, 2, 2],
            [2, 2, 2, 2, 2, 2, 2, 2, 2, 2],
        ];
        let pair = [
            [5, 5, 5, 5, 5, 5, 1, 1, 1, 1],
            [5, 5, 5, 5, 5, 5, 1, 1, 1, 1],
            [1, 1, 1, 5, 5, 1, 1, 1, 1, 1],
            [3, 3, 3, 3, 3, 3, 3, 3, 1, 1],
            [5, 5, 5, 5, 5, 1, 1, 1, 1, 1],
            [5, 5, 5, 5, 5, 5, 1, 1, 1, 1],
            [5, 5, 5, 5, 5, 5, 5, 5, 5, 5],
            [5, 5, 5, 5, 5, 2, 5, 5, 2, 2],
            [2, 2, 2, 2, 2, 2, 2, 2, 2, 2],
            [5, 5, 5, 5, 5, 5, 5, 5, 5, 5],
        ];
        let r = Self { hard, soft, pair };
        assert(table_matches(r.hard, hard_table()));
        assert(table_matches(r.soft, soft_table()));
        assert(table_matches(r.pair, pair_table()));
        r
    }
    /// The recommended action for a hand of point values against the
    /// dealer's up-card (see `correct_play`).
    pub fn get_correct_play(&self, hand: &[i32], dealer_card: i32) -> (r: i32)
        requires
            self.wf(),
            point_values(hand@),
        ensures
            r == correct_play(hand@, dealer_card),
    {
        if self.check_if_pair(hand) {
            self.check_pairs(hand, dealer_card)
        } else if self.check_if_soft(hand) {
            self.check_soft_hands(hand, dealer_card)
        } else {
            self.check_hard_hands(hand, dealer_card)
        }
    }

    fn get_sum(&self, hand: &[i32]) -> (r: Option<i32>)
        requires
            point_values(hand@),
        ensures
            0 <= advisor_total(hand@),
            advisor_total(hand@) <= 21 ==> r == Some(advisor_total(hand@) as i32),
            advisor_total(hand@) > 21 ==> r.is_none(),
    {
        let aces = self.sum_aces(hand);
        proof {
            lemma_non_ace_sum_prefix(hand@, 0);
            assert(hand@.take(0) =~= Seq::<i32>::empty());
        }
        if aces > 21 {
            proof {
                lemma_non_ace_sum_prefix(hand@, hand@.len() as int);
            }
            return None;
        }
        let mut sum: i32 = aces as i32;
        let mut i: usize = 0;
        while i < hand.len()
            invariant
                point_values(hand@),
                aces == ace_part(aces_in(hand@)),
                i <= hand@.len(),
                sum == aces + non_ace_sum(hand@.take(i as int)),
                sum <= 21,
            decreases hand@.len() - i,
        {
            let card = hand[i];
            assert(hand@.take(i as int + 1).drop_last() =~= hand@.take(i as int));
            assert(1 <= hand@[i as int] <= 10);
            if card != 1 {
                sum = sum + card;
            }
            i = i + 1;
            if sum > 21 {
                proof {
                    lemma_non_ace_sum_prefix(hand@, i as int);
                }
                return None;
            }
        }
        assert(hand@.take(i as int) =~= hand@);
        proof {
            lemma_non_ace_sum_prefix(hand@, 0);
        }
        Some(sum)
    }

    /// What the hand's Aces add (see `ace_part`).
    fn sum_aces(&self, hand: &[i32]) -> (r: usize)
        ensures
            r == ace_part(aces_in(hand@)),
    {
        let mut count: usize = 0;
        let mut i: usize = 0;
        while i < hand.len()
            invariant
                i <= hand@.len(),
                count == aces_in(hand@.take(i as int)),
                count <= i,
            decreases hand@.len() - i,
        {
            assert(hand@.take(i as int + 1).drop_last() =~= hand@.take(i as int));
            if hand[i] == 1 {
                count = count + 1;
            }
            i = i + 1;
        }
        assert(hand@.take(i as int) =~= hand@);
        if count > 0 && count < 12 {
            count + 10
        } else {
            count
        }
    }

    fn check_if_soft(&self, hand: &[i32]) -> (r: bool)
        ensures
            r == is_soft(hand@),
    {
        self.sum_aces(hand) > 1
    }

    fn check_if_pair(&self, hand: &[i32]) -> (r: bool)
        ensures
            r == is_pair(hand@),
    {
        hand.len() == 2 && hand[0] == hand[1]
    }

    fn check_hard_hands(&self, hand: &[i32], dealer_card: i32) -> (r: i32)
        requires
            self.wf(),
            point_values(hand@),
        ensures
            r == hard_play(hand@, dealer_card),
    {
        match self.get_sum(hand) {
            Some(sum) => {
                if 5 <= sum && sum <= 21 && 2 <= dealer_card && dealer_card <= 11 {
                    self.hard[(sum - 5) as usize][(dealer_card - 2) as usize]
                } else {
                    NO_PLAY
                }
            },
            None => NO_PLAY,
        }
    }

    fn check_soft_hands(&self, hand: &[i32], dealer_card: i32) -> (r: i32)
        requires
            self.wf(),
            point_values(hand@),
        ensures
            r == soft_play(hand@, dealer_card),
    {
        match self.get_sum(hand) {
            Some(sum) => {
                if 13 <= sum && sum <= 21 && 2 <= dealer_card && dealer_card <= 11 {
                    self.soft[(sum - 13) as usize][(dealer_card - 2) as usize]
                } else {
                    NO_PLAY
                }
            },
            None => NO_PLAY,
        }
    }

    fn check_pairs(&self, hand: &[i32], dealer_card: i32) -> (r: i32)
        requires
            self.wf(),
            point_values(hand@),
            is_pair(hand@),
        ensures
            r == pair_play(hand@, dealer_card),
    {
        if hand[0] == 1 {
            SPLIT
        } else if 2 <= dealer_card && dealer_card <= 11 {
            self.pair[(hand[0] - 2) as usize][(dealer_card - 2) as usize]
        } else {
            NO_PLAY
        }
    }
}

} // verus!
