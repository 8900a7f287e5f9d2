use crate::card::{CardView, Hand, hand_value, is_blackjack_hand, lemma_value_bounds};
use crate::shoe::Shoe;
use vstd::prelude::*;

verus! {

/// How many decks the table's shoe holds.
pub const DECKS: usize = 6;

/// How many cards one deck holds.
pub const CARDS_PER_DECK: usize = 52;

/// A card was asked of a shoe that had none left.
#[derive(Debug, Clone, Copy, PartialEq, Eq, Structural)]
pub struct EmptyShoe;

/// How a round ended.
#[derive(Debug, Clone, Copy, PartialEq, Eq, Structural)]
pub enum Outcome {
    PlayerWin,
    DealerWin,
    Push,
}

/// The result of a round, by the first rule that applies: two blackjacks
/// push; a dealer blackjack wins; a player blackjack wins; a dealer bust
/// loses to a player who did not bust; a higher total of 21 or under wins;
/// equal totals push; otherwise the dealer wins.
pub open spec fn outcome_of(player: Seq<CardView>, dealer: Seq<CardView>) -> Outcome {
    let p = hand_value(player);
    let d = hand_value(dealer);
    if is_blackjack_hand(player) && is_blackjack_hand(dealer) {
        Outcome::Push
    } else if is_blackjack_hand(dealer) {
        Outcome::DealerWin
    } else if is_blackjack_hand(player) {
        Outcome::PlayerWin
    } else if d > 21 && p <= 21 {
        Outcome::PlayerWin
    } else if p > d && p <= 21 {
        Outcome::PlayerWin
    } else if p == d {
        Outcome::Push
    } else {
        Outcome::DealerWin
    }
}

/// The dealer's hand and the shoe once the dealer has drawn from the end of
/// the shoe while the hand is worth less than 17 and the shoe is not empty.
pub open spec fn dealer_draw(hand: Seq<CardView>, shoe: Seq<CardView>) -> (Seq<CardView>, Seq<
    CardView,
>)
    decreases shoe.len(),
{
    if hand_value(hand) >= 17 || shoe.len() == 0 {
        (hand, shoe)
    } else {
        dealer_draw(hand.push(shoe.last()), shoe.drop_last())
    }
}

/// The dealer never stops under 17 while the shoe still holds a card.
pub proof fn lemma_dealer_stands_on_17(hand: Seq<CardView>, shoe: Seq<CardView>)
    ensures
        hand_value(dealer_draw(hand, shoe).0) >= 17 || dealer_draw(hand, shoe).1.len() == 0,
    decreases shoe.len(),
{
    if hand_value(hand) < 17 && shoe.len() > 0 {
        lemma_dealer_stands_on_17(hand.push(shoe.last()), shoe.drop_last());
    }
}

pub open spec fn hand_ok(h: Option<Hand>) -> bool {
    h.is_some() ==> h.unwrap().wf()
}

/// Whether the shoe is down to a quarter of its cards or fewer.
pub open spec fn needs_reshuffle(cards_left: int) -> bool {
    4 * cards_left <= DECKS * CARDS_PER_DECK
}

/// One table: a shoe of `DECKS` decks, and the player's and the dealer's
/// hands once cards have been dealt.
pub struct Blackjack {
    pub shoe: Shoe,
    pub player_hand: Option<Hand>,
    pub dealer_hand: Option<Hand>,
}

impl Blackjack {
    pub open spec fn wf(&self) -> bool {
        &&& self.shoe.wf()
        &&& self.shoe.deck_count() == DECKS
        &&& hand_ok(self.player_hand)
        &&& hand_ok(self.dealer_hand)
    }

    /// Both hands have been dealt.
    pub open spec fn dealt(&self) -> bool {
        self.player_hand.is_some() && self.dealer_hand.is_some()
    }

    pub open spec fn player_cards(&self) -> Seq<CardView> {
        self.player_hand.unwrap()@
    }

    pub open spec fn dealer_cards(&self) -> Seq<CardView> {
        self.dealer_hand.unwrap()@
    }

    /// The player may take another card: the hand is under 21 and the dealer
    /// has no blackjack.
    pub open spec fn can_hit_spec(&self) -> bool {
        hand_value(self.player_cards()) < 21 && !is_blackjack_hand(self.dealer_cards())
    }

    /// A table with a full, shuffled shoe and no hands dealt.
    pub fn new() -> (r: Blackjack)
        ensures
            r.wf(),
            r.shoe.is_full(),
            r.player_hand.is_none(),
            r.dealer_hand.is_none(),
    {
        Blackjack { shoe: Shoe::new(DECKS), player_hand: None, dealer_hand: None }
    }

    /// How many cards are left in the shoe.
    pub fn cards_left(&self) -> (r: usize)
        ensures
            r == self.shoe@.len(),
    {
        self.shoe.cards_left()
    }

    /// Prepares the next round: refills and shuffles the shoe when a quarter
    /// of its cards or fewer are left, and leaves it as it is otherwise.
    pub fn reset(&mut self)
        requires
            old(self).wf(),
        ensures
            final(self).wf(),
            final(self).player_hand == old(self).player_hand,
            final(self).dealer_hand == old(self).dealer_hand,
            needs_reshuffle(old(self).shoe@.len() as int) ==> final(self).shoe.is_full(),
            !needs_reshuffle(old(self).shoe@.len() as int) ==> final(self).shoe
                == old(self).shoe,
    {
        if 4 * self.shoe.cards_left() <= DECKS * CARDS_PER_DECK {
            self.shoe.reset();
        }
    }

    /// Deals two cards to the player, then two to the dealer, from the end
    /// of the shoe; fails, changing nothing, when fewer than four are left.
    pub fn deal_card(&mut self) -> (r: Result<(), EmptyShoe>)
        requires
            old(self).wf(),
        ensures
            final(self).wf(),
            ({
                let s = old(self).shoe@;
                let n = s.len();
                &&& r is Ok <==> n >= 4
                &&& r is Ok ==> {
                    &&& final(self).dealt()
                    &&& final(self).player_cards() == seq![s[n - 1], s[n - 2]]
                    &&& final(self).dealer_cards() == seq![s[n - 3], s[n - 4]]
                    &&& final(self).shoe@ == s.subrange(0, n - 4)
                }
                &&& r is Err ==> *final(self) == *old(self)
            }),
    {
        if self.shoe.cards_left() < 4 {
            return Err(EmptyShoe);
        }
        let card1 = self.shoe.deal_card().unwrap();
        let card2 = self.shoe.deal_card().unwrap();
        let card3 = self.shoe.deal_card().unwrap();
        let card4 = self.shoe.deal_card().unwrap();
        self.player_hand = Some(Hand::new(card1, card2));
        self.dealer_hand = Some(Hand::new(card3, card4));
        proof {
            let s = old(self).shoe@;
            assert(self.shoe@ =~= s.subrange(0, s.len() - 4));
        }
        Ok(())
    }

    /// Whether the player may take another card (see `can_hit_spec`).
    pub fn can_hit(&self) -> (r: bool)
        requires
            self.wf(),
            self.dealt(),
        ensures
            r == self.can_hit_spec(),
    {
        let player = self.player_hand.as_ref().unwrap();
        let dealer = self.dealer_hand.as_ref().unwrap();
        player.get_value() < 21 && !dealer.is_blackjack()
    }

    /// Deals the card at the end of the shoe to the player; fails, changing
    /// nothing, when the shoe is empty.
    pub fn hit(&mut self) -> (r: Result<(), EmptyShoe>)
        requires
            old(self).wf(),
            old(self).dealt(),
            old(self).can_hit_spec(),
        ensures
            final(self).wf(),
            final(self).dealt(),
            final(self).dealer_hand == old(self).dealer_hand,
            r is Ok <==> old(self).shoe@.len() > 0,
            r is Ok ==> final(self).player_cards() == old(self).player_cards().push(
                old(self).shoe@.last(),
            ) && final(self).shoe@ == old(self).shoe@.drop_last(),
            r is Err ==> *final(self) == *old(self),
    {
        if self.shoe.cards_left() == 0 {
            return Err(EmptyShoe);
        }
        let card = self.shoe.deal_card().unwrap();
        let mut hand = self.player_hand.take().unwrap();
        proof {
            lemma_value_bounds(hand@);
        }
        hand.add_card(card);
        self.player_hand = Some(hand);
        Ok(())
    }

    /// The dealer draws from the end of the shoe while the hand is worth
    /// less than 17; fails when the shoe runs out first.
    pub fn play_dealers_hand(&mut self) -> (r: Result<(), EmptyShoe>)
        requires
            old(self).wf(),
            old(self).dealer_hand.is_some(),
        ensures
            final(self).wf(),
            final(self).dealer_hand.is_some(),
            final(self).player_hand == old(self).player_hand,
            (final(self).dealer_cards(), final(self).shoe@) == dealer_draw(
                old(self).dealer_cards(),
                old(self).shoe@,
            ),
            r is Ok <==> hand_value(final(self).dealer_cards()) >= 17,
            r is Err ==> final(self).shoe@.len() == 0,
    {
        let mut hand = self.dealer_hand.take().unwrap();
        let ghost goal = dealer_draw(hand@, self.shoe@);
        loop
            invariant
                self.shoe.wf(),
                self.shoe.deck_count() == DECKS,
                hand.wf(),
                hand_ok(self.player_hand),
                self.player_hand == old(self).player_hand,
                dealer_draw(hand@, self.shoe@) == goal,
                goal == dealer_draw(old(self).dealer_cards(), old(self).shoe@),
            decreases self.shoe@.len(),
        {
            let value = hand.get_value();
            if value >= 17 {
                self.dealer_hand = Some(hand);
                return Ok(());
            }
            if self.shoe.cards_left() == 0 {
                self.dealer_hand = Some(hand);
                return Err(EmptyShoe);
            }
            let card = self.shoe.deal_card().unwrap();
            proof {
                lemma_value_bounds(hand@);
            }
            hand.add_card(card);
        }
    }

    /// Whether the round is a push (see `outcome_of`).
    pub fn is_push(&self) -> (r: bool)
        requires
            self.wf(),
            self.dealt(),
        ensures
            r == (outcome_of(self.player_cards(), self.dealer_cards()) == Outcome::Push),
    {
        let dealer = self.dealer_hand.as_ref().unwrap();
        let player = self.player_hand.as_ref().unwrap();
        if dealer.is_blackjack() && !player.is_blackjack() && player.get_value() == 21 {
            return false;
        }
        if player.is_blackjack() && !dealer.is_blackjack() && dealer.get_value() == 21 {
            return false;
        }
        dealer.get_value() == player.get_value()
    }

    /// Whether the player wins the round (see `outcome_of`).
    pub fn is_player_win(&self) -> (r: bool)
        requires
            self.wf(),
            self.dealt(),
        ensures
            r == (outcome_of(self.player_cards(), self.dealer_cards()) == Outcome::PlayerWin),
    {
        let dealer = self.dealer_hand.as_ref().unwrap();
        let player = self.player_hand.as_ref().unwrap();
        if dealer.is_blackjack() {
            return false;
        }
        if player.is_blackjack() {
            return true;
        }
        let d = dealer.get_value();
        let p = player.get_value();
        if d > 21 && p <= 21 {
            return true;
        }
        p > d && p <= 21
    }

    /// The outcome of the round (see `outcome_of`).
    pub fn resolve(&self) -> (r: Outcome)
        requires
            self.wf(),
            self.dealt(),
        ensures
            r == outcome_of(self.player_cards(), self.dealer_cards()),
    {
        if self.is_player_win() {
            Outcome::PlayerWin
        } else if self.is_push() {
            Outcome::Push
        } else {
            Outcome::DealerWin
        }
    }

    pub fn get_players_hand(&self) -> (r: Option<&Hand>)
        ensures
            r.is_some() == self.player_hand.is_some(),
            r.is_some() ==> *r.unwrap() == self.player_hand.unwrap(),
    {
        self.player_hand.as_ref()
    }

    pub fn get_dealers_hand(&self) -> (r: Option<&Hand>)
        ensures
            r.is_some() == self.dealer_hand.is_some(),
            r.is_some() ==> *r.unwrap() == self.dealer_hand.unwrap(),
    {
        self.dealer_hand.as_ref()
    }
}

} // verus!
