use crate::card::{Card, CardView, valid_cards, valid_rank};
use rand::seq::SliceRandom;
use vstd::prelude::*;
use vstd::string::*;

verus! {

broadcast use vstd::seq_lib::group_to_multiset_ensures;

/// The text of the suit at position `i` of the order H, D, C, S.
pub open spec fn suit_text(i: int) -> Seq<char> {
    if i == 0 {
        "H"@
    } else if i == 1 {
        "D"@
    } else if i == 2 {
        "C"@
    } else {
        "S"@
    }
}

/// The card at position `k` of an unshuffled shoe of `decks` decks: suits
/// in the order H, D, C, S, ranks 1 to 13 within a suit, and `decks` copies
/// of each card side by side.
pub open spec fn ordered_card(decks: nat, k: int) -> CardView {
    (suit_text(k / (13 * decks) as int), (k / decks as int) % 13 + 1)
}

/// An unshuffled shoe: `decks` copies of each of the 52 cards.
pub open spec fn ordered_shoe(decks: nat) -> Seq<CardView> {
    Seq::new(52 * decks, |k: int| ordered_card(decks, k))
}

/// Relies on rand's `SliceRandom::shuffle`, fed by `rand::thread_rng`: it
/// only swaps elements, so every card comes back, in some order.
#[verifier::external_body]
fn shuffle_cards(cards: &mut Vec<Card>)
    ensures
        final(cards)@.len() == old(cards)@.len(),
        final(cards)@.map_values(|c: Card| c@).to_multiset() == old(cards)@.map_values(
            |c: Card| c@,
        ).to_multiset(),
{
    cards.shuffle(&mut rand::thread_rng());
}

fn suit_str(i: usize) -> (r: &'static str)
    ensures
        r@ == suit_text(i as int),
{
    if i == 0 {
        "H"
    } else if i == 1 {
        "D"
    } else if i == 2 {
        "C"
    } else {
        "S"
    }
}

/// A stack of cards from several decks, dealt from its end.
pub struct Shoe {
    decks: usize,
    shoe: Vec<Card>,
}

impl View for Shoe {
    type V = Seq<CardView>;

    closed spec fn view(&self) -> Seq<CardView> {
        self.shoe@.map_values(|c: Card| c@)
    }
}

impl Shoe {
    /// How many decks the shoe was built from.
    pub closed spec fn deck_count(&self) -> nat {
        self.decks as nat
    }

    pub open spec fn wf(&self) -> bool {
        &&& 52 * self.deck_count() <= usize::MAX
        &&& self@.len() <= 52 * self.deck_count()
        &&& valid_cards(self@)
    }

    /// The shoe holds every card of its decks, in a random order.
    pub open spec fn is_full(&self) -> bool {
        &&& self@.len() == 52 * self.deck_count()
        &&& self@.to_multiset() == ordered_shoe(self.deck_count()).to_multiset()
    }

    /// A full, shuffled shoe of `init_decks` decks.
    pub fn new(init_decks: usize) -> (r: Shoe)
        requires
            52 * init_decks <= usize::MAX,
        ensures
            r.wf(),
            r.deck_count() == init_decks,
            r.is_full(),
    {
        let mut new_shoe = Shoe { decks: init_decks, shoe: Vec::new() };
        new_shoe.reset();
        new_shoe
    }

    /// Removes and returns the card at the end of the shoe, or `None` when
    /// the shoe is empty.
    pub fn deal_card(&mut self) -> (r: Option<Card>)
        requires
            old(self).wf(),
        ensures
            final(self).wf(),
            final(self).deck_count() == old(self).deck_count(),
            old(self)@.len() > 0 ==> r.is_some() && r.unwrap()@ == old(self)@.last()
                && r.unwrap().wf() && final(self)@ == old(self)@.drop_last(),
            old(self)@.len() == 0 ==> r.is_none() && final(self)@ == old(self)@,
    {
        let r = self.shoe.pop();
        proof {
            if old(self)@.len() > 0 {
                assert(self@ =~= old(self)@.drop_last());
                assert(valid_rank(old(self)@[old(self)@.len() - 1].1));
            }
        }
        r
    }

    /// How many cards are left in the shoe.
    pub fn cards_left(&self) -> (r: usize)
        ensures
            r == self@.len(),
    {
        self.shoe.len()
    }

    /// Puts every card of the shoe's decks back and shuffles them.
    pub fn reset(&mut self)
        requires
            52 * old(self).deck_count() <= usize::MAX,
        ensures
            final(self).wf(),
            final(self).deck_count() == old(self).deck_count(),
            final(self).is_full(),
    {
        let ghost decks = self.decks as nat;
        self.shoe.clear();
        let total: usize = 52 * self.decks;
        let per_suit: usize = 13 * self.decks;
        let mut k: usize = 0;
        while k < total
            invariant
                decks == self.decks,
                total == 52 * decks,
                per_suit == 13 * decks,
                k <= total,
                self.shoe@.len() == k,
                forall|j: int| 0 <= j < k ==> (#[trigger] self@[j]) == ordered_card(decks, j),
            decreases total - k,
        {
            let suit = String::from_str(suit_str(k / per_suit));
            let rank: usize = (k / self.decks) % 13 + 1;
            let card = Card::new(suit, rank as i64);
            let ghost before = self@;
            self.shoe.push(card);
            assert(self@ =~= before.push(ordered_card(decks, k as int)));
            k = k + 1;
        }
        assert(self@ =~= ordered_shoe(decks));
        shuffle_cards(&mut self.shoe);
        proof {
            let v = self@;
            assert forall|i: int| 0 <= i < v.len() implies valid_rank(#[trigger] v[i].1) by {
                assert(v.contains(v[i]));
                assert(v.to_multiset().count(v[i]) > 0);
                assert(ordered_shoe(decks).to_multiset().count(v[i]) > 0);
                assert(ordered_shoe(decks).contains(v[i]));
                let j = choose|j: int|
                    0 <= j < ordered_shoe(decks).len() && ordered_shoe(decks)[j] == v[i];
                assert(ordered_shoe(decks)[j] == ordered_card(decks, j));
            }
        }
    }
}

} // verus!
