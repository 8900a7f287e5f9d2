use blackjack_trainer::card::{Card, Hand};
use blackjack_trainer::game::{Blackjack, EmptyShoe, Outcome};
use blackjack_trainer::shoe::Shoe;

fn card(suit: &str, rank: i64) -> Card {
    Card::new(suit.to_string(), rank)
}

fn hand(ranks: &[i64]) -> Hand {
    let mut h = Hand::new(card("H", ranks[0]), card("S", ranks[1]));
    for &r in &ranks[2..] {
        h.add_card(card("D", r));
    }
    h
}

fn table(player: &[i64], dealer: &[i64]) -> Blackjack {
    let mut game = Blackjack::new();
    game.player_hand = Some(hand(player));
    game.dealer_hand = Some(hand(dealer));
    game
}

#[test]
fn test_card_creation() {
    let card = Card::new("H".to_string(), 1);
    assert_eq!(card.to_string(), "AH");

    let card = Card::new("D".to_string(), 13);
    assert_eq!(card.to_string(), "KD");

    let card = Card::new("C".to_string(), 10);
    assert_eq!(card.to_string(), "10C");
}

#[test]
fn test_hand_value() {
    let card1 = Card::new("H".to_string(), 1);
    let card2 = Card::new("S".to_string(), 10);
    let hand = Hand::new(card1, card2);
    assert_eq!(hand.get_value(), 21);
    assert!(hand.is_blackjack());

    let card3 = Card::new("D".to_string(), 7);
    let card4 = Card::new("C".to_string(), 6);
    let hand2 = Hand::new(card3, card4);
    assert_eq!(hand2.get_value(), 13);
    assert!(!hand2.is_blackjack());
}

#[test]
fn test_hand_add_card() {
    let mut hand = Hand::new(Card::new("H".to_string(), 5), Card::new("S".to_string(), 6));
    hand.add_card(Card::new("D".to_string(), 10));
    assert_eq!(hand.get_value(), 21);
    assert!(!hand.is_blackjack());
}

#[test]
fn test_shoe_initialization_and_deal() {
    let mut shoe = Shoe::new(2);
    assert_eq!(shoe.cards_left(), 104);

    let card = shoe.deal_card();
    assert!(card.is_some());
    assert_eq!(shoe.cards_left(), 103);
}

#[test]
fn test_shoe_reset() {
    let mut shoe = Shoe::new(2);
    shoe.deal_card();
    shoe.deal_card();
    shoe.reset();
    assert_eq!(shoe.cards_left(), 104);
}

#[test]
fn test_blackjack_deal_and_play() {
    let mut game = Blackjack::new();
    assert!(game.deal_card().is_ok());

    let player_hand = game.get_players_hand();
    let dealer_hand = game.get_dealers_hand();

    assert!(player_hand.is_some());
    assert!(dealer_hand.is_some());

    let player_value = player_hand.unwrap().get_value();
    let dealer_value = dealer_hand.unwrap().get_value();

    assert!(player_value > 0 && player_value <= 21);
    assert!(dealer_value > 0 && dealer_value <= 21);
}

#[test]
fn test_blackjack_player_win_conditions() {
    let mut game = Blackjack::new();
    game.player_hand = Some(Hand::new(Card::new("H".to_string(), 10), Card::new("S".to_string(), 10)));
    game.dealer_hand = Some(Hand::new(Card::new("D".to_string(), 9), Card::new("C".to_string(), 7)));
    assert!(game.is_player_win());
}

#[test]
fn test_blackjack_push_conditions() {
    let mut game = Blackjack::new();
    game.player_hand = Some(Hand::new(Card::new("H".to_string(), 10), Card::new("S".to_string(), 10)));
    game.dealer_hand = Some(Hand::new(Card::new("D".to_string(), 10), Card::new("C".to_string(), 10)));
    assert!(game.is_push());
}

#[test]
fn test_blackjack_dealer_plays_hand() {
    let mut game = Blackjack::new();
    assert!(game.deal_card().is_ok());
    assert!(game.play_dealers_hand().is_ok());
    let dealer_hand = game.get_dealers_hand().unwrap();
    assert!(dealer_hand.get_value() >= 17);
}

#[test]
fn two_aces_and_nine_promote_once() {
    assert_eq!(hand(&[1, 1, 9]).get_value(), 21);
    assert_eq!(hand(&[1, 1]).get_value(), 12);
    assert_eq!(hand(&[1, 1, 1, 1]).get_value(), 14);
    assert_eq!(hand(&[1, 10, 10]).get_value(), 21);
    assert_eq!(hand(&[1, 6, 10]).get_value(), 17);
}

#[test]
fn face_cards_count_ten() {
    assert_eq!(hand(&[11, 12]).get_value(), 20);
    assert_eq!(hand(&[13, 5, 9]).get_value(), 24);
}

#[test]
fn blackjack_needs_two_cards_worth_21() {
    assert!(!hand(&[10, 10]).is_blackjack());
    assert!(hand(&[1, 13]).is_blackjack());
    assert_eq!(hand(&[1, 13]).get_value(), 21);
    assert!(!hand(&[7, 7, 7]).is_blackjack());
}

#[test]
fn card_and_hand_text() {
    assert_eq!(card("S", 11).to_string(), "JS");
    assert_eq!(card("C", 12).to_string(), "QC");
    assert_eq!(card("D", 9).to_string(), "9D");
    let h = Hand::new(card("S", 11), card("H", 1));
    assert_eq!(h.to_string(), "JS AH (21)");
    let h2 = hand(&[2, 3]);
    assert_eq!(h2.to_string(), "2H 3S (5)");
}

#[test]
fn six_deck_shoe_counts() {
    let mut shoe = Shoe::new(6);
    assert_eq!(shoe.cards_left(), 312);
    assert!(shoe.deal_card().is_some());
    assert_eq!(shoe.cards_left(), 311);
    shoe.reset();
    assert_eq!(shoe.cards_left(), 312);
}

#[test]
fn empty_shoe_deals_nothing() {
    let mut shoe = Shoe::new(0);
    assert_eq!(shoe.cards_left(), 0);
    assert!(shoe.deal_card().is_none());
    assert_eq!(shoe.cards_left(), 0);
}

#[test]
fn shoe_holds_each_card_once_per_deck_shuffled() {
    let mut shoe = Shoe::new(2);
    let mut dealt: Vec<String> = Vec::new();
    while let Some(c) = shoe.deal_card() {
        dealt.push(c.to_string());
    }
    assert_eq!(dealt.len(), 104);
    let mut ordered: Vec<String> = Vec::new();
    for suit in ["H", "D", "C", "S"] {
        for rank in 1..=13 {
            for _ in 0..2 {
                ordered.push(card(suit, rank).to_string());
            }
        }
    }
    ordered.reverse();
    assert_ne!(dealt, ordered);
    let mut sorted_dealt = dealt.clone();
    sorted_dealt.sort();
    ordered.sort();
    assert_eq!(sorted_dealt, ordered);
}

#[test]
fn dealer_blackjack_beats_player_21() {
    let game = table(&[7, 7, 7], &[1, 13]);
    assert_eq!(game.resolve(), Outcome::DealerWin);
    assert!(!game.is_push());
    assert!(!game.is_player_win());
}

#[test]
fn player_blackjack_beats_dealer_21() {
    let game = table(&[1, 12], &[9, 9, 3]);
    assert_eq!(game.resolve(), Outcome::PlayerWin);
    assert!(!game.is_push());
    assert!(game.is_player_win());
}

#[test]
fn both_blackjacks_push() {
    let game = table(&[1, 10], &[13, 1]);
    assert_eq!(game.resolve(), Outcome::Push);
    assert!(game.is_push());
}

#[test]
fn dealer_bust_loses_to_18() {
    let game = table(&[10, 8], &[10, 9, 13]);
    assert_eq!(game.resolve(), Outcome::PlayerWin);
}

#[test]
fn player_bust_loses() {
    let game = table(&[10, 8, 5], &[10, 9, 13]);
    assert_eq!(game.resolve(), Outcome::DealerWin);
    let game = table(&[10, 8, 5], &[10, 10, 3]);
    assert_eq!(game.resolve(), Outcome::Push);
    let game = table(&[10, 8, 5], &[10, 8]);
    assert_eq!(game.resolve(), Outcome::DealerWin);
}

#[test]
fn lower_total_loses_and_equal_pushes() {
    assert_eq!(table(&[10, 7], &[10, 8]).resolve(), Outcome::DealerWin);
    assert_eq!(table(&[10, 9], &[10, 8]).resolve(), Outcome::PlayerWin);
    assert_eq!(table(&[10, 8], &[9, 9]).resolve(), Outcome::Push);
}

#[test]
fn can_hit_rules() {
    assert!(table(&[10, 6], &[10, 7]).can_hit());
    assert!(!table(&[10, 1], &[10, 7]).can_hit());
    assert!(!table(&[10, 6], &[1, 12]).can_hit());
    assert!(!table(&[10, 6, 8], &[10, 7]).can_hit());
}

#[test]
fn hit_adds_one_card() {
    let mut game = Blackjack::new();
    assert!(game.deal_card().is_ok());
    assert_eq!(game.cards_left(), 308);
    game.player_hand = Some(hand(&[2, 3]));
    game.dealer_hand = Some(hand(&[10, 7]));
    assert!(game.hit().is_ok());
    assert_eq!(game.cards_left(), 307);
    let v = game.get_players_hand().unwrap().get_value();
    assert!(v >= 7 && v <= 16);
}

#[test]
fn dealer_stands_on_17_or_more() {
    for _ in 0..20 {
        let mut game = Blackjack::new();
        assert!(game.deal_card().is_ok());
        assert!(game.play_dealers_hand().is_ok());
        assert!(game.get_dealers_hand().unwrap().get_value() >= 17);
    }
    let mut game = table(&[10, 8], &[10, 7]);
    let before = game.cards_left();
    assert!(game.play_dealers_hand().is_ok());
    assert_eq!(game.cards_left(), before);
    assert_eq!(game.get_dealers_hand().unwrap().get_value(), 17);
}

fn drained_table() -> Blackjack {
    let mut game = Blackjack::new();
    for _ in 0..78 {
        assert!(game.deal_card().is_ok());
    }
    assert_eq!(game.cards_left(), 0);
    game
}

#[test]
fn deal_from_empty_shoe_fails() {
    let mut game = drained_table();
    assert_eq!(game.deal_card(), Err(EmptyShoe));
}

#[test]
fn hit_from_empty_shoe_fails() {
    let mut game = drained_table();
    game.player_hand = Some(hand(&[2, 3]));
    game.dealer_hand = Some(hand(&[10, 7]));
    assert_eq!(game.hit(), Err(EmptyShoe));
    assert_eq!(game.get_players_hand().unwrap().get_value(), 5);
}

#[test]
fn dealer_play_from_empty_shoe_fails() {
    let mut game = drained_table();
    game.player_hand = Some(hand(&[10, 8]));
    game.dealer_hand = Some(hand(&[10, 2]));
    assert_eq!(game.play_dealers_hand(), Err(EmptyShoe));
    assert_eq!(game.get_dealers_hand().unwrap().get_value(), 12);
}

#[test]
fn reshuffle_at_a_quarter_of_the_shoe() {
    let mut game = Blackjack::new();
    game.reset();
    assert_eq!(game.cards_left(), 312);
    for _ in 0..58 {
        assert!(game.deal_card().is_ok());
    }
    assert_eq!(game.cards_left(), 80);
    game.reset();
    assert_eq!(game.cards_left(), 80);
    assert!(game.deal_card().is_ok());
    assert_eq!(game.cards_left(), 76);
    game.reset();
    assert_eq!(game.cards_left(), 312);
}

#[test]
fn reshuffle_exactly_at_78() {
    let mut game = Blackjack::new();
    for _ in 0..58 {
        assert!(game.deal_card().is_ok());
    }
    assert_eq!(game.cards_left(), 80);
    game.player_hand = Some(hand(&[2, 2]));
    game.dealer_hand = Some(hand(&[10, 7]));
    assert!(game.hit().is_ok());
    game.reset();
    assert_eq!(game.cards_left(), 79);
    game.player_hand = Some(hand(&[2, 2]));
    assert!(game.hit().is_ok());
    assert_eq!(game.cards_left(), 78);
    game.reset();
    assert_eq!(game.cards_left(), 312);
}
