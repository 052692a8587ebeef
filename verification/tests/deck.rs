use tempest::card::{UnoCard, UnoCardColour};
use tempest::deck::{random_draws, UnoDeck};

#[test]
fn fresh_deck_holds_the_whole_universe() {
    let deck = UnoDeck::new();
    assert_eq!(deck.main_count(), 108);
    assert_eq!(deck.discard_count(), 0);
    assert!(!deck.is_empty());
}

#[test]
fn position_to_card_follows_the_slot_layout() {
    // numeric slots: value = pos / 8 + 1, colour = pos % 4
    assert_eq!(UnoDeck::pos_to_card(0), UnoCard::encode(false, UnoCardColour::Red, 1));
    assert_eq!(UnoDeck::pos_to_card(4), UnoCard::encode(false, UnoCardColour::Red, 1));
    assert_eq!(UnoDeck::pos_to_card(33), UnoCard::encode(false, UnoCardColour::Blue, 5));
    assert_eq!(UnoDeck::pos_to_card(71), UnoCard::encode(false, UnoCardColour::Yellow, 9));
    // the four zero cards
    assert_eq!(UnoDeck::pos_to_card(72), UnoCard::encode(false, UnoCardColour::Red, 0));
    assert_eq!(UnoDeck::pos_to_card(75), UnoCard::encode(false, UnoCardColour::Yellow, 0));
    // coloured power cards: power = (pos - 76) / 8, colour = (pos - 76) % 4
    assert_eq!(UnoDeck::pos_to_card(76), UnoCard::encode(true, UnoCardColour::Red, 0));
    assert_eq!(UnoDeck::pos_to_card(85), UnoCard::encode(true, UnoCardColour::Blue, 1));
    assert_eq!(UnoDeck::pos_to_card(92), UnoCard::encode(true, UnoCardColour::Red, 2));
    // wilds are stored Red
    assert_eq!(UnoDeck::pos_to_card(100), UnoCard::encode(true, UnoCardColour::Red, 3));
    assert_eq!(UnoDeck::pos_to_card(107), UnoCard::encode(true, UnoCardColour::Red, 4));
}

#[test]
fn card_to_pos_round_trips_through_the_layout() {
    for pos in 0..108u8 {
        let card = UnoDeck::pos_to_card(pos);
        if card.is_black() {
            continue;
        }
        let (canon, off) = UnoDeck::card_to_pos(card);
        // the canonical slot holds the very same card, and the original slot
        // is the canonical one or its twin copy four above
        assert_eq!(UnoDeck::pos_to_card(canon), card);
        assert!(canon == pos || canon + 4 == pos);
        assert!((canon as u16 + off as u16) < 108);
    }
}

#[test]
fn drawing_clears_the_requested_slot() {
    let mut deck = UnoDeck::new();
    let card = deck.get_card(33);
    assert_eq!(card, UnoCard::encode(false, UnoCardColour::Blue, 5));
    assert_eq!(deck.main_count(), 107);
    // the slot is gone; scanning forward from it lands on the next one
    let next = deck.get_card(33);
    assert_eq!(next, UnoDeck::pos_to_card(34));
    assert_eq!(deck.main_count(), 106);
}

#[test]
fn drawing_wraps_past_the_deck_edge() {
    let mut deck = UnoDeck::new();
    let last = deck.get_card(107);
    assert_eq!(last, UnoDeck::pos_to_card(107));
    // 107 is gone, so a draw at 107 wraps to slot 0
    let wrapped = deck.get_card(107);
    assert_eq!(wrapped, UnoDeck::pos_to_card(0));
}

#[test]
fn discard_prefers_the_canonical_slot_then_the_offset() {
    let mut deck = UnoDeck::new();
    let blue5 = UnoCard::encode(false, UnoCardColour::Blue, 5);
    assert!(deck.discard(blue5));
    assert_eq!(deck.discard_count(), 1);
    // second copy tries canonical + colour offset
    assert!(deck.discard(blue5));
    assert_eq!(deck.discard_count(), 2);
    // both candidate slots for Blue 5 are now taken: the third copy is lost
    assert!(!deck.discard(blue5));
    assert_eq!(deck.discard_count(), 2);
}

#[test]
fn discard_scans_the_four_wild_slots() {
    let mut deck = UnoDeck::new();
    let wild = UnoCard::encode(true, UnoCardColour::Red, 3);
    for expected in 1..=4 {
        assert!(deck.discard(wild));
        assert_eq!(deck.discard_count(), expected);
    }
    assert!(!deck.discard(wild));
    assert_eq!(deck.discard_count(), 4);
}

#[test]
fn reshuffle_moves_the_discard_pile_back_into_main() {
    let mut deck = UnoDeck::new();
    // draw the deck down completely
    for _ in 0..107 {
        let got = deck.pickup(0);
        assert!(got.is_some());
    }
    assert_eq!(deck.main_count(), 1);
    // park two cards in the discard pile
    assert!(deck.discard(UnoCard::encode(false, UnoCardColour::Blue, 5)));
    assert!(deck.discard(UnoCard::encode(false, UnoCardColour::Green, 7)));
    assert_eq!(deck.discard_count(), 2);
    // the draw that empties main triggers: main <- discard, discard <- empty
    let got = deck.pickup(0);
    assert!(got.is_some());
    assert_eq!(deck.main_count(), 2);
    assert_eq!(deck.discard_count(), 0);
    // card conservation: everything ever discarded is drawable again
    assert!(deck.pickup(0).is_some());
    assert!(deck.pickup(0).is_some());
    assert_eq!(deck.main_count(), 0);
    assert_eq!(deck.discard_count(), 0);
    assert!(deck.pickup(0).is_none());
}

#[test]
fn dealt_hands_come_off_the_main_deck() {
    let mut deck = UnoDeck::new();
    let draws: Vec<u8> = vec![0, 1, 2, 3, 4, 5, 6, 7, 8, 9];
    let hand = deck.get_new_hand(&draws);
    assert_eq!(hand.len(), 10);
    assert_eq!(deck.main_count(), 98);
    for (k, card) in hand.iter().enumerate() {
        assert_eq!(*card, UnoDeck::pos_to_card(k as u8));
    }
}

#[test]
fn random_draws_stay_inside_the_deck() {
    let draws = random_draws(50);
    assert_eq!(draws.len(), 50);
    for &d in draws.iter() {
        assert!(d < 108);
    }
}
