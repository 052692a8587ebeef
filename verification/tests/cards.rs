use tempest::card::{power_from_bits, UnoCard, UnoCardColour, UnoCardPower};

fn colours() -> Vec<UnoCardColour> {
    vec![
        UnoCardColour::Red,
        UnoCardColour::Blue,
        UnoCardColour::Green,
        UnoCardColour::Yellow,
    ]
}

#[test]
fn encode_decode_round_trip_every_valid_triple() {
    for &power in &[false, true] {
        for &clr in colours().iter() {
            let top = if power { 4 } else { 9 };
            for value in 0..=top {
                let card = UnoCard::encode(power, clr, value);
                let (p, c, v) = card.decode();
                assert_eq!(p, power);
                assert_eq!(c, clr);
                assert_eq!(v, value);
                assert!(card.validate());
            }
        }
    }
}

#[test]
fn encode_exact_bytes() {
    assert_eq!(UnoCard::encode(false, UnoCardColour::Red, 5).0, 0b0_00_00101);
    assert_eq!(UnoCard::encode(false, UnoCardColour::Blue, 7).0, 0b0_01_00111);
    assert_eq!(UnoCard::encode(true, UnoCardColour::Red, 0).0, 0b1_00_00000);
    assert_eq!(UnoCard::encode(true, UnoCardColour::Yellow, 4).0, 0b1_11_00100);
}

#[test]
fn validate_rejects_out_of_range_values() {
    // numeric value 10 and power value 5 are both out of range
    assert!(!UnoCard(0b0_00_01010).validate());
    assert!(!UnoCard(0b1_00_00101).validate());
    assert!(UnoCard(0b0_00_01001).validate());
    assert!(UnoCard(0b1_00_00100).validate());
}

#[test]
fn black_cards_are_exactly_the_wilds() {
    for &clr in colours().iter() {
        assert!(UnoCard::encode(true, clr, 3).is_black());
        assert!(UnoCard::encode(true, clr, 4).is_black());
        assert!(!UnoCard::encode(true, clr, 0).is_black());
        assert!(!UnoCard::encode(true, clr, 1).is_black());
        assert!(!UnoCard::encode(true, clr, 2).is_black());
        for value in 0..=9 {
            assert!(!UnoCard::encode(false, clr, value).is_black());
        }
    }
}

#[test]
fn power_values_decode_to_their_actions() {
    assert_eq!(power_from_bits(0), UnoCardPower::PlusTwo);
    assert_eq!(power_from_bits(1), UnoCardPower::Skip);
    assert_eq!(power_from_bits(2), UnoCardPower::Reverse);
    assert_eq!(power_from_bits(3), UnoCardPower::PlusFour);
    assert_eq!(power_from_bits(4), UnoCardPower::ClrChange);
    // the wilds are exactly PlusFour and ClrChange
    for bits in 0..=4u8 {
        let card = UnoCard::encode(true, UnoCardColour::Red, bits);
        let wild = matches!(power_from_bits(bits), UnoCardPower::PlusFour | UnoCardPower::ClrChange);
        assert_eq!(card.is_black(), wild);
    }
}

#[test]
fn accessors_expose_the_bit_fields() {
    let card = UnoCard::encode(true, UnoCardColour::Green, 2);
    assert!(card.is_power());
    assert_eq!(card.get_value(), 2);
    assert_eq!(card.and(0b1000_0000), 0b1000_0000);
    assert_eq!(card.and(0b0001_1111), 2);
    let plain = UnoCard::encode(false, UnoCardColour::Green, 2);
    assert!(!plain.is_power());
}
