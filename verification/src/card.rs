//! The bit-packed Uno card.
//!
//! A card fits in one byte:
//! - bit 7: power flag (1 = action card, 0 = numeric),
//! - bits 6-5: colour (Red = 0, Blue = 1, Green = 2, Yellow = 3),
//! - bits 4-0: value (0-9 for numeric cards; for power cards
//!   PlusTwo = 0, Skip = 1, Reverse = 2, PlusFour = 3, ClrChange = 4).
//!
//! Wild cards (PlusFour, ClrChange) are stored with colour Red in hands and
//! in the deck (the canonical form); the colour a player chose lives only in
//! the top-of-discard slot.
use vstd::prelude::*;

verus! {

#[derive(Debug, Clone, Copy, PartialEq, Eq, Structural)]
pub enum UnoCardColour {
    Red,
    Blue,
    Green,
    Yellow,
}

#[derive(Debug, Clone, Copy, PartialEq, Eq, Structural)]
pub enum UnoCardPower {
    PlusTwo,
    Skip,
    Reverse,
    PlusFour,
    ClrChange,
}

/// One Uno card, bit-packed as `[power:1][colour:2][value:5]`.
#[derive(Debug, Clone, Copy, PartialEq, Eq, Structural)]
pub struct UnoCard(pub u8);

/// The two colour bits a colour is stored as.
pub open spec fn colour_bits(clr: UnoCardColour) -> u8 {
    match clr {
        UnoCardColour::Red => 0,
        UnoCardColour::Blue => 1,
        UnoCardColour::Green => 2,
        UnoCardColour::Yellow => 3,
    }
}

/// The colour two bits decode to.
pub open spec fn colour_of_bits(bits: u8) -> UnoCardColour {
    if bits == 0 {
        UnoCardColour::Red
    } else if bits == 1 {
        UnoCardColour::Blue
    } else if bits == 2 {
        UnoCardColour::Green
    } else {
        UnoCardColour::Yellow
    }
}

/// The value bits a power action is stored as.
pub open spec fn power_bits(power: UnoCardPower) -> u8 {
    match power {
        UnoCardPower::PlusTwo => 0,
        UnoCardPower::Skip => 1,
        UnoCardPower::Reverse => 2,
        UnoCardPower::PlusFour => 3,
        UnoCardPower::ClrChange => 4,
    }
}

/// The power action five value bits decode to.
pub open spec fn power_of_bits(bits: u8) -> UnoCardPower {
    if bits == 0 {
        UnoCardPower::PlusTwo
    } else if bits == 1 {
        UnoCardPower::Skip
    } else if bits == 2 {
        UnoCardPower::Reverse
    } else if bits == 3 {
        UnoCardPower::PlusFour
    } else {
        UnoCardPower::ClrChange
    }
}

/// The byte a (power, colour, value) triple packs into.
pub open spec fn spec_encode(power: bool, clr: UnoCardColour, value: u8) -> u8 {
    ((if power {
        0x80u8
    } else {
        0u8
    }) | (colour_bits(clr) << 5) | value) as u8
}

/// Whether the power flag of a raw card byte is set.
pub open spec fn spec_is_power(raw: u8) -> bool {
    raw & 0x80 != 0
}

/// The colour stored in a raw card byte.
pub open spec fn spec_colour(raw: u8) -> UnoCardColour {
    colour_of_bits((raw & 0x60) >> 5)
}

/// The value stored in a raw card byte.
pub open spec fn spec_value(raw: u8) -> u8 {
    raw & 0x1f
}

/// A raw card byte is well formed when its value is in range for its flag:
/// numeric values reach 9, power values reach ClrChange.
pub open spec fn spec_valid(raw: u8) -> bool {
    if !spec_is_power(raw) {
        spec_value(raw) <= 9
    } else {
        spec_value(raw) <= 4
    }
}

/// A wild (black) card: PlusFour or ClrChange.
pub open spec fn spec_is_black(raw: u8) -> bool {
    raw & 0x87 == 0x83 || raw & 0x87 == 0x84
}

/// A card in canonical storage form: wilds carry colour Red.
pub open spec fn spec_canonical(raw: u8) -> bool {
    spec_is_black(raw) ==> spec_colour(raw) == UnoCardColour::Red
}

/// The power action stored as the given value bits.
pub fn power_from_bits(bits: u8) -> (power: UnoCardPower)
    requires
        bits <= 4,
    ensures
        power == power_of_bits(bits),
        power_bits(power) == bits,
{
    if bits == 0 {
        UnoCardPower::PlusTwo
    } else if bits == 1 {
        UnoCardPower::Skip
    } else if bits == 2 {
        UnoCardPower::Reverse
    } else if bits == 3 {
        UnoCardPower::PlusFour
    } else {
        UnoCardPower::ClrChange
    }
}

/// The colour stored as the given two bits.
pub fn colour_from_bits(bits: u8) -> (clr: UnoCardColour)
    requires
        bits < 4,
    ensures
        clr == colour_of_bits(bits),
        colour_bits(clr) == bits,
{
    if bits == 0 {
        UnoCardColour::Red
    } else if bits == 1 {
        UnoCardColour::Blue
    } else if bits == 2 {
        UnoCardColour::Green
    } else {
        UnoCardColour::Yellow
    }
}

impl UnoCard {
    /// Pack a (power, colour, value) triple into a card.
    ///
    /// The value must be in range for the flag: an out-of-range value has
    /// no card byte to pack into.
    pub fn encode(power: bool, clr: UnoCardColour, value: u8) -> (card: UnoCard)
        requires
            value <= 9,
            power ==> value <= 4,
        ensures
            card.0 == spec_encode(power, clr, value),
            spec_is_power(card.0) == power,
            spec_colour(card.0) == clr,
            spec_value(card.0) == value,
            spec_valid(card.0),
    {
        let clr_bits: u8 = match clr {
            UnoCardColour::Red => 0,
            UnoCardColour::Blue => 1,
            UnoCardColour::Green => 2,
            UnoCardColour::Yellow => 3,
        };

        let base: u8 = (clr_bits << 5) | value;
        let card: u8 = if power {
            base | 0b10000000
        } else {
            base
        };

        proof {
            lemma_encode_decode(power, clr, value);
            assert(clr_bits == colour_bits(clr));
            assert((((clr_bits << 5) | value) | 0x80u8) == ((0x80u8 | (clr_bits << 5) | value)
                as u8)) by (bit_vector);
            assert(((clr_bits << 5) | value) == ((0u8 | (clr_bits << 5) | value) as u8))
                by (bit_vector);
        }

        UnoCard(card)
    }

    /// Unpack a card into its (power, colour, value) triple.
    pub fn decode(self) -> (r: (bool, UnoCardColour, u8))
        ensures
            r.0 == spec_is_power(self.0),
            r.1 == spec_colour(self.0),
            r.2 == spec_value(self.0),
    {
        let raw = self.0;
        let clr_bits: u8 = (raw & 0b01100000) >> 5;
        assert(clr_bits <= 3) by (bit_vector)
            requires
                clr_bits == (raw & 0x60) >> 5,
        ;
        let clr = if clr_bits == 0 {
            UnoCardColour::Red
        } else if clr_bits == 1 {
            UnoCardColour::Blue
        } else if clr_bits == 2 {
            UnoCardColour::Green
        } else {
            UnoCardColour::Yellow
        };
        (raw & 0b10000000 != 0, clr, raw & 0b00011111)
    }

    /// Whether the value is in range for the power flag.
    pub fn validate(self) -> (r: bool)
        ensures
            r == spec_valid(self.0),
    {
        if self.0 & 0b10000000 == 0 {
            self.0 & 0b00011111 <= 9
        } else {
            self.0 & 0b00011111 <= 4
        }
    }

    /// Whether this is a wild (black) card: PlusFour or ClrChange.
    pub fn is_black(self) -> (r: bool)
        ensures
            r == spec_is_black(self.0),
    {
        let masked = self.0 & 0b10000111;
        masked == 0b10000011 || masked == 0b10000100
    }

    /// Whether the power flag is set.
    pub fn is_power(self) -> (r: bool)
        ensures
            r == spec_is_power(self.0),
    {
        self.0 & 0b10000000 != 0
    }

    /// The five value bits.
    pub fn get_value(self) -> (r: u8)
        ensures
            r == spec_value(self.0),
    {
        self.0 & 0b00011111
    }

    /// The raw byte masked with `cmp`.
    pub fn and(self, cmp: u8) -> (r: u8)
        ensures
            r == (self.0 & cmp),
    {
        self.0 & cmp
    }
}

/// Encoding a card and decoding it yields the input, for every valid
/// (power, colour, value) triple.
pub proof fn lemma_encode_decode(power: bool, clr: UnoCardColour, value: u8)
    requires
        value <= 9,
        power ==> value <= 4,
    ensures
        spec_is_power(spec_encode(power, clr, value)) == power,
        spec_colour(spec_encode(power, clr, value)) == clr,
        spec_value(spec_encode(power, clr, value)) == value,
        spec_valid(spec_encode(power, clr, value)),
{
    let cb = colour_bits(clr);
    assert(cb <= 3);
    if power {
        assert({
            let r = (0x80u8 | (cb << 5) | value) as u8;
            (r & 0x80 != 0) && ((r & 0x60) >> 5 == cb) && (r & 0x1f == value)
        }) by (bit_vector)
            requires
                cb <= 3,
                value <= 4,
        ;
    }
    assert({
        let r = (0u8 | (cb << 5) | value) as u8;
        (r & 0x80 == 0) && ((r & 0x60) >> 5 == cb) && (r & 0x1f == value)
    }) by (bit_vector)
        requires
            cb <= 3,
            value <= 9,
    ;
    assert(colour_of_bits(cb) == clr);
}

/// For a valid card, blackness is the same as being a power card whose
/// action is PlusFour or ClrChange.
pub proof fn lemma_black_characterisation(raw: u8)
    requires
        spec_valid(raw),
    ensures
        spec_is_black(raw) == (spec_is_power(raw) && (spec_value(raw) == 3 || spec_value(raw)
            == 4)),
{
    assert((raw & 0x87 == 0x83 || raw & 0x87 == 0x84) == ((raw & 0x80 != 0) && (raw & 0x1f == 3
        || raw & 0x1f == 4))) by (bit_vector)
        requires
            (raw & 0x80 != 0) ==> raw & 0x1f <= 4,
    ;
}

} // verus!
