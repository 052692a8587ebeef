//! The 108-card Uno deck, held as two 128-bit bitsets ("main" and "discard").
//!
//! Bit slots enumerate the full deck (20 unused high bits):
//! - positions 0-71: numeric cards 1-9, two copies per colour
//!   (8 slots per value: colour x {copy A, copy B}),
//! - positions 72-75: the four 0-cards (one per colour),
//! - positions 76-99: coloured power cards (PlusTwo/Skip/Reverse, two copies
//!   per colour, 8 per power),
//! - positions 100-103: the four PlusFour wilds,
//! - positions 104-107: the four ClrChange wilds.
//!
//! "Present in main" means the bit is set in the main pair; drawing clears the
//! bit. Discarding sets a bit in the discard pair. When the main pair becomes
//! empty, main takes over the discard bits and the discard empties (reshuffle).
use crate::card::{
    colour_bits, colour_from_bits, colour_of_bits, spec_canonical, spec_colour, spec_encode, spec_is_black, spec_is_power,
    spec_valid, spec_value, UnoCard, UnoCardColour,
};
use vstd::prelude::*;
use vstd::set_lib::set_int_range;

verus! {

broadcast use vstd::set::group_set_axioms;

/// Whether bit `p` of the 128-bit pair `w` (low word first) is set.
pub open spec fn bit128(w: (u64, u64), p: int) -> bool {
    if p < 64 {
        (w.0 >> (p as u64)) & 1u64 == 1u64
    } else {
        (w.1 >> ((p - 64) as u64)) & 1u64 == 1u64
    }
}

/// The set of deck positions whose bit is set in the pair `w`.
pub open spec fn set_of(w: (u64, u64)) -> Set<int> {
    Set::new(|p: int| 0 <= p < 108 && bit128(w, p))
}

/// A well-formed pair never sets the 20 slots past the 108-card deck.
pub open spec fn words_wf(w: (u64, u64)) -> bool {
    w.1 >> 44u64 == 0u64
}

/// Every position set is finite and holds at most the whole deck.
pub proof fn lemma_set_of_finite(w: (u64, u64))
    ensures
        set_of(w).finite(),
        set_of(w).len() <= 108,
{
    vstd::set_lib::lemma_int_range(0, 108);
    vstd::set_lib::lemma_len_subset(set_of(w), set_int_range(0, 108));
}

/// Reads one bit of a 128-bit pair.
fn word_get(w: &(u64, u64), pos: u8) -> (r: bool)
    requires
        pos < 128,
    ensures
        r == bit128(*w, pos as int),
{
    if pos >= 64 {
        ((w.1 >> ((pos - 64) as u64)) & 1u64) == 1u64
    } else {
        ((w.0 >> (pos as u64)) & 1u64) == 1u64
    }
}

/// Writes one bit of a 128-bit pair, leaving every other bit alone.
fn word_set(w: (u64, u64), pos: u8, on: bool) -> (r: (u64, u64))
    requires
        pos < 108,
    ensures
        forall|q: int|
            0 <= q < 128 ==> bit128(r, q) == (if q == pos as int {
                on
            } else {
                bit128(w, q)
            }),
        words_wf(w) ==> words_wf(r),
{
    if pos >= 64 {
        let s: u64 = (pos - 64) as u64;
        let hi: u64 = if on {
            w.1 | (1u64 << s)
        } else {
            w.1 & !(1u64 << s)
        };
        proof {
            let w1 = w.1;
            assert(forall|q: u64|
                q < 64 ==> #[trigger] ((w1 | (1u64 << s)) >> q) & 1u64 == (if q == s {
                    1u64
                } else {
                    (w1 >> q) & 1u64
                })) by (bit_vector)
                requires
                    s < 44,
            ;
            assert(forall|q: u64|
                q < 64 ==> #[trigger] ((w1 & !(1u64 << s)) >> q) & 1u64 == (if q == s {
                    0u64
                } else {
                    (w1 >> q) & 1u64
                })) by (bit_vector)
                requires
                    s < 44,
            ;
            assert(w1 >> 44u64 == 0u64 ==> (w1 | (1u64 << s)) >> 44u64 == 0u64) by (bit_vector)
                requires
                    s < 44,
            ;
            assert(w1 >> 44u64 == 0u64 ==> (w1 & !(1u64 << s)) >> 44u64 == 0u64) by (bit_vector);
            assert forall|q: int| 0 <= q < 128 implies bit128((w.0, hi), q) == (if q == pos as int {
                on
            } else {
                bit128(w, q)
            }) by {
                if q >= 64 {
                    assert(((q - 64) as u64) < 64);
                }
            }
        }
        (w.0, hi)
    } else {
        let s: u64 = pos as u64;
        let lo: u64 = if on {
            w.0 | (1u64 << s)
        } else {
            w.0 & !(1u64 << s)
        };
        proof {
            let w0 = w.0;
            assert(forall|q: u64|
                q < 64 ==> #[trigger] ((w0 | (1u64 << s)) >> q) & 1u64 == (if q == s {
                    1u64
                } else {
                    (w0 >> q) & 1u64
                })) by (bit_vector)
                requires
                    s < 64,
            ;
            assert(forall|q: u64|
                q < 64 ==> #[trigger] ((w0 & !(1u64 << s)) >> q) & 1u64 == (if q == s {
                    0u64
                } else {
                    (w0 >> q) & 1u64
                })) by (bit_vector)
                requires
                    s < 64,
            ;
        }
        (lo, w.1)
    }
}

/// Lifts a one-bit update of a pair to its position set.
proof fn lemma_bits_to_set(w: (u64, u64), r: (u64, u64), pos: int, on: bool)
    requires
        0 <= pos < 108,
        forall|q: int|
            0 <= q < 128 ==> bit128(r, q) == (if q == pos {
                on
            } else {
                bit128(w, q)
            }),
    ensures
        on ==> set_of(r) == set_of(w).insert(pos),
        !on ==> set_of(r) == set_of(w).remove(pos),
{
    if on {
        assert(set_of(r) =~= set_of(w).insert(pos));
    } else {
        assert(set_of(r) =~= set_of(w).remove(pos));
    }
}

/// A word whose bits past `n` are all clear equals zero once the bits from
/// `n` down are clear as well.
proof fn lemma_word_zero_from(w: u64, n: u64)
    requires
        n < 64,
        forall|q: u64| n <= q && q < 64 ==> #[trigger] ((w >> q) & 1u64) == 0u64,
    ensures
        w >> n == 0u64,
    decreases 64 - n,
{
    if n == 63 {
        assert((w >> 63u64) & 1u64 == 0u64);
        assert((w >> 63u64) & 1u64 == 0u64 ==> w >> 63u64 == 0u64) by (bit_vector);
    } else {
        lemma_word_zero_from(w, (n + 1) as u64);
        assert((w >> n) & 1u64 == 0u64);
        assert((n < 63 && w >> (n + 1) == 0u64 && (w >> n) & 1u64 == 0u64) ==> w >> n == 0u64)
            by (bit_vector);
    }
}

/// A word all of whose bits are clear is zero.
proof fn lemma_word_zero(w: u64)
    requires
        forall|q: u64| q < 64 ==> #[trigger] ((w >> q) & 1u64) == 0u64,
    ensures
        w == 0u64,
{
    lemma_word_zero_from(w, 0);
    assert(w >> 0u64 == w) by (bit_vector);
}

/// An all-zero pair holds no position; with well-formed words the converse
/// holds as well.
proof fn lemma_empty_words(w: (u64, u64))
    requires
        words_wf(w),
    ensures
        (w.0 == 0 && w.1 == 0) <==> set_of(w) == Set::<int>::empty(),
{
    let w0 = w.0;
    let w1 = w.1;
    if w0 == 0 && w1 == 0 {
        assert(forall|q: u64| q < 64 ==> #[trigger] (0u64 >> q) & 1u64 == 0u64) by (bit_vector);
        assert(set_of(w) =~= Set::<int>::empty());
    }
    if set_of(w) == Set::<int>::empty() {
        assert forall|q: u64| q < 64 implies #[trigger] ((w0 >> q) & 1u64) == 0u64 by {
            assert(!set_of(w).contains(q as int));
            assert(!bit128(w, q as int));
            assert((w0 >> q) & 1u64 == 0u64) by (bit_vector)
                requires
                    (w0 >> q) & 1u64 != 1u64,
            ;
        }
        assert forall|q: u64| q < 44 implies #[trigger] ((w1 >> q) & 1u64) == 0u64 by {
            assert(!set_of(w).contains(q as int + 64));
            assert(!bit128(w, q as int + 64));
            assert((w1 >> q) & 1u64 == 0u64) by (bit_vector)
                requires
                    (w1 >> q) & 1u64 != 1u64,
            ;
        }
        assert forall|q: u64| 44 <= q && q < 64 implies #[trigger] ((w1 >> q) & 1u64) == 0u64 by {
            assert(w1 >> 44u64 == 0u64 && 44 <= q && q < 64 ==> (w1 >> q) & 1u64 == 0u64)
                by (bit_vector);
        }
        lemma_word_zero(w0);
        lemma_word_zero(w1);
    }
}

/// The card a deck position stands for.
pub open spec fn pos_card(p: int) -> u8 {
    if p < 72 {
        spec_encode(false, colour_of_bits((p % 4) as u8), (p / 8 + 1) as u8)
    } else if p < 76 {
        spec_encode(false, colour_of_bits((p - 72) as u8), 0u8)
    } else if p < 100 {
        spec_encode(true, colour_of_bits(((p - 76) % 4) as u8), ((p - 76) / 8) as u8)
    } else if p < 104 {
        spec_encode(true, UnoCardColour::Red, 3u8)
    } else {
        spec_encode(true, UnoCardColour::Red, 4u8)
    }
}

/// The canonical deck position of a coloured (non-wild) card.
pub open spec fn canon_pos(raw: u8) -> int {
    let v = spec_value(raw) as int;
    let c = colour_bits(spec_colour(raw)) as int;
    if !spec_is_power(raw) {
        if v == 0 {
            72 + c
        } else {
            (v - 1) * 8 + c
        }
    } else {
        76 + 8 * v + c
    }
}

/// The slot offset tried when the canonical position is taken:
/// zero for value-0 cards, else the colour.
pub open spec fn canon_off(raw: u8) -> int {
    if spec_value(raw) == 0 {
        0
    } else {
        colour_bits(spec_colour(raw)) as int
    }
}

/// The slots a cyclic scan that started at `start` and stands at `p` has
/// already passed over.
pub open spec fn scanned(start: int, p: int, wrapped: bool, q: int) -> bool {
    if !wrapped {
        start <= q < p
    } else {
        (start <= q < 108) || (0 <= q < p)
    }
}

/// The 108-card deck: a main pair to draw from and a discard pair.
pub struct UnoDeck {
    pub main_deck: (u64, u64),
    pub discard_deck: (u64, u64),
}

impl UnoDeck {
    /// Both pairs leave the 20 slots past the deck clear.
    pub open spec fn wf(self) -> bool {
        words_wf(self.main_deck) && words_wf(self.discard_deck)
    }

    /// The positions still present in the main deck.
    pub open spec fn main_set(self) -> Set<int> {
        set_of(self.main_deck)
    }

    /// The positions present in the discard deck.
    pub open spec fn discard_set(self) -> Set<int> {
        set_of(self.discard_deck)
    }

    /// How many cards the deck holds over both pairs.
    pub open spec fn total(self) -> int {
        self.main_set().len() as int + self.discard_set().len() as int
    }

    /// A full main deck (all 108 cards) and an empty discard deck.
    pub fn new() -> (d: UnoDeck)
        ensures
            d.wf(),
            d.main_set() == set_int_range(0, 108),
            d.discard_set() == Set::<int>::empty(),
            d.main_set().len() == 108,
            d.discard_set().len() == 0,
            d.total() == 108,
    {
        let d = UnoDeck { main_deck: (u64::MAX, 0xfffffffffffu64), discard_deck: (0u64, 0u64) };
        proof {
            assert(forall|q: u64| q < 64 ==> #[trigger] (u64::MAX >> q) & 1u64 == 1u64)
                by (bit_vector);
            assert(forall|q: u64| q < 44 ==> #[trigger] (0xfffffffffffu64 >> q) & 1u64 == 1u64)
                by (bit_vector);
            assert(0xfffffffffffu64 >> 44u64 == 0u64) by (bit_vector);
            assert(0u64 >> 44u64 == 0u64) by (bit_vector);
            assert forall|p: int| 0 <= p < 108 implies bit128(d.main_deck, p) by {
                if p >= 64 {
                    assert(((p - 64) as u64) < 44);
                }
            }
            assert(d.main_set() =~= set_int_range(0, 108));
            lemma_empty_words(d.discard_deck);
            assert(d.discard_set() =~= Set::<int>::empty());
            vstd::set_lib::lemma_int_range(0, 108);
        }
        d
    }

    /// Whether the main deck has no card left to draw.
    pub fn is_empty(&self) -> (r: bool)
        requires
            self.wf(),
        ensures
            r == (self.main_set() == Set::<int>::empty()),
            r == (self.main_set().len() == 0),
    {
        proof {
            lemma_empty_words(self.main_deck);
            lemma_set_of_finite(self.main_deck);
            if self.main_set().len() == 0 {
                self.main_set().lemma_len0_is_empty();
            }
        }
        self.main_deck.0 == 0 && self.main_deck.1 == 0
    }

    /// The card a deck position stands for.
    ///
    /// Positions past the deck are rejected: no card stands for them.
    pub fn pos_to_card(pos: u8) -> (card: UnoCard)
        requires
            pos < 108,
        ensures
            card.0 == pos_card(pos as int),
            spec_valid(card.0),
            spec_canonical(card.0),
    {
        let card = if pos < 72 {
            let value = (pos / 8) + 1;
            let colour = colour_from_bits(pos % 4);
            proof {
                vstd::arithmetic::div_mod::lemma_fundamental_div_mod(pos as int, 8);
                vstd::arithmetic::div_mod::lemma_fundamental_div_mod(pos as int, 4);
            }
            UnoCard::encode(false, colour, value)
        } else if pos < 76 {
            let colour = colour_from_bits(pos - 72);
            UnoCard::encode(false, colour, 0)
        } else if pos < 100 {
            let power = (pos - 76) / 8;
            let colour = colour_from_bits((pos - 76) % 4);
            proof {
                vstd::arithmetic::div_mod::lemma_fundamental_div_mod((pos - 76) as int, 8);
                vstd::arithmetic::div_mod::lemma_fundamental_div_mod((pos - 76) as int, 4);
            }
            UnoCard::encode(true, colour, power)
        } else if pos < 104 {
            UnoCard::encode(true, UnoCardColour::Red, 3)
        } else {
            UnoCard::encode(true, UnoCardColour::Red, 4)
        };
        proof {
            crate::card::lemma_black_characterisation(card.0);
        }
        card
    }

    /// Draws the card at `pos`, or at the next set slot after it, wrapping.
    ///
    /// The caller supplies the starting slot (the game draws it at random);
    /// the scan moves forward cyclically until a present card is found,
    /// clears its bit and hands the card back. The main deck must hold at
    /// least one card: there is nothing sensible to draw from an empty one.
    pub fn get_card(&mut self, pos: u8) -> (card: UnoCard)
        requires
            old(self).wf(),
            old(self).main_set() != Set::<int>::empty(),
        ensures
            final(self).wf(),
            final(self).discard_deck == old(self).discard_deck,
            exists|p: int|
                #![auto]
                {
                    &&& 0 <= p < 108
                    &&& old(self).main_set().contains(p)
                    &&& final(self).main_set() == old(self).main_set().remove(p)
                    &&& card.0 == pos_card(p)
                },
            exists|p: int|
                #![auto]
                {
                    &&& 0 <= p < 108
                    &&& old(self).main_set().contains(p)
                    &&& final(self).main_set() == old(self).main_set().remove(p)
                    &&& card.0 == pos_card(p)
                    &&& forall|q: int|
                        scanned((pos % 108) as int, p, p < (pos % 108) as int, q) ==> !old(self).main_set().contains(q)
                },
            final(self).main_set().len() == old(self).main_set().len() - 1,
            spec_valid(card.0),
            spec_canonical(card.0),
    {
        let start: u8 = pos % 108;
        let ghost init = *self;
        let mut p: u8 = start;
        let mut wrapped: bool = false;
        loop
            invariant
                *self == init,
                init == *old(self),
                self.wf(),
                self.main_set() != Set::<int>::empty(),
                start < 108,
                start as int == (pos % 108) as int,
                p < 108,
                !wrapped ==> start <= p,
                wrapped ==> p <= start,
                forall|q: int|
                    #![auto]
                    scanned(start as int, p as int, wrapped, q) ==> !bit128(
                        self.main_deck,
                        q,
                    ),
            decreases (if wrapped {
                start as int - p as int
            } else {
                108 - p as int + start as int
            }),
        {
            proof {
                if wrapped && p == start {
                    assert forall|q: int| 0 <= q < 108 implies !bit128(self.main_deck, q) by {
                        assert(scanned(start as int, p as int, wrapped, q));
                    }
                    assert(self.main_set() =~= Set::<int>::empty());
                }
            }
            if word_get(&self.main_deck, p) {
                let ghost pi = p as int;
                proof {
                    assert(wrapped == (pi < start as int));
                    assert forall|q: int|
                        scanned(start as int, pi, pi < start as int, q) implies !init.main_set()
                        .contains(q) by {
                        assert(!bit128(init.main_deck, q));
                    }
                }
                self.main_deck = word_set(self.main_deck, p, false);
                let c = Self::pos_to_card(p);
                proof {
                    lemma_bits_to_set(init.main_deck, self.main_deck, pi, false);
                    lemma_set_of_finite(init.main_deck);
                    assert(init.main_set().contains(pi));
                    assert(self.main_set() == init.main_set().remove(pi));
                    assert(start as int == (pos % 108) as int);
                    assert(exists|p2: int|
                        #![auto]
                        {
                            &&& 0 <= p2 < 108
                            &&& old(self).main_set().contains(p2)
                            &&& self.main_set() == old(self).main_set().remove(p2)
                            &&& c.0 == pos_card(p2)
                            &&& forall|q: int|
                                scanned((pos % 108) as int, p2, p2 < (pos % 108) as int, q)
                                    ==> !old(self).main_set().contains(q)
                        }) by {
                        assert(0 <= pi < 108 && old(self).main_set().contains(pi) && self.main_set()
                            == old(self).main_set().remove(pi) && c.0 == pos_card(pi));
                        assert(forall|q: int|
                            scanned((pos % 108) as int, pi, pi < (pos % 108) as int, q)
                                ==> !old(self).main_set().contains(q));
                    }
                }
                return c;
            }
            if p == 107 {
                p = 0;
                wrapped = true;
            } else {
                p = p + 1;
            }
        }
    }

    /// The canonical position and retry offset a coloured card discards to.
    ///
    /// Wild cards have no single canonical slot and are rejected; their
    /// discard scans the four wild slots instead.
    pub fn card_to_pos(card: UnoCard) -> (r: (u8, u8))
        requires
            spec_valid(card.0),
            !spec_is_black(card.0),
        ensures
            (r.0 as int) == canon_pos(card.0),
            (r.1 as int) == canon_off(card.0),
            (r.0 as int) + (r.1 as int) < 108,
    {
        let (is_power, colour, value) = card.decode();
        let clr_bits: u8 = match colour {
            UnoCardColour::Red => 0,
            UnoCardColour::Blue => 1,
            UnoCardColour::Green => 2,
            UnoCardColour::Yellow => 3,
        };
        proof {
            crate::card::lemma_black_characterisation(card.0);
        }
        if !is_power {
            if value == 0 {
                (72 + clr_bits, 0)
            } else {
                (((value - 1) * 8) + clr_bits, clr_bits)
            }
        } else {
            let off: u8 = if value == 0 {
                0
            } else {
                clr_bits
            };
            (76 + 8 * value + clr_bits, off)
        }
    }
}

/// Whether a card byte was drawn out of `old_main`: some slot standing for
/// it was present there and is present no longer in `new_main`.
pub open spec fn dealt_from(old_main: Set<int>, new_main: Set<int>, raw: u8) -> bool {
    exists|q: int| #![auto] old_main.contains(q) && !new_main.contains(q) && raw == pos_card(q)
}

/// The low end of the four wild slots for a black card's power.
pub open spec fn wild_base(raw: u8) -> int {
    if spec_value(raw) == 3 {
        100
    } else {
        104
    }
}

/// The first free wild slot for a black card's power, where one exists.
pub open spec fn first_free_wild(s: Set<int>, raw: u8) -> int {
    let base = wild_base(raw);
    if !s.contains(base) {
        base
    } else if !s.contains(base + 1) {
        base + 1
    } else if !s.contains(base + 2) {
        base + 2
    } else {
        base + 3
    }
}

/// The slot a discard lands on when the pile has room for the card: a black
/// card takes the first free of its four wild slots, a coloured card its
/// canonical slot, or the slot at the colour offset when the canonical one
/// is taken.
pub open spec fn discard_slot(s: Set<int>, raw: u8) -> int {
    if spec_is_black(raw) {
        first_free_wild(s, raw)
    } else if !s.contains(canon_pos(raw)) {
        canon_pos(raw)
    } else {
        canon_pos(raw) + canon_off(raw)
    }
}

/// Whether a discard pile has room for the card under the slot-retry rule:
/// a black card takes the first free slot of its four, a coloured card its
/// canonical slot or, when the offset is non-zero, the slot past it.
pub open spec fn spec_discard_fits(s: Set<int>, raw: u8) -> bool {
    if spec_is_black(raw) {
        exists|i: int| #![auto] wild_base(raw) <= i < wild_base(raw) + 4 && !s.contains(i)
    } else {
        !s.contains(canon_pos(raw)) || (canon_off(raw) != 0 && !s.contains(
            canon_pos(raw) + canon_off(raw),
        ))
    }
}

impl UnoDeck {
    /// Places a played card into the discard pile.
    ///
    /// A black card scans the four wild slots of its power for the first free
    /// one. A coloured card tries its canonical slot, then the slot at the
    /// colour offset. When every candidate slot is taken the card is dropped
    /// and `false` comes back, so the caller can log the loss; play goes on.
    pub fn discard(&mut self, card: UnoCard) -> (placed: bool)
        requires
            old(self).wf(),
            spec_valid(card.0),
        ensures
            final(self).wf(),
            final(self).main_deck == old(self).main_deck,
            placed == spec_discard_fits(old(self).discard_set(), card.0),
            placed ==> ({
                let slot = discard_slot(old(self).discard_set(), card.0);
                &&& 0 <= slot < 108
                &&& !old(self).discard_set().contains(slot)
                &&& final(self).discard_set() == old(self).discard_set().insert(slot)
            }),
            placed ==> final(self).discard_set().len() == old(self).discard_set().len() + 1,
            !placed ==> *final(self) == *old(self),
    {
        proof {
            lemma_set_of_finite(old(self).discard_deck);
        }
        if card.is_black() {
            let base: u8 = if card.get_value() == 3 {
                100
            } else {
                104
            };
            let ghost init = *self;
            let mut i: u8 = 0;
            while i < 4
                invariant
                    *self == init,
                    init == *old(self),
                    self.wf(),
                    spec_valid(card.0),
                    spec_is_black(card.0),
                    base as int == wild_base(card.0),
                    i <= 4,
                    forall|j: int|
                        #![auto]
                        base as int <= j < base as int + i as int ==> self.discard_set().contains(
                            j,
                        ),
                decreases 4 - i as int,
            {
                let slot = base + i;
                if !word_get(&self.discard_deck, slot) {
                    self.discard_deck = word_set(self.discard_deck, slot, true);
                    proof {
                        lemma_bits_to_set(init.discard_deck, self.discard_deck, slot as int, true);
                        lemma_set_of_finite(init.discard_deck);
                        assert(!init.discard_set().contains(slot as int));
                        assert(spec_discard_fits(init.discard_set(), card.0));
                        assert(first_free_wild(init.discard_set(), card.0) == slot as int);
                    }
                    return true;
                }
                proof {
                    assert(self.discard_set().contains(slot as int));
                }
                i = i + 1;
            }
            proof {
                assert(!spec_discard_fits(old(self).discard_set(), card.0));
            }
            false
        } else {
            let (pos, diff) = Self::card_to_pos(card);
            let ghost init = *self;
            if !word_get(&self.discard_deck, pos) {
                self.discard_deck = word_set(self.discard_deck, pos, true);
                proof {
                    lemma_bits_to_set(init.discard_deck, self.discard_deck, pos as int, true);
                    assert(0 <= (pos as int) && (pos as int) < 108 && !init.discard_set().contains(pos as int)
                        && self.discard_set() == init.discard_set().insert(pos as int));
                }
                return true;
            }
            if diff != 0 {
                let pos2 = pos + diff;
                if !word_get(&self.discard_deck, pos2) {
                    self.discard_deck = word_set(self.discard_deck, pos2, true);
                    proof {
                        lemma_bits_to_set(init.discard_deck, self.discard_deck, pos2 as int, true);
                        assert(0 <= (pos2 as int) && (pos2 as int) < 108 && !init.discard_set().contains(pos2 as int)
                            && self.discard_set() == init.discard_set().insert(pos2 as int));
                    }
                    return true;
                }
            }
            false
        }
    }

    /// Draws one card, reshuffling the discard pile into the main deck
    /// whenever the main deck runs out.
    ///
    /// `None` comes back only when both piles are empty; play cannot draw
    /// then and the caller decides how to go on.
    pub fn pickup(&mut self, pos: u8) -> (r: Option<UnoCard>)
        requires
            old(self).wf(),
        ensures
            final(self).wf(),
            (r is None) <==> old(self).total() == 0,
            r is None ==> *final(self) == *old(self),
            r is Some ==> final(self).total() == old(self).total() - 1,
            r is Some ==> spec_valid(r->Some_0.0) && spec_canonical(r->Some_0.0),
            r is Some && old(self).main_set() != Set::<int>::empty() ==> exists|q: int|
                #![auto]
                {
                    &&& old(self).main_set().contains(q)
                    &&& r->Some_0.0 == pos_card(q)
                    &&& if old(self).main_set().remove(q) == Set::<int>::empty() {
                        final(self).main_set() == old(self).discard_set() && final(self).discard_set() == Set::<int>::empty()
                    } else {
                        final(self).main_set() == old(self).main_set().remove(q) && final(self).discard_set() == old(self).discard_set()
                    }
                },
            r is Some && old(self).main_set() == Set::<int>::empty() ==> exists|q: int|
                #![auto]
                {
                    &&& old(self).discard_set().contains(q)
                    &&& r->Some_0.0 == pos_card(q)
                    &&& final(self).main_set() == old(self).discard_set().remove(q)
                    &&& final(self).discard_set() == Set::<int>::empty()
                },
            final(self).main_set() == Set::<int>::empty() ==> final(self).discard_set()
                == Set::<int>::empty(),
            final(self).discard_set() == old(self).discard_set() || final(self).discard_set()
                == Set::<int>::empty(),
            old(self).main_set().len() == 0 && old(self).discard_set().len() > 0 ==> final(
                self).discard_set() == Set::<int>::empty(),
    {
        proof {
            lemma_set_of_finite(old(self).main_deck);
            lemma_set_of_finite(old(self).discard_deck);
            lemma_empty_words(old(self).main_deck);
            lemma_empty_words(old(self).discard_deck);
            assert(0u64 >> 44u64 == 0u64) by (bit_vector);
        }
        if self.is_empty() {
            if self.discard_deck.0 == 0 && self.discard_deck.1 == 0 {
                proof {
                    assert(old(self).discard_set() =~= Set::<int>::empty());
                }
                return None;
            }
            self.main_deck = self.discard_deck;
            self.discard_deck = (0u64, 0u64);
            proof {
                lemma_empty_words(self.discard_deck);
                assert(self.discard_set() =~= Set::<int>::empty());
            }
        }
        proof {
            if self.main_set().len() == 0 {
                self.main_set().lemma_len0_is_empty();
            }
        }
        let ghost mid = *self;
        let card = self.get_card(pos);
        let ghost drawn = *self;
        proof {
            lemma_set_of_finite(self.main_deck);
            lemma_empty_words(self.main_deck);
        }
        if self.is_empty() {
            self.main_deck = self.discard_deck;
            self.discard_deck = (0u64, 0u64);
            proof {
                lemma_empty_words(self.discard_deck);
                assert(self.discard_set() =~= Set::<int>::empty());
            }
        }
        proof {
            let q = choose|p: int|
                #![auto]
                {
                    &&& 0 <= p < 108
                    &&& mid.main_set().contains(p)
                    &&& drawn.main_set() == mid.main_set().remove(p)
                    &&& card.0 == pos_card(p)
                    &&& forall|w: int|
                        scanned((pos % 108) as int, p, p < (pos % 108) as int, w)
                            ==> !mid.main_set().contains(w)
                };
            assert(mid.main_set().contains(q) && drawn.main_set() == mid.main_set().remove(q)
                && card.0 == pos_card(q));
            if old(self).main_set() != Set::<int>::empty() {
                assert(mid == *old(self));
                if mid.main_set().remove(q) == Set::<int>::empty() {
                    assert(self.main_set() == old(self).discard_set() && self.discard_set()
                        == Set::<int>::empty());
                } else {
                    assert(self.main_set() == old(self).main_set().remove(q) && self.discard_set()
                        == old(self).discard_set());
                }
                assert(exists|q2: int|
                    #![auto]
                    {
                        &&& old(self).main_set().contains(q2)
                        &&& card.0 == pos_card(q2)
                        &&& if old(self).main_set().remove(q2) == Set::<int>::empty() {
                            self.main_set() == old(self).discard_set() && self.discard_set()
                                == Set::<int>::empty()
                        } else {
                            self.main_set() == old(self).main_set().remove(q2) && self.discard_set()
                                == old(self).discard_set()
                        }
                    });
            } else {
                assert(mid.main_set() == old(self).discard_set());
                assert(self.main_set() == old(self).discard_set().remove(q));
                assert(self.discard_set() == Set::<int>::empty());
                assert(exists|q2: int|
                    #![auto]
                    {
                        &&& old(self).discard_set().contains(q2)
                        &&& card.0 == pos_card(q2)
                        &&& self.main_set() == old(self).discard_set().remove(q2)
                        &&& self.discard_set() == Set::<int>::empty()
                    });
            }
        }
        Some(card)
    }

    /// Deals a fresh ten-card hand, one draw per supplied slot.
    pub fn get_new_hand(&mut self, draws: &Vec<u8>) -> (hand: Vec<UnoCard>)
        requires
            old(self).wf(),
            draws.len() == 10,
            old(self).main_set().len() >= 10,
        ensures
            final(self).wf(),
            final(self).discard_deck == old(self).discard_deck,
            hand.len() == 10,
            final(self).main_set().len() == old(self).main_set().len() - 10,
            final(self).main_set().subset_of(old(self).main_set()),
            forall|i: int| #![auto] 0 <= i < 10 ==> spec_valid(hand[i].0) && spec_canonical(
                hand[i].0,
            ),
            forall|i: int|
                0 <= i < 10 ==> dealt_from(
                    old(self).main_set(),
                    final(self).main_set(),
                    (#[trigger] hand[i]).0,
                ),
    {
        let ghost init = *self;
        let mut hand: Vec<UnoCard> = Vec::new();
        let mut k: usize = 0;
        while k < 10
            invariant
                init == *old(self),
                self.wf(),
                self.discard_deck == init.discard_deck,
                hand.len() == k,
                k <= 10,
                init.main_set().len() >= 10,
                self.main_set().len() == init.main_set().len() - k,
                self.main_set().subset_of(init.main_set()),
                draws.len() == 10,
                forall|i: int| #![auto] 0 <= i < k ==> spec_valid(hand[i].0) && spec_canonical(
                    hand[i].0,
                ),
                forall|i: int|
                    0 <= i < k ==> dealt_from(
                        init.main_set(),
                        self.main_set(),
                        (#[trigger] hand[i]).0,
                    ),
            decreases 10 - k,
        {
            proof {
                lemma_set_of_finite(self.main_deck);
                if self.main_set() == Set::<int>::empty() {
                    assert(self.main_set().len() == 0);
                }
            }
            let ghost before = *self;
            let c = self.get_card(draws[k]);
            hand.push(c);
            k = k + 1;
            proof {
                let p = choose|p: int|
                    #![auto]
                    {
                        &&& 0 <= p < 108
                        &&& before.main_set().contains(p)
                        &&& self.main_set() == before.main_set().remove(p)
                        &&& c.0 == pos_card(p)
                    };
                assert(self.main_set().subset_of(init.main_set()));
                assert forall|i: int| 0 <= i < k implies dealt_from(
                    init.main_set(),
                    self.main_set(),
                    (#[trigger] hand[i]).0,
                ) by {
                    if i < k - 1 {
                        let q = choose|q: int|
                            #![auto]
                            init.main_set().contains(q) && !before.main_set().contains(q)
                                && hand[i].0 == pos_card(q);
                        assert(init.main_set().contains(q) && !self.main_set().contains(q)
                            && hand[i].0 == pos_card(q));
                    } else {
                        assert(init.main_set().contains(p) && !self.main_set().contains(p)
                            && hand[i].0 == pos_card(p));
                    }
                }
            }
        }
        hand
    }
}

/// The positions below `p` whose bit is set in the pair `w`.
spec fn set_upto(w: (u64, u64), p: int) -> Set<int> {
    Set::new(|q: int| 0 <= q < p && bit128(w, q))
}

/// Counting stops at the deck's edge: the prefix at 108 is the whole set.
proof fn lemma_set_upto_full(w: (u64, u64))
    ensures
        set_upto(w, 108) == set_of(w),
{
    assert(set_upto(w, 108) =~= set_of(w));
}

/// One more position either adds itself or nothing.
proof fn lemma_set_upto_step(w: (u64, u64), p: int)
    requires
        0 <= p < 108,
    ensures
        bit128(w, p) ==> set_upto(w, p + 1) == set_upto(w, p).insert(p),
        !bit128(w, p) ==> set_upto(w, p + 1) == set_upto(w, p),
        set_upto(w, p).finite(),
        set_upto(w, p).len() <= p,
        !set_upto(w, p).contains(p),
{
    if bit128(w, p) {
        assert(set_upto(w, p + 1) =~= set_upto(w, p).insert(p));
    } else {
        assert(set_upto(w, p + 1) =~= set_upto(w, p));
    }
    vstd::set_lib::lemma_int_range(0, p);
    vstd::set_lib::lemma_len_subset(set_upto(w, p), set_int_range(0, p));
}

/// Counts the bits set in a 128-bit pair's deck slots.
fn count_pair(w: &(u64, u64)) -> (n: usize)
    ensures
        n as int == set_of(*w).len(),
{
    let mut n: usize = 0;
    let mut p: u8 = 0;
    proof {
        assert(set_upto(*w, 0) =~= Set::<int>::empty());
    }
    while p < 108
        invariant
            p <= 108,
            n as int == set_upto(*w, p as int).len(),
            n <= p,
        decreases 108 - p,
    {
        proof {
            lemma_set_upto_step(*w, p as int);
        }
        if word_get(w, p) {
            n = n + 1;
        }
        p = p + 1;
    }
    proof {
        lemma_set_upto_full(*w);
    }
    n
}

impl UnoDeck {
    /// How many cards the main deck holds.
    pub fn main_count(&self) -> (n: usize)
        ensures
            n as int == self.main_set().len(),
    {
        count_pair(&self.main_deck)
    }

    /// How many cards the discard pile holds.
    pub fn discard_count(&self) -> (n: usize)
        ensures
            n as int == self.discard_set().len(),
    {
        count_pair(&self.discard_deck)
    }
}

/// Relies on rand::random_range: a uniform draw from the non-empty range
/// `0..108` lies within it; only an empty range panics.
#[verifier::external_body]
fn random_card_pos() -> (r: u8)
    ensures
        r < 108,
{
    rand::random_range(0..108u8)
}

/// Draws `n` random deck slots for the caller to feed into deals and pickups.
pub fn random_draws(n: usize) -> (r: Vec<u8>)
    ensures
        r.len() == n,
        forall|i: int| #![auto] 0 <= i < n ==> r[i] < 108,
{
    let mut r: Vec<u8> = Vec::new();
    let mut k: usize = 0;
    while k < n
        invariant
            r.len() == k,
            k <= n,
            forall|i: int| #![auto] 0 <= i < k ==> r[i] < 108,
        decreases n - k,
    {
        r.push(random_card_pos());
        k = k + 1;
    }
    r
}

/// Reading the card at a slot and asking where it discards to lands on the
/// same card: the canonical position is the slot itself or its twin four
/// below, and both map back to the identical card byte.
pub proof fn lemma_pos_roundtrip(p: int)
    requires
        0 <= p < 108,
        !spec_is_black(pos_card(p)),
    ensures
        canon_pos(pos_card(p)) == p || canon_pos(pos_card(p)) + 4 == p,
        pos_card(canon_pos(pos_card(p))) == pos_card(p),
        0 <= canon_pos(pos_card(p)) < 108,
{
    if p < 72 {
        let k = p / 8;
        let r8 = p % 8;
        let r4 = p % 4;
        vstd::arithmetic::div_mod::lemma_fundamental_div_mod(p, 8);
        vstd::arithmetic::div_mod::lemma_fundamental_div_mod(p, 4);
        vstd::arithmetic::div_mod::lemma_mod_multiples_vanish(2 * k, r8, 4);
        assert(r4 == r8 % 4);
        if r8 < 4 {
            vstd::arithmetic::div_mod::lemma_small_mod(r8 as nat, 4);
            assert(r4 == r8);
        } else {
            vstd::arithmetic::div_mod::lemma_mod_multiples_vanish(1, r8 - 4, 4);
            vstd::arithmetic::div_mod::lemma_small_mod((r8 - 4) as nat, 4);
            assert(r4 == r8 - 4);
        }
        crate::card::lemma_encode_decode(false, colour_of_bits(r4 as u8), (k + 1) as u8);
        let raw = pos_card(p);
        assert(spec_value(raw) == k + 1);
        let canon = canon_pos(raw);
        assert(canon == 8 * k + r4);
        vstd::arithmetic::div_mod::lemma_fundamental_div_mod_converse(canon, 8, k, r4);
        vstd::arithmetic::div_mod::lemma_mod_multiples_vanish(2 * k, r4, 4);
        vstd::arithmetic::div_mod::lemma_small_mod(r4 as nat, 4);
        assert(canon / 8 == k && canon % 4 == r4);
        assert(pos_card(canon) == raw);
    } else if p < 76 {
        crate::card::lemma_encode_decode(false, colour_of_bits((p - 72) as u8), 0u8);
    } else if p < 100 {
        let d = p - 76;
        let v = d / 8;
        let r8 = d % 8;
        let r4 = d % 4;
        vstd::arithmetic::div_mod::lemma_fundamental_div_mod(d, 8);
        vstd::arithmetic::div_mod::lemma_fundamental_div_mod(d, 4);
        vstd::arithmetic::div_mod::lemma_mod_multiples_vanish(2 * v, r8, 4);
        if r8 < 4 {
            vstd::arithmetic::div_mod::lemma_small_mod(r8 as nat, 4);
        } else {
            vstd::arithmetic::div_mod::lemma_mod_multiples_vanish(1, r8 - 4, 4);
            vstd::arithmetic::div_mod::lemma_small_mod((r8 - 4) as nat, 4);
        }
        crate::card::lemma_encode_decode(true, colour_of_bits(r4 as u8), v as u8);
        let raw = pos_card(p);
        assert(spec_value(raw) == v);
        let canon = canon_pos(raw);
        assert(canon == 76 + 8 * v + r4);
        let d2 = canon - 76;
        vstd::arithmetic::div_mod::lemma_fundamental_div_mod_converse(d2, 8, v, r4);
        vstd::arithmetic::div_mod::lemma_mod_multiples_vanish(2 * v, r4, 4);
        vstd::arithmetic::div_mod::lemma_small_mod(r4 as nat, 4);
        assert(d2 / 8 == v && d2 % 4 == r4);
        assert(pos_card(canon) == raw);
    } else {
        if p < 104 {
            crate::card::lemma_encode_decode(true, UnoCardColour::Red, 3u8);
        } else {
            crate::card::lemma_encode_decode(true, UnoCardColour::Red, 4u8);
        }
        crate::card::lemma_black_characterisation(pos_card(p));
        assert(false);
    }
}

} // verus!
