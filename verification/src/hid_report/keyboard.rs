//! The keyboard report and the set of modifier keys.

use super::flags::{
    flag_set, lemma_flag_set_and_not, lemma_flag_set_or, lemma_flag_set_subset,
    lemma_flag_set_zero, lemma_single_flag,
};
use vstd::prelude::*;

verus! {

/// The report of a keyboard: modifier mask, indicator lights and up to six
/// keys held down.
#[derive(Clone, Copy, Debug, PartialEq, Eq)]
pub struct KeyboardReport {
    pub modifier: u8,
    pub leds: u8,
    pub keycodes: [u8; 6],
}

/// First key code of the modifier keys.
pub const MODIFIER_FIRST: u8 = 0xE0;

/// Last key code of the modifier keys.
pub const MODIFIER_LAST: u8 = 0xE7;

/// A set of modifier keys, one bit per key.
#[derive(Clone, Copy, Debug, PartialEq, Eq, Structural)]
pub struct KeyboardModifiers {
    bits: u8,
}

impl View for KeyboardModifiers {
    type V = Set<int>;

    /// The positions of the modifiers in the set: 0 to 3 for left control,
    /// shift, alt and meta, 4 to 7 for their right counterparts.
    open spec fn view(&self) -> Set<int> {
        flag_set(self.spec_bits())
    }
}

impl KeyboardModifiers {
    /// The raw mask.
    pub closed spec fn spec_bits(&self) -> u8 {
        self.bits
    }

    /// Whether `code` is the key code of a modifier key.
    pub open spec fn spec_is_modifier(code: u8) -> bool {
        MODIFIER_FIRST <= code <= MODIFIER_LAST
    }

    /// The mask of the modifier with key code `code`; 0 for any other key.
    pub open spec fn mask_of_keycode(code: u8) -> u8 {
        if Self::spec_is_modifier(code) {
            1u8 << ((code - MODIFIER_FIRST) as u8)
        } else {
            0
        }
    }

    /// The left control key alone.
    pub fn l_ctrl() -> (r: Self)
        ensures
            r.spec_bits() == 0x1,
            r@ == set![0int],
    {
        proof {
            lemma_single_flag(0);
        }
        KeyboardModifiers { bits: 0b00000001 }
    }

    /// The left shift key alone.
    pub fn l_shift() -> (r: Self)
        ensures
            r.spec_bits() == 0x2,
            r@ == set![1int],
    {
        proof {
            lemma_single_flag(1);
        }
        KeyboardModifiers { bits: 0b00000010 }
    }

    /// The left alt key alone.
    pub fn l_alt() -> (r: Self)
        ensures
            r.spec_bits() == 0x4,
            r@ == set![2int],
    {
        proof {
            lemma_single_flag(2);
        }
        KeyboardModifiers { bits: 0b00000100 }
    }

    /// The left meta key alone.
    pub fn l_meta() -> (r: Self)
        ensures
            r.spec_bits() == 0x8,
            r@ == set![3int],
    {
        proof {
            lemma_single_flag(3);
        }
        KeyboardModifiers { bits: 0b00001000 }
    }

    /// The right control key alone.
    pub fn r_ctrl() -> (r: Self)
        ensures
            r.spec_bits() == 0x10,
            r@ == set![4int],
    {
        proof {
            lemma_single_flag(4);
        }
        KeyboardModifiers { bits: 0b00010000 }
    }

    /// The right shift key alone.
    pub fn r_shift() -> (r: Self)
        ensures
            r.spec_bits() == 0x20,
            r@ == set![5int],
    {
        proof {
            lemma_single_flag(5);
        }
        KeyboardModifiers { bits: 0b00100000 }
    }

    /// The right alt key alone.
    pub fn r_alt() -> (r: Self)
        ensures
            r.spec_bits() == 0x40,
            r@ == set![6int],
    {
        proof {
            lemma_single_flag(6);
        }
        KeyboardModifiers { bits: 0b01000000 }
    }

    /// The right meta key alone.
    pub fn r_meta() -> (r: Self)
        ensures
            r.spec_bits() == 0x80,
            r@ == set![7int],
    {
        proof {
            lemma_single_flag(7);
        }
        KeyboardModifiers { bits: 0b10000000 }
    }

    /// The set without any modifier.
    pub fn empty() -> (r: Self)
        ensures
            r.spec_bits() == 0,
            r@ == Set::<int>::empty(),
    {
        proof {
            lemma_flag_set_zero();
        }
        KeyboardModifiers { bits: 0 }
    }

    /// The raw mask, as it stands in a report.
    #[verifier::when_used_as_spec(spec_bits)]
    pub fn bits(&self) -> (r: u8)
        ensures
            r == self.spec_bits(),
    {
        self.bits
    }

    /// Whether every modifier of `other` is in the set.
    pub fn contains(&self, other: Self) -> (r: bool)
        ensures
            r == other@.subset_of(self@),
    {
        proof {
            lemma_flag_set_subset(self.bits, other.bits);
        }
        self.bits & other.bits == other.bits
    }

    /// The modifiers of either set.
    pub fn union(self, other: Self) -> (r: Self)
        ensures
            r@ == self@.union(other@),
            r.spec_bits() == self.spec_bits() | other.spec_bits(),
    {
        proof {
            lemma_flag_set_or(self.bits, other.bits);
        }
        KeyboardModifiers { bits: self.bits | other.bits }
    }

    /// The modifiers of the set that `other` lacks.
    pub fn difference(self, other: Self) -> (r: Self)
        ensures
            r@ == self@.difference(other@),
            r.spec_bits() == self.spec_bits() & !other.spec_bits(),
    {
        proof {
            lemma_flag_set_and_not(self.bits, other.bits);
        }
        KeyboardModifiers { bits: self.bits & !other.bits }
    }

    /// Whether `code` is the key code of a modifier key.
    #[verifier::when_used_as_spec(spec_is_modifier)]
    pub fn is_modifier(code: u8) -> (r: bool)
        ensures
            r == Self::spec_is_modifier(code),
    {
        (code >= 0xE0) && (code <= 0xE7)
    }

    /// The modifier with key code `code` alone; the empty set for any other key.
    pub fn from_keycode(code: u8) -> (r: Self)
        ensures
            r.spec_bits() == Self::mask_of_keycode(code),
            Self::spec_is_modifier(code) ==> r@ == set![code - MODIFIER_FIRST],
            !Self::spec_is_modifier(code) ==> r@ == Set::<int>::empty(),
    {
        proof {
            lemma_flag_set_zero();
            if Self::spec_is_modifier(code) {
                lemma_single_flag((code - MODIFIER_FIRST) as u8);
            }
        }
        match code {
            0xE0 => KeyboardModifiers { bits: 0b0000_0001 },
            0xE1 => KeyboardModifiers { bits: 0b0000_0010 },
            0xE2 => KeyboardModifiers { bits: 0b0000_0100 },
            0xE3 => KeyboardModifiers { bits: 0b0000_1000 },
            0xE4 => KeyboardModifiers { bits: 0b0001_0000 },
            0xE5 => KeyboardModifiers { bits: 0b0010_0000 },
            0xE6 => KeyboardModifiers { bits: 0b0100_0000 },
            0xE7 => KeyboardModifiers { bits: 0b1000_0000 },
            _ => KeyboardModifiers { bits: 0 },
        }
    }
}

impl Default for KeyboardModifiers {
    fn default() -> (r: Self)
        ensures
            r.spec_bits() == 0,
            r@ == Set::<int>::empty(),
    {
        KeyboardModifiers::empty()
    }
}

} // verus!
