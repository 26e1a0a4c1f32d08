//! The relative mouse report and the set of mouse buttons.

use super::flags::{
    flag_set, lemma_flag_set_and_not, lemma_flag_set_or, lemma_flag_set_subset,
    lemma_flag_set_zero, lemma_single_flag,
};
use vstd::prelude::*;

verus! {

/// A set of mouse buttons, one bit per button.
///
/// Only the three defined bits are ever set.
#[derive(Clone, Copy, Debug, PartialEq, Eq, Structural)]
pub struct MouseButtons {
    bits: u8,
}

impl View for MouseButtons {
    type V = Set<int>;

    /// The positions of the buttons in the set: 0 left, 1 right, 2 middle.
    open spec fn view(&self) -> Set<int> {
        flag_set(self.spec_bits())
    }
}

impl MouseButtons {
    /// The mask of all defined buttons.
    pub open spec fn all_bits() -> u8 {
        0b0000_0111
    }

    #[verifier::type_invariant]
    spec fn defined_bits_only(self) -> bool {
        self.bits <= Self::all_bits()
    }

    /// Whether only bits of the three buttons are set: this holds of every set
    /// that a program has at hand.
    pub open spec fn wf(&self) -> bool {
        self.spec_bits() <= Self::all_bits()
    }

    /// The raw mask.
    pub closed spec fn spec_bits(&self) -> u8 {
        self.bits
    }

    /// The left button alone.
    pub fn l_button() -> (r: Self)
        ensures
            r.spec_bits() == 0b0000_0001,
            r@ == set![0int],
    {
        proof {
            lemma_single_flag(0);
        }
        MouseButtons { bits: 0b0000_0001 }
    }

    /// The right button alone.
    pub fn r_button() -> (r: Self)
        ensures
            r.spec_bits() == 0b0000_0010,
            r@ == set![1int],
    {
        proof {
            lemma_single_flag(1);
        }
        MouseButtons { bits: 0b0000_0010 }
    }

    /// The middle button alone.
    pub fn m_button() -> (r: Self)
        ensures
            r.spec_bits() == 0b0000_0100,
            r@ == set![2int],
    {
        proof {
            lemma_single_flag(2);
        }
        MouseButtons { bits: 0b0000_0100 }
    }

    /// The set without any button.
    pub fn empty() -> (r: Self)
        ensures
            r.spec_bits() == 0,
            r@ == Set::<int>::empty(),
    {
        proof {
            lemma_flag_set_zero();
        }
        MouseButtons { bits: 0 }
    }

    /// The raw mask, as it stands in a report.
    #[verifier::when_used_as_spec(spec_bits)]
    pub fn bits(&self) -> (r: u8)
        ensures
            r == self.spec_bits(),
            self.wf(),
    {
        proof {
            use_type_invariant(self);
        }
        self.bits
    }

    /// The set with the mask `raw`, if `raw` sets no undefined bit.
    pub closed spec fn spec_from_bits(raw: u8) -> Option<Self> {
        if raw <= Self::all_bits() {
            Some(MouseButtons { bits: raw })
        } else {
            None
        }
    }

    /// A mask gives a set exactly when it sets no bit but those of the three
    /// buttons, and the set then has that mask.
    pub proof fn lemma_spec_from_bits(raw: u8)
        ensures
            Self::spec_from_bits(raw) is Some <==> raw <= Self::all_bits(),
            Self::spec_from_bits(raw) is Some <==> forall|i: int|
                flag_set(raw).contains(i) ==> i < 3,
            Self::spec_from_bits(raw) matches Some(b) ==> b.spec_bits() == raw && b@ == flag_set(
                raw,
            ),
    {
        lemma_defined_positions(raw);
    }

    /// The mask of a set gives that set back.
    pub proof fn lemma_from_bits_of_bits(self)
        requires
            self.wf(),
        ensures
            Self::spec_from_bits(self.spec_bits()) == Some(self),
    {
    }

    /// The set with the mask `raw`, if `raw` sets no undefined bit.
    #[verifier::when_used_as_spec(spec_from_bits)]
    pub fn from_bits(raw: u8) -> (r: Option<Self>)
        ensures
            r == Self::spec_from_bits(raw),
            r is Some <==> raw <= Self::all_bits(),
            r is Some <==> forall|i: int| flag_set(raw).contains(i) ==> i < 3,
            r is Some ==> r.unwrap().spec_bits() == raw,
    {
        proof {
            lemma_defined_positions(raw);
        }
        if raw & !0b0000_0111u8 == 0 {
            assert(raw & !0b0000_0111u8 == 0 ==> raw <= 0b0000_0111u8) by (bit_vector);
            Some(MouseButtons { bits: raw })
        } else {
            assert(raw & !0b0000_0111u8 != 0 ==> raw > 0b0000_0111u8) by (bit_vector);
            None
        }
    }

    /// Whether every button of `other` is in the set.
    pub fn contains(&self, other: Self) -> (r: bool)
        ensures
            r == other@.subset_of(self@),
    {
        proof {
            lemma_flag_set_subset(self.bits, other.bits);
        }
        self.bits & other.bits == other.bits
    }

    /// The buttons of either set.
    pub fn union(self, other: Self) -> (r: Self)
        ensures
            r@ == self@.union(other@),
            r.spec_bits() == self.spec_bits() | other.spec_bits(),
    {
        proof {
            use_type_invariant(self);
            use_type_invariant(other);
            lemma_flag_set_or(self.bits, other.bits);
            let a = self.bits;
            let b = other.bits;
            assert(a <= 7 && b <= 7 ==> (a | b) <= 7) by (bit_vector);
        }
        MouseButtons { bits: self.bits | other.bits }
    }

    /// The buttons of the set that `other` lacks.
    pub fn difference(self, other: Self) -> (r: Self)
        ensures
            r@ == self@.difference(other@),
            r.spec_bits() == self.spec_bits() & !other.spec_bits(),
    {
        proof {
            use_type_invariant(self);
            lemma_flag_set_and_not(self.bits, other.bits);
            let a = self.bits;
            let b = other.bits;
            assert(a <= 7 ==> (a & !b) <= 7) by (bit_vector);
        }
        MouseButtons { bits: self.bits & !other.bits }
    }
}

/// A mask stays within the three button bits exactly when its set bits lie at
/// positions 0, 1 and 2.
pub proof fn lemma_defined_positions(raw: u8)
    ensures
        raw <= MouseButtons::all_bits() <==> forall|i: int| flag_set(raw).contains(i) ==> i < 3,
{
    if raw <= 7 {
        assert forall|i: int| flag_set(raw).contains(i) implies i < 3 by {
            let k: u8 = i as u8;
            assert(raw <= 7 && k < 8 && ((raw >> k) & 1 == 1) ==> k < 3) by (bit_vector);
        }
    } else {
        assert(raw > 7 ==> ((raw >> 3u8) & 1 == 1) || ((raw >> 4u8) & 1 == 1) || ((raw >> 5u8) & 1
            == 1) || ((raw >> 6u8) & 1 == 1) || ((raw >> 7u8) & 1 == 1)) by (bit_vector);
        assert(flag_set(raw).contains(3) || flag_set(raw).contains(4) || flag_set(raw).contains(5)
            || flag_set(raw).contains(6) || flag_set(raw).contains(7));
    }
}

impl Default for MouseButtons {
    fn default() -> (r: Self)
        ensures
            r.spec_bits() == 0,
            r@ == Set::<int>::empty(),
    {
        MouseButtons::empty()
    }
}

/// The report of a relative pointer: buttons, motion and wheel.
#[derive(Clone, Copy, Debug, PartialEq, Eq, Structural)]
pub struct MouseReport {
    pub buttons: u8,
    pub x: i16,
    pub y: i16,
    pub wheel: i8,
}

impl Default for MouseReport {
    fn default() -> (r: Self)
        ensures
            r == (MouseReport { buttons: 0, x: 0, y: 0, wheel: 0 }),
    {
        MouseReport { buttons: 0, x: 0, y: 0, wheel: 0 }
    }
}

impl MouseReport {
    /// A report of `buttons` without motion.
    pub fn with_buttons(buttons: MouseButtons) -> (r: Self)
        ensures
            r == (MouseReport { buttons: buttons.spec_bits(), x: 0, y: 0, wheel: 0 }),
    {
        MouseReport { buttons: buttons.bits(), x: 0, y: 0, wheel: 0 }
    }

    /// A report of a motion by `(x, y)` with no button pressed.
    pub fn with_position(x: i16, y: i16) -> (r: Self)
        ensures
            r == (MouseReport { buttons: 0, x, y, wheel: 0 }),
    {
        MouseReport { buttons: 0, x, y, wheel: 0 }
    }

    /// A report of a wheel turn by `wheel` with no button pressed.
    pub fn with_wheel(wheel: i8) -> (r: Self)
        ensures
            r == (MouseReport { buttons: 0, x: 0, y: 0, wheel }),
    {
        MouseReport { buttons: 0, x: 0, y: 0, wheel }
    }
}

} // verus!
