//! Payloads of the three HID reports and the bit sets they carry.

mod cursor;
mod flags;
mod keyboard;
mod mouse;

pub use cursor::CursorReport;
pub use flags::{
    flag_set, has_flag, lemma_flag_set_and, lemma_flag_set_and_not, lemma_flag_set_injective,
    lemma_flag_set_or, lemma_flag_set_subset, lemma_flag_set_zero, lemma_single_flag,
};
pub use keyboard::{KeyboardModifiers, KeyboardReport, MODIFIER_FIRST, MODIFIER_LAST};
pub use mouse::{lemma_defined_positions, MouseButtons, MouseReport};
