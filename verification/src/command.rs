//! Commands of the input protocol and their textual form.

use crate::ascii::{
    LOWER_A, LOWER_D, LOWER_H, LOWER_K, LOWER_M, LOWER_R, LOWER_U, LOWER_W,
};
use crate::hid_report::MouseButtons;
use crate::number::{integer_of, parse_integer};
use crate::words::{words, Words};
use vstd::prelude::*;
use vstd::string::StringSliceAdditionalSpecFns;

verus! {

/// One input event.
#[derive(Clone, Copy, Debug, PartialEq, Eq, Structural)]
pub enum Commands {
    /// Move the cursor to an absolute position.
    AbsMove(u16, u16),
    /// Move the pointer by a distance.
    RelMove(i16, i16),
    /// Press mouse buttons.
    MouseDown(MouseButtons),
    /// Release mouse buttons.
    MouseUp(MouseButtons),
    /// Press the key with this key code.
    KeyDown(u8),
    /// Release the key with this key code.
    KeyUp(u8),
    /// Turn the wheel.
    Wheel(i8),
}

/// The `u16` that `word` denotes in decimal.
pub open spec fn u16_of(word: Seq<u8>) -> Option<u16> {
    match integer_of(word, false, 0, u16::MAX as int) {
        Some(v) => Some(v as u16),
        None => None,
    }
}

/// The `i16` that `word` denotes in decimal.
pub open spec fn i16_of(word: Seq<u8>) -> Option<i16> {
    match integer_of(word, true, i16::MIN as int, i16::MAX as int) {
        Some(v) => Some(v as i16),
        None => None,
    }
}

/// The `u8` that `word` denotes in decimal.
pub open spec fn u8_of(word: Seq<u8>) -> Option<u8> {
    match integer_of(word, false, 0, u8::MAX as int) {
        Some(v) => Some(v as u8),
        None => None,
    }
}

/// The `i8` that `word` denotes in decimal.
pub open spec fn i8_of(word: Seq<u8>) -> Option<i8> {
    match integer_of(word, true, i8::MIN as int, i8::MAX as int) {
        Some(v) => Some(v as i8),
        None => None,
    }
}

/// The set of mouse buttons whose mask `word` denotes in decimal.
pub open spec fn buttons_of(word: Seq<u8>) -> Option<MouseButtons> {
    match u8_of(word) {
        Some(bits) => MouseButtons::spec_from_bits(bits),
        None => None,
    }
}

/// The absolute move with the arguments `args`.
pub open spec fn ma_of(args: Seq<Seq<u8>>) -> Result<Commands, ()> {
    if args.len() >= 2 && u16_of(args[0]) is Some && u16_of(args[1]) is Some {
        Ok(Commands::AbsMove(u16_of(args[0])->Some_0, u16_of(args[1])->Some_0))
    } else {
        Err(())
    }
}

/// The relative move with the arguments `args`.
pub open spec fn mr_of(args: Seq<Seq<u8>>) -> Result<Commands, ()> {
    if args.len() >= 2 && i16_of(args[0]) is Some && i16_of(args[1]) is Some {
        Ok(Commands::RelMove(i16_of(args[0])->Some_0, i16_of(args[1])->Some_0))
    } else {
        Err(())
    }
}

/// The press of mouse buttons with the arguments `args`.
pub open spec fn md_of(args: Seq<Seq<u8>>) -> Result<Commands, ()> {
    if args.len() >= 1 && buttons_of(args[0]) is Some {
        Ok(Commands::MouseDown(buttons_of(args[0])->Some_0))
    } else {
        Err(())
    }
}

/// The release of mouse buttons with the arguments `args`.
pub open spec fn mu_of(args: Seq<Seq<u8>>) -> Result<Commands, ()> {
    if args.len() >= 1 && buttons_of(args[0]) is Some {
        Ok(Commands::MouseUp(buttons_of(args[0])->Some_0))
    } else {
        Err(())
    }
}

/// The press of a key with the arguments `args`.
pub open spec fn kd_of(args: Seq<Seq<u8>>) -> Result<Commands, ()> {
    if args.len() >= 1 && u8_of(args[0]) is Some {
        Ok(Commands::KeyDown(u8_of(args[0])->Some_0))
    } else {
        Err(())
    }
}

/// The release of a key with the arguments `args`.
pub open spec fn ku_of(args: Seq<Seq<u8>>) -> Result<Commands, ()> {
    if args.len() >= 1 && u8_of(args[0]) is Some {
        Ok(Commands::KeyUp(u8_of(args[0])->Some_0))
    } else {
        Err(())
    }
}

/// The wheel turn with the arguments `args`.
pub open spec fn wh_of(args: Seq<Seq<u8>>) -> Result<Commands, ()> {
    if args.len() >= 1 && i8_of(args[0]) is Some {
        Ok(Commands::Wheel(i8_of(args[0])->Some_0))
    } else {
        Err(())
    }
}

/// The command that the line `bytes` stands for.
///
/// The first word of the line is the keyword, the words after it are the
/// arguments. Words beyond the arguments that the keyword takes are passed
/// over.
pub open spec fn command_of(bytes: Seq<u8>) -> Result<Commands, ()> {
    let w = words(bytes);
    if w.len() == 0 {
        Err(())
    } else if w[0] == seq![LOWER_M, LOWER_A] {
        ma_of(w.skip(1))
    } else if w[0] == seq![LOWER_M, LOWER_R] {
        mr_of(w.skip(1))
    } else if w[0] == seq![LOWER_M, LOWER_D] {
        md_of(w.skip(1))
    } else if w[0] == seq![LOWER_M, LOWER_U] {
        mu_of(w.skip(1))
    } else if w[0] == seq![LOWER_K, LOWER_D] {
        kd_of(w.skip(1))
    } else if w[0] == seq![LOWER_K, LOWER_U] {
        ku_of(w.skip(1))
    } else if w[0] == seq![LOWER_W, LOWER_H] {
        wh_of(w.skip(1))
    } else {
        Err(())
    }
}

/// Reads `word` as a `u16`.
pub fn parse_u16(word: &[u8]) -> (r: Option<u16>)
    ensures
        r == u16_of(word@),
{
    match parse_integer(word, false, 0, u16::MAX as i32) {
        Some(v) => Some(v as u16),
        None => None,
    }
}

/// Reads `word` as an `i16`.
pub fn parse_i16(word: &[u8]) -> (r: Option<i16>)
    ensures
        r == i16_of(word@),
{
    match parse_integer(word, true, i16::MIN as i32, i16::MAX as i32) {
        Some(v) => Some(v as i16),
        None => None,
    }
}

/// Reads `word` as a `u8`.
pub fn parse_u8(word: &[u8]) -> (r: Option<u8>)
    ensures
        r == u8_of(word@),
{
    match parse_integer(word, false, 0, u8::MAX as i32) {
        Some(v) => Some(v as u8),
        None => None,
    }
}

/// Reads `word` as an `i8`.
pub fn parse_i8(word: &[u8]) -> (r: Option<i8>)
    ensures
        r == i8_of(word@),
{
    match parse_integer(word, true, i8::MIN as i32, i8::MAX as i32) {
        Some(v) => Some(v as i8),
        None => None,
    }
}

/// Reads the arguments of an absolute move: two `u16`.
pub fn parse_ma(mut iter: Words) -> (r: Result<Commands, ()>)
    ensures
        r == ma_of(iter@),
{
    let arg_x = iter.next_word();
    let arg_y = iter.next_word();
    if let (Some(arg_x), Some(arg_y)) = (arg_x, arg_y) {
        let x = match parse_u16(arg_x) {
            Some(x) => x,
            None => return Err(()),
        };
        let y = match parse_u16(arg_y) {
            Some(y) => y,
            None => return Err(()),
        };
        Ok(Commands::AbsMove(x, y))
    } else {
        Err(())
    }
}

/// Reads the arguments of a relative move: two `i16`.
pub fn parse_mr(mut iter: Words) -> (r: Result<Commands, ()>)
    ensures
        r == mr_of(iter@),
{
    let arg_x = iter.next_word();
    let arg_y = iter.next_word();
    if let (Some(arg_x), Some(arg_y)) = (arg_x, arg_y) {
        let x = match parse_i16(arg_x) {
            Some(x) => x,
            None => return Err(()),
        };
        let y = match parse_i16(arg_y) {
            Some(y) => y,
            None => return Err(()),
        };
        Ok(Commands::RelMove(x, y))
    } else {
        Err(())
    }
}

/// Reads the argument of a button press: a mask of mouse buttons.
pub fn parse_md(mut iter: Words) -> (r: Result<Commands, ()>)
    ensures
        r == md_of(iter@),
{
    if let Some(arg_btn) = iter.next_word() {
        let btn_bits = match parse_u8(arg_btn) {
            Some(bits) => bits,
            None => return Err(()),
        };
        match MouseButtons::from_bits(btn_bits) {
            Some(btn) => Ok(Commands::MouseDown(btn)),
            None => Err(()),
        }
    } else {
        Err(())
    }
}

/// Reads the argument of a button release: a mask of mouse buttons.
pub fn parse_mu(mut iter: Words) -> (r: Result<Commands, ()>)
    ensures
        r == mu_of(iter@),
{
    if let Some(arg_btn) = iter.next_word() {
        let btn_bits = match parse_u8(arg_btn) {
            Some(bits) => bits,
            None => return Err(()),
        };
        match MouseButtons::from_bits(btn_bits) {
            Some(btn) => Ok(Commands::MouseUp(btn)),
            None => Err(()),
        }
    } else {
        Err(())
    }
}

/// Reads the argument of a key press: a key code.
pub fn parse_kd(mut iter: Words) -> (r: Result<Commands, ()>)
    ensures
        r == kd_of(iter@),
{
    if let Some(arg_key) = iter.next_word() {
        match parse_u8(arg_key) {
            Some(keycode) => Ok(Commands::KeyDown(keycode)),
            None => Err(()),
        }
    } else {
        Err(())
    }
}

/// Reads the argument of a key release: a key code.
pub fn parse_ku(mut iter: Words) -> (r: Result<Commands, ()>)
    ensures
        r == ku_of(iter@),
{
    if let Some(arg_key) = iter.next_word() {
        match parse_u8(arg_key) {
            Some(keycode) => Ok(Commands::KeyUp(keycode)),
            None => Err(()),
        }
    } else {
        Err(())
    }
}

/// Reads the argument of a wheel turn: an `i8`.
pub fn parse_wh(mut iter: Words) -> (r: Result<Commands, ()>)
    ensures
        r == wh_of(iter@),
{
    if let Some(arg_wheel) = iter.next_word() {
        match parse_i8(arg_wheel) {
            Some(wheel) => Ok(Commands::Wheel(wheel)),
            None => Err(()),
        }
    } else {
        Err(())
    }
}

/// Whether `word` is made of the two bytes `a` and `b`.
fn is_keyword(word: &[u8], a: u8, b: u8) -> (r: bool)
    ensures
        r == (word@ == seq![a, b]),
{
    let r = word.len() == 2 && word[0] == a && word[1] == b;
    proof {
        if r {
            assert(word@ =~= seq![a, b]);
        } else if word@.len() == 2 {
            assert(seq![a, b][0] == a && seq![a, b][1] == b);
        } else {
            assert(seq![a, b].len() == 2);
        }
    }
    r
}

impl Commands {
    /// Decodes one line of the protocol.
    pub fn from_str(s: &str) -> (r: Result<Commands, ()>)
        ensures
            r == command_of(s.spec_bytes()),
    {
        let mut argv = Words::new(s.as_bytes());
        if let Some(cmd) = argv.next_word() {
            if is_keyword(cmd, LOWER_M, LOWER_A) {
                parse_ma(argv)
            } else if is_keyword(cmd, LOWER_M, LOWER_R) {
                parse_mr(argv)
            } else if is_keyword(cmd, LOWER_M, LOWER_D) {
                parse_md(argv)
            } else if is_keyword(cmd, LOWER_M, LOWER_U) {
                parse_mu(argv)
            } else if is_keyword(cmd, LOWER_K, LOWER_D) {
                parse_kd(argv)
            } else if is_keyword(cmd, LOWER_K, LOWER_U) {
                parse_ku(argv)
            } else if is_keyword(cmd, LOWER_W, LOWER_H) {
                parse_wh(argv)
            } else {
                Err(())
            }
        } else {
            Err(())
        }
    }
}

impl core::str::FromStr for Commands {
    type Err = ();

    fn from_str(s: &str) -> (r: Result<Self, ()>)
        ensures
            r == command_of(s.spec_bytes()),
    {
        Commands::from_str(s)
    }
}

} // verus!
