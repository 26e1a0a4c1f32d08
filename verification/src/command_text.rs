//! The text of a command, and what decoding makes of it.

use crate::ascii::{
    LOWER_A, LOWER_D, LOWER_H, LOWER_K, LOWER_M, LOWER_R, LOWER_U, LOWER_W, MINUS, SPACE,
};
use crate::command::{
    buttons_of, command_of, i16_of, i8_of, kd_of, ku_of, ma_of, md_of, mr_of, mu_of, u16_of,
    u8_of, wh_of, Commands,
};
use crate::hid_report::MouseButtons;
use crate::number::{integer_word, is_digit, lemma_integer_of_word};
use crate::words::{
    is_space, is_word, lemma_words_of_word, lemma_words_of_word_and_line, words,
};
use vstd::prelude::*;

verus! {

/// The keyword of `c`.
pub open spec fn keyword_of(c: Commands) -> Seq<u8> {
    match c {
        Commands::AbsMove(_, _) => seq![LOWER_M, LOWER_A],
        Commands::RelMove(_, _) => seq![LOWER_M, LOWER_R],
        Commands::MouseDown(_) => seq![LOWER_M, LOWER_D],
        Commands::MouseUp(_) => seq![LOWER_M, LOWER_U],
        Commands::KeyDown(_) => seq![LOWER_K, LOWER_D],
        Commands::KeyUp(_) => seq![LOWER_K, LOWER_U],
        Commands::Wheel(_) => seq![LOWER_W, LOWER_H],
    }
}

/// The arguments of `c`, as the integers that its line holds.
pub open spec fn arguments_of(c: Commands) -> Seq<int> {
    match c {
        Commands::AbsMove(x, y) => seq![x as int, y as int],
        Commands::RelMove(x, y) => seq![x as int, y as int],
        Commands::MouseDown(b) => seq![b.spec_bits() as int],
        Commands::MouseUp(b) => seq![b.spec_bits() as int],
        Commands::KeyDown(key) => seq![key as int],
        Commands::KeyUp(key) => seq![key as int],
        Commands::Wheel(w) => seq![w as int],
    }
}

/// The line of `c`: its keyword and its arguments in decimal, with one space
/// between them.
pub open spec fn line_of(c: Commands) -> Seq<u8> {
    let args = arguments_of(c);
    if args.len() == 1 {
        keyword_of(c) + seq![SPACE] + integer_word(args[0])
    } else {
        keyword_of(c) + seq![SPACE] + (integer_word(args[0]) + seq![SPACE] + integer_word(
            args[1],
        ))
    }
}

/// Whether `c` is a command that a program can have at hand: its mouse
/// buttons, if it has any, are among the three that there are.
pub open spec fn is_command(c: Commands) -> bool {
    match c {
        Commands::MouseDown(b) => b.wf(),
        Commands::MouseUp(b) => b.wf(),
        _ => true,
    }
}

proof fn lemma_integer_word_is_word(v: int, signed: bool, lo: int, hi: int)
    requires
        lo <= v <= hi,
        v < 0 ==> signed,
    ensures
        is_word(integer_word(v)),
{
    lemma_integer_of_word(v, signed, lo, hi);
    let word = integer_word(v);
    assert forall|i: int| 0 <= i < word.len() implies !is_space(#[trigger] word[i]) by {
        assert(word[i] == MINUS || is_digit(word[i]));
    }
}

proof fn lemma_words_of_line(c: Commands)
    requires
        is_command(c),
    ensures
        words(line_of(c)) == seq![keyword_of(c)] + arguments_of(c).map_values(
            |v: int| integer_word(v),
        ),
{
    let kw = keyword_of(c);
    let args = arguments_of(c);
    let f = |v: int| integer_word(v);
    assert(is_word(kw));
    let a = integer_word(args[0]);
    lemma_integer_word_is_word(args[0], true, i16::MIN as int, u16::MAX as int);
    if args.len() == 1 {
        lemma_words_of_word_and_line(kw, a);
        lemma_words_of_word(a);
        assert(args.map_values(f) =~= seq![a]);
    } else {
        let b = integer_word(args[1]);
        lemma_integer_word_is_word(args[1], true, i16::MIN as int, u16::MAX as int);
        lemma_words_of_word_and_line(kw, a + seq![SPACE] + b);
        lemma_words_of_word_and_line(a, b);
        lemma_words_of_word(b);
        assert(args.map_values(f) =~= seq![a, b]);
        assert(seq![a] + seq![b] =~= seq![a, b]);
    }
}

/// Every command is what the decoder makes of its line.
pub proof fn lemma_decode_line_of(c: Commands)
    requires
        is_command(c),
    ensures
        command_of(line_of(c)) == Ok::<Commands, ()>(c),
{
    lemma_words_of_line(c);
    let w = words(line_of(c));
    let args = w.skip(1);
    let f = |v: int| integer_word(v);
    assert(args =~= arguments_of(c).map_values(f));
    assert(w[0] == keyword_of(c));
    match c {
        Commands::AbsMove(x, y) => {
            lemma_integer_of_word(x as int, false, 0, u16::MAX as int);
            lemma_integer_of_word(y as int, false, 0, u16::MAX as int);
            assert(u16_of(args[0]) == Some(x));
            assert(u16_of(args[1]) == Some(y));
        },
        Commands::RelMove(x, y) => {
            lemma_integer_of_word(x as int, true, i16::MIN as int, i16::MAX as int);
            lemma_integer_of_word(y as int, true, i16::MIN as int, i16::MAX as int);
            assert(i16_of(args[0]) == Some(x));
            assert(i16_of(args[1]) == Some(y));
        },
        Commands::MouseDown(b) => {
            lemma_integer_of_word(b.spec_bits() as int, false, 0, u8::MAX as int);
            b.lemma_from_bits_of_bits();
            assert(u8_of(args[0]) == Some(b.spec_bits()));
            assert(buttons_of(args[0]) == Some(b));
        },
        Commands::MouseUp(b) => {
            lemma_integer_of_word(b.spec_bits() as int, false, 0, u8::MAX as int);
            b.lemma_from_bits_of_bits();
            assert(u8_of(args[0]) == Some(b.spec_bits()));
            assert(buttons_of(args[0]) == Some(b));
        },
        Commands::KeyDown(key) => {
            lemma_integer_of_word(key as int, false, 0, u8::MAX as int);
            assert(u8_of(args[0]) == Some(key));
        },
        Commands::KeyUp(key) => {
            lemma_integer_of_word(key as int, false, 0, u8::MAX as int);
            assert(u8_of(args[0]) == Some(key));
        },
        Commands::Wheel(wheel) => {
            lemma_integer_of_word(wheel as int, true, i8::MIN as int, i8::MAX as int);
            assert(i8_of(args[0]) == Some(wheel));
        },
    }
}

/// A line fails to decode where a word is missing or is not what the keyword
/// asks for: no command comes of an empty line, of an unknown keyword, of a
/// keyword without its arguments, or of an argument that is no number of the
/// argument's type or, for mouse buttons, sets a bit of no button.
pub proof fn lemma_decode_failures(bytes: Seq<u8>)
    ensures
        ({
            let w = words(bytes);
            let args = w.skip(1);
            &&& w.len() == 0 ==> command_of(bytes) is Err
            &&& w.len() > 0 && (forall|c: Commands| w[0] != #[trigger] keyword_of(c))
                ==> command_of(bytes) is Err
            &&& w.len() == 1 ==> command_of(bytes) is Err
            &&& w.len() == 2 && (w[0] == keyword_of(Commands::AbsMove(0, 0)) || w[0] == keyword_of(
                Commands::RelMove(0, 0),
            )) ==> command_of(bytes) is Err
            &&& command_of(bytes) matches Ok(c) ==> {
                &&& is_command(c)
                &&& w[0] == keyword_of(c)
                &&& args.len() >= arguments_of(c).len()
                &&& match c {
                    Commands::AbsMove(x, y) => u16_of(args[0]) == Some(x) && u16_of(args[1])
                        == Some(y),
                    Commands::RelMove(x, y) => i16_of(args[0]) == Some(x) && i16_of(args[1])
                        == Some(y),
                    Commands::MouseDown(b) => u8_of(args[0]) == Some(b.spec_bits()),
                    Commands::MouseUp(b) => u8_of(args[0]) == Some(b.spec_bits()),
                    Commands::KeyDown(key) => u8_of(args[0]) == Some(key),
                    Commands::KeyUp(key) => u8_of(args[0]) == Some(key),
                    Commands::Wheel(wheel) => i8_of(args[0]) == Some(wheel),
                }
            }
        }),
{
    let w = words(bytes);
    let args = w.skip(1);
    if w.len() > 0 {
        if forall|c: Commands| w[0] != #[trigger] keyword_of(c) {
            assert(w[0] != keyword_of(Commands::AbsMove(0, 0)));
            assert(w[0] != keyword_of(Commands::RelMove(0, 0)));
            assert(w[0] != keyword_of(Commands::MouseDown(MouseButtons::spec_from_bits(0)->Some_0)));
            assert(w[0] != keyword_of(Commands::MouseUp(MouseButtons::spec_from_bits(0)->Some_0)));
            assert(w[0] != keyword_of(Commands::KeyDown(0)));
            assert(w[0] != keyword_of(Commands::KeyUp(0)));
            assert(w[0] != keyword_of(Commands::Wheel(0)));
        }
        if let Ok(c) = command_of(bytes) {
            match c {
                Commands::MouseDown(b) => {
                    MouseButtons::lemma_spec_from_bits(u8_of(args[0])->Some_0);
                },
                Commands::MouseUp(b) => {
                    MouseButtons::lemma_spec_from_bits(u8_of(args[0])->Some_0);
                },
                _ => {},
            }
        }
    }
}

} // verus!
