//! Words of a line: the runs of bytes between ASCII white space.

use crate::ascii::{CARRIAGE_RETURN, FORM_FEED, LINE_FEED, SPACE, TAB};
use vstd::prelude::*;
use vstd::slice::slice_subrange;

verus! {

/// Whether `b` is ASCII white space: space, tab, line feed, form feed or
/// carriage return.
pub open spec fn is_space(b: u8) -> bool {
    b == SPACE || b == TAB || b == LINE_FEED || b == FORM_FEED || b == CARRIAGE_RETURN
}

/// Index of the first white space of `bytes` at or after `from`; the length
/// of `bytes` if there is none.
pub open spec fn word_end(bytes: Seq<u8>, from: int) -> int
    decreases bytes.len() - from,
{
    if from >= bytes.len() || is_space(bytes[from]) {
        from
    } else {
        word_end(bytes, from + 1)
    }
}

/// The words of `bytes` that begin at or after `from`, in order.
pub open spec fn words_from(bytes: Seq<u8>, from: int) -> Seq<Seq<u8>>
    decreases bytes.len() - from,
    via words_from_decreases
{
    if from < 0 || from >= bytes.len() {
        Seq::empty()
    } else if is_space(bytes[from]) {
        words_from(bytes, from + 1)
    } else {
        seq![bytes.subrange(from, word_end(bytes, from))] + words_from(
            bytes,
            word_end(bytes, from),
        )
    }
}

#[via_fn]
proof fn words_from_decreases(bytes: Seq<u8>, from: int) {
    if 0 <= from < bytes.len() && !is_space(bytes[from]) {
        lemma_word_end(bytes, from + 1);
    }
}

/// The words of `bytes`, in order.
pub open spec fn words(bytes: Seq<u8>) -> Seq<Seq<u8>> {
    words_from(bytes, 0)
}

/// A word ends within `bytes` or at its end, and holds no white space.
pub proof fn lemma_word_end(bytes: Seq<u8>, from: int)
    requires
        0 <= from <= bytes.len(),
    ensures
        from <= word_end(bytes, from) <= bytes.len(),
        forall|i: int| from <= i < word_end(bytes, from) ==> !is_space(bytes[i]),
        word_end(bytes, from) < bytes.len() ==> is_space(bytes[word_end(bytes, from)]),
    decreases bytes.len() - from,
{
    if from < bytes.len() && !is_space(bytes[from]) {
        lemma_word_end(bytes, from + 1);
    }
}

/// The word that begins at `from` ends at `end` if it holds no white space up
/// to `end` and white space, or nothing, follows there.
proof fn lemma_word_end_is(bytes: Seq<u8>, from: int, end: int)
    requires
        0 <= from <= end <= bytes.len(),
        forall|i: int| from <= i < end ==> !is_space(bytes[i]),
        end < bytes.len() ==> is_space(bytes[end]),
    ensures
        word_end(bytes, from) == end,
    decreases end - from,
{
    if from < end {
        lemma_word_end_is(bytes, from + 1, end);
    }
}

/// White space between `from` and `to` holds no word.
proof fn lemma_words_skip_space(bytes: Seq<u8>, from: int, to: int)
    requires
        0 <= from <= to <= bytes.len(),
        forall|i: int| from <= i < to ==> is_space(bytes[i]),
    ensures
        words_from(bytes, from) == words_from(bytes, to),
    decreases to - from,
{
    if from < to {
        lemma_words_skip_space(bytes, from + 1, to);
    }
}

/// Whether `word` can stand as a word of a line: it is not empty and holds no
/// white space.
pub open spec fn is_word(word: Seq<u8>) -> bool {
    word.len() > 0 && forall|i: int| 0 <= i < word.len() ==> !is_space(#[trigger] word[i])
}

/// Bytes put in front of a line move the ends of its words by their number.
pub proof fn lemma_word_end_shift(front: Seq<u8>, bytes: Seq<u8>, from: int)
    requires
        0 <= from <= bytes.len(),
    ensures
        word_end(front + bytes, front.len() + from) == front.len() + word_end(bytes, from),
    decreases bytes.len() - from,
{
    let all = front + bytes;
    if from < bytes.len() {
        assert(all[front.len() + from] == bytes[from]);
        if !is_space(bytes[from]) {
            lemma_word_end_shift(front, bytes, from + 1);
        }
    }
}

/// Behind bytes put in front of a line stand the words of the line.
pub proof fn lemma_words_from_shift(front: Seq<u8>, bytes: Seq<u8>, from: int)
    requires
        0 <= from <= bytes.len(),
    ensures
        words_from(front + bytes, front.len() + from) == words_from(bytes, from),
    decreases bytes.len() - from,
{
    let all = front + bytes;
    if from < bytes.len() {
        assert(all[front.len() + from] == bytes[from]);
        if is_space(bytes[from]) {
            lemma_words_from_shift(front, bytes, from + 1);
        } else {
            let end = word_end(bytes, from);
            lemma_word_end(bytes, from + 1);
            lemma_word_end_shift(front, bytes, from);
            lemma_words_from_shift(front, bytes, end);
            assert(all.subrange(front.len() + from, front.len() + end) =~= bytes.subrange(
                from,
                end,
            ));
        }
    }
}

/// A word alone is the one word of its line.
pub proof fn lemma_words_of_word(word: Seq<u8>)
    requires
        is_word(word),
    ensures
        words(word) == seq![word],
{
    lemma_word_end_is(word, 0, word.len() as int);
    assert(!is_space(word[0]));
    assert(word.subrange(0, word.len() as int) =~= word);
    assert(words_from(word, word.len() as int) =~= Seq::<Seq<u8>>::empty());
    assert(seq![word] + Seq::<Seq<u8>>::empty() =~= seq![word]);
}

/// A word, a space and a line have the word and then the words of the line.
pub proof fn lemma_words_of_word_and_line(word: Seq<u8>, rest: Seq<u8>)
    requires
        is_word(word),
    ensures
        words(word + seq![SPACE] + rest) == seq![word] + words(rest),
{
    let front = word + seq![SPACE];
    let all = front + rest;
    let n = word.len() as int;
    assert forall|i: int| 0 <= i < n implies !is_space(all[i]) by {
        assert(all[i] == word[i]);
    }
    assert(all[n] == SPACE);
    assert(!is_space(all[0]));
    lemma_word_end_is(all, 0, n);
    assert(all.subrange(0, n) =~= word);
    assert(words_from(all, n) == words_from(all, n + 1));
    lemma_words_from_shift(front, rest, 0);
}

/// The words of a line, handed out one by one.
pub struct Words<'a> {
    line: &'a [u8],
    pos: usize,
}

impl<'a> View for Words<'a> {
    type V = Seq<Seq<u8>>;

    /// The words still to come.
    closed spec fn view(&self) -> Seq<Seq<u8>> {
        words_from(self.line@, self.pos as int)
    }
}

impl<'a> Words<'a> {
    #[verifier::type_invariant]
    spec fn cursor_in_bounds(self) -> bool {
        self.pos <= self.line@.len()
    }

    /// The words of `line`.
    pub fn new(line: &'a [u8]) -> (r: Self)
        ensures
            r@ == words(line@),
    {
        Words { line, pos: 0 }
    }

    /// The next word, if one is left.
    pub fn next_word(&mut self) -> (r: Option<&'a [u8]>)
        ensures
            old(self)@.len() == 0 ==> r is None && final(self)@ == old(self)@,
            old(self)@.len() > 0 ==> r is Some && r->Some_0@ == old(self)@[0] && final(self)@
                == old(self)@.skip(1),
    {
        proof {
            use_type_invariant(&*self);
        }
        let line = self.line;
        let ghost bytes = line@;
        let ghost first = self.pos as int;
        let mut start: usize = self.pos;
        while start < line.len() && is_space_byte(line[start])
            invariant
                first <= start <= bytes.len(),
                bytes == line@,
                forall|i: int| first <= i < start ==> is_space(bytes[i]),
            decreases bytes.len() - start,
        {
            start += 1;
        }
        proof {
            lemma_words_skip_space(bytes, first, start as int);
        }
        if start >= line.len() {
            self.pos = start;
            return None;
        }
        let mut end: usize = start + 1;
        while end < line.len() && !is_space_byte(line[end])
            invariant
                start < end <= bytes.len(),
                bytes == line@,
                forall|i: int| start <= i < end ==> !is_space(bytes[i]),
            decreases bytes.len() - end,
        {
            end += 1;
        }
        proof {
            lemma_word_end_is(bytes, start as int, end as int);
            let rest = words_from(bytes, end as int);
            let word = bytes.subrange(start as int, end as int);
            assert((seq![word] + rest).skip(1) =~= rest);
        }
        self.pos = end;
        Some(slice_subrange(line, start, end))
    }
}

/// Whether `b` is ASCII white space.
pub fn is_space_byte(b: u8) -> (r: bool)
    ensures
        r == is_space(b),
{
    b == SPACE || b == TAB || b == LINE_FEED || b == FORM_FEED || b == CARRIAGE_RETURN
}

} // verus!
