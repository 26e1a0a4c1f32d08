//! Framing of a byte stream into lines.

use crate::ascii::{CARRIAGE_RETURN, LINE_FEED};
use core::str::Utf8Error;
use vstd::prelude::*;
use vstd::string::StringSliceAdditionalSpecFns;
use vstd::utf8::valid_utf8;

verus! {

/// Number of bytes that a line buffer holds.
pub const CAPACITY: usize = 64;

/// `core::str::Utf8Error`, the error of a byte sequence that is not UTF-8.
/// It is handed on as it comes; nothing is said of what it holds.
#[verifier::external_type_specification]
#[verifier::external_body]
pub struct ExUtf8Error(Utf8Error);

/// Reads `v` as UTF-8 text, by `core::str::from_utf8`.
///
/// The call succeeds exactly on well-formed UTF-8, and the text it returns is
/// then made of the bytes of `v`.
#[verifier::external_body]
fn text_of(v: &[u8]) -> (r: Result<&str, Utf8Error>)
    ensures
        r is Ok <==> valid_utf8(v@),
        r is Ok ==> r->Ok_0.spec_bytes() == v@,
{
    core::str::from_utf8(v)
}

/// Whether `b` ends a line.
pub open spec fn is_terminator(b: u8) -> bool {
    b == LINE_FEED || b == CARRIAGE_RETURN
}

/// Index of the first line terminator of `bytes` at or after `from`; the
/// length of `bytes` if there is none.
pub open spec fn first_terminator(bytes: Seq<u8>, from: int) -> int
    decreases bytes.len() - from,
{
    if from >= bytes.len() || is_terminator(bytes[from]) {
        from
    } else {
        first_terminator(bytes, from + 1)
    }
}

/// Length of the line that the pending bytes `pending` begin with: up to the
/// first terminator, the terminator included; all of them if there is no
/// terminator and the buffer is full; none otherwise.
pub open spec fn line_len(pending: Seq<u8>) -> Option<int> {
    let t = first_terminator(pending, 0);
    if t < pending.len() {
        Some(t + 1)
    } else if pending.len() >= CAPACITY {
        Some(pending.len() as int)
    } else {
        None
    }
}

/// The first terminator lies within `bytes` or at its end, and no byte before
/// it is a terminator.
pub proof fn lemma_first_terminator(bytes: Seq<u8>, from: int)
    requires
        0 <= from <= bytes.len(),
    ensures
        from <= first_terminator(bytes, from) <= bytes.len(),
        forall|i: int| from <= i < first_terminator(bytes, from) ==> !is_terminator(bytes[i]),
        first_terminator(bytes, from) < bytes.len() ==> is_terminator(
            bytes[first_terminator(bytes, from)],
        ),
    decreases bytes.len() - from,
{
    if from < bytes.len() && !is_terminator(bytes[from]) {
        lemma_first_terminator(bytes, from + 1);
    }
}

/// The first terminator at or after 0 is at `t` if no byte before `t` is a
/// terminator and the byte at `t`, if there is one, is.
proof fn lemma_first_terminator_is(bytes: Seq<u8>, t: int)
    requires
        0 <= t <= bytes.len(),
        forall|i: int| 0 <= i < t ==> !is_terminator(bytes[i]),
        t < bytes.len() ==> is_terminator(bytes[t]),
    ensures
        first_terminator(bytes, 0) == t,
{
    lemma_first_terminator(bytes, 0);
}

/// A buffer of bytes that await framing.
#[derive(Debug)]
pub struct LineBuffer {
    buf: [u8; 64],
    pos: usize,
}

impl Default for LineBuffer {
    fn default() -> (r: Self)
        ensures
            r@ == Seq::<u8>::empty(),
            r.storage() == Seq::new(CAPACITY as nat, |i: int| 0u8),
    {
        let r = LineBuffer { buf: [0u8; 64], pos: 0 };
        assert(r@ =~= Seq::<u8>::empty());
        assert(r.storage() =~= Seq::new(CAPACITY as nat, |i: int| 0u8));
        r
    }
}

impl View for LineBuffer {
    type V = Seq<u8>;

    /// The pending bytes: those fed and not yet taken out as a line.
    closed spec fn view(&self) -> Seq<u8> {
        self.buf@.take(self.pos as int)
    }
}

impl LineBuffer {
    #[verifier::type_invariant]
    spec fn cursor_in_bounds(self) -> bool {
        self.pos <= CAPACITY
    }

    /// All the bytes of the buffer: the pending bytes, then stale ones.
    pub closed spec fn storage(&self) -> Seq<u8> {
        self.buf@
    }

    /// An empty buffer.
    pub fn new() -> (r: Self)
        ensures
            r@ == Seq::<u8>::empty(),
            r.storage() == Seq::new(CAPACITY as nat, |i: int| 0u8),
    {
        LineBuffer::default()
    }

    /// All the bytes of the buffer.
    pub fn buffer(&self) -> (r: &[u8])
        ensures
            r@ == self.storage(),
            r@.len() == CAPACITY,
            self@.len() <= CAPACITY,
            r@.take(self@.len() as int) == self@,
    {
        proof {
            use_type_invariant(self);
            assert(self.buf@.take(self@.len() as int) =~= self@);
        }
        &self.buf
    }

    /// Appends as much of `data` as there is room for, and returns how many
    /// bytes that was. Data that is not UTF-8 is refused as a whole.
    pub fn feed(&mut self, data: &[u8]) -> (r: Result<usize, Utf8Error>)
        ensures
            r is Ok <==> valid_utf8(data@),
            r is Err ==> *final(self) == *old(self),
            r matches Ok(n) ==> {
                &&& n == if data@.len() <= CAPACITY - old(self)@.len() {
                    data@.len() as int
                } else {
                    CAPACITY - old(self)@.len()
                }
                &&& final(self)@ == old(self)@ + data@.take(n as int)
                &&& final(self).storage() == old(self)@ + data@.take(n as int) + old(
                    self,
                ).storage().skip(old(self)@.len() + n)
            },
    {
        proof {
            use_type_invariant(&*self);
        }
        if let Err(e) = text_of(data) {
            return Err(e);
        }
        let room = 64 - self.pos;
        let copy_len = if data.len() < room { data.len() } else { room };
        let start = self.pos;
        let mut i: usize = 0;
        while i < copy_len
            invariant
                0 <= i <= copy_len,
                start + copy_len <= 64,
                copy_len <= data@.len(),
                self.pos == start,
                start == old(self).pos,
                forall|k: int| 0 <= k < start ==> self.buf@[k] == old(self).buf@[k],
                forall|k: int| start <= k < start + i ==> self.buf@[k] == data@[k - start],
                forall|k: int| start + i <= k < 64 ==> self.buf@[k] == old(self).buf@[k],
            decreases copy_len - i,
        {
            self.buf[start + i] = data[i];
            i += 1;
        }
        self.pos = start + copy_len;
        proof {
            let added = data@.take(copy_len as int);
            assert(self@ =~= old(self)@ + added);
            assert(self.storage() =~= old(self)@ + added + old(self).storage().skip(
                start + copy_len,
            ));
        }
        Ok(copy_len)
    }

    /// Length of the line that the buffer begins with, if it holds a line.
    fn line_end(&self) -> (r: Option<usize>)
        ensures
            match r {
                Some(n) => line_len(self@) == Some(n as int) && 0 < n <= self@.len() == self.pos,
                None => line_len(self@) is None,
            },
    {
        proof {
            use_type_invariant(self);
        }
        let ghost pending = self@;
        let mut i: usize = 0;
        while i < self.pos
            invariant
                0 <= i <= self.pos <= 64,
                pending == self@,
                forall|k: int| 0 <= k < i ==> !is_terminator(pending[k]),
            decreases self.pos - i,
        {
            let b = self.buf[i];
            if b == LINE_FEED || b == CARRIAGE_RETURN {
                proof {
                    lemma_first_terminator_is(pending, i as int);
                }
                return Some(i + 1);
            }
            i += 1;
        }
        proof {
            lemma_first_terminator_is(pending, pending.len() as int);
        }
        if self.pos >= 64 {
            Some(64)
        } else {
            None
        }
    }

    /// Takes the first line out of the buffer, copies it to the front of `s`
    /// and returns it as text.
    ///
    /// Without a line, and with a line that is not UTF-8, the buffer stays as
    /// it is. `s` has to have room for the line; room for a full buffer is
    /// always enough.
    pub fn get_line<'a>(&mut self, s: &'a mut [u8]) -> (r: Result<&'a str, ()>)
        requires
            old(s)@.len() >= CAPACITY || (line_len(old(self)@) matches Some(n) ==> n <= old(
                s,
            )@.len()),
        ensures
            match line_len(old(self)@) {
                None => r is Err && *final(self) == *old(self) && final(s)@ == old(s)@,
                Some(n) => {
                    let line = old(self)@.take(n);
                    &&& final(s)@ == line + old(s)@.skip(n)
                    &&& r is Ok <==> valid_utf8(line)
                    &&& r is Err ==> *final(self) == *old(self)
                    &&& r matches Ok(text) ==> {
                        &&& text.spec_bytes() == line
                        &&& final(self)@ == old(self)@.skip(n)
                        &&& final(self).storage() == old(self).storage().skip(n) + old(
                            self,
                        ).storage().skip(CAPACITY - n)
                    }
                },
            },
    {
        proof {
            use_type_invariant(&*self);
            lemma_first_terminator(self@, 0);
        }
        let ghost pending = self@;
        let copylen = self.line_end();
        if let Some(copylen) = copylen {
            let mut j: usize = 0;
            while j < copylen
                invariant
                    0 <= j <= copylen <= self.pos <= 64,
                    copylen <= s@.len(),
                    s@.len() == old(s)@.len(),
                    *self == *old(self),
                    forall|k: int| 0 <= k < j ==> s@[k] == self.buf@[k],
                    forall|k: int| j <= k < s@.len() ==> s@[k] == old(s)@[k],
                decreases copylen - j,
            {
                s[j] = self.buf[j];
                j += 1;
            }
            assert(s@ =~= pending.take(copylen as int) + old(s)@.skip(copylen as int));
            let line = vstd::slice::slice_subrange(s, 0, copylen);
            assert(line@ =~= pending.take(copylen as int));
            match text_of(line) {
                Ok(linestr) => {
                    let ghost before = self.buf@;
                    let rest = self.pos - copylen;
                    let mut k: usize = 0;
                    while k < 64 - copylen
                        invariant
                            0 <= k <= 64 - copylen,
                            0 < copylen <= 64,
                            self.pos == old(self).pos,
                            self.pos <= 64,
                            before == old(self).buf@,
                            forall|m: int| 0 <= m < k ==> self.buf@[m] == before[m + copylen],
                            forall|m: int| k <= m < 64 ==> self.buf@[m] == before[m],
                        decreases 64 - copylen - k,
                    {
                        self.buf[k] = self.buf[k + copylen];
                        k += 1;
                    }
                    self.pos = rest;
                    proof {
                        assert(self@ =~= pending.skip(copylen as int));
                        assert(self.storage() =~= before.skip(copylen as int) + before.skip(
                            64 - copylen,
                        ));
                    }
                    Ok(linestr)
                },
                Err(_) => Err(()),
            }
        } else {
            Err(())
        }
    }
}

} // verus!
