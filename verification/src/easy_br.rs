use crate::endian::{
    spec_u16_be, spec_u16_le, spec_u32_be, spec_u32_le, u16_be, u16_le, u32_be, u32_le,
};
use crate::error::ReadError;
use vstd::prelude::*;
use vstd::utf8::{decode_utf8, valid_utf8};

verus! {

/// What is left of `source` from `position` on; nothing once the position has
/// passed the end.
pub open spec fn rest(source: Seq<u8>, position: usize) -> Seq<u8> {
    if position <= source.len() {
        source.subrange(position as int, source.len() as int)
    } else {
        Seq::empty()
    }
}

/// The index of the first zero byte of `s`, or the length of `s` where it
/// holds none.
pub open spec fn first_zero(s: Seq<u8>) -> nat
    decreases s.len(),
{
    if s.len() == 0 || s[0] == 0 {
        0
    } else {
        1 + first_zero(s.drop_first())
    }
}

/// `first_zero` is `k` as soon as no byte before `k` is zero and `k` is the
/// end of `s` or the place of a zero.
pub proof fn lemma_first_zero(s: Seq<u8>, k: nat)
    requires
        k <= s.len(),
        forall|j: int| 0 <= j < k ==> s[j] != 0,
        k == s.len() || s[k as int] == 0,
    ensures
        first_zero(s) == k,
    decreases k,
{
    if k > 0 {
        let t = s.drop_first();
        assert forall|j: int| 0 <= j < k - 1 implies t[j] != 0 by {
            assert(t[j] == s[j + 1]);
        }
        lemma_first_zero(t, (k - 1) as nat);
    }
}

/// Calls `String::from_utf8`, which gives the text that the bytes encode
/// where they are valid UTF-8 and an error where they are not.
#[verifier::external_body]
pub(crate) fn string_from_utf8(bytes: Vec<u8>) -> (r: Option<String>)
    ensures
        match r {
            Some(s) => valid_utf8(bytes@) && s@ == decode_utf8(bytes@),
            None => !valid_utf8(bytes@),
        },
{
    String::from_utf8(bytes).ok()
}

/// Derived reads over any byte source that can hand out one byte, tell its
/// position and move to another.
///
/// An implementor supplies the model (`source`, `position`) and the three
/// primitive operations; every other read comes with the trait. A read that
/// fails leaves the position where it was.
pub trait EasyRead: Sized {
    /// Every byte of the source, from its first.
    spec fn source(&self) -> Seq<u8>;

    /// The offset of the byte that the next read starts at.
    spec fn position(&self) -> usize;

    /// The current offset from the start of the source.
    fn stream_position(&self) -> (pos: usize)
        ensures
            pos == self.position(),
    ;

    /// Moves to `pos`, which may lie behind the end of the source.
    fn seek(&mut self, pos: usize)
        ensures
            final(self).source() == old(self).source(),
            final(self).position() == pos,
    ;

    /// Reads one byte, or `None` once the source is exhausted.
    fn read_byte(&mut self) -> (r: Option<u8>)
        ensures
            final(self).source() == old(self).source(),
            match r {
                Some(b) => old(self).position() < old(self).source().len()
                    && b == old(self).source()[old(self).position() as int]
                    && final(self).position() == old(self).position() + 1,
                None => old(self).position() >= old(self).source().len()
                    && final(self).position() == old(self).position(),
            },
    ;

    /// Reads exactly `count` bytes, or fails where fewer are left.
    fn read_bytes(&mut self, count: usize) -> (r: Result<Vec<u8>, ReadError>)
        ensures
            final(self).source() == old(self).source(),
            match r {
                Ok(v) => count <= rest(old(self).source(), old(self).position()).len()
                    && v@ == rest(old(self).source(), old(self).position()).take(count as int)
                    && final(self).position() == old(self).position() + count,
                Err(e) => e == ReadError::UnexpectedEof
                    && count > rest(old(self).source(), old(self).position()).len()
                    && final(self).position() == old(self).position(),
            },
    {
        let start = self.stream_position();
        let ghost left = rest(old(self).source(), start);
        let mut buffer: Vec<u8> = Vec::new();
        let mut i: usize = 0;
        while i < count
            invariant
                i <= count,
                start == old(self).position(),
                left == rest(old(self).source(), start),
                self.source() == old(self).source(),
                self.position() == start + i,
                i <= left.len(),
                buffer@ == left.take(i as int),
            decreases count - i,
        {
            match self.read_byte() {
                Some(b) => {
                    assert(left[i as int] == b);
                    buffer.push(b);
                    assert(buffer@ =~= left.take(i + 1));
                    i += 1;
                },
                None => {
                    self.seek(start);
                    return Err(ReadError::UnexpectedEof);
                },
            }
        }
        Ok(buffer)
    }

    /// Reads whatever is left, up to the end of the source.
    fn read_to_end(&mut self) -> (r: Vec<u8>)
        ensures
            final(self).source() == old(self).source(),
            r@ == rest(old(self).source(), old(self).position()),
            final(self).position() == old(self).position() + r@.len(),
    {
        let start = self.stream_position();
        let ghost left = rest(old(self).source(), start);
        let mut buffer: Vec<u8> = Vec::new();
        loop
            invariant
                start == old(self).position(),
                left == rest(old(self).source(), start),
                self.source() == old(self).source(),
                self.position() == start + buffer@.len(),
                buffer@.len() <= left.len(),
                buffer@ == left.take(buffer@.len() as int),
            decreases left.len() - buffer@.len(),
        {
            match self.read_byte() {
                Some(b) => {
                    assert(left[buffer@.len() as int] == b);
                    let ghost before = buffer@;
                    buffer.push(b);
                    assert(buffer@ =~= left.take(before.len() as int + 1));
                },
                None => {
                    assert(buffer@ =~= left);
                    return buffer;
                },
            }
        }
    }

    /// Reads two bytes as a number, least significant byte first.
    fn read_u16_le(&mut self) -> (r: Result<u16, ReadError>)
        ensures
            final(self).source() == old(self).source(),
            match r {
                Ok(x) => 2 <= rest(old(self).source(), old(self).position()).len()
                    && x == spec_u16_le(rest(old(self).source(), old(self).position()))
                    && final(self).position() == old(self).position() + 2,
                Err(e) => e == ReadError::UnexpectedEof
                    && 2 > rest(old(self).source(), old(self).position()).len()
                    && final(self).position() == old(self).position(),
            },
    {
        match self.read_bytes(2) {
            Ok(buf) => Ok(u16_le(buf.as_slice())),
            Err(e) => Err(e),
        }
    }

    /// Reads two bytes as a number, most significant byte first.
    fn read_u16_be(&mut self) -> (r: Result<u16, ReadError>)
        ensures
            final(self).source() == old(self).source(),
            match r {
                Ok(x) => 2 <= rest(old(self).source(), old(self).position()).len()
                    && x == spec_u16_be(rest(old(self).source(), old(self).position()))
                    && final(self).position() == old(self).position() + 2,
                Err(e) => e == ReadError::UnexpectedEof
                    && 2 > rest(old(self).source(), old(self).position()).len()
                    && final(self).position() == old(self).position(),
            },
    {
        match self.read_bytes(2) {
            Ok(buf) => Ok(u16_be(buf.as_slice())),
            Err(e) => Err(e),
        }
    }

    /// Reads four bytes as a number, least significant byte first.
    fn read_u32_le(&mut self) -> (r: Result<u32, ReadError>)
        ensures
            final(self).source() == old(self).source(),
            match r {
                Ok(x) => 4 <= rest(old(self).source(), old(self).position()).len()
                    && x == spec_u32_le(rest(old(self).source(), old(self).position()))
                    && final(self).position() == old(self).position() + 4,
                Err(e) => e == ReadError::UnexpectedEof
                    && 4 > rest(old(self).source(), old(self).position()).len()
                    && final(self).position() == old(self).position(),
            },
    {
        match self.read_bytes(4) {
            Ok(buf) => Ok(u32_le(buf.as_slice())),
            Err(e) => Err(e),
        }
    }

    /// Reads four bytes as a number, most significant byte first.
    fn read_u32_be(&mut self) -> (r: Result<u32, ReadError>)
        ensures
            final(self).source() == old(self).source(),
            match r {
                Ok(x) => 4 <= rest(old(self).source(), old(self).position()).len()
                    && x == spec_u32_be(rest(old(self).source(), old(self).position()))
                    && final(self).position() == old(self).position() + 4,
                Err(e) => e == ReadError::UnexpectedEof
                    && 4 > rest(old(self).source(), old(self).position()).len()
                    && final(self).position() == old(self).position(),
            },
    {
        match self.read_bytes(4) {
            Ok(buf) => Ok(u32_be(buf.as_slice())),
            Err(e) => Err(e),
        }
    }

    /// Reads text up to the next zero byte and steps over that byte.
    ///
    /// Fails with `UnexpectedEof` where no zero byte is left, and with
    /// `InvalidUtf8` where the bytes before it are not UTF-8.
    fn read_cstring(&mut self) -> (r: Result<String, ReadError>)
        ensures
            final(self).source() == old(self).source(),
            ({
                let left = rest(old(self).source(), old(self).position());
                let k = first_zero(left);
                match r {
                    Ok(s) => k < left.len() && valid_utf8(left.take(k as int))
                        && s@ == decode_utf8(left.take(k as int))
                        && final(self).position() == old(self).position() + k + 1,
                    Err(ReadError::UnexpectedEof) => k == left.len()
                        && final(self).position() == old(self).position(),
                    Err(ReadError::InvalidUtf8) => k < left.len()
                        && !valid_utf8(left.take(k as int))
                        && final(self).position() == old(self).position(),
                }
            }),
    {
        let start = self.stream_position();
        let ghost left = rest(old(self).source(), start);
        let mut buffer: Vec<u8> = Vec::new();
        loop
            invariant
                start == old(self).position(),
                left == rest(old(self).source(), start),
                self.source() == old(self).source(),
                self.position() == start + buffer@.len(),
                buffer@.len() <= left.len(),
                buffer@ == left.take(buffer@.len() as int),
                forall|j: int| 0 <= j < buffer@.len() ==> left[j] != 0,
            decreases left.len() - buffer@.len(),
        {
            match self.read_byte() {
                Some(b) => {
                    assert(left[buffer@.len() as int] == b);
                    if b == 0 {
                        proof {
                            lemma_first_zero(left, buffer@.len());
                        }
                        match string_from_utf8(buffer) {
                            Some(s) => {
                                return Ok(s);
                            },
                            None => {
                                self.seek(start);
                                return Err(ReadError::InvalidUtf8);
                            },
                        }
                    }
                    let ghost before = buffer@;
                    buffer.push(b);
                    assert(buffer@ =~= left.take(before.len() as int + 1));
                },
                None => {
                    proof {
                        lemma_first_zero(left, buffer@.len());
                    }
                    self.seek(start);
                    return Err(ReadError::UnexpectedEof);
                },
            }
        }
    }

    /// Reads exactly `len` bytes and gives the text before their first zero
    /// byte, or all of them where none is zero.
    ///
    /// Fails with `UnexpectedEof` where fewer than `len` bytes are left, and
    /// with `InvalidUtf8` where the text is not UTF-8.
    fn read_count_string(&mut self, len: usize) -> (r: Result<String, ReadError>)
        ensures
            final(self).source() == old(self).source(),
            ({
                let left = rest(old(self).source(), old(self).position());
                let field = left.take(len as int);
                let text = field.take(first_zero(field) as int);
                match r {
                    Ok(s) => len <= left.len() && valid_utf8(text) && s@ == decode_utf8(text)
                        && final(self).position() == old(self).position() + len,
                    Err(ReadError::UnexpectedEof) => len > left.len()
                        && final(self).position() == old(self).position(),
                    Err(ReadError::InvalidUtf8) => len <= left.len() && !valid_utf8(text)
                        && final(self).position() == old(self).position(),
                }
            }),
    {
        let start = self.stream_position();
        let mut field = match self.read_bytes(len) {
            Ok(field) => field,
            Err(e) => {
                return Err(e);
            },
        };
        let ghost whole = field@;
        let mut k: usize = 0;
        while k < field.len() && field[k] != 0
            invariant
                k <= field.len(),
                field@ == whole,
                forall|j: int| 0 <= j < k ==> whole[j] != 0,
            decreases field.len() - k,
        {
            k += 1;
        }
        proof {
            lemma_first_zero(whole, k as nat);
        }
        field.truncate(k);
        assert(field@ =~= whole.take(k as int));
        match string_from_utf8(field) {
            Some(s) => Ok(s),
            None => {
                self.seek(start);
                Err(ReadError::InvalidUtf8)
            },
        }
    }

    /// Runs `f` at the absolute offset `offset` and then moves back to where
    /// the source stood before, whether `f` succeeded or failed.
    ///
    /// `f` must accept a source that stands at `offset`, and must leave the
    /// content of the source as it found it, as every read of this trait does.
    fn read_at<T, F: FnOnce(&mut Self) -> Result<T, ReadError>>(
        &mut self,
        offset: usize,
        f: F,
    ) -> (r: Result<T, ReadError>)
        requires
            forall|s: &mut Self|
                s.source() == old(self).source() && s.position() == offset ==> call_requires(
                    f,
                    (s,),
                ),
            forall|s: &mut Self, out: Result<T, ReadError>|
                call_ensures(f, (s,), out) ==> final(s).source() == s.source(),
        ensures
            final(self).source() == old(self).source(),
            final(self).position() == old(self).position(),
            exists|s: &mut Self|
                s.source() == old(self).source() && s.position() == offset && call_ensures(
                    f,
                    (s,),
                    r,
                ),
    {
        let start = self.stream_position();
        self.seek(offset);
        let r = f(self);
        self.seek(start);
        r
    }
}

/// A byte source held in memory.
pub struct ByteCursor {
    data: Vec<u8>,
    pos: usize,
}

impl ByteCursor {
    /// A cursor over `data` that stands at its first byte.
    pub fn new(data: Vec<u8>) -> (r: ByteCursor)
        ensures
            r.source() == data@,
            r.position() == 0,
    {
        ByteCursor { data, pos: 0 }
    }

    /// Gives the bytes back.
    pub fn into_inner(self) -> (r: Vec<u8>)
        ensures
            r@ == self.source(),
    {
        self.data
    }
}

impl EasyRead for ByteCursor {
    closed spec fn source(&self) -> Seq<u8> {
        self.data@
    }

    closed spec fn position(&self) -> usize {
        self.pos
    }

    fn stream_position(&self) -> (pos: usize) {
        self.pos
    }

    fn seek(&mut self, pos: usize) {
        self.pos = pos;
    }

    fn read_byte(&mut self) -> (r: Option<u8>) {
        if self.pos < self.data.len() {
            let b = self.data[self.pos];
            self.pos = self.pos + 1;
            Some(b)
        } else {
            None
        }
    }
}

} // verus!
