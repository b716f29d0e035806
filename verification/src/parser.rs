use vstd::prelude::*;
use crate::bytes::{be_uint, lemma_be_uint_bound, lemma_be_uint_split};
use crate::error::ParseError;

verus! {

/// A bounds-checked big-endian reader over a byte buffer that it never changes.
pub struct Parser {
    source: Vec<u8>,
    offset: usize,
}

impl Parser {
    #[verifier::type_invariant]
    spec fn in_bounds(self) -> bool {
        self.offset <= self.source@.len()
    }

    /// The bytes of the buffer.
    pub closed spec fn bytes(self) -> Seq<u8> {
        self.source@
    }

    /// How many bytes have been consumed.
    pub closed spec fn pos(self) -> nat {
        self.offset as nat
    }

    /// How many bytes are still unread.
    pub open spec fn left(self) -> int {
        self.bytes().len() - self.pos()
    }

    /// That a decoder left the buffer as it was and returned what `model`
    /// gives for the place it started from: on success the same value, with
    /// the cursor at the model's next position; on failure the same error,
    /// with the cursor where it stood.
    pub open spec fn decoded<T>(
        self,
        after: Parser,
        r: Result<T, ParseError>,
        model: Result<(T, int), ParseError>,
    ) -> bool {
        &&& after.bytes() == self.bytes()
        &&& self.pos() <= after.pos()
        &&& match r {
            Ok(v) => model == Ok::<(T, int), ParseError>((v, after.pos() as int)),
            Err(e) => model == Err::<(T, int), ParseError>(e) && after.pos() == self.pos(),
        }
    }

    /// As `decoded`, for a decoder whose result is compared by its view.
    pub open spec fn decoded_as<T: View>(
        self,
        after: Parser,
        r: Result<T, ParseError>,
        model: Result<(T::V, int), ParseError>,
    ) -> bool {
        &&& after.bytes() == self.bytes()
        &&& self.pos() <= after.pos()
        &&& match r {
            Ok(v) => model == Ok::<(T::V, int), ParseError>((v@, after.pos() as int)),
            Err(e) => model == Err::<(T::V, int), ParseError>(e) && after.pos() == self.pos(),
        }
    }

    /// That a chunk decoder was given `size` and, where that many bytes were
    /// left, returned what `model` holds for them: on success the cursor
    /// stands behind the `size` bytes, on failure where it stood.
    pub open spec fn decoded_chunk<T: View>(
        self,
        after: Parser,
        size: usize,
        r: Result<T, ParseError>,
        model: Result<T::V, ParseError>,
    ) -> bool {
        &&& after.bytes() == self.bytes()
        &&& match r {
            Ok(v) => size <= self.left() && model == Ok::<T::V, ParseError>(v@) && after.pos()
                == self.pos() + size,
            Err(e) => after.pos() == self.pos() && if size > self.left() {
                e == ParseError::UnexpectedEof
            } else {
                model == Err::<T::V, ParseError>(e)
            },
        }
    }

    /// A reader at the start of `source`.
    pub fn new(source: Vec<u8>) -> (p: Parser)
        ensures
            p.bytes() == source@,
            p.pos() == 0,
    {
        Parser { source, offset: 0 }
    }

    /// How many bytes have been consumed.
    pub fn position(&self) -> (n: usize)
        ensures
            n == self.pos(),
    {
        self.offset
    }

    /// How many bytes are still unread.
    pub fn remaining(&self) -> (n: usize)
        ensures
            n == self.left(),
    {
        proof {
            use_type_invariant(self);
        }
        self.source.len() - self.offset
    }

    /// Succeeds if at least `n` bytes are still unread.
    pub fn ensure(&self, n: usize) -> (r: Result<(), ParseError>)
        ensures
            r == (if n <= self.left() { Ok(()) } else { Err(ParseError::UnexpectedEof) }),
    {
        if n <= self.remaining() {
            Ok(())
        } else {
            Err(ParseError::UnexpectedEof)
        }
    }

    /// Reads the next byte.
    pub fn read_u8(&mut self) -> (r: Result<u8, ParseError>)
        ensures
            final(self).bytes() == old(self).bytes(),
            old(self).left() >= 1 ==> r == Ok::<u8, ParseError>(
                old(self).bytes()[old(self).pos() as int],
            ) && final(self).pos() == old(self).pos() + 1,
            old(self).left() < 1 ==> r == Err::<u8, ParseError>(ParseError::UnexpectedEof)
                && final(self).pos() == old(self).pos(),
    {
        proof {
            use_type_invariant(&*self);
        }
        if self.offset >= self.source.len() {
            return Err(ParseError::UnexpectedEof);
        }
        let b = self.source[self.offset];
        self.offset += 1;
        Ok(b)
    }

    /// The byte `off` places after the cursor.
    pub fn get(&self, off: usize) -> (b: u8)
        requires
            off < self.left(),
        ensures
            b == self.bytes()[self.pos() + off as int],
    {
        proof {
            use_type_invariant(self);
            assert(self.source@.len() == self.source.len());
        }
        self.source[self.offset + off]
    }

    /// Consumes `tag` if the next four bytes are `tag`; otherwise stays where it is.
    pub fn try_match4(&mut self, tag: [u8; 4]) -> (r: Result<bool, ParseError>)
        ensures
            final(self).bytes() == old(self).bytes(),
            r == old(self).spec_try_match4(tag@),
            final(self).pos() == old(self).pos() + (if r == Ok::<bool, ParseError>(true) {
                4int
            } else {
                0int
            }),
    {
        if self.remaining() < 4 {
            return Err(ParseError::UnexpectedEof);
        }
        if self.get(0) == tag[0] && self.get(1) == tag[1] && self.get(2) == tag[2] && self.get(3)
            == tag[3] {
            proof {
                use_type_invariant(&*self);
                assert(self.source@.len() == self.source.len());
                assert(self.bytes().subrange(self.pos() as int, self.pos() as int + 4) =~= tag@);
            }
            self.offset += 4;
            Ok(true)
        } else {
            Ok(false)
        }
    }

    /// What `try_match4` returns on this cursor.
    pub open spec fn spec_try_match4(self, tag: Seq<u8>) -> Result<bool, ParseError> {
        if self.left() < 4 {
            Err(ParseError::UnexpectedEof)
        } else {
            Ok(self.bytes().subrange(self.pos() as int, self.pos() as int + 4) == tag)
        }
    }

    /// Consumes `tag`, which must be the next four bytes.
    pub fn match4(&mut self, tag: [u8; 4]) -> (r: Result<(), ParseError>)
        ensures
            final(self).bytes() == old(self).bytes(),
            r == (match old(self).spec_try_match4(tag@) {
                Ok(true) => Ok(()),
                Ok(false) => Err(ParseError::MalformedMagic),
                Err(e) => Err(e),
            }),
            final(self).pos() == old(self).pos() + (if r is Ok { 4int } else { 0int }),
    {
        if self.try_match4(tag)? {
            Ok(())
        } else {
            Err(ParseError::MalformedMagic)
        }
    }

    /// Reads the next two bytes as one number, the high byte first.
    pub fn read_u16(&mut self) -> (r: Result<u16, ParseError>)
        ensures
            final(self).bytes() == old(self).bytes(),
            old(self).left() >= 2 ==> r == Ok::<u16, ParseError>(
                be_uint(old(self).bytes(), old(self).pos() as int, 2) as u16,
            ) && final(self).pos() == old(self).pos() + 2,
            old(self).left() < 2 ==> r == Err::<u16, ParseError>(ParseError::UnexpectedEof)
                && final(self).pos() == old(self).pos(),
    {
        if self.remaining() < 2 {
            return Err(ParseError::UnexpectedEof);
        }
        let hi = self.get(0);
        let lo = self.get(1);
        proof {
            use_type_invariant(&*self);
            assert(self.source@.len() == self.source.len());
            reveal_with_fuel(be_uint, 3);
        }
        self.offset += 2;
        Ok((hi as u16) * 256 + (lo as u16))
    }

    /// Reads the next four bytes as one number, the highest byte first.
    pub fn read_u32(&mut self) -> (r: Result<u32, ParseError>)
        ensures
            final(self).bytes() == old(self).bytes(),
            old(self).left() >= 4 ==> r == Ok::<u32, ParseError>(
                be_uint(old(self).bytes(), old(self).pos() as int, 4) as u32,
            ) && final(self).pos() == old(self).pos() + 4,
            old(self).left() < 4 ==> r == Err::<u32, ParseError>(ParseError::UnexpectedEof)
                && final(self).pos() == old(self).pos(),
    {
        if self.remaining() < 4 {
            return Err(ParseError::UnexpectedEof);
        }
        let hi = self.read_u16()?;
        let lo = self.read_u16()?;
        proof {
            lemma_be_uint_split(old(self).bytes(), old(self).pos() as int, 2, 2);
            lemma_be_uint_bound(old(self).bytes(), old(self).pos() as int, 2);
            lemma_be_uint_bound(old(self).bytes(), old(self).pos() as int + 2, 2);
        }
        Ok((hi as u32) * 65536 + (lo as u32))
    }

    /// Reads the next eight bytes as one number, the highest byte first.
    pub fn read_u64(&mut self) -> (r: Result<u64, ParseError>)
        ensures
            final(self).bytes() == old(self).bytes(),
            old(self).left() >= 8 ==> r == Ok::<u64, ParseError>(
                be_uint(old(self).bytes(), old(self).pos() as int, 8) as u64,
            ) && final(self).pos() == old(self).pos() + 8,
            old(self).left() < 8 ==> r == Err::<u64, ParseError>(ParseError::UnexpectedEof)
                && final(self).pos() == old(self).pos(),
    {
        if self.remaining() < 8 {
            return Err(ParseError::UnexpectedEof);
        }
        let hi = self.read_u32()?;
        let lo = self.read_u32()?;
        proof {
            lemma_be_uint_split(old(self).bytes(), old(self).pos() as int, 4, 4);
            lemma_be_uint_bound(old(self).bytes(), old(self).pos() as int, 4);
            lemma_be_uint_bound(old(self).bytes(), old(self).pos() as int + 4, 4);
        }
        Ok((hi as u64) * 4294967296 + (lo as u64))
    }

    /// The next `size` bytes.
    pub open spec fn window(self, size: usize) -> Seq<u8> {
        self.bytes().subrange(self.pos() as int, self.pos() + size)
    }

    /// Copies the next `size` bytes out and stays where it is.
    pub fn peek_slice(&self, size: usize) -> (r: Result<Vec<u8>, ParseError>)
        ensures
            size <= self.left() ==> (r matches Ok(v) && v@ == self.window(size)),
            size > self.left() ==> r == Err::<Vec<u8>, ParseError>(ParseError::UnexpectedEof),
    {
        if size > self.remaining() {
            return Err(ParseError::UnexpectedEof);
        }
        let mut out: Vec<u8> = Vec::with_capacity(size);
        let mut i: usize = 0;
        while i < size
            invariant
                i <= size <= self.left(),
                out@ == self.bytes().subrange(self.pos() as int, self.pos() + i),
            decreases size - i,
        {
            out.push(self.get(i));
            i += 1;
            assert(out@ =~= self.bytes().subrange(self.pos() as int, self.pos() + i));
        }
        Ok(out)
    }

    /// Moves past the next `size` bytes.
    pub fn skip(&mut self, size: usize) -> (r: Result<(), ParseError>)
        ensures
            final(self).bytes() == old(self).bytes(),
            size <= old(self).left() ==> r is Ok && final(self).pos() == old(self).pos() + size,
            size > old(self).left() ==> r == Err::<(), ParseError>(ParseError::UnexpectedEof)
                && final(self).pos() == old(self).pos(),
    {
        if size > self.remaining() {
            return Err(ParseError::UnexpectedEof);
        }
        proof {
            use_type_invariant(&*self);
            assert(self.source@.len() == self.source.len());
        }
        self.offset += size;
        Ok(())
    }

    /// Hands `r` on and, where it is a failure, moves the cursor back to
    /// `start`, a position that it has passed.
    pub(crate) fn settle<T>(&mut self, start: usize, r: Result<T, ParseError>) -> (out: Result<
        T,
        ParseError,
    >)
        requires
            start <= old(self).pos(),
        ensures
            out == r,
            final(self).bytes() == old(self).bytes(),
            final(self).pos() == (if r is Ok { old(self).pos() } else { start as nat }),
    {
        if r.is_err() {
            proof {
                use_type_invariant(&*self);
            }
            self.offset = start;
        }
        r
    }

    /// Copies the next `size` bytes out and moves past them.
    pub fn slice(&mut self, size: usize) -> (r: Result<Vec<u8>, ParseError>)
        ensures
            final(self).bytes() == old(self).bytes(),
            size <= old(self).left() ==> (r matches Ok(v) && v@ == old(self).window(size))
                && final(self).pos() == old(self).pos() + size,
            size > old(self).left() ==> r == Err::<Vec<u8>, ParseError>(ParseError::UnexpectedEof)
                && final(self).pos() == old(self).pos(),
    {
        let out = self.peek_slice(size)?;
        self.skip(size)?;
        Ok(out)
    }
}

} // verus!
