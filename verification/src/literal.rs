use vstd::prelude::*;
use crate::ast::{blobs_view, ChunkBody, ChunkBodyView};
use crate::bytes::lemma_be_uint_bound;
use crate::error::ParseError;
use crate::parser::Parser;
use crate::tables::word;

verus! {

/// The length of what stands before the compressed data in a literal chunk:
/// the word of the declared size and the two bytes of the zlib header.
pub const LITERAL_HEADER_LEN: usize = 6;

#[verifier::external_type_specification]
#[verifier::external_body]
pub struct ExDecompressError(miniz_oxide::inflate::DecompressError);

/// What `miniz_oxide::inflate::decompress_to_vec_with_limit` makes of the raw
/// deflate stream `input` when the output may grow to `limit` bytes: the
/// inflated bytes, or nothing where it reports an error.
pub uninterp spec fn inflated(input: Seq<u8>, limit: nat) -> Option<Seq<u8>>;

/// Calls `miniz_oxide::inflate::decompress_to_vec_with_limit`. The contract
/// only gives the call's outcome its name: which bytes come out, and for
/// which inputs the call reports an error, is the outside crate's matter.
#[verifier::external_body]
fn inflate_bytes(input: &Vec<u8>, limit: usize) -> (r: Result<
    Vec<u8>,
    miniz_oxide::inflate::DecompressError,
>)
    ensures
        match r {
            Ok(data) => inflated(input@, limit as nat) == Some(data@),
            Err(_) => inflated(input@, limit as nat) is None,
        },
{
    miniz_oxide::inflate::decompress_to_vec_with_limit(input.as_slice(), limit)
}

/// `acc` followed by the next `n` blobs, read from `at`: each is a word of
/// length and that many bytes.
pub open spec fn blobs(s: Seq<u8>, at: int, n: nat, acc: Seq<Seq<u8>>) -> Result<
    Seq<Seq<u8>>,
    ParseError,
>
    decreases n,
{
    if n == 0 {
        Ok(acc)
    } else if at + 4 > s.len() || at + 4 + word(s, at) > s.len() {
        Err(ParseError::UnexpectedEof)
    } else {
        blobs(
            s,
            at + 4 + word(s, at),
            (n - 1) as nat,
            acc.push(s.subrange(at + 4, at + 4 + word(s, at))),
        )
    }
}

/// The literal table that the inflated data `data` holds, where `declared`
/// bytes were announced: the data must have come out, and in that length;
/// it starts with a count and holds that many blobs.
pub open spec fn literal_table(data: Option<Seq<u8>>, declared: u32) -> Result<
    ChunkBodyView,
    ParseError,
> {
    match data {
        None => Err(ParseError::CorruptLiteralTable),
        Some(d) => if d.len() != declared {
            Err(ParseError::CorruptLiteralTable)
        } else if d.len() < 4 {
            Err(ParseError::UnexpectedEof)
        } else {
            match blobs(d, 4, word(d, 0) as nat, Seq::empty()) {
                Err(e) => Err(e),
                Ok(list) => Ok(ChunkBodyView::LiteralTable(list)),
            }
        },
    }
}

/// The literal table of a chunk with the payload `s`: the declared size of
/// the inflated data, two bytes that are passed over, and the deflate stream.
pub open spec fn literal_chunk(s: Seq<u8>) -> Result<ChunkBodyView, ParseError> {
    if s.len() < LITERAL_HEADER_LEN {
        Err(ParseError::UnexpectedEof)
    } else {
        literal_table(
            inflated(s.subrange(LITERAL_HEADER_LEN as int, s.len() as int), word(s, 0) as nat),
            word(s, 0),
        )
    }
}

/// A literal chunk whose data inflates to another length than it declares is
/// corrupt.
pub proof fn lemma_literal_size_mismatch(s: Seq<u8>, data: Seq<u8>)
    requires
        s.len() >= LITERAL_HEADER_LEN,
        inflated(s.subrange(LITERAL_HEADER_LEN as int, s.len() as int), word(s, 0) as nat) == Some(
            data,
        ),
        data.len() != word(s, 0),
    ensures
        literal_chunk(s) == Err::<ChunkBodyView, ParseError>(ParseError::CorruptLiteralTable),
{
}

/// Reads the literal table out of the inflated data, of which `declared`
/// bytes were announced. `data` is `None` where inflating failed.
pub fn literal_table_from(data: Option<Vec<u8>>, declared: u32) -> (r: Result<
    ChunkBody,
    ParseError,
>)
    ensures
        match literal_table(
            match data {
                Some(d) => Some(d@),
                None => None,
            },
            declared,
        ) {
            Ok(body) => r matches Ok(b) && b@ == body,
            Err(e) => r matches Err(f) && f == e,
        },
{
    let d = match data {
        Some(d) => d,
        None => { return Err(ParseError::CorruptLiteralTable); },
    };
    if d.len() != declared as usize {
        return Err(ParseError::CorruptLiteralTable);
    }
    let ghost s = d@;
    let mut p = Parser::new(d);
    let count = p.read_u32()?;
    proof {
        lemma_be_uint_bound(s, 0, 4);
    }
    let mut list: Vec<Vec<u8>> = Vec::new();
    let mut i: u32 = 0;
    assert(blobs_view(list@) =~= Seq::<Seq<u8>>::empty());
    while i < count
        invariant
            i <= count,
            data matches Some(d0) && d0@ == s,
            s.len() == declared,
            s.len() >= 4,
            count == word(s, 0),
            p.bytes() == s,
            p.pos() <= s.len(),
            blobs(s, 4, count as nat, Seq::empty()) == blobs(
                s,
                p.pos() as int,
                (count - i) as nat,
                blobs_view(list@),
            ),
        decreases count - i,
    {
        let ghost before = list@;
        proof {
            lemma_be_uint_bound(s, p.pos() as int, 4);
        }
        let size = p.read_u32()?;
        let blob = p.slice(size as usize)?;
        list.push(blob);
        assert(blobs_view(list@) =~= blobs_view(before).push(blob@));
        i += 1;
    }
    Ok(ChunkBody::LiteralTable(list))
}

/// Decodes the payload of a literal chunk.
pub fn decode_literal_chunk(payload: Vec<u8>) -> (r: Result<ChunkBody, ParseError>)
    ensures
        match literal_chunk(payload@) {
            Ok(body) => r matches Ok(b) && b@ == body,
            Err(e) => r matches Err(f) && f == e,
        },
{
    let ghost s = payload@;
    let mut p = Parser::new(payload);
    if p.remaining() < LITERAL_HEADER_LEN {
        return Err(ParseError::UnexpectedEof);
    }
    let declared = p.read_u32()?;
    p.skip(2)?;
    let raw = p.slice(p.remaining())?;
    proof {
        lemma_be_uint_bound(s, 0, 4);
        assert(raw@ =~= s.subrange(LITERAL_HEADER_LEN as int, s.len() as int));
    }
    let data = match inflate_bytes(&raw, declared as usize) {
        Ok(d) => Some(d),
        Err(_) => None,
    };
    literal_table_from(data, declared)
}

impl Parser {
    /// Decodes a literal chunk of `size` bytes and moves past it.
    pub fn parse_literal_chunk(&mut self, size: usize) -> (r: Result<ChunkBody, ParseError>)
        ensures
            old(self).decoded_chunk(*final(self), size, r, literal_chunk(old(self).window(size))),
    {
        let payload = self.peek_slice(size)?;
        let body = decode_literal_chunk(payload)?;
        self.skip(size)?;
        Ok(body)
    }
}

} // verus!
