use vstd::prelude::*;
use crate::ast::{chunks_view, Ast, Chunk, ChunkBody, ChunkBodyView, ChunkKind, ChunkView};
use crate::bytes::lemma_be_uint_bound;
use crate::code::code_chunk;
use crate::error::ParseError;
use crate::literal::literal_chunk;
use crate::parser::Parser;
use crate::tables::{atom_table, export_table, function_table, import_table, word};

verus! {

/// The four bytes `a`, `b`, `c`, `d` as a sequence.
pub open spec fn tag4(a: u8, b: u8, c: u8, d: u8) -> Seq<u8> {
    seq![a, b, c, d]
}

/// The kind that a chunk tag names.
pub open spec fn chunk_kind(tag: Seq<u8>) -> Option<ChunkKind> {
    if tag == tag4(0x41, 0x74, 0x6f, 0x6d) {  // "Atom"
        Some(ChunkKind::Atom)
    } else if tag == tag4(0x45, 0x78, 0x70, 0x54) {  // "ExpT"
        Some(ChunkKind::Export)
    } else if tag == tag4(0x49, 0x6d, 0x70, 0x54) {  // "ImpT"
        Some(ChunkKind::Import)
    } else if tag == tag4(0x43, 0x6f, 0x64, 0x65) {  // "Code"
        Some(ChunkKind::Code)
    } else if tag == tag4(0x53, 0x74, 0x72, 0x54) {  // "StrT"
        Some(ChunkKind::String)
    } else if tag == tag4(0x4c, 0x69, 0x74, 0x54) {  // "LitT"
        Some(ChunkKind::Literal)
    } else if tag == tag4(0x46, 0x75, 0x6e, 0x54) {  // "FunT"
        Some(ChunkKind::Function)
    } else if tag == tag4(0x41, 0x74, 0x74, 0x72) {  // "Attr"
        Some(ChunkKind::Attr)
    } else if tag == tag4(0x43, 0x49, 0x6e, 0x66) {  // "CInf"
        Some(ChunkKind::CInfo)
    } else if tag == tag4(0x4c, 0x6f, 0x63, 0x54) {  // "LocT"
        Some(ChunkKind::Local)
    } else if tag == tag4(0x41, 0x62, 0x73, 0x74) {  // "Abst"
        Some(ChunkKind::Abst)
    } else if tag == tag4(0x4c, 0x69, 0x6e, 0x65) {  // "Line"
        Some(ChunkKind::Line)
    } else if tag == tag4(0x54, 0x72, 0x61, 0x63) {  // "Trac"
        Some(ChunkKind::Trace)
    } else {
        None
    }
}

impl Parser {
    /// Whether the next four bytes are `a`, `b`, `c`, `d`; consumes them if so.
    fn tag_is(&mut self, a: u8, b: u8, c: u8, d: u8) -> (yes: bool)
        requires
            old(self).left() >= 4,
        ensures
            final(self).bytes() == old(self).bytes(),
            yes == (old(self).window(4) == tag4(a, b, c, d)),
            final(self).pos() == old(self).pos() + (if yes { 4int } else { 0int }),
    {
        let tag = [a, b, c, d];
        assert(tag@ =~= tag4(a, b, c, d));
        match self.try_match4(tag) {
            Ok(yes) => yes,
            Err(_) => false,
        }
    }

    /// Reads a chunk tag and says which kind it names. An unknown tag is
    /// refused, and not consumed.
    pub fn parse_chunk_kind(&mut self) -> (r: Result<ChunkKind, ParseError>)
        ensures
            final(self).bytes() == old(self).bytes(),
            r == (if old(self).left() < 4 {
                Err(ParseError::UnexpectedEof)
            } else {
                match chunk_kind(old(self).window(4)) {
                    Some(kind) => Ok(kind),
                    None => Err(ParseError::UnknownChunkTag),
                }
            }),
            final(self).pos() == old(self).pos() + (if r is Ok { 4int } else { 0int }),
    {
        if self.remaining() < 4 {
            return Err(ParseError::UnexpectedEof);
        }
        if self.tag_is(0x41, 0x74, 0x6f, 0x6d) {  // "Atom"
            Ok(ChunkKind::Atom)
        } else if self.tag_is(0x45, 0x78, 0x70, 0x54) {  // "ExpT"
            Ok(ChunkKind::Export)
        } else if self.tag_is(0x49, 0x6d, 0x70, 0x54) {  // "ImpT"
            Ok(ChunkKind::Import)
        } else if self.tag_is(0x43, 0x6f, 0x64, 0x65) {  // "Code"
            Ok(ChunkKind::Code)
        } else if self.tag_is(0x53, 0x74, 0x72, 0x54) {  // "StrT"
            Ok(ChunkKind::String)
        } else if self.tag_is(0x4c, 0x69, 0x74, 0x54) {  // "LitT"
            Ok(ChunkKind::Literal)
        } else if self.tag_is(0x46, 0x75, 0x6e, 0x54) {  // "FunT"
            Ok(ChunkKind::Function)
        } else if self.tag_is(0x41, 0x74, 0x74, 0x72) {  // "Attr"
            Ok(ChunkKind::Attr)
        } else if self.tag_is(0x43, 0x49, 0x6e, 0x66) {  // "CInf"
            Ok(ChunkKind::CInfo)
        } else if self.tag_is(0x4c, 0x6f, 0x63, 0x54) {  // "LocT"
            Ok(ChunkKind::Local)
        } else if self.tag_is(0x41, 0x62, 0x73, 0x74) {  // "Abst"
            Ok(ChunkKind::Abst)
        } else if self.tag_is(0x4c, 0x69, 0x6e, 0x65) {  // "Line"
            Ok(ChunkKind::Line)
        } else if self.tag_is(0x54, 0x72, 0x61, 0x63) {  // "Trac"
            Ok(ChunkKind::Trace)
        } else {
            Err(ParseError::UnknownChunkTag)
        }
    }
}

/// The body of a table whose records must fill the payload of `len` bytes:
/// bytes left over behind the last record are no part of a table, and stand
/// where no chunk can begin.
pub open spec fn filling(table: Result<(ChunkBodyView, int), ParseError>, len: nat) -> Result<
    ChunkBodyView,
    ParseError,
> {
    match table {
        Err(e) => Err(e),
        Ok((body, next)) => if next == len {
            Ok(body)
        } else {
            Err(ParseError::UnknownChunkTag)
        },
    }
}

/// What a chunk of kind `kind` holds whose payload is `s`. A chunk without
/// payload is empty, whatever its kind; a chunk of a kind that is not
/// decoded keeps its bytes.
pub open spec fn chunk_body(kind: ChunkKind, s: Seq<u8>) -> Result<ChunkBodyView, ParseError> {
    if s.len() == 0 {
        Ok(ChunkBodyView::Empty)
    } else {
        match kind {
            ChunkKind::Atom => filling(atom_table(s, 0), s.len()),
            ChunkKind::Import => filling(import_table(s, 0), s.len()),
            ChunkKind::Export => filling(export_table(s, 0), s.len()),
            ChunkKind::Local => filling(export_table(s, 0), s.len()),
            ChunkKind::Function => filling(function_table(s, 0), s.len()),
            ChunkKind::Code => match code_chunk(s) {
                Ok(blocks) => Ok(ChunkBodyView::CodeTable(blocks)),
                Err(e) => Err(e),
            },
            ChunkKind::Literal => literal_chunk(s),
            _ => Ok(ChunkBodyView::Raw(s)),
        }
    }
}

/// The chunk of kind `kind` with the payload `s`.
pub open spec fn chunk(kind: ChunkKind, s: Seq<u8>) -> Result<ChunkView, ParseError> {
    match chunk_body(kind, s) {
        Ok(body) => Ok(ChunkView { kind, size: s.len(), body }),
        Err(e) => Err(e),
    }
}

/// How many bytes of padding follow a payload that ends at `end`: as many as
/// lead to the next multiple of four.
pub open spec fn padding(end: int) -> int {
    (4 - end % 4) % 4
}

/// The length of a chunk header: the tag and the word of the size.
pub const CHUNK_HEADER_LEN: usize = 8;

/// The length of the container's header: `FOR1`, the form length, `BEAM`.
pub const CONTAINER_HEADER_LEN: usize = 12;

/// The chunk whose header stands at `at`, and the position behind its
/// padding: a tag, the size of the payload, the payload, and padding up to
/// the next multiple of four.
pub open spec fn framed_chunk(s: Seq<u8>, at: int) -> Result<(ChunkView, int), ParseError> {
    if at + CHUNK_HEADER_LEN > s.len() {
        Err(ParseError::UnexpectedEof)
    } else {
        match chunk_kind(s.subrange(at, at + 4)) {
            None => Err(ParseError::UnknownChunkTag),
            Some(kind) => {
                let end = at + CHUNK_HEADER_LEN + word(s, at + 4);
                if end > s.len() {
                    Err(ParseError::UnexpectedEof)
                } else {
                    match chunk(kind, s.subrange(at + CHUNK_HEADER_LEN, end)) {
                        Err(e) => Err(e),
                        Ok(c) => if end + padding(end) > s.len() {
                            Err(ParseError::UnexpectedEof)
                        } else {
                            Ok((c, end + padding(end)))
                        },
                    }
                }
            },
        }
    }
}

/// `acc` followed by the chunks that stand from `at` to the end of `s`.
pub open spec fn chunks(s: Seq<u8>, at: int, acc: Seq<ChunkView>) -> Result<
    Seq<ChunkView>,
    ParseError,
>
    decreases s.len() - at,
{
    if at < 0 || at >= s.len() {
        Ok(acc)
    } else {
        match framed_chunk(s, at) {
            Err(e) => Err(e),
            Ok((c, next)) => chunks(s, next, acc.push(c)),
        }
    }
}

/// The header of the container at `at`, and the position behind it: the tag
/// `FOR1`, the form length, the tag `BEAM`. The form length counts what
/// follows it and may not count more than there is.
pub open spec fn container_header(s: Seq<u8>, at: int) -> Result<int, ParseError> {
    if at + 4 > s.len() {
        Err(ParseError::UnexpectedEof)
    } else if s.subrange(at, at + 4) != tag4(0x46, 0x4f, 0x52, 0x31) {
        Err(ParseError::MalformedMagic)
    } else if at + CONTAINER_HEADER_LEN > s.len() {
        Err(ParseError::UnexpectedEof)
    } else if s.subrange(at + 8, at + 12) != tag4(0x42, 0x45, 0x41, 0x4d) {
        Err(ParseError::MalformedMagic)
    } else if word(s, at + 4) > s.len() - (at + 8) {
        Err(ParseError::UnexpectedEof)
    } else {
        Ok(at + CONTAINER_HEADER_LEN)
    }
}

/// The chunks of the container that starts at `at`: its header, and chunks
/// to the end of `s`.
pub open spec fn container(s: Seq<u8>, at: int) -> Result<Seq<ChunkView>, ParseError> {
    match container_header(s, at) {
        Err(e) => Err(e),
        Ok(next) => chunks(s, next, Seq::empty()),
    }
}

impl Parser {
    /// Decodes the payload of a chunk of kind `kind` and `size` bytes, and
    /// moves past it.
    pub fn parse_chunk(&mut self, kind: ChunkKind, size: usize) -> (r: Result<Chunk, ParseError>)
        ensures
            old(self).decoded_chunk(*final(self), size, r, chunk(kind, old(self).window(size))),
    {
        if size == 0 {
            let _ = self.remaining();
            assert(self.window(0) =~= Seq::<u8>::empty());
            return Ok(Chunk { kind, size, body: ChunkBody::Empty });
        }
        let body = match kind {
            ChunkKind::Code => self.parse_code_chunk(size)?,
            ChunkKind::Literal => self.parse_literal_chunk(size)?,
            ChunkKind::Atom | ChunkKind::Import | ChunkKind::Export | ChunkKind::Local
            | ChunkKind::Function => {
                let payload = self.peek_slice(size)?;
                let mut table = Parser::new(payload);
                let body = match kind {
                    ChunkKind::Atom => table.parse_atom_chunk()?,
                    ChunkKind::Import => table.parse_import_chunk()?,
                    ChunkKind::Function => table.parse_fun_chunk()?,
                    _ => table.parse_export_chunk()?,
                };
                if table.remaining() != 0 {
                    return Err(ParseError::UnknownChunkTag);
                }
                self.skip(size)?;
                body
            },
            _ => ChunkBody::Raw(self.slice(size)?),
        };
        Ok(Chunk { kind, size, body })
    }

    /// Decodes one chunk with its header, and moves past its padding.
    pub fn parse_framed_chunk(&mut self) -> (r: Result<Chunk, ParseError>)
        ensures
            old(self).decoded_as(
                *final(self),
                r,
                framed_chunk(old(self).bytes(), old(self).pos() as int),
            ),
    {
        proof {
            lemma_be_uint_bound(self.bytes(), self.pos() as int + 4, 4);
        }
        if self.remaining() < CHUNK_HEADER_LEN {
            return Err(ParseError::UnexpectedEof);
        }
        let start = self.position();
        let kind = self.parse_chunk_kind()?;
        let size = self.read_u32()? as usize;
        let r = match self.parse_chunk(kind, size) {
            Err(e) => Err(e),
            Ok(c) => {
                let m = self.position() % 4;
                if m == 0 {
                    Ok(c)
                } else {
                    match self.skip(4 - m) {
                        Ok(()) => Ok(c),
                        Err(e) => Err(e),
                    }
                }
            },
        };
        self.settle(start, r)
    }

    /// Reads the header of the container.
    pub fn parse_header(&mut self) -> (r: Result<(), ParseError>)
        ensures
            old(self).decoded(
                *final(self),
                r,
                match container_header(old(self).bytes(), old(self).pos() as int) {
                    Ok(next) => Ok(((), next)),
                    Err(e) => Err(e),
                },
            ),
    {
        proof {
            lemma_be_uint_bound(self.bytes(), self.pos() as int + 4, 4);
        }
        let start = self.position();
        let for1 = [0x46u8, 0x4f, 0x52, 0x31];
        assert(for1@ =~= tag4(0x46, 0x4f, 0x52, 0x31));
        self.match4(for1)?;
        let form_len = match self.read_u32() {
            Ok(n) => n,
            Err(e) => { return self.settle(start, Err(e)); },
        };
        let beam = [0x42u8, 0x45, 0x41, 0x4d];
        assert(beam@ =~= tag4(0x42, 0x45, 0x41, 0x4d));
        let r = match self.match4(beam) {
            Err(e) => Err(e),
            Ok(()) => if form_len > 4 && (form_len - 4) as u64 > self.remaining() as u64 {
                Err(ParseError::UnexpectedEof)
            } else {
                Ok(())
            },
        };
        self.settle(start, r)
    }

    /// Decodes the container at the cursor: its header, then chunks until no
    /// byte is left.
    pub fn run(&mut self) -> (r: Result<Ast, ParseError>)
        ensures
            final(self).bytes() == old(self).bytes(),
            match container(old(self).bytes(), old(self).pos() as int) {
                Ok(list) => r matches Ok(ast) && ast@ == list && final(self).left() == 0,
                Err(e) => r matches Err(f) && f == e && final(self).pos() == old(self).pos(),
            },
    {
        let ghost s = self.bytes();
        let start = self.position();
        self.parse_header()?;
        let mut list: Vec<Chunk> = Vec::new();
        assert(chunks_view(list@) =~= Seq::<ChunkView>::empty());
        while self.remaining() > 0
            invariant
                self.bytes() == s,
                old(self).bytes() == s,
                old(self).pos() == start <= self.pos(),
                container(s, start as int) == chunks(s, self.pos() as int, chunks_view(list@)),
            decreases self.left(),
        {
            let ghost before = list@;
            proof {
                lemma_framed_chunk_forward(s, self.pos() as int);
            }
            match self.parse_framed_chunk() {
                Ok(c) => {
                    list.push(c);
                    assert(chunks_view(list@) =~= chunks_view(before).push(c@));
                },
                Err(e) => { return self.settle(start, Err(e)); },
            }
        }
        Ok(Ast { chunks: list })
    }
}

/// A framed chunk ends behind the place where it begins, inside the buffer.
pub proof fn lemma_framed_chunk_forward(s: Seq<u8>, at: int)
    ensures
        framed_chunk(s, at) matches Ok((_, next)) ==> at + CHUNK_HEADER_LEN <= next <= s.len(),
{
}

/// Decodes a container file into its chunks.
pub fn parse(source: Vec<u8>) -> (r: Result<Ast, ParseError>)
    ensures
        match container(source@, 0) {
            Ok(list) => r matches Ok(ast) && ast@ == list,
            Err(e) => r matches Err(f) && f == e,
        },
{
    let mut p = Parser::new(source);
    p.run()
}

/// A buffer that does not begin with `FOR1`, or whose bytes 8 to 11 are not
/// `BEAM`, is refused for its magic.
pub proof fn lemma_bad_magic(s: Seq<u8>)
    requires
        (s.len() >= 4 && s.subrange(0, 4) != tag4(0x46, 0x4f, 0x52, 0x31)) || (s.len() >= 12
            && s.subrange(8, 12) != tag4(0x42, 0x45, 0x41, 0x4d)),
    ensures
        container(s, 0) == Err::<Seq<ChunkView>, ParseError>(ParseError::MalformedMagic),
{
}

/// The bytes that `list` takes in a container: for each chunk its header,
/// the payload of its declared size, and the padding behind it.
pub open spec fn framed_len(list: Seq<ChunkView>) -> int
    decreases list.len(),
{
    if list.len() == 0 {
        0
    } else {
        framed_len(list.drop_last()) + CHUNK_HEADER_LEN + list.last().size + padding(
            list.last().size as int,
        )
    }
}

/// The table decoder of a kind whose payload is a table of records.
pub open spec fn record_table(kind: ChunkKind, s: Seq<u8>) -> Option<
    Result<(ChunkBodyView, int), ParseError>,
> {
    match kind {
        ChunkKind::Atom => Some(atom_table(s, 0)),
        ChunkKind::Import => Some(import_table(s, 0)),
        ChunkKind::Export => Some(export_table(s, 0)),
        ChunkKind::Local => Some(export_table(s, 0)),
        ChunkKind::Function => Some(function_table(s, 0)),
        _ => None,
    }
}

/// In a chunk that was decoded, a table of records ends where the payload
/// ends: its decoder reads all of the declared size and nothing behind it.
pub proof fn lemma_table_fills_payload(kind: ChunkKind, s: Seq<u8>)
    requires
        s.len() > 0,
        chunk_body(kind, s) is Ok,
    ensures
        record_table(kind, s) matches Some(table) ==> table == Ok::<
            (ChunkBodyView, int),
            ParseError,
        >((chunk_body(kind, s)->Ok_0, s.len() as int)),
{
}

/// A decoded chunk has the size that its header declares, and ends behind
/// the padding of its payload.
pub proof fn lemma_framed_chunk_shape(s: Seq<u8>, at: int)
    requires
        0 <= at,
    ensures
        framed_chunk(s, at) matches Ok((c, next)) ==> c.size == word(s, at + 4) && next == at
            + CHUNK_HEADER_LEN + c.size + padding(at + CHUNK_HEADER_LEN + c.size),
{
    let end = at + CHUNK_HEADER_LEN + word(s, at + 4);
    if end <= s.len() {
        assert(s.subrange(at + CHUNK_HEADER_LEN, end).len() == word(s, at + 4));
    }
}

/// Behind a header that starts at a multiple of four, the padding depends on
/// the size of the payload alone, and leads to a multiple of four.
pub proof fn lemma_padding_aligned(at: int, size: int)
    requires
        at % 4 == 0,
        size >= 0,
    ensures
        padding(at + CHUNK_HEADER_LEN + size) == padding(size),
        (at + CHUNK_HEADER_LEN + size + padding(size)) % 4 == 0,
        0 <= padding(size) < 4,
{
}

/// From a position that is a multiple of four, the chunks that are decoded
/// take all the bytes to the end of the buffer.
pub proof fn lemma_chunks_cover(s: Seq<u8>, at: int, acc: Seq<ChunkView>)
    requires
        0 <= at <= s.len(),
        at % 4 == 0,
    ensures
        chunks(s, at, acc) matches Ok(list) ==> framed_len(list) == framed_len(acc) + (s.len()
            - at),
    decreases s.len() - at,
{
    if at < s.len() {
        let step = framed_chunk(s, at);
        assert(chunks(s, at, acc) == (match step {
            Err(e) => Err(e),
            Ok((c, next)) => chunks(s, next, acc.push(c)),
        }));
        lemma_framed_chunk_shape(s, at);
        lemma_framed_chunk_forward(s, at);
        if let Ok((c, next)) = step {
            lemma_padding_aligned(at, c.size as int);
            assert(acc.push(c).drop_last() =~= acc);
            assert(acc.push(c).last() == c);
            lemma_chunks_cover(s, next, acc.push(c));
        }
    }
}

/// The chunks of a decoded container take all the bytes behind its header:
/// headers, payloads and padding add up to the length of the buffer.
pub proof fn lemma_container_covered(s: Seq<u8>)
    ensures
        container(s, 0) matches Ok(list) ==> CONTAINER_HEADER_LEN + framed_len(list) == s.len(),
{
    if s.len() >= CONTAINER_HEADER_LEN {
        lemma_chunks_cover(s, CONTAINER_HEADER_LEN as int, Seq::empty());
    }
}

} // verus!
