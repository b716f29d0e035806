use vstd::prelude::*;
use crate::ast::{
    args_view, code_view, distinct_labels, has_label, Arg, ArgTag, ArgValue, ArgValueView, ArgView,
    ChunkBody, ChunkBodyView, LabelBlockView, LabelMap, Opcode, OpcodeView,
};
use crate::bytes::{be_uint, lemma_be_uint_bound};
use crate::error::ParseError;
use crate::opcode::{arity, get_arity, LABEL, MAX_OPCODE};
use crate::operand::{lemma_operand_forward, operand};
use crate::parser::Parser;

verus! {

/// The first word of a code chunk.
pub const CODE_MAGIC: u32 = 16;

/// The only instruction format that is understood.
pub const CODE_FORMAT: u32 = 0;

/// The length of a code chunk's header: five words.
pub const CODE_HEADER_LEN: usize = 20;

/// `acc` followed by the next `n` operands, read from `at`.
pub open spec fn operands(s: Seq<u8>, at: int, n: nat, acc: Seq<ArgView>) -> Result<
    (Seq<ArgView>, int),
    ParseError,
>
    decreases n,
{
    if n == 0 {
        Ok((acc, at))
    } else {
        match operand(s, at, false) {
            Err(e) => Err(e),
            Ok((arg, next)) => operands(s, next, (n - 1) as nat, acc.push(arg)),
        }
    }
}

/// The instruction whose opcode byte stands at `at`, and the position behind
/// its last operand. The opcode must be an instruction's, and not above
/// `ceiling`; it is followed by as many operands as the instruction takes.
pub open spec fn instruction(s: Seq<u8>, at: int, ceiling: u32) -> Result<
    (OpcodeView, int),
    ParseError,
> {
    if at >= s.len() {
        Err(ParseError::UnexpectedEof)
    } else if s[at] == 0 || s[at] > ceiling || s[at] > MAX_OPCODE {
        Err(ParseError::UnknownOpcode)
    } else {
        match operands(s, at + 1, arity(s[at]), Seq::empty()) {
            Err(e) => Err(e),
            Ok((args, next)) => Ok((OpcodeView { opcode: s[at], args }, next)),
        }
    }
}

/// Where the assembly of blocks stands: the blocks that are closed, and the
/// label and the instructions of the block that is open.
pub struct Assembly {
    pub closed: Seq<LabelBlockView>,
    pub label: i64,
    pub open: Seq<OpcodeView>,
}

/// The state before the first instruction: nothing closed, and an empty
/// block open under label 1.
pub open spec fn initial_assembly() -> Assembly {
    Assembly { closed: Seq::empty(), label: 1, open: Seq::empty() }
}

/// The label that a `label` instruction names: the value of its one operand,
/// an integer under the tag `U`.
pub open spec fn label_named(ins: OpcodeView) -> Option<i64> {
    if ins.args.len() == 1 && ins.args[0].tag == ArgTag::U {
        match ins.args[0].value {
            ArgValueView::IntVal(id) => Some(id),
            _ => None,
        }
    } else {
        None
    }
}

/// The closed blocks with the open block added under its label. A label that
/// has a block already cannot close a second one.
pub open spec fn close_block(a: Assembly) -> Result<Seq<LabelBlockView>, ParseError> {
    if has_label(a.closed, a.label) {
        Err(ParseError::DuplicateLabel)
    } else {
        Ok(a.closed.push(LabelBlockView { id: a.label, code: a.open }))
    }
}

/// The state after `ins`. An ordinary instruction joins the open block. A
/// `label` instruction that names the open block's label changes nothing;
/// one that names another label closes the open block and opens an empty one
/// under the new label. A `label` instruction of any other shape is refused.
pub open spec fn step(a: Assembly, ins: OpcodeView) -> Result<Assembly, ParseError> {
    if ins.opcode != LABEL {
        Ok(Assembly { closed: a.closed, label: a.label, open: a.open.push(ins) })
    } else {
        match label_named(ins) {
            None => Err(ParseError::UnknownOpcode),
            Some(id) => if id == a.label {
                Ok(a)
            } else {
                match close_block(a) {
                    Err(e) => Err(e),
                    Ok(closed) => Ok(Assembly { closed, label: id, open: Seq::empty() }),
                }
            },
        }
    }
}

/// The blocks at the end of the instructions: the open block is closed if it
/// holds an instruction, and dropped if it holds none.
pub open spec fn finish(a: Assembly) -> Result<Seq<LabelBlockView>, ParseError> {
    if a.open.len() == 0 {
        Ok(a.closed)
    } else {
        close_block(a)
    }
}

/// The blocks of the instructions from `at` to the end of `s`, assembled
/// from the state `a`.
pub open spec fn assemble(s: Seq<u8>, at: int, ceiling: u32, a: Assembly) -> Result<
    Seq<LabelBlockView>,
    ParseError,
>
    decreases s.len() - at,
{
    if at < 0 || at >= s.len() {
        finish(a)
    } else {
        match instruction(s, at, ceiling) {
            Err(e) => Err(e),
            Ok((ins, next)) => match step(a, ins) {
                Err(e) => Err(e),
                Ok(after) => {
                    proof {
                        lemma_instruction_forward(s, at, ceiling);
                    }
                    assemble(s, next, ceiling, after)
                },
            },
        }
    }
}

/// The header of a code chunk with the payload `s`: the magic word, the
/// format word, the ceiling on opcode ids, and two words that are passed
/// over. Gives the ceiling.
pub open spec fn code_header(s: Seq<u8>) -> Result<u32, ParseError> {
    if s.len() < 4 {
        Err(ParseError::UnexpectedEof)
    } else if be_uint(s, 0, 4) != CODE_MAGIC {
        Err(ParseError::MalformedMagic)
    } else if s.len() < 8 {
        Err(ParseError::UnexpectedEof)
    } else if be_uint(s, 4, 4) != CODE_FORMAT {
        Err(ParseError::MalformedMagic)
    } else if s.len() < CODE_HEADER_LEN {
        Err(ParseError::UnexpectedEof)
    } else {
        Ok(be_uint(s, 8, 4) as u32)
    }
}

/// The blocks of a code chunk with the payload `s`: behind the header,
/// instructions fill the rest of the payload.
pub open spec fn code_chunk(s: Seq<u8>) -> Result<Seq<LabelBlockView>, ParseError> {
    match code_header(s) {
        Err(e) => Err(e),
        Ok(ceiling) => assemble(s, CODE_HEADER_LEN as int, ceiling, initial_assembly()),
    }
}

/// Decoding `n` operands ends behind its start, inside the buffer, and adds
/// `n` operands to those it was given.
pub proof fn lemma_operands_forward(s: Seq<u8>, at: int, n: nat, acc: Seq<ArgView>)
    requires
        0 <= at,
    ensures
        operands(s, at, n, acc) matches Ok((args, next)) ==> at + n <= next && (n == 0 || next
            <= s.len()) && args.len() == acc.len() + n,
    decreases n,
{
    if n > 0 {
        lemma_operand_forward(s, at, false);
        if let Ok((arg, next)) = operand(s, at, false) {
            lemma_operands_forward(s, next, (n - 1) as nat, acc.push(arg));
        }
    }
}

/// A decoded instruction takes at least its opcode byte and ends inside the
/// buffer.
pub proof fn lemma_instruction_forward(s: Seq<u8>, at: int, ceiling: u32)
    requires
        0 <= at,
    ensures
        instruction(s, at, ceiling) matches Ok((ins, next)) ==> at < next <= s.len()
            && ins.args.len() == arity(ins.opcode),
{
    if at < s.len() {
        lemma_operands_forward(s, at + 1, arity(s[at]), Seq::empty());
    }
}

/// The assembler of blocks: it takes the instructions of a code chunk one by
/// one and sorts them under their labels.
pub struct Assembler {
    pub labels: LabelMap,
    pub label_id: i64,
    pub label: Vec<Opcode>,
}

impl View for Assembler {
    type V = Assembly;

    open spec fn view(&self) -> Assembly {
        Assembly { closed: self.labels@, label: self.label_id, open: code_view(self.label@) }
    }
}

impl Assembler {
    pub fn new() -> (a: Assembler)
        ensures
            a@ == initial_assembly(),
    {
        let a = Assembler { labels: LabelMap::new(), label_id: 1, label: Vec::new() };
        assert(a@.open =~= Seq::<OpcodeView>::empty());
        a
    }

    /// Closes the open block under its label and leaves an empty one open.
    fn close(&mut self) -> (r: Result<(), ParseError>)
        ensures
            match close_block(old(self)@) {
                Ok(closed) => r is Ok && final(self)@ == (Assembly {
                    closed,
                    label: old(self).label_id,
                    open: Seq::empty(),
                }),
                Err(e) => r == Err::<(), ParseError>(e) && *final(self) == *old(self),
            },
    {
        if self.labels.contains(self.label_id) {
            return Err(ParseError::DuplicateLabel);
        }
        let mut code: Vec<Opcode> = Vec::new();
        core::mem::swap(&mut self.label, &mut code);
        assert(code_view(self.label@) =~= Seq::<OpcodeView>::empty());
        self.labels.insert(self.label_id, code);
        Ok(())
    }

    /// Takes the next instruction of the chunk.
    pub fn push(&mut self, ins: Opcode) -> (r: Result<(), ParseError>)
        ensures
            match step(old(self)@, ins@) {
                Ok(after) => r is Ok && final(self)@ == after,
                Err(e) => r == Err::<(), ParseError>(e) && *final(self) == *old(self),
            },
    {
        if ins.opcode != LABEL {
            let ghost before = self.label@;
            self.label.push(ins);
            assert(code_view(self.label@) =~= code_view(before).push(ins@));
            return Ok(());
        }
        if ins.args.len() != 1 {
            return Err(ParseError::UnknownOpcode);
        }
        assert(ins@.args[0] == ins.args@[0]@);
        if ins.args[0].tag != ArgTag::U {
            return Err(ParseError::UnknownOpcode);
        }
        let id = match ins.args[0].value {
            ArgValue::IntVal(id) => id,
            _ => { return Err(ParseError::UnknownOpcode); },
        };
        if id != self.label_id {
            self.close()?;
            self.label_id = id;
        }
        Ok(())
    }

    /// Ends the chunk and hands out its blocks.
    pub fn finish(self) -> (r: Result<LabelMap, ParseError>)
        ensures
            match finish(self@) {
                Ok(blocks) => r matches Ok(m) && m@ == blocks,
                Err(e) => r matches Err(f) && f == e,
            },
    {
        let mut a = self;
        if a.label.len() != 0 {
            a.close()?;
        }
        Ok(a.labels)
    }
}

impl Parser {
    /// Decodes one instruction: its opcode, then its operands.
    pub fn parse_instruction(&mut self, ceiling: u32) -> (r: Result<Opcode, ParseError>)
        ensures
            old(self).decoded_as(
                *final(self),
                r,
                instruction(old(self).bytes(), old(self).pos() as int, ceiling),
            ),
            r matches Ok(ins) ==> ins.args@.len() == arity(ins.opcode),
    {
        proof {
            lemma_instruction_forward(self.bytes(), self.pos() as int, ceiling);
        }
        let start = self.position();
        let id = self.read_u8()?;
        if id == 0 || id as u32 > ceiling || id > MAX_OPCODE {
            return self.settle(start, Err(ParseError::UnknownOpcode));
        }
        let n = get_arity(id);
        let ghost s = self.bytes();
        let mut args: Vec<Arg> = Vec::new();
        let mut i: usize = 0;
        assert(args_view(args@) =~= Seq::<ArgView>::empty());
        while i < n
            invariant
                i <= n,
                n == arity(id),
                self.bytes() == s,
                old(self).bytes() == s,
                old(self).pos() == start < self.pos(),
                instruction(s, start as int, ceiling) == (match operands(
                    s,
                    self.pos() as int,
                    (n - i) as nat,
                    args_view(args@),
                ) {
                    Err(e) => Err(e),
                    Ok((args, next)) => Ok((OpcodeView { opcode: id, args }, next)),
                }),
            decreases n - i,
        {
            let ghost before = args@;
            match self.parse_opcode_arg() {
                Ok(arg) => {
                    args.push(arg);
                    assert(args_view(args@) =~= args_view(before).push(arg@));
                },
                Err(e) => { return self.settle(start, Err(e)); },
            }
            i += 1;
        }
        Ok(Opcode { opcode: id, args })
    }
}

/// What `assemble` is at a position inside the buffer: the instruction
/// there, the step it causes, and the assembly of the rest.
pub proof fn lemma_assemble_unfold(s: Seq<u8>, at: int, ceiling: u32, a: Assembly)
    requires
        0 <= at < s.len(),
    ensures
        assemble(s, at, ceiling, a) == (match instruction(s, at, ceiling) {
            Err(e) => Err(e),
            Ok((ins, next)) => match step(a, ins) {
                Err(e) => Err(e),
                Ok(after) => assemble(s, next, ceiling, after),
            },
        }),
{
}

/// Closing a block keeps the labels of the closed blocks distinct.
pub proof fn lemma_close_block_distinct(a: Assembly)
    requires
        distinct_labels(a.closed),
    ensures
        close_block(a) matches Ok(closed) ==> distinct_labels(closed),
{
}

/// No label stands over two of the blocks that an assembly ends with, if
/// none stood over two of those it began with.
pub proof fn lemma_assemble_distinct(s: Seq<u8>, at: int, ceiling: u32, a: Assembly)
    requires
        distinct_labels(a.closed),
    ensures
        assemble(s, at, ceiling, a) matches Ok(blocks) ==> distinct_labels(blocks),
    decreases s.len() - at,
{
    lemma_close_block_distinct(a);
    if 0 <= at < s.len() {
        if let Ok((ins, next)) = instruction(s, at, ceiling) {
            if let Ok(after) = step(a, ins) {
                lemma_instruction_forward(s, at, ceiling);
                lemma_assemble_distinct(s, next, ceiling, after);
            }
        }
    }
}

/// A label is closed at most once: no two blocks of a decoded code chunk
/// stand under the same label.
pub proof fn lemma_code_chunk_labels_distinct(s: Seq<u8>)
    ensures
        code_chunk(s) matches Ok(blocks) ==> distinct_labels(blocks),
{
    if let Ok(ceiling) = code_header(s) {
        lemma_assemble_distinct(s, CODE_HEADER_LEN as int, ceiling, initial_assembly());
    }
}

/// Decodes the payload of a code chunk into its blocks.
pub fn decode_code_chunk(payload: Vec<u8>) -> (r: Result<LabelMap, ParseError>)
    ensures
        match code_chunk(payload@) {
            Ok(blocks) => r matches Ok(m) && m@ == blocks && m.well_formed(),
            Err(e) => r matches Err(f) && f == e,
        },
{
    let ghost s = payload@;
    let mut p = Parser::new(payload);
    proof {
        lemma_be_uint_bound(s, 0, 4);
        lemma_be_uint_bound(s, 4, 4);
        lemma_be_uint_bound(s, 8, 4);
    }
    let magic = p.read_u32()?;
    if magic != CODE_MAGIC {
        return Err(ParseError::MalformedMagic);
    }
    let format = p.read_u32()?;
    if format != CODE_FORMAT {
        return Err(ParseError::MalformedMagic);
    }
    let ceiling = p.read_u32()?;
    p.skip(8)?;
    let mut assembler = Assembler::new();
    while p.remaining() > 0
        invariant
            s == payload@,
            p.bytes() == s,
            code_chunk(s) == assemble(s, p.pos() as int, ceiling, assembler@),
        decreases p.left(),
    {
        let ghost at = p.pos() as int;
        let ghost before = assembler@;
        proof {
            lemma_instruction_forward(s, at, ceiling);
            lemma_assemble_unfold(s, at, ceiling, before);
        }
        let ins = p.parse_instruction(ceiling)?;
        assembler.push(ins)?;
    }
    proof {
        lemma_code_chunk_labels_distinct(s);
    }
    assembler.finish()
}

impl Parser {
    /// Decodes a code chunk of `size` bytes and moves past it.
    pub fn parse_code_chunk(&mut self, size: usize) -> (r: Result<ChunkBody, ParseError>)
        ensures
            old(self).decoded_chunk(
                *final(self),
                size,
                r,
                match code_chunk(old(self).window(size)) {
                    Ok(blocks) => Ok(ChunkBodyView::CodeTable(blocks)),
                    Err(e) => Err(e),
                },
            ),
    {
        let payload = self.peek_slice(size)?;
        let labels = decode_code_chunk(payload)?;
        self.skip(size)?;
        Ok(ChunkBody::CodeTable(labels))
    }
}

/// Where the assembly stands after `k` instructions from `at`: the position
/// of the next opcode and the state; nothing where one of the `k` failed or
/// the buffer ended first.
pub open spec fn assembly_after(s: Seq<u8>, at: int, ceiling: u32, a: Assembly, k: nat) -> Option<
    (int, Assembly),
>
    decreases k,
{
    if k == 0 {
        Some((at, a))
    } else if at < 0 || at >= s.len() {
        None
    } else {
        match instruction(s, at, ceiling) {
            Err(_) => None,
            Ok((ins, next)) => match step(a, ins) {
                Err(_) => None,
                Ok(after) => assembly_after(s, next, ceiling, after, (k - 1) as nat),
            },
        }
    }
}

/// The assembly of a stream is the assembly of what is left of it after any
/// number of its instructions.
pub proof fn lemma_assemble_resumes(s: Seq<u8>, at: int, ceiling: u32, a: Assembly, k: nat)
    ensures
        assembly_after(s, at, ceiling, a, k) matches Some((later, state)) ==> assemble(
            s,
            at,
            ceiling,
            a,
        ) == assemble(s, later, ceiling, state),
    decreases k,
{
    if k > 0 && 0 <= at < s.len() {
        if let Ok((ins, next)) = instruction(s, at, ceiling) {
            if let Ok(after) = step(a, ins) {
                lemma_assemble_resumes(s, next, ceiling, after, (k - 1) as nat);
            }
        }
    }
}

/// Wherever an opcode is due in a code chunk, an opcode of 0 or one above
/// the ceiling that the header declares fails the chunk as an unknown
/// opcode. An opcode is due at `at` if `at` lies in the payload and is
/// reached from the end of the header by some number `k` of instructions.
pub proof fn lemma_unknown_opcode_anywhere(
    s: Seq<u8>,
    ceiling: u32,
    k: nat,
    at: int,
    a: Assembly,
)
    requires
        code_header(s) == Ok::<u32, ParseError>(ceiling),
        assembly_after(s, CODE_HEADER_LEN as int, ceiling, initial_assembly(), k) == Some((at, a)),
        0 <= at < s.len(),
        s[at] == 0 || s[at] > ceiling,
    ensures
        code_chunk(s) == Err::<Seq<LabelBlockView>, ParseError>(ParseError::UnknownOpcode),
{
    lemma_assemble_resumes(s, CODE_HEADER_LEN as int, ceiling, initial_assembly(), k);
}

} // verus!
