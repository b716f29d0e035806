use vstd::prelude::*;

verus! {

/// The kind of a chunk, as its four-byte tag names it.
#[derive(Clone, Copy, Debug, PartialEq, Eq, Structural)]
pub enum ChunkKind {
    Atom,
    Export,
    Import,
    Code,
    String,
    Literal,
    Function,
    Attr,
    CInfo,
    Local,
    Abst,
    Line,
    Trace,
}

/// One entry of the import table.
#[derive(Clone, Copy, Debug, PartialEq, Eq, Structural)]
pub struct Import {
    pub module: u32,
    pub name: u32,
    pub arity: u32,
}

/// One entry of the export table or of the table of local functions.
#[derive(Clone, Copy, Debug, PartialEq, Eq, Structural)]
pub struct Export {
    pub name: u32,
    pub arity: u32,
    pub label: u32,
}

/// One entry of the lambda table.
#[derive(Clone, Copy, Debug, PartialEq, Eq, Structural)]
pub struct FunctionItem {
    pub fun: u32,
    pub atom: u32,
    pub label: u32,
    pub index: u32,
    pub num_free: u32,
    pub old_uniq: u32,
}

/// What an allocation-list entry counts.
#[derive(Clone, Copy, Debug, PartialEq, Eq, Structural)]
pub enum AllocKind {
    WordAlloc,
    FloatAlloc,
    LiteralAlloc,
}

/// One entry of an allocation list: what it counts, and how many.
#[derive(Clone, Copy, Debug, PartialEq, Eq, Structural)]
pub struct AllocListItem {
    pub kind: AllocKind,
    pub value: i64,
}

/// The tag of an operand. The first seven are the base tags of the encoding;
/// the rest are the sub-formats of the extended tag.
#[derive(Clone, Copy, Debug, PartialEq, Eq, Structural)]
pub enum ArgTag {
    U,
    I,
    A,
    X,
    Y,
    F,
    H,
    Float,
    List,
    Fr,
    AllocList,
    Lit,
}

/// The value of an operand. A floating-point immediate is held as the 64 bits
/// of its IEEE-754 encoding.
#[derive(Clone, Debug)]
pub enum ArgValue {
    IntVal(i64),
    FloatVal(u64),
    AllocList(Vec<AllocListItem>),
}

/// The model of an `ArgValue`.
pub enum ArgValueView {
    IntVal(i64),
    FloatVal(u64),
    AllocList(Seq<AllocListItem>),
}

impl View for ArgValue {
    type V = ArgValueView;

    open spec fn view(&self) -> ArgValueView {
        match *self {
            ArgValue::IntVal(v) => ArgValueView::IntVal(v),
            ArgValue::FloatVal(bits) => ArgValueView::FloatVal(bits),
            ArgValue::AllocList(items) => ArgValueView::AllocList(items@),
        }
    }
}

/// One operand of an instruction.
#[derive(Clone, Debug)]
pub struct Arg {
    pub tag: ArgTag,
    pub value: ArgValue,
}

/// The model of an `Arg`.
pub struct ArgView {
    pub tag: ArgTag,
    pub value: ArgValueView,
}

impl ArgView {
    /// Whether the value has the shape that the tag asks for: the bits of a
    /// float under `Float`, a list under `AllocList`, an integer under every
    /// other tag but `Fr`, which takes the value of any operand.
    pub open spec fn well_formed(self) -> bool {
        match self.tag {
            ArgTag::Float => self.value is FloatVal,
            ArgTag::AllocList => self.value is AllocList,
            ArgTag::Fr => true,
            _ => self.value is IntVal,
        }
    }
}

impl View for Arg {
    type V = ArgView;

    open spec fn view(&self) -> ArgView {
        ArgView { tag: self.tag, value: self.value@ }
    }
}

/// An instruction: its opcode id and its operands, as many as the opcode takes.
#[derive(Clone, Debug)]
pub struct Opcode {
    pub opcode: u8,
    pub args: Vec<Arg>,
}

/// The model of an `Opcode`.
pub struct OpcodeView {
    pub opcode: u8,
    pub args: Seq<ArgView>,
}

/// The views of a sequence of operands.
pub open spec fn args_view(args: Seq<Arg>) -> Seq<ArgView> {
    args.map_values(|a: Arg| a@)
}

impl View for Opcode {
    type V = OpcodeView;

    open spec fn view(&self) -> OpcodeView {
        OpcodeView { opcode: self.opcode, args: args_view(self.args@) }
    }
}

/// The views of a sequence of instructions.
pub open spec fn code_view(code: Seq<Opcode>) -> Seq<OpcodeView> {
    code.map_values(|op: Opcode| op@)
}

/// The instructions that stand under one label.
#[derive(Clone, Debug)]
pub struct LabelBlock {
    pub id: i64,
    pub code: Vec<Opcode>,
}

/// The model of a `LabelBlock`.
pub struct LabelBlockView {
    pub id: i64,
    pub code: Seq<OpcodeView>,
}

impl View for LabelBlock {
    type V = LabelBlockView;

    open spec fn view(&self) -> LabelBlockView {
        LabelBlockView { id: self.id, code: code_view(self.code@) }
    }
}

/// The views of a sequence of blocks.
pub open spec fn blocks_view(blocks: Seq<LabelBlock>) -> Seq<LabelBlockView> {
    blocks.map_values(|b: LabelBlock| b@)
}

/// Whether one of `blocks` stands under the label `id`.
pub open spec fn has_label(blocks: Seq<LabelBlockView>, id: i64) -> bool {
    exists|i: int| 0 <= i < blocks.len() && (#[trigger] blocks[i]).id == id
}

/// Whether no label stands over two of `blocks`.
pub open spec fn distinct_labels(blocks: Seq<LabelBlockView>) -> bool {
    forall|i: int, j: int|
        0 <= i < j < blocks.len() ==> (#[trigger] blocks[i]).id != (#[trigger] blocks[j]).id
}

/// The blocks of a code chunk in the order in which they were closed, each
/// under a label of its own.
#[derive(Clone, Debug)]
pub struct LabelMap {
    pub blocks: Vec<LabelBlock>,
}

impl View for LabelMap {
    type V = Seq<LabelBlockView>;

    open spec fn view(&self) -> Seq<LabelBlockView> {
        blocks_view(self.blocks@)
    }
}

impl LabelMap {
    /// Whether every label has one block at most. A new map is well formed,
    /// and `insert` keeps a map so.
    pub open spec fn well_formed(&self) -> bool {
        distinct_labels(self@)
    }

    /// A map without blocks.
    pub fn new() -> (m: LabelMap)
        ensures
            m@ == Seq::<LabelBlockView>::empty(),
            m.well_formed(),
    {
        LabelMap { blocks: Vec::new() }
    }

    /// How many blocks the map holds.
    pub fn len(&self) -> (n: usize)
        ensures
            n == self@.len(),
    {
        self.blocks.len()
    }

    /// The position of the first block under `id`.
    pub fn position(&self, id: i64) -> (r: Option<usize>)
        ensures
            match r {
                Some(i) => i < self@.len() && self@[i as int].id == id && forall|k: int|
                    0 <= k < i ==> (#[trigger] self@[k]).id != id,
                None => !has_label(self@, id),
            },
    {
        let mut i: usize = 0;
        while i < self.blocks.len()
            invariant
                i <= self.blocks@.len(),
                forall|k: int| 0 <= k < i ==> (#[trigger] blocks_view(self.blocks@)[k]).id != id,
            decreases self.blocks@.len() - i,
        {
            if self.blocks[i].id == id {
                return Some(i);
            }
            i += 1;
        }
        None
    }

    /// Whether a block stands under `id`.
    pub fn contains(&self, id: i64) -> (b: bool)
        ensures
            b == has_label(self@, id),
    {
        self.position(id).is_some()
    }

    /// The instructions of the first block under `id`.
    pub fn get(&self, id: i64) -> (r: Option<&Vec<Opcode>>)
        ensures
            match r {
                Some(code) => exists|i: int|
                    0 <= i < self@.len() && (#[trigger] self@[i]).id == id && self@[i].code
                        == code_view(code@) && forall|k: int|
                        0 <= k < i ==> (#[trigger] self@[k]).id != id,
                None => !has_label(self@, id),
            },
    {
        match self.position(id) {
            Some(i) => Some(&self.blocks[i].code),
            None => None,
        }
    }

    /// The block that was closed as the `i`-th.
    pub fn block(&self, i: usize) -> (b: &LabelBlock)
        requires
            i < self@.len(),
        ensures
            b@ == self@[i as int],
    {
        &self.blocks[i]
    }

    /// Adds `code` under `id` behind the blocks that are there, unless `id`
    /// has a block already: then the map stays as it is. Says whether it added.
    pub fn insert(&mut self, id: i64, code: Vec<Opcode>) -> (added: bool)
        ensures
            added == !has_label(old(self)@, id),
            final(self)@ == (if added {
                old(self)@.push(LabelBlockView { id, code: code_view(code@) })
            } else {
                old(self)@
            }),
            old(self).well_formed() ==> final(self).well_formed(),
    {
        if self.contains(id) {
            return false;
        }
        let ghost before = self.blocks@;
        let block = LabelBlock { id, code };
        self.blocks.push(block);
        proof {
            assert(blocks_view(self.blocks@) =~= blocks_view(before).push(block@));
        }
        true
    }
}

/// The names of the atom table in the order of the chunk. Atoms are counted
/// from 1: the first name is atom 1.
#[derive(Clone, Debug)]
pub struct AtomTable {
    pub names: Vec<Vec<u8>>,
}

/// The views of a sequence of byte strings.
pub open spec fn blobs_view(blobs: Seq<Vec<u8>>) -> Seq<Seq<u8>> {
    blobs.map_values(|b: Vec<u8>| b@)
}

impl View for AtomTable {
    type V = Seq<Seq<u8>>;

    open spec fn view(&self) -> Seq<Seq<u8>> {
        blobs_view(self.names@)
    }
}

impl AtomTable {
    /// How many atoms the table names.
    pub fn len(&self) -> (n: usize)
        ensures
            n == self@.len(),
    {
        self.names.len()
    }

    /// The name of atom `index`.
    pub fn get(&self, index: usize) -> (r: Option<&Vec<u8>>)
        ensures
            match r {
                Some(name) => 1 <= index <= self@.len() && name@ == self@[index - 1],
                None => index < 1 || index > self@.len(),
            },
    {
        if 1 <= index && index <= self.names.len() {
            Some(&self.names[index - 1])
        } else {
            None
        }
    }
}

/// What a chunk holds, decoded as far as its kind is understood.
#[derive(Clone, Debug)]
pub enum ChunkBody {
    Raw(Vec<u8>),
    AtomTable(AtomTable),
    ImportTable(Vec<Import>),
    ExportTable(Vec<Export>),
    CodeTable(LabelMap),
    FunTable(Vec<FunctionItem>),
    LiteralTable(Vec<Vec<u8>>),
    Empty,
}

/// The model of a `ChunkBody`.
pub enum ChunkBodyView {
    Raw(Seq<u8>),
    AtomTable(Seq<Seq<u8>>),
    ImportTable(Seq<Import>),
    ExportTable(Seq<Export>),
    CodeTable(Seq<LabelBlockView>),
    FunTable(Seq<FunctionItem>),
    LiteralTable(Seq<Seq<u8>>),
    Empty,
}

impl View for ChunkBody {
    type V = ChunkBodyView;

    open spec fn view(&self) -> ChunkBodyView {
        match *self {
            ChunkBody::Raw(bytes) => ChunkBodyView::Raw(bytes@),
            ChunkBody::AtomTable(atoms) => ChunkBodyView::AtomTable(atoms@),
            ChunkBody::ImportTable(imports) => ChunkBodyView::ImportTable(imports@),
            ChunkBody::ExportTable(exports) => ChunkBodyView::ExportTable(exports@),
            ChunkBody::CodeTable(labels) => ChunkBodyView::CodeTable(labels@),
            ChunkBody::FunTable(funs) => ChunkBodyView::FunTable(funs@),
            ChunkBody::LiteralTable(blobs) => ChunkBodyView::LiteralTable(blobs_view(blobs@)),
            ChunkBody::Empty => ChunkBodyView::Empty,
        }
    }
}

/// One section of the container: its kind, the size that its header declares,
/// and what it holds.
#[derive(Clone, Debug)]
pub struct Chunk {
    pub kind: ChunkKind,
    pub size: usize,
    pub body: ChunkBody,
}

/// The model of a `Chunk`.
pub struct ChunkView {
    pub kind: ChunkKind,
    pub size: nat,
    pub body: ChunkBodyView,
}

impl View for Chunk {
    type V = ChunkView;

    open spec fn view(&self) -> ChunkView {
        ChunkView { kind: self.kind, size: self.size as nat, body: self.body@ }
    }
}

/// The views of a sequence of chunks.
pub open spec fn chunks_view(chunks: Seq<Chunk>) -> Seq<ChunkView> {
    chunks.map_values(|c: Chunk| c@)
}

/// A decoded container: its chunks in the order of the file.
#[derive(Clone, Debug)]
pub struct Ast {
    pub chunks: Vec<Chunk>,
}

impl View for Ast {
    type V = Seq<ChunkView>;

    open spec fn view(&self) -> Seq<ChunkView> {
        chunks_view(self.chunks@)
    }
}

} // verus!
