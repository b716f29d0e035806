use vstd::prelude::*;
use crate::ast::{
    blobs_view, AtomTable, ChunkBody, ChunkBodyView, Export, FunctionItem, Import,
};
use crate::bytes::{be_uint, lemma_be_uint_bound};
use crate::error::ParseError;
use crate::parser::Parser;

verus! {

/// The 32-bit word at `at`.
pub open spec fn word(s: Seq<u8>, at: int) -> u32 {
    be_uint(s, at, 4) as u32
}

/// The atom name at `at`, and the position behind it: one byte of length
/// and that many bytes of text.
pub open spec fn atom_name(s: Seq<u8>, at: int) -> Result<(Seq<u8>, int), ParseError> {
    if at >= s.len() || at + 1 + s[at] > s.len() {
        Err(ParseError::UnexpectedEof)
    } else {
        Ok((s.subrange(at + 1, at + 1 + s[at]), at + 1 + s[at]))
    }
}

/// `acc` followed by the next `n` atom names, read from `at`.
pub open spec fn atom_names(s: Seq<u8>, at: int, n: nat, acc: Seq<Seq<u8>>) -> Result<
    (Seq<Seq<u8>>, int),
    ParseError,
>
    decreases n,
{
    if n == 0 {
        Ok((acc, at))
    } else {
        match atom_name(s, at) {
            Err(e) => Err(e),
            Ok((name, next)) => atom_names(s, next, (n - 1) as nat, acc.push(name)),
        }
    }
}

/// The atom table at `at`: a count, then that many names.
pub open spec fn atom_table(s: Seq<u8>, at: int) -> Result<(ChunkBodyView, int), ParseError> {
    if at + 4 > s.len() {
        Err(ParseError::UnexpectedEof)
    } else {
        match atom_names(s, at + 4, word(s, at) as nat, Seq::empty()) {
            Err(e) => Err(e),
            Ok((names, next)) => Ok((ChunkBodyView::AtomTable(names), next)),
        }
    }
}

/// The import entry at `at`.
pub open spec fn import_at(s: Seq<u8>, at: int) -> Import {
    Import { module: word(s, at), name: word(s, at + 4), arity: word(s, at + 8) }
}

/// The export entry at `at`.
pub open spec fn export_at(s: Seq<u8>, at: int) -> Export {
    Export { name: word(s, at), arity: word(s, at + 4), label: word(s, at + 8) }
}

/// The lambda entry at `at`.
pub open spec fn function_at(s: Seq<u8>, at: int) -> FunctionItem {
    FunctionItem {
        fun: word(s, at),
        atom: word(s, at + 4),
        label: word(s, at + 8),
        index: word(s, at + 12),
        num_free: word(s, at + 16),
        old_uniq: word(s, at + 20),
    }
}

/// Where a table of records of `width` bytes each ends that starts at `at`
/// with the count of its records; an error where the buffer ends first.
pub open spec fn records_end(s: Seq<u8>, at: int, width: nat) -> Result<int, ParseError> {
    if at + 4 > s.len() || at + 4 + word(s, at) * width > s.len() {
        Err(ParseError::UnexpectedEof)
    } else {
        Ok(at + 4 + word(s, at) * width)
    }
}

/// The import table at `at`: a count, then that many entries of three words.
pub open spec fn import_table(s: Seq<u8>, at: int) -> Result<(ChunkBodyView, int), ParseError> {
    match records_end(s, at, 12) {
        Err(e) => Err(e),
        Ok(next) => Ok(
            (
                ChunkBodyView::ImportTable(
                    Seq::new(word(s, at) as nat, |i: int| import_at(s, at + 4 + 12 * i)),
                ),
                next,
            ),
        ),
    }
}

/// The export table at `at`: a count, then that many entries of three words.
pub open spec fn export_table(s: Seq<u8>, at: int) -> Result<(ChunkBodyView, int), ParseError> {
    match records_end(s, at, 12) {
        Err(e) => Err(e),
        Ok(next) => Ok(
            (
                ChunkBodyView::ExportTable(
                    Seq::new(word(s, at) as nat, |i: int| export_at(s, at + 4 + 12 * i)),
                ),
                next,
            ),
        ),
    }
}

/// The lambda table at `at`: a count, then that many entries of six words.
pub open spec fn function_table(s: Seq<u8>, at: int) -> Result<(ChunkBodyView, int), ParseError> {
    match records_end(s, at, 24) {
        Err(e) => Err(e),
        Ok(next) => Ok(
            (
                ChunkBodyView::FunTable(
                    Seq::new(word(s, at) as nat, |i: int| function_at(s, at + 4 + 24 * i)),
                ),
                next,
            ),
        ),
    }
}

impl Parser {
    /// Reads the count of a table whose records take `width` bytes each, and
    /// makes sure that all of them are there.
    fn read_record_count(&mut self, width: usize) -> (r: Result<u32, ParseError>)
        requires
            width <= 24,
        ensures
            final(self).bytes() == old(self).bytes(),
            match r {
                Ok(n) => records_end(old(self).bytes(), old(self).pos() as int, width as nat)
                    is Ok && n == word(old(self).bytes(), old(self).pos() as int)
                    && final(self).pos() == old(self).pos() + 4,
                Err(e) => records_end(old(self).bytes(), old(self).pos() as int, width as nat)
                    == Err::<int, ParseError>(e) && final(self).pos() == old(self).pos(),
            },
    {
        let start = self.position();
        let n = self.read_u32()?;
        proof {
            lemma_be_uint_bound(old(self).bytes(), old(self).pos() as int, 4);
            assert(n * width <= 0xffff_ffff * 24) by (nonlinear_arith)
                requires
                    n <= 0xffff_ffff,
                    width <= 24,
            ;
        }
        if (n as u64) * (width as u64) > self.remaining() as u64 {
            proof {
                assert(n * width > self.left());
            }
            return self.settle(start, Err(ParseError::UnexpectedEof));
        }
        Ok(n)
    }

    /// Decodes the import table.
    pub fn parse_import_chunk(&mut self) -> (r: Result<ChunkBody, ParseError>)
        ensures
            old(self).decoded_as(
                *final(self),
                r,
                import_table(old(self).bytes(), old(self).pos() as int),
            ),
    {
        let count = self.read_record_count(12)?;
        let ghost s = self.bytes();
        let ghost start = self.pos() as int;
        let mut list: Vec<Import> = Vec::new();
        let mut i: u32 = 0;
        while i < count
            invariant
                i <= count,
                self.bytes() == s,
                self.pos() == start + 12 * i,
                start + 12 * count <= s.len(),
                list@ == Seq::new(i as nat, |k: int| import_at(s, start + 12 * k)),
            decreases count - i,
        {
            let module = self.read_u32()?;
            let name = self.read_u32()?;
            let arity = self.read_u32()?;
            list.push(Import { module, name, arity });
            i += 1;
            assert(list@ =~= Seq::new(i as nat, |k: int| import_at(s, start + 12 * k)));
        }
        Ok(ChunkBody::ImportTable(list))
    }

    /// Decodes the export table, or the table of local functions, which has
    /// the same form.
    pub fn parse_export_chunk(&mut self) -> (r: Result<ChunkBody, ParseError>)
        ensures
            old(self).decoded_as(
                *final(self),
                r,
                export_table(old(self).bytes(), old(self).pos() as int),
            ),
    {
        let count = self.read_record_count(12)?;
        let ghost s = self.bytes();
        let ghost start = self.pos() as int;
        let mut list: Vec<Export> = Vec::new();
        let mut i: u32 = 0;
        while i < count
            invariant
                i <= count,
                self.bytes() == s,
                self.pos() == start + 12 * i,
                start + 12 * count <= s.len(),
                list@ == Seq::new(i as nat, |k: int| export_at(s, start + 12 * k)),
            decreases count - i,
        {
            let name = self.read_u32()?;
            let arity = self.read_u32()?;
            let label = self.read_u32()?;
            list.push(Export { name, arity, label });
            i += 1;
            assert(list@ =~= Seq::new(i as nat, |k: int| export_at(s, start + 12 * k)));
        }
        Ok(ChunkBody::ExportTable(list))
    }

    /// Decodes the lambda table.
    pub fn parse_fun_chunk(&mut self) -> (r: Result<ChunkBody, ParseError>)
        ensures
            old(self).decoded_as(
                *final(self),
                r,
                function_table(old(self).bytes(), old(self).pos() as int),
            ),
    {
        let count = self.read_record_count(24)?;
        let ghost s = self.bytes();
        let ghost start = self.pos() as int;
        let mut list: Vec<FunctionItem> = Vec::new();
        let mut i: u32 = 0;
        while i < count
            invariant
                i <= count,
                self.bytes() == s,
                self.pos() == start + 24 * i,
                start + 24 * count <= s.len(),
                list@ == Seq::new(i as nat, |k: int| function_at(s, start + 24 * k)),
            decreases count - i,
        {
            let fun = self.read_u32()?;
            let atom = self.read_u32()?;
            let label = self.read_u32()?;
            let index = self.read_u32()?;
            let num_free = self.read_u32()?;
            let old_uniq = self.read_u32()?;
            list.push(FunctionItem { fun, atom, label, index, num_free, old_uniq });
            i += 1;
            assert(list@ =~= Seq::new(i as nat, |k: int| function_at(s, start + 24 * k)));
        }
        Ok(ChunkBody::FunTable(list))
    }

    /// Reads one atom name: a byte of length and that many bytes of text.
    pub fn parse_atom_name(&mut self) -> (r: Result<Vec<u8>, ParseError>)
        ensures
            old(self).decoded_as(
                *final(self),
                r,
                atom_name(old(self).bytes(), old(self).pos() as int),
            ),
    {
        let start = self.position();
        let size = self.read_u8()?;
        let r = self.slice(size as usize);
        self.settle(start, r)
    }

    /// Decodes the atom table.
    pub fn parse_atom_chunk(&mut self) -> (r: Result<ChunkBody, ParseError>)
        ensures
            old(self).decoded_as(
                *final(self),
                r,
                atom_table(old(self).bytes(), old(self).pos() as int),
            ),
    {
        let start = self.position();
        let count = self.read_u32()?;
        proof {
            lemma_be_uint_bound(old(self).bytes(), old(self).pos() as int, 4);
        }
        let ghost s = self.bytes();
        let mut names: Vec<Vec<u8>> = Vec::new();
        let mut i: u32 = 0;
        assert(blobs_view(names@) =~= Seq::<Seq<u8>>::empty());
        while i < count
            invariant
                i <= count,
                self.bytes() == s,
                old(self).bytes() == s,
                old(self).pos() == start,
                start + 4 <= self.pos() <= s.len(),
                count == word(s, start as int),
                atom_names(s, start + 4, count as nat, Seq::empty()) == atom_names(
                    s,
                    self.pos() as int,
                    (count - i) as nat,
                    blobs_view(names@),
                ),
            decreases count - i,
        {
            let ghost before = names@;
            match self.parse_atom_name() {
                Ok(name) => {
                    names.push(name);
                    assert(blobs_view(names@) =~= blobs_view(before).push(name@));
                },
                Err(e) => { return self.settle(start, Err(e)); },
            }
            i += 1;
        }
        Ok(ChunkBody::AtomTable(AtomTable { names }))
    }
}

} // verus!
