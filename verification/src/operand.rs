use vstd::prelude::*;
use crate::ast::{AllocKind, AllocListItem, Arg, ArgTag, ArgValue, ArgView, ArgValueView};
use crate::bytes::{
    be_uint, lemma_be_uint_bound, lemma_first_byte_weight, lemma_pow256_monotone,
    lemma_pow256_values, pow256,
};
use crate::error::ParseError;
use crate::parser::Parser;

verus! {

/// The value of a long-form magnitude of `len` bytes at `at`. Four bytes are
/// always read as unsigned. For any other length the top bit of the first
/// byte is a sign: it is cleared from the magnitude, and the value is the
/// negated rest.
pub open spec fn magnitude_value(s: Seq<u8>, at: int, len: nat) -> int {
    let raw = be_uint(s, at, len) as int;
    if len != 4 && s[at] >= 0x80 {
        0x80 * pow256((len - 1) as nat) - raw
    } else {
        raw
    }
}

/// A magnitude of `len` bytes at `at`, and the position behind it. More than
/// eight bytes are too wide; a length that is not positive holds no bytes and
/// gives 0.
pub open spec fn magnitude(s: Seq<u8>, at: int, len: int) -> Result<(i64, int), ParseError> {
    if len > 8 {
        Err(ParseError::IntegerTooWide)
    } else if len <= 0 {
        Ok((0i64, at))
    } else if at + len > s.len() {
        Err(ParseError::UnexpectedEof)
    } else {
        Ok((magnitude_value(s, at, len as nat) as i64, at + len))
    }
}

/// The long form of the integer scheme, with `first` as its tag byte and `at`
/// the position behind that byte. The top three bits of `first` give the
/// length of the magnitude less 2, unless all three are set: then the length
/// is itself an integer of the scheme, which starts at `at`. Only one such
/// step is followed (`indirect`); a second one is too wide.
pub open spec fn long_form(s: Seq<u8>, at: int, first: u8, indirect: bool) -> Result<
    (i64, int),
    ParseError,
>
    decreases (if indirect { 1int } else { 0int }), 0int,
{
    if first >> 5 != 7 {
        magnitude(s, at, (first >> 5) + 2)
    } else if !indirect {
        Err(ParseError::IntegerTooWide)
    } else if at >= s.len() {
        Err(ParseError::UnexpectedEof)
    } else {
        match integer(s, at + 1, s[at], false) {
            Ok((len, next)) => magnitude(s, next, len as int),
            Err(e) => Err(e),
        }
    }
}

/// The integer that the tag byte `first` and the bytes at `at` behind it
/// encode, and the position behind the integer. With bit `0x8` clear the
/// value is the top four bits of `first`. Else, with bit `0x10` clear, it is
/// the top three bits of `first` followed by the eight bits of the next byte.
/// Else it is in the long form.
pub open spec fn integer(s: Seq<u8>, at: int, first: u8, indirect: bool) -> Result<
    (i64, int),
    ParseError,
>
    decreases (if indirect { 1int } else { 0int }), 1int,
{
    if first & 0x8 == 0 {
        Ok(((first >> 4) as i64, at))
    } else if first & 0x10 == 0 {
        if at >= s.len() {
            Err(ParseError::UnexpectedEof)
        } else {
            Ok((((first >> 5) * 256 + s[at]) as i64, at + 1))
        }
    } else {
        long_form(s, at, first, indirect)
    }
}

/// The integer value of the operand whose tag byte stands at `at`, and the
/// position behind that operand, where the encoding asks for an integer.
///
/// An operand under a base tag holds the integer of the scheme, a list
/// marker its nibble, a literal its index. An alias holds what the operand
/// behind it holds, and an alias of an alias is not followed (`nested` says
/// that the operand is the target of an alias). A float and an allocation
/// list hold no integer: they are refused at their tag byte.
pub open spec fn int_operand(s: Seq<u8>, at: int, nested: bool) -> Result<(i64, int), ParseError>
    decreases (if nested { 0int } else { 1int }),
{
    if at >= s.len() {
        Err(ParseError::UnexpectedEof)
    } else {
        let first = s[at];
        let body = at + 1;
        if first & 0x7 != 7 {
            integer(s, body, first, true)
        } else if first >> 4 == 0 || first >> 4 == 3 {
            Err(ParseError::UnknownOpcode)
        } else if first >> 4 == 1 {
            Ok((1i64, body))
        } else if first >> 4 == 2 {
            if nested {
                Err(ParseError::IntegerTooWide)
            } else {
                int_operand(s, body, true)
            }
        } else {
            long_form(s, body, first, true)
        }
    }
}

/// The integer value of the operand at `at`, where the encoding asks for an
/// integer: the length of an allocation list, and the kind and the count of
/// each of its entries.
pub open spec fn int_arg(s: Seq<u8>, at: int) -> Result<(i64, int), ParseError> {
    int_operand(s, at, false)
}

/// The kind of allocation that `code` stands for.
pub open spec fn alloc_kind(code: i64) -> Option<AllocKind> {
    if code == 0 {
        Some(AllocKind::WordAlloc)
    } else if code == 1 {
        Some(AllocKind::FloatAlloc)
    } else if code == 2 {
        Some(AllocKind::LiteralAlloc)
    } else {
        None
    }
}

/// One entry of an allocation list: the integer of its kind, then the integer
/// of its count. A kind that stands for nothing is refused once both are read.
pub open spec fn alloc_entry(s: Seq<u8>, at: int) -> Result<(AllocListItem, int), ParseError> {
    match int_arg(s, at) {
        Err(e) => Err(e),
        Ok((code, behind_kind)) => match int_arg(s, behind_kind) {
            Err(e) => Err(e),
            Ok((value, next)) => match alloc_kind(code) {
                None => Err(ParseError::UnknownOpcode),
                Some(kind) => Ok((AllocListItem { kind, value }, next)),
            },
        },
    }
}

/// `acc` followed by the next `n` entries of an allocation list, read from `at`.
pub open spec fn alloc_entries(s: Seq<u8>, at: int, n: int, acc: Seq<AllocListItem>) -> Result<
    (Seq<AllocListItem>, int),
    ParseError,
>
    decreases n,
{
    if n <= 0 {
        Ok((acc, at))
    } else {
        match alloc_entry(s, at) {
            Err(e) => Err(e),
            Ok((item, next)) => alloc_entries(s, next, n - 1, acc.push(item)),
        }
    }
}

/// An allocation list at `at`: the integer of its length, then that many entries.
pub open spec fn alloc_list(s: Seq<u8>, at: int) -> Result<(Seq<AllocListItem>, int), ParseError> {
    match int_arg(s, at) {
        Err(e) => Err(e),
        Ok((count, next)) => alloc_entries(s, next, count as int, Seq::empty()),
    }
}

/// The base tag that the low three bits of `first` select. The bits of the
/// extended tag, all set, count as those of the last base tag.
pub open spec fn base_tag(first: u8) -> ArgTag {
    let low = first & 0x7;
    if low == 0 {
        ArgTag::U
    } else if low == 1 {
        ArgTag::I
    } else if low == 2 {
        ArgTag::A
    } else if low == 3 {
        ArgTag::X
    } else if low == 4 {
        ArgTag::Y
    } else if low == 5 {
        ArgTag::F
    } else {
        ArgTag::H
    }
}

/// The operand whose tag byte stands at `at`, and the position behind it.
///
/// With a base tag the operand is an integer of the scheme. With all three
/// low bits set the upper nibble selects: 0, the eight bytes of a float; 1, a
/// list marker, whose value is the nibble; 2, an alias, which takes the value
/// of the operand that follows; 3, an allocation list; anything else, a
/// literal's index in the long form. An alias of an alias is not followed
/// (`nested` says that the operand is the target of an alias).
pub open spec fn operand(s: Seq<u8>, at: int, nested: bool) -> Result<(ArgView, int), ParseError>
    decreases (if nested { 0int } else { 1int }),
{
    if at >= s.len() {
        Err(ParseError::UnexpectedEof)
    } else {
        let first = s[at];
        let body = at + 1;
        if first & 0x7 != 7 {
            match integer(s, body, first, true) {
                Err(e) => Err(e),
                Ok((v, next)) => Ok(
                    (ArgView { tag: base_tag(first), value: ArgValueView::IntVal(v) }, next),
                ),
            }
        } else if first >> 4 == 0 {
            if body + 8 > s.len() {
                Err(ParseError::UnexpectedEof)
            } else {
                Ok(
                    (
                        ArgView {
                            tag: ArgTag::Float,
                            value: ArgValueView::FloatVal(be_uint(s, body, 8) as u64),
                        },
                        body + 8,
                    ),
                )
            }
        } else if first >> 4 == 1 {
            Ok((ArgView { tag: ArgTag::List, value: ArgValueView::IntVal(1) }, body))
        } else if first >> 4 == 2 {
            if nested {
                Err(ParseError::IntegerTooWide)
            } else {
                match operand(s, body, true) {
                    Err(e) => Err(e),
                    Ok((target, next)) => Ok(
                        (ArgView { tag: ArgTag::Fr, value: target.value }, next),
                    ),
                }
            }
        } else if first >> 4 == 3 {
            match alloc_list(s, body) {
                Err(e) => Err(e),
                Ok((items, next)) => Ok(
                    (ArgView { tag: ArgTag::AllocList, value: ArgValueView::AllocList(items) }, next),
                ),
            }
        } else {
            match long_form(s, body, first, true) {
                Err(e) => Err(e),
                Ok((v, next)) => Ok(
                    (ArgView { tag: ArgTag::Lit, value: ArgValueView::IntVal(v) }, next),
                ),
            }
        }
    }
}

/// A decoded integer ends at or behind the place where its bytes begin, and
/// inside the buffer.
pub proof fn lemma_integer_forward(s: Seq<u8>, at: int, first: u8, indirect: bool)
    requires
        0 <= at <= s.len(),
    ensures
        integer(s, at, first, indirect) matches Ok((_, next)) ==> at <= next <= s.len(),
        long_form(s, at, first, indirect) matches Ok((_, next)) ==> at <= next <= s.len(),
    decreases (if indirect { 1int } else { 0int }),
{
    if indirect && at < s.len() {
        lemma_integer_forward(s, at + 1, s[at], false);
    }
}

/// A decoded integer operand takes at least its tag byte and ends inside
/// the buffer.
pub proof fn lemma_int_operand_forward(s: Seq<u8>, at: int, nested: bool)
    requires
        0 <= at,
    ensures
        int_operand(s, at, nested) matches Ok((_, next)) ==> at < next <= s.len(),
    decreases (if nested { 0int } else { 1int }),
{
    if at < s.len() {
        let first = s[at];
        lemma_integer_forward(s, at + 1, first, true);
        if first & 0x7 == 7 && first >> 4 == 2 && !nested {
            lemma_int_operand_forward(s, at + 1, true);
        }
    }
}

/// Where an integer is due, what is decoded is the integer value of the
/// operand that stands there: the decoding succeeds exactly where the
/// operand can be decoded and holds an integer, it gives that integer, and
/// it ends where the operand ends.
pub proof fn lemma_int_operand_is_operand_value(s: Seq<u8>, at: int, nested: bool)
    ensures
        match int_operand(s, at, nested) {
            Ok((v, next)) => operand(s, at, nested) matches Ok((arg, behind)) && arg.value
                == ArgValueView::IntVal(v) && behind == next,
            Err(_) => !(operand(s, at, nested) matches Ok((arg, _)) && arg.value is IntVal),
        },
    decreases (if nested { 0int } else { 1int }),
{
    if at < s.len() {
        let first = s[at];
        if first & 0x7 == 7 && first >> 4 == 2 && !nested {
            lemma_int_operand_is_operand_value(s, at + 1, true);
        }
    }
}

/// A decoded allocation list ends at or behind the place where it begins,
/// inside the buffer.
pub proof fn lemma_alloc_entries_forward(s: Seq<u8>, at: int, n: int, acc: Seq<AllocListItem>)
    requires
        0 <= at <= s.len(),
    ensures
        alloc_entries(s, at, n, acc) matches Ok((_, next)) ==> at <= next <= s.len(),
    decreases n,
{
    if n > 0 {
        lemma_int_operand_forward(s, at, false);
        if let Ok((_, behind_kind)) = int_arg(s, at) {
            lemma_int_operand_forward(s, behind_kind, false);
            if let Ok((item, next)) = alloc_entry(s, at) {
                lemma_alloc_entries_forward(s, next, n - 1, acc.push(item));
            }
        }
    }
}

/// A decoded operand takes at least its tag byte and never reads outside the
/// buffer: the position behind it lies behind its start.
pub proof fn lemma_operand_forward(s: Seq<u8>, at: int, nested: bool)
    requires
        0 <= at,
    ensures
        operand(s, at, nested) matches Ok((_, next)) ==> at < next <= s.len(),
    decreases (if nested { 0int } else { 1int }),
{
    if at < s.len() {
        let first = s[at];
        lemma_integer_forward(s, at + 1, first, true);
        if first & 0x7 == 7 && first >> 4 == 2 && !nested {
            lemma_operand_forward(s, at + 1, true);
        }
        if first & 0x7 == 7 && first >> 4 == 3 {
            lemma_int_operand_forward(s, at + 1, false);
            if let Ok((count, next)) = int_arg(s, at + 1) {
                lemma_alloc_entries_forward(s, next, count as int, Seq::empty());
            }
        }
    }
}

/// In the short form the value is the upper nibble of the tag byte, and no
/// further byte is taken.
pub proof fn lemma_short_form(s: Seq<u8>, at: int, first: u8, indirect: bool)
    requires
        first & 0x8 == 0,
    ensures
        integer(s, at, first, indirect) == Ok::<(i64, int), ParseError>(((first >> 4) as i64, at)),
        0 <= first >> 4 <= 15,
{
    lemma_top_bits(first);
}

/// In the eleven-bit form the value is the top three bits of the tag byte,
/// set before the eight bits of the byte that follows:
/// `((first & 0xe0) << 3) | next`.
pub proof fn lemma_eleven_bit_form(s: Seq<u8>, at: int, first: u8, indirect: bool)
    requires
        first & 0x8 != 0,
        first & 0x10 == 0,
        0 <= at < s.len(),
    ensures
        integer(s, at, first, indirect) == Ok::<(i64, int), ParseError>(
            (((((first & 0xe0) as u16) << 3) | (s[at] as u16)) as i64, at + 1),
        ),
{
    let next = s[at];
    assert((first >> 5) * 256 + next == (((first & 0xe0) as u16) << 3) | (next as u16))
        by (bit_vector);
}

/// A magnitude of four bytes is never taken as signed: its value is the
/// unsigned value of the four bytes, whatever the top bit of the first is.
pub proof fn lemma_four_bytes_unsigned(s: Seq<u8>, at: int)
    requires
        0 <= at,
        at + 4 <= s.len(),
    ensures
        magnitude(s, at, 4) == Ok::<(i64, int), ParseError>((be_uint(s, at, 4) as i64, at + 4)),
        0 <= be_uint(s, at, 4) as i64 == be_uint(s, at, 4),
{
    lemma_magnitude_fits(s, at, 4);
}

/// A decoded operand is well formed: its value has the shape of its tag.
pub proof fn lemma_operand_well_formed(s: Seq<u8>, at: int, nested: bool)
    ensures
        operand(s, at, nested) matches Ok((arg, _)) ==> arg.well_formed(),
{
}

/// The top bits of a byte are small numbers.
pub proof fn lemma_top_bits(first: u8)
    ensures
        first >> 4 <= 15,
        first >> 5 <= 7,
        first & 0x7 <= 7,
{
    assert(first >> 4 <= 15 && first >> 5 <= 7 && first & 0x7 <= 7) by (bit_vector);
}

/// A magnitude of at most eight bytes fits an `i64`.
pub proof fn lemma_magnitude_fits(s: Seq<u8>, at: int, len: nat)
    requires
        1 <= len <= 8,
        0 <= at,
        at + len <= s.len(),
    ensures
        -0x8000_0000_0000_0000 < magnitude_value(s, at, len) < 0x8000_0000_0000_0000,
        len == 4 ==> 0 <= magnitude_value(s, at, len) < 0x1_0000_0000,
{
    lemma_first_byte_weight(s, at, len);
    lemma_be_uint_bound(s, at, len);
    lemma_pow256_values();
    lemma_pow256_monotone((len - 1) as nat, 7);
    let p = pow256((len - 1) as nat);
    let b = s[at] as int;
    assert(b >= 0x80 ==> 0x80 * p <= b * p) by (nonlinear_arith);
    assert(b < 0x80 ==> (b + 1) * p <= 0x80 * p) by (nonlinear_arith)
        requires
            p >= 0,
    ;
    assert((b + 1) * p <= 0x100 * p) by (nonlinear_arith)
        requires
            p >= 0,
            b <= 0xff,
    ;
    assert(0x80 * p <= 0x80 * 0x100_0000_0000_0000) by (nonlinear_arith)
        requires
            p <= 0x100_0000_0000_0000,
    ;
}

impl Parser {
    /// Reads a long-form magnitude of `len` bytes.
    pub fn read_magnitude(&mut self, len: i64) -> (r: Result<i64, ParseError>)
        ensures
            old(self).decoded(
                *final(self),
                r,
                magnitude(old(self).bytes(), old(self).pos() as int, len as int),
            ),
    {
        if len > 8 {
            return Err(ParseError::IntegerTooWide);
        }
        if len <= 0 {
            return Ok(0);
        }
        let n = len as usize;
        if self.remaining() < n {
            return Err(ParseError::UnexpectedEof);
        }
        let ghost s = self.bytes();
        let ghost at = self.pos() as int;
        let b0 = self.read_u8()?;
        let negative = len != 4 && b0 >= 0x80;
        let mut acc: u64 = if negative {
            (b0 - 0x80) as u64
        } else {
            b0 as u64
        };
        let mut i: usize = 1;
        proof {
            reveal_with_fuel(be_uint, 2);
            lemma_pow256_values();
        }
        while i < n
            invariant
                1 <= i <= n <= 8,
                0 <= at,
                self.bytes() == s,
                self.pos() == at + i,
                at + n <= s.len(),
                negative == (len != 4 && s[at] >= 0x80),
                acc == be_uint(s, at, i as nat) - (if negative {
                    0x80 * pow256((i - 1) as nat)
                } else {
                    0
                }),
            decreases n - i,
        {
            let b = self.read_u8()?;
            proof {
                lemma_be_uint_bound(s, at, i as nat);
                lemma_first_byte_weight(s, at, i as nat);
                lemma_pow256_values();
                assert(pow256(i as nat) == 256 * pow256((i - 1) as nat));
                assert(pow256(i as nat) <= pow256(7)) by {
                    lemma_pow256_monotone(i as nat, 7);
                }
            }
            acc = acc * 256 + b as u64;
            i += 1;
        }
        proof {
            lemma_magnitude_fits(s, at, n as nat);
        }
        if negative {
            Ok(-(acc as i64))
        } else {
            Ok(acc as i64)
        }
    }

    /// Decodes an integer in the long form whose tag byte `first` has just
    /// been read. `indirect` says whether the length may be given by a
    /// further integer.
    pub fn parse_long_form(&mut self, first: u8, indirect: bool) -> (r: Result<i64, ParseError>)
        ensures
            old(self).decoded(
                *final(self),
                r,
                long_form(old(self).bytes(), old(self).pos() as int, first, indirect),
            ),
        decreases (if indirect { 1int } else { 0int }), 0int,
    {
        let top = first >> 5;
        proof {
            lemma_top_bits(first);
        }
        if top != 7 {
            return self.read_magnitude(top as i64 + 2);
        }
        if !indirect {
            return Err(ParseError::IntegerTooWide);
        }
        let start = self.position();
        let next = self.read_u8()?;
        let r = match self.parse_integer(next, false) {
            Ok(len) => self.read_magnitude(len),
            Err(e) => Err(e),
        };
        self.settle(start, r)
    }

    /// Decodes an integer of the variable-length scheme whose tag byte
    /// `first` has just been read.
    pub fn parse_integer(&mut self, first: u8, indirect: bool) -> (r: Result<i64, ParseError>)
        ensures
            old(self).decoded(
                *final(self),
                r,
                integer(old(self).bytes(), old(self).pos() as int, first, indirect),
            ),
        decreases (if indirect { 1int } else { 0int }), 1int,
    {
        proof {
            lemma_top_bits(first);
        }
        if first & 0x8 == 0 {
            Ok((first >> 4) as i64)
        } else if first & 0x10 == 0 {
            let next = self.read_u8()?;
            Ok(((first >> 5) as i64) * 256 + next as i64)
        } else {
            self.parse_long_form(first, indirect)
        }
    }

    /// Decodes the integer of an operand whose tag byte `first` has just been
    /// read. A long form may give its length in one further integer.
    pub fn parse_opcode_arg_i64(&mut self, first: u8) -> (r: Result<i64, ParseError>)
        ensures
            old(self).decoded(
                *final(self),
                r,
                integer(old(self).bytes(), old(self).pos() as int, first, true),
            ),
    {
        self.parse_integer(first, true)
    }

    /// Decodes an operand where the encoding asks for an integer, and gives
    /// its integer value. `nested` says that it is the target of an alias.
    pub fn parse_int_operand(&mut self, nested: bool) -> (r: Result<i64, ParseError>)
        ensures
            old(self).decoded(
                *final(self),
                r,
                int_operand(old(self).bytes(), old(self).pos() as int, nested),
            ),
        decreases (if nested { 0int } else { 1int }),
    {
        let start = self.position();
        let first = self.read_u8()?;
        let nibble = first >> 4;
        let r = if first & 0x7 != 7 {
            self.parse_opcode_arg_i64(first)
        } else if nibble == 0 || nibble == 3 {
            Err(ParseError::UnknownOpcode)
        } else if nibble == 1 {
            Ok(nibble as i64)
        } else if nibble == 2 {
            if nested {
                Err(ParseError::IntegerTooWide)
            } else {
                self.parse_int_operand(true)
            }
        } else {
            self.parse_long_form(first, true)
        };
        self.settle(start, r)
    }

    /// Decodes an operand where the encoding asks for an integer, and gives
    /// its integer value. An operand that holds none, a float or an
    /// allocation list, is refused.
    pub fn parse_opcode_int_arg(&mut self) -> (r: Result<i64, ParseError>)
        ensures
            old(self).decoded(*final(self), r, int_arg(old(self).bytes(), old(self).pos() as int)),
    {
        self.parse_int_operand(false)
    }

    /// Decodes an allocation list: its length, then its entries.
    pub fn parse_opcode_arg_alloc(&mut self) -> (r: Result<Vec<AllocListItem>, ParseError>)
        ensures
            old(self).decoded_as(
                *final(self),
                r,
                alloc_list(old(self).bytes(), old(self).pos() as int),
            ),
    {
        let start = self.position();
        let count = self.parse_opcode_int_arg()?;
        let ghost s = self.bytes();
        let mut list: Vec<AllocListItem> = Vec::new();
        let mut i: i64 = 0;
        while i < count
            invariant
                0 <= i,
                i <= count || count < 0,
                self.bytes() == s,
                old(self).bytes() == s,
                old(self).pos() == start <= self.pos(),
                alloc_list(s, start as int) == alloc_entries(
                    s,
                    self.pos() as int,
                    count - i,
                    list@,
                ),
            decreases count - i,
        {
            match self.parse_alloc_entry() {
                Ok(item) => list.push(item),
                Err(e) => { return self.settle(start, Err(e)); },
            }
            i += 1;
        }
        Ok(list)
    }

    /// Decodes one entry of an allocation list: its kind, then its count.
    pub fn parse_alloc_entry(&mut self) -> (r: Result<AllocListItem, ParseError>)
        ensures
            old(self).decoded(
                *final(self),
                r,
                alloc_entry(old(self).bytes(), old(self).pos() as int),
            ),
    {
        let start = self.position();
        let code = self.parse_opcode_int_arg()?;
        let r = match self.parse_opcode_int_arg() {
            Err(e) => Err(e),
            Ok(value) => match code {
                0 => Ok(AllocListItem { kind: AllocKind::WordAlloc, value }),
                1 => Ok(AllocListItem { kind: AllocKind::FloatAlloc, value }),
                2 => Ok(AllocListItem { kind: AllocKind::LiteralAlloc, value }),
                _ => Err(ParseError::UnknownOpcode),
            },
        };
        self.settle(start, r)
    }

    /// Decodes one operand. `nested` says that it is the target of an alias.
    pub fn parse_operand(&mut self, nested: bool) -> (r: Result<Arg, ParseError>)
        ensures
            old(self).decoded_as(
                *final(self),
                r,
                operand(old(self).bytes(), old(self).pos() as int, nested),
            ),
        decreases (if nested { 0int } else { 1int }),
    {
        let start = self.position();
        let first = self.read_u8()?;
        let nibble = first >> 4;
        let r = if first & 0x7 != 7 {
            match self.parse_opcode_arg_i64(first) {
                Ok(v) => Ok(Arg { tag: base_tag_of(first), value: ArgValue::IntVal(v) }),
                Err(e) => Err(e),
            }
        } else if nibble == 0 {
            match self.read_u64() {
                Ok(bits) => Ok(Arg { tag: ArgTag::Float, value: ArgValue::FloatVal(bits) }),
                Err(e) => Err(e),
            }
        } else if nibble == 1 {
            Ok(Arg { tag: ArgTag::List, value: ArgValue::IntVal(nibble as i64) })
        } else if nibble == 2 {
            if nested {
                Err(ParseError::IntegerTooWide)
            } else {
                match self.parse_operand(true) {
                    Ok(target) => Ok(Arg { tag: ArgTag::Fr, value: target.value }),
                    Err(e) => Err(e),
                }
            }
        } else if nibble == 3 {
            match self.parse_opcode_arg_alloc() {
                Ok(items) => Ok(Arg { tag: ArgTag::AllocList, value: ArgValue::AllocList(items) }),
                Err(e) => Err(e),
            }
        } else {
            match self.parse_long_form(first, true) {
                Ok(v) => Ok(Arg { tag: ArgTag::Lit, value: ArgValue::IntVal(v) }),
                Err(e) => Err(e),
            }
        };
        self.settle(start, r)
    }

    /// Decodes one operand of an instruction.
    pub fn parse_opcode_arg(&mut self) -> (r: Result<Arg, ParseError>)
        ensures
            old(self).decoded_as(
                *final(self),
                r,
                operand(old(self).bytes(), old(self).pos() as int, false),
            ),
            r matches Ok(arg) ==> arg@.well_formed(),
    {
        proof {
            lemma_operand_well_formed(self.bytes(), self.pos() as int, false);
        }
        self.parse_operand(false)
    }
}

/// The base tag that the low three bits of `first` select.
pub fn base_tag_of(first: u8) -> (tag: ArgTag)
    ensures
        tag == base_tag(first),
{
    let low = first & 0x7;
    if low == 0 {
        ArgTag::U
    } else if low == 1 {
        ArgTag::I
    } else if low == 2 {
        ArgTag::A
    } else if low == 3 {
        ArgTag::X
    } else if low == 4 {
        ArgTag::Y
    } else if low == 5 {
        ArgTag::F
    } else {
        ArgTag::H
    }
}

} // verus!
