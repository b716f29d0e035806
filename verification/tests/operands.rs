use beamwand::ast::{AllocKind, ArgTag, ArgValue};
use beamwand::error::ParseError;
use beamwand::parser::Parser;

fn int_after(first: u8, rest: &[u8]) -> (Result<i64, ParseError>, usize) {
    let mut p = Parser::new(rest.to_vec());
    let r = p.parse_opcode_arg_i64(first);
    (r, p.position())
}

#[test]
fn short_form_is_the_upper_nibble() {
    assert_eq!(int_after(0x00, &[]), (Ok(0), 0));
    assert_eq!(int_after(0x10, &[]), (Ok(1), 0));
    assert_eq!(int_after(0xf0, &[9, 9]), (Ok(15), 0));
    assert_eq!(int_after(0xa3, &[]), (Ok(10), 0));
}

#[test]
fn eleven_bit_form_joins_top_bits_and_next_byte() {
    assert_eq!(int_after(0x08, &[0xff]), (Ok(0xff), 1));
    assert_eq!(int_after(0x28, &[0xff]), (Ok(((0x28 & 0xe0) << 3) | 0xff), 1));
    assert_eq!(int_after(0xe8, &[0xff]), (Ok(0x7ff), 1));
    assert_eq!(int_after(0xe8, &[0x00]), (Ok(0x700), 1));
    assert_eq!(int_after(0x4a, &[0x34]), (Ok(0x234), 1));
}

#[test]
fn eleven_bit_form_without_next_byte_is_eof() {
    assert_eq!(int_after(0x08, &[]).0, Err(ParseError::UnexpectedEof));
}

#[test]
fn long_form_length_is_top_bits_plus_two() {
    assert_eq!(int_after(0x18, &[0x12, 0x34]), (Ok(0x1234), 2));
    assert_eq!(int_after(0x38, &[0x01, 0x02, 0x03]), (Ok(0x010203), 3));
    assert_eq!(
        int_after(0xd8, &[0x01, 0x02, 0x03, 0x04, 0x05, 0x06, 0x07, 0x08]),
        (Ok(0x0102030405060708), 8)
    );
}

#[test]
fn long_form_top_bit_is_a_sign() {
    assert_eq!(int_after(0x18, &[0x80, 0x01]), (Ok(-1), 2));
    assert_eq!(int_after(0x18, &[0xff, 0xff]), (Ok(-0x7fff), 2));
    assert_eq!(int_after(0x18, &[0x80, 0x00]), (Ok(0), 2));
    assert_eq!(int_after(0x38, &[0x81, 0x00, 0x00]), (Ok(-0x010000), 3));
    assert_eq!(
        int_after(0xd8, &[0xff, 0xff, 0xff, 0xff, 0xff, 0xff, 0xff, 0xff]),
        (Ok(-0x7fff_ffff_ffff_ffff), 8)
    );
    assert_eq!(
        int_after(0xd8, &[0x7f, 0xff, 0xff, 0xff, 0xff, 0xff, 0xff, 0xff]),
        (Ok(0x7fff_ffff_ffff_ffff), 8)
    );
}

#[test]
fn four_byte_magnitude_is_never_signed() {
    assert_eq!(int_after(0x58, &[0x80, 0x00, 0x00, 0x01]), (Ok(0x8000_0001), 4));
    assert_eq!(int_after(0x58, &[0xff, 0xff, 0xff, 0xff]), (Ok(0xffff_ffff), 4));
    assert_eq!(int_after(0x58, &[0x7f, 0xff, 0xff, 0xff]), (Ok(0x7fff_ffff), 4));
}

#[test]
fn long_form_cut_short_is_eof() {
    assert_eq!(int_after(0x18, &[0x12]).0, Err(ParseError::UnexpectedEof));
    assert_eq!(int_after(0x58, &[1, 2, 3]).0, Err(ParseError::UnexpectedEof));
}

#[test]
fn indirect_length_is_an_integer_of_the_scheme() {
    // length 3 in the short form
    assert_eq!(int_after(0xf8, &[0x30, 0x01, 0x02, 0x03]), (Ok(0x010203), 4));
    // length 4: unsigned
    assert_eq!(int_after(0xf8, &[0x40, 0xff, 0, 0, 1]), (Ok(0xff00_0001), 5));
    // length 8 in the eleven-bit form
    assert_eq!(int_after(0xf8, &[0x08, 8, 0, 0, 0, 0, 0, 0, 1, 2]), (Ok(0x0102), 10));
    // length 2 in the long form: two bytes that hold 5
    assert_eq!(int_after(0xf8, &[0x18, 0, 5, 1, 2, 3, 4, 5]), (Ok(0x0102030405), 8));
}

#[test]
fn indirect_length_of_zero_or_less_reads_nothing() {
    assert_eq!(int_after(0xf8, &[0x00, 0xaa]), (Ok(0), 1));
    assert_eq!(int_after(0xf8, &[0x18, 0x80, 0x05, 0xaa]), (Ok(0), 3));
}

#[test]
fn magnitude_longer_than_eight_bytes_is_too_wide() {
    assert_eq!(
        int_after(0xf8, &[0x90, 1, 2, 3, 4, 5, 6, 7, 8, 9]).0,
        Err(ParseError::IntegerTooWide)
    );
    assert_eq!(int_after(0xf8, &[0x08, 0xff]).0, Err(ParseError::IntegerTooWide));
}

#[test]
fn second_indirection_is_too_wide() {
    assert_eq!(int_after(0xf8, &[0xf8, 0x20, 1, 2]).0, Err(ParseError::IntegerTooWide));
}

#[test]
fn indirect_length_cut_short_is_eof() {
    assert_eq!(int_after(0xf8, &[]).0, Err(ParseError::UnexpectedEof));
    assert_eq!(int_after(0xf8, &[0x30, 1, 2]).0, Err(ParseError::UnexpectedEof));
}

#[test]
fn read_magnitude_reads_big_endian() {
    let mut p = Parser::new(vec![0x01, 0x00, 0xff]);
    assert_eq!(p.read_magnitude(2), Ok(0x0100));
    assert_eq!(p.position(), 2);
    assert_eq!(p.read_magnitude(1), Ok(-0x7f));
    assert_eq!(p.read_magnitude(0), Ok(0));
    assert_eq!(p.read_magnitude(-3), Ok(0));
    assert_eq!(p.read_magnitude(9), Err(ParseError::IntegerTooWide));
    assert_eq!(p.read_magnitude(1), Err(ParseError::UnexpectedEof));
}

fn operand_of(bytes: &[u8]) -> (ArgTag, ArgValue, usize) {
    let mut p = Parser::new(bytes.to_vec());
    let arg = p.parse_opcode_arg().unwrap();
    (arg.tag, arg.value, p.position())
}

fn operand_error(bytes: &[u8]) -> ParseError {
    let mut p = Parser::new(bytes.to_vec());
    p.parse_opcode_arg().err().unwrap()
}

#[test]
fn base_tags() {
    let expected = [ArgTag::U, ArgTag::I, ArgTag::A, ArgTag::X, ArgTag::Y, ArgTag::F, ArgTag::H];
    for (low, tag) in expected.iter().enumerate() {
        let (got, value, used) = operand_of(&[0x50 | low as u8]);
        assert_eq!(got, *tag);
        assert!(matches!(value, ArgValue::IntVal(5)));
        assert_eq!(used, 1);
    }
}

#[test]
fn base_tag_with_long_integer() {
    let (tag, value, used) = operand_of(&[0x18 | 1, 0x80, 0x02]);
    assert_eq!(tag, ArgTag::I);
    assert!(matches!(value, ArgValue::IntVal(-2)));
    assert_eq!(used, 3);
}

#[test]
fn float_operand_holds_the_bits_of_the_double() {
    let (tag, value, used) = operand_of(&[7, 0x40, 0x2b, 0x2d, 0x91, 0x68, 0x72, 0xb0, 0x21]);
    assert_eq!(tag, ArgTag::Float);
    assert_eq!(used, 9);
    match value {
        ArgValue::FloatVal(bits) => {
            assert_eq!(bits, 0x402b_2d91_6872_b021);
            assert_eq!(bits, 13.589f64.to_bits());
            assert!(f64::from_bits(bits) == 13.589f64);
        },
        _ => panic!("Non float value"),
    }
}

#[test]
fn float_operand_cut_short_is_eof() {
    assert_eq!(operand_error(&[7, 0x40, 0x2b, 0x2d]), ParseError::UnexpectedEof);
}

#[test]
fn list_marker_holds_its_nibble() {
    let (tag, value, used) = operand_of(&[0x17, 0x99]);
    assert_eq!(tag, ArgTag::List);
    assert!(matches!(value, ArgValue::IntVal(1)));
    assert_eq!(used, 1);
}

#[test]
fn alias_takes_the_value_of_the_next_operand() {
    let (tag, value, used) = operand_of(&[0x27, 0x53]);
    assert_eq!(tag, ArgTag::Fr);
    assert!(matches!(value, ArgValue::IntVal(5)));
    assert_eq!(used, 2);
    let (tag, value, used) = operand_of(&[0x27, 7, 0x40, 0x2b, 0x2d, 0x91, 0x68, 0x72, 0xb0, 0x21]);
    assert_eq!(tag, ArgTag::Fr);
    assert!(matches!(value, ArgValue::FloatVal(0x402b_2d91_6872_b021)));
    assert_eq!(used, 10);
}

#[test]
fn alias_of_an_alias_is_refused() {
    assert_eq!(operand_error(&[0x27, 0x27, 0x10]), ParseError::IntegerTooWide);
}

#[test]
fn alias_without_target_is_eof() {
    assert_eq!(operand_error(&[0x27]), ParseError::UnexpectedEof);
}

#[test]
fn nested_operand_refuses_an_alias() {
    let mut p = Parser::new(vec![0x27, 0x10]);
    assert_eq!(p.parse_operand(true).err(), Some(ParseError::IntegerTooWide));
    let mut q = Parser::new(vec![0x33]);
    let arg = q.parse_operand(true).unwrap();
    assert_eq!(arg.tag, ArgTag::X);
    assert!(matches!(arg.value, ArgValue::IntVal(3)));
}

#[test]
fn allocation_list() {
    // two entries: 3 words, 1 float
    let (tag, value, used) = operand_of(&[0x37, 0x20, 0x00, 0x30, 0x10, 0x10]);
    assert_eq!(tag, ArgTag::AllocList);
    assert_eq!(used, 6);
    match value {
        ArgValue::AllocList(items) => {
            assert_eq!(items.len(), 2);
            assert_eq!(items[0].kind, AllocKind::WordAlloc);
            assert_eq!(items[0].value, 3);
            assert_eq!(items[1].kind, AllocKind::FloatAlloc);
            assert_eq!(items[1].value, 1);
        },
        _ => panic!("not an allocation list"),
    }
}

#[test]
fn allocation_list_of_literals_and_long_counts() {
    let mut p = Parser::new(vec![0x10, 0x20, 0x18, 0x01, 0x00]);
    let items = p.parse_opcode_arg_alloc().unwrap();
    assert_eq!(items.len(), 1);
    assert_eq!(items[0].kind, AllocKind::LiteralAlloc);
    assert_eq!(items[0].value, 0x100);
    assert_eq!(p.remaining(), 0);
}

#[test]
fn empty_allocation_list() {
    let mut p = Parser::new(vec![0x00, 0x55]);
    assert_eq!(p.parse_opcode_arg_alloc().unwrap().len(), 0);
    assert_eq!(p.position(), 1);
}

#[test]
fn allocation_list_with_negative_length_is_empty() {
    let mut p = Parser::new(vec![0x18, 0x80, 0x02, 0x55]);
    assert_eq!(p.parse_opcode_arg_alloc().unwrap().len(), 0);
    assert_eq!(p.position(), 3);
}

#[test]
fn allocation_kind_must_be_known() {
    assert_eq!(operand_error(&[0x37, 0x10, 0x30, 0x10]), ParseError::UnknownOpcode);
    let mut p = Parser::new(vec![0x10, 0x18, 0x80, 0x01, 0x10]);
    assert_eq!(p.parse_opcode_arg_alloc().err(), Some(ParseError::UnknownOpcode));
}

#[test]
fn allocation_count_is_read_before_the_kind_is_judged() {
    assert_eq!(operand_error(&[0x37, 0x10, 0x30]), ParseError::UnexpectedEof);
}

#[test]
fn allocation_list_cut_short_is_eof() {
    assert_eq!(operand_error(&[0x37, 0x20, 0x00, 0x30]), ParseError::UnexpectedEof);
    assert_eq!(operand_error(&[0x37]), ParseError::UnexpectedEof);
}

#[test]
fn integer_argument_under_a_base_tag() {
    let mut p = Parser::new(vec![0x30, 0x08, 0x07, 0x18, 0x12, 0x34, 0x19, 0x80, 0x02]);
    assert_eq!(p.parse_opcode_int_arg(), Ok(3));
    assert_eq!(p.position(), 1);
    assert_eq!(p.parse_opcode_int_arg(), Ok(7));
    assert_eq!(p.position(), 3);
    assert_eq!(p.parse_opcode_int_arg(), Ok(0x1234));
    assert_eq!(p.position(), 6);
    assert_eq!(p.parse_opcode_int_arg(), Ok(-2));
    assert_eq!(p.position(), 9);
    assert_eq!(p.parse_opcode_int_arg(), Err(ParseError::UnexpectedEof));
}

#[test]
fn integer_argument_is_the_value_of_a_whole_operand() {
    for low in 0..7u8 {
        let mut p = Parser::new(vec![0x50 | low]);
        assert_eq!(p.parse_opcode_int_arg(), Ok(5));
    }
}

#[test]
fn integer_argument_of_a_list_marker_is_its_nibble() {
    let mut p = Parser::new(vec![0x17, 0x99]);
    assert_eq!(p.parse_opcode_int_arg(), Ok(1));
    assert_eq!(p.position(), 1);
}

#[test]
fn integer_argument_of_a_literal_is_its_index() {
    let mut p = Parser::new(vec![0x47, 0x80, 0x00, 0x00, 0x02, 0xe7, 0x10, 0x2a]);
    assert_eq!(p.parse_opcode_int_arg(), Ok(0x8000_0002));
    assert_eq!(p.position(), 5);
    assert_eq!(p.parse_opcode_int_arg(), Ok(0x2a));
    assert_eq!(p.position(), 8);
}

#[test]
fn integer_argument_of_an_alias_is_that_of_its_target() {
    let mut p = Parser::new(vec![0x27, 0x10, 0x27, 0x18, 0x12, 0x34, 0x27, 0x17]);
    assert_eq!(p.parse_opcode_int_arg(), Ok(1));
    assert_eq!(p.position(), 2);
    assert_eq!(p.parse_opcode_int_arg(), Ok(0x1234));
    assert_eq!(p.position(), 6);
    assert_eq!(p.parse_opcode_int_arg(), Ok(1));
    assert_eq!(p.position(), 8);
}

#[test]
fn integer_argument_refuses_a_float() {
    let mut p = Parser::new(vec![0x07, 0x40, 0x2b, 0x2d, 0x91, 0x68, 0x72, 0xb0, 0x21]);
    assert_eq!(p.parse_opcode_int_arg(), Err(ParseError::UnknownOpcode));
    assert_eq!(p.position(), 0);
    let mut p = Parser::new(vec![0x07]);
    assert_eq!(p.parse_opcode_int_arg(), Err(ParseError::UnknownOpcode));
    let mut p = Parser::new(vec![0x0f, 0, 0, 0, 0, 0, 0, 0, 0]);
    assert_eq!(p.parse_opcode_int_arg(), Err(ParseError::UnknownOpcode));
}

#[test]
fn integer_argument_refuses_an_allocation_list() {
    let mut p = Parser::new(vec![0x37, 0x10, 0x00, 0x30]);
    assert_eq!(p.parse_opcode_int_arg(), Err(ParseError::UnknownOpcode));
    assert_eq!(p.position(), 0);
    let mut p = Parser::new(vec![0x37, 0x00]);
    assert_eq!(p.parse_opcode_int_arg(), Err(ParseError::UnknownOpcode));
}

#[test]
fn integer_argument_refuses_an_alias_of_what_holds_no_integer() {
    let mut p = Parser::new(vec![0x27, 0x07, 0, 0, 0, 0, 0, 0, 0, 0]);
    assert_eq!(p.parse_opcode_int_arg(), Err(ParseError::UnknownOpcode));
    assert_eq!(p.position(), 0);
    let mut p = Parser::new(vec![0x27, 0x37, 0x00]);
    assert_eq!(p.parse_opcode_int_arg(), Err(ParseError::UnknownOpcode));
    let mut p = Parser::new(vec![0x27, 0x27, 0x10]);
    assert_eq!(p.parse_opcode_int_arg(), Err(ParseError::IntegerTooWide));
    assert_eq!(p.position(), 0);
    let mut p = Parser::new(vec![0x27]);
    assert_eq!(p.parse_opcode_int_arg(), Err(ParseError::UnexpectedEof));
}

#[test]
fn integer_argument_agrees_with_the_operand() {
    let sources: [&[u8]; 8] = [
        &[0x30],
        &[0x4a, 0x34],
        &[0x19, 0x80, 0x02],
        &[0x17],
        &[0x27, 0x53],
        &[0x47, 0, 0, 0, 9],
        &[0xf8, 0x30, 1, 2, 3],
        &[0x27, 0xe7, 0x10, 0x2a],
    ];
    for bytes in sources.iter() {
        let mut p = Parser::new(bytes.to_vec());
        let arg = p.parse_opcode_arg().unwrap();
        let mut q = Parser::new(bytes.to_vec());
        let v = q.parse_opcode_int_arg().unwrap();
        assert!(matches!(arg.value, ArgValue::IntVal(x) if x == v));
        assert_eq!(p.position(), q.position());
    }
}

#[test]
fn nested_integer_operand_refuses_an_alias() {
    let mut p = Parser::new(vec![0x27, 0x10]);
    assert_eq!(p.parse_int_operand(true), Err(ParseError::IntegerTooWide));
    let mut q = Parser::new(vec![0x33]);
    assert_eq!(q.parse_int_operand(true), Ok(3));
}

#[test]
fn allocation_list_entries_are_whole_operands() {
    // one entry: its kind is the alias of 1, its count a literal's index
    let (tag, value, used) = operand_of(&[0x37, 0x10, 0x27, 0x10, 0xe7, 0x10, 0x05]);
    assert_eq!(tag, ArgTag::AllocList);
    assert_eq!(used, 7);
    match value {
        ArgValue::AllocList(items) => {
            assert_eq!(items.len(), 1);
            assert_eq!(items[0].kind, AllocKind::FloatAlloc);
            assert_eq!(items[0].value, 5);
        },
        _ => panic!("not an allocation list"),
    }
}

#[test]
fn allocation_list_refuses_a_float_where_an_integer_is_due() {
    // as the kind of an entry
    let mut p = Parser::new(vec![0x10, 0x07, 0x00]);
    assert_eq!(p.parse_opcode_arg_alloc().err(), Some(ParseError::UnknownOpcode));
    assert_eq!(p.position(), 0);
    // as the count of an entry
    let mut p = Parser::new(vec![0x10, 0x00, 0x07, 0x40, 0x2b, 0x2d, 0x91, 0x68, 0x72, 0xb0, 0x21]);
    assert_eq!(p.parse_opcode_arg_alloc().err(), Some(ParseError::UnknownOpcode));
    // as the length of the list
    let mut p = Parser::new(vec![0x07, 0x40, 0x2b, 0x2d, 0x91, 0x68, 0x72, 0xb0, 0x21]);
    assert_eq!(p.parse_opcode_arg_alloc().err(), Some(ParseError::UnknownOpcode));
    assert_eq!(operand_error(&[0x37, 0x10, 0x07, 0x00]), ParseError::UnknownOpcode);
}

#[test]
fn allocation_list_refuses_a_list_where_an_integer_is_due() {
    let mut p = Parser::new(vec![0x10, 0x37, 0x00, 0x10]);
    assert_eq!(p.parse_opcode_arg_alloc().err(), Some(ParseError::UnknownOpcode));
    assert_eq!(operand_error(&[0x37, 0x37, 0x00]), ParseError::UnknownOpcode);
    let mut p = Parser::new(vec![0x00, 0x37]);
    assert_eq!(p.parse_alloc_entry().err(), Some(ParseError::UnknownOpcode));
    assert_eq!(p.position(), 0);
}

#[test]
fn literal_is_read_in_the_long_form() {
    // top bits 010: four bytes, unsigned
    let (tag, value, used) = operand_of(&[0x47, 0x80, 0x00, 0x00, 0x02]);
    assert_eq!(tag, ArgTag::Lit);
    assert!(matches!(value, ArgValue::IntVal(0x8000_0002)));
    assert_eq!(used, 5);
    // top bits 011: five bytes
    let (tag, value, used) = operand_of(&[0x67, 0, 0, 0, 0, 9]);
    assert_eq!(tag, ArgTag::Lit);
    assert!(matches!(value, ArgValue::IntVal(9)));
    assert_eq!(used, 6);
    // top bits 111: the length stands in a further integer
    let (tag, value, used) = operand_of(&[0xe7, 0x10, 0x2a]);
    assert_eq!(tag, ArgTag::Lit);
    assert!(matches!(value, ArgValue::IntVal(0x2a)));
    assert_eq!(used, 3);
}

#[test]
fn literal_cut_short_is_eof() {
    assert_eq!(operand_error(&[0x47, 0, 0]), ParseError::UnexpectedEof);
}

#[test]
fn operand_without_bytes_is_eof() {
    assert_eq!(operand_error(&[]), ParseError::UnexpectedEof);
}

#[test]
fn long_form_alone() {
    let mut p = Parser::new(vec![0x01, 0x02]);
    assert_eq!(p.parse_long_form(0x00, true), Ok(0x0102));
    let mut q = Parser::new(vec![0x20, 1, 2]);
    assert_eq!(q.parse_long_form(0xe0, false), Err(ParseError::IntegerTooWide));
    let mut r = Parser::new(vec![0x20, 1, 2]);
    assert_eq!(r.parse_integer(0xf8, true), Ok(0x0102));
}
