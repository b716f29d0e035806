use beamwand::ast::{Ast, ChunkBody, ChunkKind, Export};
use beamwand::container::parse;
use beamwand::error::ParseError;
use beamwand::parser::Parser;

fn framed(tag: &[u8; 4], payload: &[u8]) -> Vec<u8> {
    let mut out = tag.to_vec();
    out.extend_from_slice(&(payload.len() as u32).to_be_bytes());
    out.extend_from_slice(payload);
    while out.len() % 4 != 0 {
        out.push(0);
    }
    out
}

fn file_of(chunks: &[Vec<u8>]) -> Vec<u8> {
    let mut body = b"BEAM".to_vec();
    for c in chunks {
        body.extend_from_slice(c);
    }
    let mut out = b"FOR1".to_vec();
    out.extend_from_slice(&(body.len() as u32).to_be_bytes());
    out.extend_from_slice(&body);
    out
}

fn code_payload(stream: &[u8]) -> Vec<u8> {
    let mut bytes = vec![0, 0, 0, 16, 0, 0, 0, 0, 0, 0, 0, 153, 0, 0, 0, 0, 0, 0, 0, 0];
    bytes.extend_from_slice(stream);
    bytes
}

fn literal_payload(declared: u32, data: &[u8]) -> Vec<u8> {
    let mut out = declared.to_be_bytes().to_vec();
    out.extend_from_slice(&[0x78, 0x01]);
    let len = data.len() as u16;
    out.push(0x01);
    out.extend_from_slice(&len.to_le_bytes());
    out.extend_from_slice(&(!len).to_le_bytes());
    out.extend_from_slice(data);
    out.extend_from_slice(&[0, 0, 0, 0]);
    out
}

fn parsed(bytes: Vec<u8>) -> Ast {
    match parse(bytes) {
        Ok(ast) => ast,
        Err(e) => panic!("container refused: {:?}", e),
    }
}

#[test]
fn container_without_chunks() {
    let ast = parsed(file_of(&[]));
    assert_eq!(ast.chunks.len(), 0);
}

#[test]
fn container_with_every_decoded_kind() {
    let atoms = vec![0, 0, 0, 2, 2, b'a', b'b', 3, b'x', b'y', b'z'];
    let exports = vec![0, 0, 0, 1, 0, 0, 0, 1, 0, 0, 0, 0, 0, 0, 0, 2];
    let imports = vec![0, 0, 0, 0];
    let locals = vec![0, 0, 0, 1, 0, 0, 0, 2, 0, 0, 0, 1, 0, 0, 0, 4];
    let funs = vec![0, 0, 0, 0];
    let code = code_payload(&[1, 0x20, 19]);
    let literals = literal_payload(8, &[0, 0, 0, 1, 0, 0, 0, 0]);
    let bytes = file_of(&[
        framed(b"Atom", &atoms),
        framed(b"ExpT", &exports),
        framed(b"ImpT", &imports),
        framed(b"LocT", &locals),
        framed(b"FunT", &funs),
        framed(b"Code", &code),
        framed(b"LitT", &literals),
        framed(b"StrT", b"hello"),
        framed(b"Attr", &[1]),
        framed(b"CInf", &[1, 2]),
        framed(b"Abst", &[1, 2, 3]),
        framed(b"Line", &[1, 2, 3, 4]),
        framed(b"Trac", &[]),
    ]);
    let ast = parsed(bytes);
    let kinds: Vec<ChunkKind> = ast.chunks.iter().map(|c| c.kind).collect();
    assert_eq!(
        kinds,
        vec![
            ChunkKind::Atom,
            ChunkKind::Export,
            ChunkKind::Import,
            ChunkKind::Local,
            ChunkKind::Function,
            ChunkKind::Code,
            ChunkKind::Literal,
            ChunkKind::String,
            ChunkKind::Attr,
            ChunkKind::CInfo,
            ChunkKind::Abst,
            ChunkKind::Line,
            ChunkKind::Trace,
        ]
    );
    let sizes: Vec<usize> = ast.chunks.iter().map(|c| c.size).collect();
    assert_eq!(sizes, vec![11, 16, 4, 16, 4, 23, 23, 5, 1, 2, 3, 4, 0]);
    match &ast.chunks[0].body {
        ChunkBody::AtomTable(t) => {
            assert_eq!(t.get(1), Some(&b"ab".to_vec()));
            assert_eq!(t.get(2), Some(&b"xyz".to_vec()));
        },
        other => panic!("not an atom table: {:?}", other),
    }
    assert!(matches!(&ast.chunks[1].body, ChunkBody::ExportTable(l)
        if *l == vec![Export { name: 1, arity: 0, label: 2 }]));
    assert!(matches!(&ast.chunks[2].body, ChunkBody::ImportTable(l) if l.is_empty()));
    assert!(matches!(&ast.chunks[3].body, ChunkBody::ExportTable(l)
        if *l == vec![Export { name: 2, arity: 1, label: 4 }]));
    assert!(matches!(&ast.chunks[4].body, ChunkBody::FunTable(l) if l.is_empty()));
    match &ast.chunks[5].body {
        ChunkBody::CodeTable(labels) => {
            assert_eq!(labels.len(), 2);
            assert_eq!(labels.get(2).unwrap().len(), 1);
        },
        other => panic!("not a code table: {:?}", other),
    }
    assert!(matches!(&ast.chunks[6].body, ChunkBody::LiteralTable(l) if *l == vec![Vec::<u8>::new()]));
    assert!(matches!(&ast.chunks[7].body, ChunkBody::Raw(b) if b == b"hello"));
    assert!(matches!(&ast.chunks[11].body, ChunkBody::Raw(b) if *b == vec![1, 2, 3, 4]));
    assert!(matches!(&ast.chunks[12].body, ChunkBody::Empty));
}

#[test]
fn chunk_without_payload_is_empty_whatever_its_kind() {
    let ast = parsed(file_of(&[
        framed(b"Atom", &[]),
        framed(b"Code", &[]),
        framed(b"LitT", &[]),
        framed(b"ImpT", &[]),
        framed(b"StrT", &[]),
    ]));
    assert_eq!(ast.chunks.len(), 5);
    for c in &ast.chunks {
        assert_eq!(c.size, 0);
        assert!(matches!(c.body, ChunkBody::Empty));
    }
    assert_eq!(ast.chunks[1].kind, ChunkKind::Code);
}

#[test]
fn chunks_take_all_bytes_behind_the_header() {
    let bytes = file_of(&[
        framed(b"StrT", b"a"),
        framed(b"Attr", b"ab"),
        framed(b"CInf", b"abc"),
        framed(b"Line", b"abcd"),
        framed(b"Abst", b"abcde"),
        framed(b"Trac", b""),
    ]);
    let total = bytes.len();
    let ast = parsed(bytes);
    let framed_len: usize = ast.chunks.iter().map(|c| 8 + c.size + (4 - c.size % 4) % 4).sum();
    assert_eq!(framed_len, 9 + 3 + 10 + 2 + 11 + 1 + 12 + 13 + 3 + 8);
    assert_eq!(12 + framed_len, total);
}

#[test]
fn run_ends_at_the_end_of_the_buffer() {
    let bytes = file_of(&[framed(b"StrT", b"abcde")]);
    let total = bytes.len();
    let mut p = Parser::new(bytes);
    let ast = p.run().unwrap();
    assert_eq!(ast.chunks.len(), 1);
    assert_eq!(p.position(), total);
    assert_eq!(p.remaining(), 0);
}

#[test]
fn wrong_first_tag_is_malformed_magic() {
    let mut bytes = file_of(&[framed(b"StrT", b"abc")]);
    bytes[3] = b'2';
    assert_eq!(parse(bytes).err(), Some(ParseError::MalformedMagic));
    assert_eq!(parse(b"XXXX".to_vec()).err(), Some(ParseError::MalformedMagic));
    assert_eq!(parse(b"BEAMxxxxFOR1".to_vec()).err(), Some(ParseError::MalformedMagic));
}

#[test]
fn wrong_second_tag_is_malformed_magic() {
    let mut bytes = file_of(&[framed(b"StrT", b"abc")]);
    bytes[8] = b'b';
    assert_eq!(parse(bytes).err(), Some(ParseError::MalformedMagic));
    assert_eq!(parse(b"FOR1\0\0\0\x04BEAN".to_vec()).err(), Some(ParseError::MalformedMagic));
}

#[test]
fn wrong_second_tag_comes_before_the_form_length() {
    assert_eq!(
        parse(b"FOR1\xff\xff\xff\xffBEAN".to_vec()).err(),
        Some(ParseError::MalformedMagic)
    );
    assert_eq!(
        parse(b"XXXX\xff\xff\xff\xffBEAM".to_vec()).err(),
        Some(ParseError::MalformedMagic)
    );
}

#[test]
fn header_cut_short_is_eof() {
    assert_eq!(parse(vec![]).err(), Some(ParseError::UnexpectedEof));
    assert_eq!(parse(b"FOR".to_vec()).err(), Some(ParseError::UnexpectedEof));
    assert_eq!(parse(b"FOR1".to_vec()).err(), Some(ParseError::UnexpectedEof));
    assert_eq!(parse(b"FOR1\0\0\0".to_vec()).err(), Some(ParseError::UnexpectedEof));
    assert_eq!(parse(b"FOR1\0\0\0\x04".to_vec()).err(), Some(ParseError::UnexpectedEof));
    assert_eq!(parse(b"FOR1\0\0\0\x04BEA".to_vec()).err(), Some(ParseError::UnexpectedEof));
}

#[test]
fn form_length_may_not_exceed_what_follows_it() {
    assert!(parse(b"FOR1\0\0\0\x04BEAM".to_vec()).is_ok());
    assert_eq!(parse(b"FOR1\0\0\0\x05BEAM".to_vec()).err(), Some(ParseError::UnexpectedEof));
    assert_eq!(
        parse(b"FOR1\xff\xff\xff\xffBEAM".to_vec()).err(),
        Some(ParseError::UnexpectedEof)
    );
    let mut bytes = file_of(&[framed(b"StrT", b"abc")]);
    bytes[7] += 1;
    assert_eq!(parse(bytes).err(), Some(ParseError::UnexpectedEof));
}

#[test]
fn form_length_may_fall_short_of_the_buffer() {
    let mut bytes = file_of(&[framed(b"StrT", b"abc")]);
    bytes[7] = 0;
    let ast = parsed(bytes);
    assert_eq!(ast.chunks.len(), 1);
}

#[test]
fn unknown_chunk_tag_is_refused() {
    let bytes = file_of(&[framed(b"StrT", b"abc"), framed(b"AtU8", &[0, 0, 0, 0])]);
    assert_eq!(parse(bytes).err(), Some(ParseError::UnknownChunkTag));
    let lower = file_of(&[framed(b"atom", &[0, 0, 0, 0])]);
    assert_eq!(parse(lower).err(), Some(ParseError::UnknownChunkTag));
}

#[test]
fn chunk_header_cut_short_is_eof() {
    for extra in 1..8 {
        let mut bytes = file_of(&[framed(b"StrT", b"abcd")]);
        bytes.extend_from_slice(&b"Atom\0\0\0"[..extra]);
        assert_eq!(parse(bytes).err(), Some(ParseError::UnexpectedEof), "{} bytes", extra);
    }
    let mut unknown = file_of(&[]);
    unknown.extend_from_slice(b"XXXX\0");
    assert_eq!(parse(unknown).err(), Some(ParseError::UnexpectedEof));
}

#[test]
fn payload_cut_short_is_eof() {
    let mut bytes = file_of(&[framed(b"StrT", b"abcdefgh")]);
    bytes.truncate(bytes.len() - 1);
    assert_eq!(parse(bytes).err(), Some(ParseError::UnexpectedEof));
    let mut huge = file_of(&[]);
    huge.extend_from_slice(b"StrT\xff\xff\xff\xff");
    assert_eq!(parse(huge).err(), Some(ParseError::UnexpectedEof));
}

#[test]
fn missing_padding_is_eof() {
    let mut bytes = file_of(&[framed(b"StrT", b"abcde")]);
    bytes.truncate(bytes.len() - 1);
    assert_eq!(parse(bytes).err(), Some(ParseError::UnexpectedEof));
    let mut none = file_of(&[framed(b"StrT", b"abcde")]);
    none.truncate(none.len() - 3);
    assert_eq!(parse(none).err(), Some(ParseError::UnexpectedEof));
}

#[test]
fn padding_bytes_are_passed_over_unread() {
    let mut bytes = file_of(&[framed(b"StrT", b"abcde"), framed(b"Attr", b"x")]);
    bytes[12 + 8 + 5] = 0xaa;
    bytes[12 + 8 + 6] = 0xbb;
    bytes[12 + 8 + 7] = 0xcc;
    let ast = parsed(bytes);
    assert_eq!(ast.chunks.len(), 2);
    assert!(matches!(&ast.chunks[0].body, ChunkBody::Raw(b) if b == b"abcde"));
    assert!(matches!(&ast.chunks[1].body, ChunkBody::Raw(b) if b == b"x"));
}

#[test]
fn table_must_fill_its_declared_size() {
    let slack = file_of(&[framed(b"Atom", &[0, 0, 0, 1, 1, b'a', 0])]);
    assert_eq!(parse(slack).err(), Some(ParseError::UnknownChunkTag));
    let slack = file_of(&[framed(b"ImpT", &[0, 0, 0, 0, 0])]);
    assert_eq!(parse(slack).err(), Some(ParseError::UnknownChunkTag));
    let slack = file_of(&[framed(b"ExpT", &[0, 0, 0, 0, 1, 2, 3, 4])]);
    assert_eq!(parse(slack).err(), Some(ParseError::UnknownChunkTag));
    let slack = file_of(&[framed(b"LocT", &[0, 0, 0, 0, 1])]);
    assert_eq!(parse(slack).err(), Some(ParseError::UnknownChunkTag));
    let slack = file_of(&[framed(b"FunT", &[0, 0, 0, 0, 1])]);
    assert_eq!(parse(slack).err(), Some(ParseError::UnknownChunkTag));
}

#[test]
fn table_may_not_read_past_its_declared_size() {
    // the atom's text would run into the next chunk
    let bytes = file_of(&[framed(b"Atom", &[0, 0, 0, 1, 9, b'a', b'b', b'c']), framed(b"StrT", b"abcdefgh")]);
    assert_eq!(parse(bytes).err(), Some(ParseError::UnexpectedEof));
    let bytes = file_of(&[framed(b"ImpT", &[0, 0, 0, 1, 0, 0, 0, 1]), framed(b"StrT", b"abcdefgh")]);
    assert_eq!(parse(bytes).err(), Some(ParseError::UnexpectedEof));
}

#[test]
fn errors_of_the_code_chunk_end_the_parse() {
    let unknown = file_of(&[framed(b"Code", &code_payload(&[0]))]);
    assert_eq!(parse(unknown).err(), Some(ParseError::UnknownOpcode));
    let duplicate = file_of(&[framed(b"Code", &code_payload(&[1, 0x20, 19, 1, 0x10, 19]))]);
    assert_eq!(parse(duplicate).err(), Some(ParseError::DuplicateLabel));
    let wide = file_of(&[framed(b"Code", &code_payload(&[17, 0xf8, 0x90]))]);
    assert_eq!(parse(wide).err(), Some(ParseError::IntegerTooWide));
    let magic = file_of(&[framed(b"Code", &[0, 0, 0, 1])]);
    assert_eq!(parse(magic).err(), Some(ParseError::MalformedMagic));
    let cut = file_of(&[framed(b"Code", &code_payload(&[64, 0x03])), framed(b"StrT", b"abcd")]);
    assert_eq!(parse(cut).err(), Some(ParseError::UnexpectedEof));
}

#[test]
fn corrupt_literal_table_ends_the_parse() {
    let bytes = file_of(&[framed(b"LitT", &literal_payload(9, &[0, 0, 0, 0]))]);
    assert_eq!(parse(bytes).err(), Some(ParseError::CorruptLiteralTable));
}

#[test]
fn chunk_kinds_by_tag() {
    let tags: [(&[u8; 4], ChunkKind); 13] = [
        (b"Atom", ChunkKind::Atom),
        (b"ExpT", ChunkKind::Export),
        (b"ImpT", ChunkKind::Import),
        (b"Code", ChunkKind::Code),
        (b"StrT", ChunkKind::String),
        (b"LitT", ChunkKind::Literal),
        (b"FunT", ChunkKind::Function),
        (b"Attr", ChunkKind::Attr),
        (b"CInf", ChunkKind::CInfo),
        (b"LocT", ChunkKind::Local),
        (b"Abst", ChunkKind::Abst),
        (b"Line", ChunkKind::Line),
        (b"Trac", ChunkKind::Trace),
    ];
    for (tag, kind) in tags.iter() {
        let mut p = Parser::new(tag.to_vec());
        assert_eq!(p.parse_chunk_kind(), Ok(*kind));
        assert_eq!(p.position(), 4);
    }
    let mut p = Parser::new(b"Atoms".to_vec());
    assert_eq!(p.parse_chunk_kind(), Ok(ChunkKind::Atom));
    let mut p = Parser::new(b"Ato".to_vec());
    assert_eq!(p.parse_chunk_kind(), Err(ParseError::UnexpectedEof));
    let mut p = Parser::new(b"Trax".to_vec());
    assert_eq!(p.parse_chunk_kind(), Err(ParseError::UnknownChunkTag));
    assert_eq!(p.position(), 0);
}

#[test]
fn parse_chunk_sees_only_its_payload() {
    let mut p = Parser::new(vec![0, 0, 0, 1, 1, b'a', 0xee, 0xee]);
    let c = p.parse_chunk(ChunkKind::Atom, 6).unwrap();
    assert_eq!(c.kind, ChunkKind::Atom);
    assert_eq!(c.size, 6);
    assert_eq!(p.position(), 6);
    let mut p = Parser::new(vec![0, 0, 0, 1, 1, b'a', 0xee, 0xee]);
    assert_eq!(p.parse_chunk(ChunkKind::Atom, 5).err(), Some(ParseError::UnexpectedEof));
    assert_eq!(p.position(), 0);
    assert_eq!(p.parse_chunk(ChunkKind::Atom, 7).err(), Some(ParseError::UnknownChunkTag));
    assert_eq!(p.position(), 0);
    assert_eq!(p.parse_chunk(ChunkKind::Atom, 9).err(), Some(ParseError::UnexpectedEof));
    assert_eq!(p.position(), 0);
    let raw = p.parse_chunk(ChunkKind::Attr, 3).unwrap();
    assert!(matches!(raw.body, ChunkBody::Raw(b) if b == vec![0, 0, 0]));
    assert_eq!(p.position(), 3);
    let empty = p.parse_chunk(ChunkKind::Code, 0).unwrap();
    assert!(matches!(empty.body, ChunkBody::Empty));
    assert_eq!(p.position(), 3);
}

#[test]
fn framed_chunk_moves_past_padding() {
    let mut bytes = framed(b"StrT", b"abcde");
    bytes.extend_from_slice(&framed(b"Attr", b""));
    let mut p = Parser::new(bytes);
    let c = p.parse_framed_chunk().unwrap();
    assert_eq!(c.size, 5);
    assert_eq!(p.position(), 16);
    let d = p.parse_framed_chunk().unwrap();
    assert_eq!(d.kind, ChunkKind::Attr);
    assert_eq!(p.position(), 24);
    assert_eq!(p.parse_framed_chunk().err(), Some(ParseError::UnexpectedEof));
}

#[test]
fn header_alone() {
    let mut p = Parser::new(b"FOR1\0\0\0\x04BEAMrest".to_vec());
    assert_eq!(p.parse_header(), Ok(()));
    assert_eq!(p.position(), 12);
    let mut p = Parser::new(b"FOR1\0\0\0\x09BEAMrest".to_vec());
    assert_eq!(p.parse_header(), Err(ParseError::UnexpectedEof));
}
