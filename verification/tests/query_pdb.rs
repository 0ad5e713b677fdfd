use kafer_core::query_pdb::code_view::CodeViewString;
use kafer_core::query_pdb::code_view::CompileSym;
use kafer_core::query_pdb::code_view::CompileSym1;
use kafer_core::query_pdb::code_view::CompileSym3;
use kafer_core::query_pdb::code_view::ConstantSymbol;
use kafer_core::query_pdb::code_view::Namespace;
use kafer_core::query_pdb::code_view::RecordEntry;
use kafer_core::query_pdb::code_view::TypeId;
use kafer_core::query_pdb::parser::trim_zeros;
use kafer_core::query_pdb::parser::Parser;
use kafer_core::query_pdb::read_symbols_for_file;
use kafer_core::query_pdb::DebugSymbolsCollection;
use kafer_core::query_pdb::DebugSymbolsFromFile;
use kafer_core::query_pdb::SymbolRecord;

#[test]
fn parser_reads_numbers() {
    let bytes = [0x01, 0x02, 0x03, 0x04, 0x05, 0x06, 0x07];
    let mut parser = Parser::new(&bytes);
    assert_eq!(parser.remaining(), 7);
    assert_eq!(parser.read_u32(), 0x0403_0201);
    assert_eq!(parser.remaining(), 3);
    assert_eq!(parser.read_u16(), 0x0605);
    assert_eq!(parser.remaining(), 1);
}

#[test]
fn parser_skips_to_the_end_at_most() {
    let bytes = [0u8; 10];
    let mut parser = Parser::new(&bytes);
    parser.skip(4);
    assert_eq!(parser.remaining(), 6);
    parser.skip(100);
    assert_eq!(parser.remaining(), 0);
    parser.skip(usize::MAX);
    assert_eq!(parser.remaining(), 0);
}

#[test]
fn parser_reads_bytes_and_texts() {
    let bytes = b"abcdef\0\0xyz";
    let mut parser = Parser::new(bytes);
    assert_eq!(parser.read_bytes(2), b"ab");
    assert_eq!(parser.read_string_with_length(2), "cd");
    assert_eq!(parser.read_string_with_length_trimmed(4), "ef");
    assert_eq!(parser.read_path_buf_with_length_trimmed(3), "xyz");
    assert_eq!(parser.remaining(), 0);
}

#[test]
fn parser_reads_texts_only_where_they_are_texts() {
    let bytes = [b'a', b'b', 0xff, b'c'];
    let mut parser = Parser::new(&bytes);
    assert_eq!(parser.try_read_string_with_length(5), None);
    assert_eq!(parser.try_read_string_with_length(3), None);
    assert_eq!(parser.remaining(), 4);
    assert_eq!(parser.try_read_string_with_length(2), Some("ab"));
    assert_eq!(parser.remaining(), 2);
    assert_eq!(parser.try_read_string_with_length(0), Some(""));
}

#[test]
fn parser_peek_does_not_move_the_cursor() {
    let bytes = [0x34, 0x12, 0x78, 0x56];
    let mut parser = Parser::new(&bytes);
    let mut peek = parser.peek();
    assert_eq!(peek.read_u16(), 0x1234);
    assert_eq!(peek.read_u16(), 0x5678);
    assert_eq!(parser.remaining(), 4);
    assert_eq!(parser.read_u16(), 0x1234);
}

#[test]
fn zeros_at_the_end_are_dropped() {
    assert_eq!(trim_zeros("path\0\0\0"), "path");
    assert_eq!(trim_zeros("pa\0th\0"), "pa\0th");
    assert_eq!(trim_zeros("\0\0"), "");
    assert_eq!(trim_zeros(""), "");
    assert_eq!(trim_zeros("none"), "none");
}

#[test]
fn counted_text() {
    let bytes = [0xaa, 3, 0, b'a', b'b', b'c', b'd'];
    assert_eq!(CodeViewString::read(&bytes, 1), Some(CodeViewString::new(b"abc".to_vec())));
    assert_eq!(CodeViewString::read(&bytes, 5), None);
    assert_eq!(CodeViewString::read(&bytes, 6), None);
    assert_eq!(CodeViewString::read(&[0, 0], 0), Some(CodeViewString::new(vec![])));
    assert_eq!(CodeViewString::read(&[5, 0, 1, 2], 0), None);
}

fn record(kind: u16, body: &[u8]) -> Vec<u8> {
    let mut bytes = Vec::new();
    bytes.extend_from_slice(&((body.len() + 2) as u16).to_le_bytes());
    bytes.extend_from_slice(&kind.to_le_bytes());
    bytes.extend_from_slice(body);
    bytes
}

fn compile3() -> Vec<u8> {
    let mut body = vec![0x01, 0x34, 0x12, 0x00];
    for value in [0xd0u16, 19, 40, 33811, 0, 19, 40, 33811, 0] {
        body.extend_from_slice(&value.to_le_bytes());
    }
    body.extend_from_slice(b"Microsoft (R) Optimizing Compiler\0");
    record(0x113c, &body)
}

fn compile1() -> Vec<u8> {
    let mut body = vec![0x00, 0x01, 0x00, 0x00];
    for value in [0xd0u16, 14, 0, 50727, 14, 0, 50727] {
        body.extend_from_slice(&value.to_le_bytes());
    }
    body.extend_from_slice(b"old compiler\0");
    record(0x1116, &body)
}

fn constant(value: u16, name: &[u8]) -> Vec<u8> {
    let mut body = 0x1003u32.to_le_bytes().to_vec();
    body.extend_from_slice(&value.to_le_bytes());
    body.extend_from_slice(&(name.len() as u16).to_le_bytes());
    body.extend_from_slice(name);
    record(0x1107, &body)
}

fn namespace(name: &[u8]) -> Vec<u8> {
    let mut body = name.to_vec();
    body.push(0);
    record(0x1124, &body)
}

#[test]
fn record_types() {
    assert!(CompileSym3::is_valid_record_type(0x113c));
    assert!(!CompileSym3::is_valid_record_type(0x1116));
    assert!(CompileSym1::is_valid_record_type(0x1116));
    assert!(CompileSym::is_valid_record_type(0x1116));
    assert!(CompileSym::is_valid_record_type(0x113c));
    assert!(!CompileSym::is_valid_record_type(0x1107));
    assert!(ConstantSymbol::is_valid_record_type(0x1107));
    assert!(Namespace::is_valid_record_type(0x1124));
    assert!(!Namespace::is_valid_record_type(0));
}

#[test]
fn record_of_the_compiler() {
    let bytes = compile3();
    let symbol = CompileSym3::read(&bytes).unwrap();
    assert_eq!(symbol.reclen as usize, bytes.len() - 2);
    assert_eq!(symbol.rectyp, 0x113c);
    assert_eq!(symbol.flags.language, 1);
    assert_eq!(symbol.flags.flags, 0x1234);
    assert_eq!(symbol.machine, 0xd0);
    assert_eq!(symbol.ver_frontend_major, 19);
    assert_eq!(symbol.ver_frontend_build, 33811);
    assert_eq!(symbol.ver_qfe, 0);
    assert_eq!(symbol.version, b"Microsoft (R) Optimizing Compiler");
    assert!(matches!(CompileSym::read(&bytes), Some(CompileSym::Symbol3(_))));
}

#[test]
fn record_of_an_older_compiler() {
    let bytes = compile1();
    let symbol = CompileSym1::read(&bytes).unwrap();
    assert_eq!(symbol.rectyp, 0x1116);
    assert_eq!(symbol.flags.flags, 1);
    assert_eq!(symbol.ver_frontend_major, 14);
    assert_eq!(symbol.ver_build, 50727);
    assert_eq!(symbol.version, b"old compiler");
    assert!(matches!(CompileSym::read(&bytes), Some(CompileSym::Symbol1(_))));
}

#[test]
fn records_that_are_cut_off() {
    let bytes = compile3();
    assert!(CompileSym3::read(&bytes[..bytes.len() - 1]).is_none());
    assert!(CompileSym3::read(&bytes[..20]).is_none());
    assert!(CompileSym::read(&bytes[..3]).is_none());
    let bytes = constant(7, b"SEVEN");
    assert!(ConstantSymbol::read(&bytes[..bytes.len() - 1]).is_none());
    let bytes = namespace(b"std");
    assert!(Namespace::read(&bytes[..bytes.len() - 1]).is_none());
    assert!(CompileSym::read(&namespace(b"std")).is_none());
}

#[test]
fn record_of_a_constant() {
    let symbol = ConstantSymbol::read(&constant(7, b"SEVEN")).unwrap();
    assert_eq!(symbol.rectyp, 0x1107);
    assert_eq!(symbol.type_index, TypeId(0x1003));
    assert_eq!(symbol.value, 7);
    assert_eq!(symbol.name, CodeViewString::new(b"SEVEN".to_vec()));
}

#[test]
fn record_of_a_namespace() {
    let symbol = Namespace::read(&namespace(b"std::chrono")).unwrap();
    assert_eq!(symbol.rectyp, 0x1124);
    assert_eq!(symbol.name, b"std::chrono");
}

#[test]
fn parser_reads_records_of_the_kind_asked_for() {
    let mut bytes = constant(1, b"ONE");
    bytes.extend_from_slice(&namespace(b"ns"));
    let mut parser = Parser::new(&bytes);
    assert!(parser.try_parse::<Namespace>().is_none());
    assert_eq!(parser.remaining(), bytes.len());
    let one = parser.try_parse::<ConstantSymbol>().unwrap();
    assert_eq!(one.value, 1);
    assert!(parser.try_parse::<ConstantSymbol>().is_none());
    let ns = parser.try_parse::<Namespace>().unwrap();
    assert_eq!(ns.name, b"ns");
    assert_eq!(parser.remaining(), 0);
    assert!(parser.try_parse::<Namespace>().is_none());
}

#[test]
fn parser_reads_no_record_that_is_cut_off() {
    let bytes = constant(1, b"ONE");
    let mut parser = Parser::new(&bytes[..bytes.len() - 1]);
    assert!(parser.try_parse::<ConstantSymbol>().is_none());
    assert_eq!(parser.remaining(), bytes.len() - 1);
}

fn stream(path: &[u8], records: &[Vec<u8>]) -> Vec<u8> {
    let mut bytes = 4u32.to_le_bytes().to_vec();
    bytes.extend_from_slice(&((path.len() + 6) as u16).to_le_bytes());
    bytes.extend_from_slice(&[0u8; 6]);
    bytes.extend_from_slice(path);
    for record in records {
        bytes.extend_from_slice(record);
    }
    bytes
}

#[test]
fn source_file_of_a_stream() {
    let bytes = stream(b"C:\\src\\main.obj\0\0\0", &[]);
    let symbols = read_symbols_for_file(&bytes, 12).unwrap();
    assert_eq!(symbols.stream_index, 12);
    assert_eq!(symbols.file_path, "C:\\src\\main.obj");
}

#[test]
fn streams_that_hold_no_symbols_of_a_source_file() {
    assert!(read_symbols_for_file(&[], 0).is_none());
    assert!(read_symbols_for_file(&[4, 0, 0, 0, 6, 0], 0).is_none());
    let mut bytes = stream(b"a.obj", &[]);
    bytes[0] = 5;
    assert!(read_symbols_for_file(&bytes, 0).is_none());
    let mut bytes = stream(b"a.obj", &[]);
    bytes[4] = 5;
    assert!(read_symbols_for_file(&bytes, 0).is_none());
    let mut bytes = stream(b"a.obj", &[]);
    bytes[4] = 200;
    assert!(read_symbols_for_file(&bytes, 0).is_none());
    assert!(read_symbols_for_file(&stream(&[b'a', 0xff], &[]), 0).is_none());
}

#[test]
fn symbols_of_a_stream() {
    let records = [
        compile3(),
        constant(1, b"ONE"),
        namespace(b"ns"),
        constant(2, b"TWO"),
        record(0x6, &[]),
        constant(3, b"THREE"),
    ];
    // The head of the stream is passed over by its length, which here
    // covers six bytes and the path.
    let bytes = stream(b"a.obj\0", &records);
    let file = DebugSymbolsFromFile { stream_index: 1, file_path: String::from("a.obj") };
    let symbols = file.read(&bytes).unwrap();
    assert_eq!(symbols.len(), 4);
    assert!(matches!(&symbols[0], SymbolRecord::Compile(CompileSym::Symbol3(_))));
    assert!(matches!(&symbols[1], SymbolRecord::Constant(c) if c.value == 1));
    assert!(matches!(&symbols[2], SymbolRecord::Namespace(n) if n.name == b"ns"));
    assert!(matches!(&symbols[3], SymbolRecord::Constant(c) if c.value == 2));
}

#[test]
fn symbols_of_a_stream_without_the_record_of_the_compiler() {
    let file = DebugSymbolsFromFile { stream_index: 1, file_path: String::from("a.obj") };
    assert!(file.read(&stream(b"a.obj\0", &[constant(1, b"ONE")])).is_none());
    assert!(file.read(&stream(b"a.obj\0", &[])).is_none());
    assert!(file.read(&[1, 2, 3]).is_none());
}

#[test]
fn symbols_of_a_stream_that_is_cut_off() {
    let mut bytes = stream(b"a.obj\0", &[compile1(), constant(1, b"ONE"), namespace(b"ns")]);
    bytes.truncate(bytes.len() - 1);
    let file = DebugSymbolsFromFile { stream_index: 1, file_path: String::from("a.obj") };
    let symbols = file.read(&bytes).unwrap();
    assert_eq!(symbols.len(), 2);
    assert!(matches!(&symbols[0], SymbolRecord::Compile(CompileSym::Symbol1(_))));
}

#[test]
fn source_files_of_a_symbol_file() {
    let streams = vec![
        vec![],
        stream(b"a.obj\0", &[]),
        vec![1, 2, 3],
        stream(b"b.obj\0", &[]),
        stream(b"a.obj\0\0", &[]),
    ];
    let collection = DebugSymbolsCollection::read_from_streams(&streams);
    let files: Vec<(&str, u16)> =
        collection.files().iter().map(|f| (f.file_path.as_str(), f.stream_index)).collect();
    // The later stream of a source file takes the place of the earlier one.
    assert_eq!(files, vec![("a.obj", 4), ("b.obj", 3)]);
}

#[test]
fn counted_text_as_a_string() {
    assert_eq!(CodeViewString::new(b"std::vector<int>".to_vec()).to_string(), "std::vector<int>");
    assert_eq!(CodeViewString::new("Grüße".as_bytes().to_vec()).to_string(), "Grüße");
    assert_eq!(CodeViewString::new(vec![b'a', 0xff, b'b']).to_string(), "a\u{fffd}b");
    assert_eq!(CodeViewString::new(vec![]).to_string(), "");
}
