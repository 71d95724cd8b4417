use std::io::Write;

use kerbalobjects::ko::errors::{
    HeaderParseError as KOHeaderParseError, KOParseError, StringTableParseError, ValidationError,
};
use kerbalobjects::ko::sections::{
    DataIdx, DataSection, FuncSection, InstrIdx, SectionHeader, SectionKind, StringIdx,
    StringTable,
};
use kerbalobjects::ko::symbols::{KOSymbol, OperandIndex, ReldEntry, SymBind, SymType};
use kerbalobjects::ko::{Instr, KOFile, SectionIdx};
use kerbalobjects::ksm::errors::{HeaderParseError as KSMHeaderParseError, KSMParseError};
use kerbalobjects::ksm::sections::{CodeSection, CodeType, DebugEntry, DebugRange, DebugSection};
use kerbalobjects::ksm::{Instr as KSMInstr, IntSize, KSMFile};
use kerbalobjects::{BufferIterator, KOSValue, Opcode};

/// Builds the small "Hello, world!" object file of the crate's documentation and returns its
/// bytes.
fn hello_world_bytes() -> Vec<u8> {
    let mut ko = KOFile::new();

    let mut data_section = ko.new_data_section(".data");
    let mut start = ko.new_func_section("_start");
    let mut symtab = ko.new_symtab(".symtab");
    let mut symstrtab = ko.new_strtab(".symstrtab");

    let one = data_section.add_checked(KOSValue::Int16(1));
    let zero = data_section.add_checked(KOSValue::Int16(0));
    start.add(Instr::TwoOp(Opcode::Bscp, one, zero));
    start.add(Instr::ZeroOp(Opcode::Argb));
    let marker = data_section.add_checked(KOSValue::ArgMarker);
    start.add(Instr::OneOp(Opcode::Push, marker));
    let hello = data_section.add_checked(KOSValue::StringValue("Hello, world!".into()));
    start.add(Instr::OneOp(Opcode::Push, hello));
    let empty = data_section.add_checked(KOSValue::String("".into()));
    let print = data_section.add_checked(KOSValue::String("print()".into()));
    start.add(Instr::TwoOp(Opcode::Call, empty, print));
    start.add(Instr::ZeroOp(Opcode::Pop));
    start.add(Instr::OneOp(Opcode::Escp, one));

    let file_symbol = KOSymbol::new(
        symstrtab.add("test.kasm"),
        DataIdx::from(0u32),
        0,
        SymBind::Global,
        SymType::File,
        SectionIdx::from(0u16),
    );
    let start_symbol = KOSymbol::new(
        symstrtab.add("_start"),
        DataIdx::from(0u32),
        start.size() as u16,
        SymBind::Global,
        SymType::Func,
        start.section_index(),
    );
    symtab.add(file_symbol);
    symtab.add(start_symbol);

    ko.add_data_section(data_section);
    ko.add_func_section(start);
    ko.add_str_tab(symstrtab);
    ko.add_sym_tab(symtab);

    let ko = ko.validate().expect("the headers of the file are sound");
    let mut buf = Vec::with_capacity(2048);
    ko.write(&mut buf);
    buf
}

#[test]
fn ko_file_written_is_read_back() {
    let buf = hello_world_bytes();
    let mut source = BufferIterator::new(&buf);
    let ko = KOFile::parse(&mut source).expect("the written file is read back");

    assert!(source.is_empty());
    assert_eq!(ko.section_header_count(), 6);
    assert_eq!(ko.shstrtab_index(), SectionIdx::from(1u16));

    let names: Vec<String> = ko
        .section_headers()
        .map(|h| ko.get_header_name(h).cloned().unwrap_or_default())
        .collect();
    assert_eq!(
        names,
        vec!["", ".shstrtab", ".data", "_start", ".symtab", ".symstrtab"]
    );

    let data = ko.data_section_by_name(".data").unwrap();
    let values: Vec<KOSValue> = data.data().cloned().collect();
    assert_eq!(
        values,
        vec![
            KOSValue::Int16(1),
            KOSValue::Int16(0),
            KOSValue::ArgMarker,
            KOSValue::StringValue("Hello, world!".into()),
            KOSValue::String("".into()),
            KOSValue::String("print()".into()),
        ]
    );

    let start = ko.func_section_by_name("_start").unwrap();
    let instrs: Vec<Instr> = start.instructions().cloned().collect();
    assert_eq!(instrs.len(), 7);
    assert_eq!(
        instrs[0],
        Instr::TwoOp(Opcode::Bscp, DataIdx::from(0u32), DataIdx::from(1u32))
    );
    assert_eq!(
        instrs[4],
        Instr::TwoOp(Opcode::Call, DataIdx::from(4u32), DataIdx::from(5u32))
    );

    let symstrtab = ko.str_tab_by_name(".symstrtab").unwrap();
    let strings: Vec<String> = symstrtab.strings().cloned().collect();
    assert_eq!(strings, vec!["", "test.kasm", "_start"]);

    let symtab = ko.sym_tab_by_name(".symtab").unwrap();
    assert_eq!(symtab.symbols().count(), 2);
    let start_symbol = symtab.find_by_name(StringIdx::from(2u32)).unwrap();
    assert_eq!(start_symbol.sym_type, SymType::Func);
    assert_eq!(start_symbol.sh_idx, SectionIdx::from(3u16));
    assert_eq!(start_symbol.size as u32, start.size());
}

#[test]
fn ko_file_written_twice_is_the_same() {
    let buf = hello_world_bytes();
    let mut source = BufferIterator::new(&buf);
    let ko = KOFile::parse(&mut source).unwrap();
    let ko = ko.validate().expect("a file that was read is sound");
    let mut again = Vec::new();
    ko.write(&mut again);
    assert_eq!(again, buf);
}

#[test]
fn ko_file_with_reld_section_is_read_back() {
    let mut ko = KOFile::new();
    let mut data = ko.new_data_section(".data");
    let mut func = ko.new_func_section("_start");
    let mut reld = ko.new_reld_section(".reld");
    let two = data.add(KOSValue::ScalarInt(2));
    func.add(Instr::OneOp(Opcode::Push, two));
    let entry = ReldEntry::new(
        SectionIdx::from(3u16),
        InstrIdx::from(0u32),
        OperandIndex::One,
        kerbalobjects::ko::sections::SymbolIdx::from(0u32),
    );
    reld.add(entry);
    ko.add_data_section(data);
    ko.add_func_section(func);
    ko.add_reld_section(reld);

    let ko = ko.validate().unwrap();
    let mut buf = Vec::new();
    ko.write(&mut buf);

    let mut source = BufferIterator::new(&buf);
    let read = KOFile::parse(&mut source).unwrap();
    let reld = read.reld_section_by_name(".reld").unwrap();
    let entries: Vec<ReldEntry> = reld.entries().cloned().collect();
    assert_eq!(entries, vec![entry]);
    assert_eq!(reld.size(), 11);
}

#[test]
fn ko_validate_unknown_section_index() {
    let mut ko = KOFile::new();
    ko.add_data_section(DataSection::new(SectionIdx::from(9u16)));
    let (_, e) = ko.validate().unwrap_err();
    assert_eq!(e, ValidationError::InvalidSectionIndexError(SectionKind::Data, 9));
}

#[test]
fn ko_validate_kind_mismatch() {
    let mut ko = KOFile::new();
    let data = ko.new_data_section(".data");
    ko.add_func_section(FuncSection::new(data.section_index()));
    let (_, e) = ko.validate().unwrap_err();
    assert_eq!(
        e,
        ValidationError::SectionKindMismatchError(SectionKind::Func, 2, SectionKind::Data)
    );
}

#[test]
fn ko_validate_header_without_section() {
    let mut ko = KOFile::new();
    ko.new_section_header(".text", SectionKind::Func);
    let (_, e) = ko.validate().unwrap_err();
    assert_eq!(
        e,
        ValidationError::InvalidSectionHeaderError(2, SectionKind::Func, ".text".to_string())
    );
}

#[test]
fn ko_validate_header_with_unknown_name() {
    let mut ko = KOFile::new();
    ko.add_section_header(SectionHeader::new(StringIdx::from(99u32), SectionKind::Data));
    let (_, e) = ko.validate().unwrap_err();
    assert_eq!(
        e,
        ValidationError::InvalidSectionHeaderNameIndexError(2, SectionKind::Data, 99)
    );
}

#[test]
fn ko_parse_empty_buffer() {
    let buf: Vec<u8> = Vec::new();
    let mut source = BufferIterator::new(&buf);
    let e = KOFile::parse(&mut source).unwrap_err();
    assert!(matches!(
        e,
        KOParseError::HeaderError(KOHeaderParseError::MissingMagicError)
    ));
}

#[test]
fn ko_parse_wrong_magic() {
    let mut buf = hello_world_bytes();
    buf[0] = 0;
    let mut source = BufferIterator::new(&buf);
    let e = KOFile::parse(&mut source).unwrap_err();
    assert!(matches!(
        e,
        KOParseError::HeaderError(KOHeaderParseError::InvalidMagicError(0x666f016b, 0x666f0100))
    ));
}

#[test]
fn ko_parse_null_shstrtab_index() {
    let mut buf = hello_world_bytes();
    buf[7] = 0;
    let mut source = BufferIterator::new(&buf);
    let e = KOFile::parse(&mut source).unwrap_err();
    assert!(matches!(e, KOParseError::NullShStrTabIndexError));
}

#[test]
fn ko_parse_shstrtab_index_past_headers() {
    let mut buf = hello_world_bytes();
    buf[7] = 9;
    let mut source = BufferIterator::new(&buf);
    let e = KOFile::parse(&mut source).unwrap_err();
    assert!(matches!(e, KOParseError::InvalidShStrTabIndexError(9, 6)));
}

#[test]
fn ko_parse_missing_null_header() {
    let mut buf = hello_world_bytes();
    // the kind of the first section header
    buf[13] = 2;
    let mut source = BufferIterator::new(&buf);
    let e = KOFile::parse(&mut source).unwrap_err();
    assert!(matches!(
        e,
        KOParseError::MissingNullSectionHeader(SectionKind::StrTab)
    ));
}

#[test]
fn ko_parse_stray_null_header() {
    let mut buf = hello_world_bytes();
    // the kind of the third section header
    buf[31] = 0;
    let mut source = BufferIterator::new(&buf);
    let e = KOFile::parse(&mut source).unwrap_err();
    assert!(matches!(e, KOParseError::StrayNullSectionHeader(2)));
}

#[test]
fn string_table_invalid_utf8() {
    let buf = vec![0x00, 0x41, 0x00, 0xc3, 0x28, 0x00];
    let mut source = BufferIterator::new(&buf);
    let e = StringTable::parse(&mut source, 6, SectionIdx::from(2u16)).unwrap_err();
    assert!(matches!(e, StringTableParseError::InvalidUtf8Error(_, _)));
}

#[test]
fn string_table_too_short() {
    let buf = vec![0x00, 0x41, 0x42];
    let mut source = BufferIterator::new(&buf);
    let e = StringTable::parse(&mut source, 6, SectionIdx::from(2u16)).unwrap_err();
    assert!(matches!(e, StringTableParseError::EOFError(_, 6)));
}

#[test]
fn string_table_non_ascii_read_back() {
    let mut table = StringTable::new(SectionIdx::from(2u16));
    table.add("grüße");
    let mut buf = Vec::new();
    table.write(&mut buf);
    assert_eq!(buf.len() as u32, table.size());
    let mut source = BufferIterator::new(&buf);
    let read = StringTable::parse(&mut source, table.size(), SectionIdx::from(2u16)).unwrap();
    let strings: Vec<String> = read.strings().cloned().collect();
    assert_eq!(strings, vec!["", "grüße"]);
}

#[test]
fn data_section_add_checked_reuses_value() {
    let mut data = DataSection::new(SectionIdx::from(2u16));
    let a = data.add_checked(KOSValue::ScalarInt(7));
    let b = data.add_checked(KOSValue::Bool(true));
    let c = data.add_checked(KOSValue::ScalarInt(7));
    assert_eq!(a, c);
    assert_ne!(a, b);
    assert_eq!(data.data().count(), 2);
    assert_eq!(data.size(), 7);
}

#[test]
fn string_table_add_checked_reuses_string() {
    let mut table = StringTable::new(SectionIdx::from(2u16));
    let a = table.add_checked("main");
    let b = table.add_checked("main");
    assert_eq!(a, b);
    assert_eq!(table.size(), 6);
}

fn sample_ksm() -> KSMFile {
    let mut ksm = KSMFile::new();
    let print = ksm.add_argument(KOSValue::String("print()".into()));
    let empty = ksm.add_argument(KOSValue::String("".into()));
    let two = ksm.add_argument(KOSValue::ScalarInt(2));
    let marker = ksm.add_argument(KOSValue::ArgMarker);
    let label = ksm.add_argument(KOSValue::String("@0001".into()));

    let mut main_code = CodeSection::new(CodeType::Main);
    main_code.add(KSMInstr::OneOp(Opcode::Lbrt, label));
    main_code.add(KSMInstr::OneOp(Opcode::Push, marker));
    main_code.add(KSMInstr::OneOp(Opcode::Push, two));
    main_code.add(KSMInstr::ZeroOp(Opcode::Add));
    main_code.add(KSMInstr::TwoOp(Opcode::Call, empty, print));
    main_code.add(KSMInstr::ZeroOp(Opcode::Pop));

    ksm.add_code_section(CodeSection::new(CodeType::Function));
    ksm.add_code_section(CodeSection::new(CodeType::Initialization));
    ksm.add_code_section(main_code);

    ksm.add_debug_entry(DebugEntry::new(1).with_range(DebugRange::new(2, 4)));
    ksm.add_debug_entry(DebugEntry::new(2).with_range(DebugRange::new(6, 7)));
    ksm
}

#[test]
fn ksm_file_written_is_read_back() {
    let ksm = sample_ksm();
    let mut buf = Vec::new();
    ksm.write(&mut buf);

    let mut source = BufferIterator::new(&buf);
    let read = KSMFile::parse(&mut source).expect("the written file is read back");

    let args: Vec<KOSValue> = read.arg_section.arguments().cloned().collect();
    assert_eq!(
        args,
        vec![
            KOSValue::String("print()".into()),
            KOSValue::String("".into()),
            KOSValue::ScalarInt(2),
            KOSValue::ArgMarker,
            KOSValue::String("@0001".into()),
        ]
    );

    let kinds: Vec<CodeType> = read.code_sections().map(|c| c.section_type).collect();
    assert_eq!(
        kinds,
        vec![CodeType::Function, CodeType::Initialization, CodeType::Main]
    );
    let main_code: Vec<KSMInstr> = read
        .code_sections()
        .last()
        .unwrap()
        .instructions()
        .cloned()
        .collect();
    let expected: Vec<KSMInstr> = ksm
        .code_sections()
        .last()
        .unwrap()
        .instructions()
        .cloned()
        .collect();
    assert_eq!(main_code, expected);

    let entries: Vec<DebugEntry> = read.debug_section.debug_entries().cloned().collect();
    assert_eq!(
        entries,
        vec![
            DebugEntry::new(1).with_range(DebugRange::new(2, 4)),
            DebugEntry::new(2).with_range(DebugRange::new(6, 7)),
        ]
    );
}

#[test]
fn ksm_file_bytes_are_gzip() {
    let mut buf = Vec::new();
    sample_ksm().write(&mut buf);
    assert_eq!(&buf[0..2], &[0x1f, 0x8b]);
    let mut body = Vec::new();
    std::io::Read::read_to_end(&mut flate2::read::GzDecoder::new(buf.as_slice()), &mut body)
        .unwrap();
    assert_eq!(&body[0..4], b"k\x03XE");
}

#[test]
fn ksm_parse_not_gzip() {
    let buf = vec![0x6b, 0x03, 0x58, 0x45, 0x25, 0x41];
    let mut source = BufferIterator::new(&buf);
    let e = KSMFile::parse(&mut source).unwrap_err();
    assert!(matches!(e, KSMParseError::DecompressionError(_)));
}

#[test]
fn ksm_parse_wrong_magic() {
    // A gzip stream of the four bytes 0, 0, 0, 0 and nothing after them.
    let zeros = {
        let mut e = flate2::write::GzEncoder::new(Vec::new(), flate2::Compression::best());
        e.write_all(&[0, 0, 0, 0]).unwrap();
        e.finish().unwrap()
    };
    let mut source = BufferIterator::new(&zeros);
    let e = KSMFile::parse(&mut source).unwrap_err();
    assert!(matches!(
        e,
        KSMParseError::HeaderError(KSMHeaderParseError::InvalidMagic(0))
    ));
}

#[test]
fn opcode_mnemonics_name_their_opcodes() {
    let mut named = 0;
    for b in 0u8..=255 {
        let op = Opcode::from(b);
        if op != Opcode::Bogus {
            let mnemonic: &str = op.into();
            assert_eq!(Opcode::from(mnemonic), op, "mnemonic {mnemonic}");
            assert_eq!(u8::from(op), b);
            named += 1;
        }
    }
    assert!(named > 50);
    assert_eq!(Opcode::from("no such opcode"), Opcode::Bogus);
}

#[test]
fn readme_ksm_hello_world() {
    let mut ksm_file = KSMFile::new();
    let arg_section = &mut ksm_file.arg_section;
    let mut main_code = CodeSection::new(CodeType::Main);

    let one = arg_section.add_checked(KOSValue::Int16(1));
    main_code.add(KSMInstr::OneOp(
        Opcode::Push,
        arg_section.add_checked(KOSValue::String("@0001".into())),
    ));
    main_code.add(KSMInstr::TwoOp(
        Opcode::Bscp,
        one,
        arg_section.add_checked(KOSValue::Int16(0)),
    ));
    main_code.add(KSMInstr::ZeroOp(Opcode::Argb));
    main_code.add(KSMInstr::OneOp(
        Opcode::Push,
        arg_section.add_checked(KOSValue::ArgMarker),
    ));
    main_code.add(KSMInstr::OneOp(
        Opcode::Push,
        arg_section.add_checked(KOSValue::StringValue("Hello, world!".into())),
    ));
    main_code.add(KSMInstr::TwoOp(
        Opcode::Call,
        arg_section.add_checked(KOSValue::String("".into())),
        arg_section.add_checked(KOSValue::String("print()".into())),
    ));
    main_code.add(KSMInstr::ZeroOp(Opcode::Pop));
    main_code.add(KSMInstr::OneOp(Opcode::Escp, one));

    ksm_file.add_code_section(CodeSection::new(CodeType::Function));
    ksm_file.add_code_section(CodeSection::new(CodeType::Initialization));
    ksm_file.add_code_section(main_code);

    let mut debug_entry = DebugEntry::new(1);
    debug_entry.add(DebugRange::new(0x06, 0x13));
    ksm_file.add_debug_entry(debug_entry);

    let mut file_buffer = Vec::with_capacity(2048);
    ksm_file.write(&mut file_buffer);

    let mut source = BufferIterator::new(&file_buffer);
    let read = KSMFile::parse(&mut source).unwrap();
    assert_eq!(read.arg_section.arguments().count(), 7);
    assert_eq!(read.code_sections().count(), 3);
    let main_read: Vec<KSMInstr> = read
        .code_sections()
        .last()
        .unwrap()
        .instructions()
        .cloned()
        .collect();
    assert_eq!(main_read.len(), 8);
    assert_eq!(main_read[2], KSMInstr::ZeroOp(Opcode::Argb));
    assert_eq!(read.debug_section.debug_entries().count(), 1);
}

#[test]
fn ksm_body_without_argument_section() {
    let body = [0x6b, 0x03, 0x58, 0x45];
    let e = KSMFile::parse_decompressed(&body).unwrap_err();
    assert!(matches!(
        e,
        KSMParseError::ArgumentSectionParseError(
            kerbalobjects::ksm::errors::ArgumentSectionParseError::MissingHeader
        )
    ), "{e:?}");
}

#[test]
fn ksm_body_wrong_magic() {
    let body = [0x45, 0x58, 0x03, 0x6b];
    let e = KSMFile::parse_decompressed(&body).unwrap_err();
    assert!(matches!(
        e,
        KSMParseError::HeaderError(KSMHeaderParseError::InvalidMagic(0x6b035845))
    ));
}

#[test]
fn ko_parse_unsupported_version() {
    let mut buf = hello_world_bytes();
    buf[4] = 9;
    let mut source = BufferIterator::new(&buf);
    let e = KOFile::parse(&mut source).unwrap_err();
    assert!(matches!(
        e,
        KOParseError::HeaderError(KOHeaderParseError::UnsupportedVersionError(4, 9))
    ));
}

#[test]
fn debug_range_size_fits_three_bytes() {
    let mut section = DebugSection::new();
    section.add(DebugEntry::new(1).with_range(DebugRange::new(0, 0xffff)));
    assert_eq!(section.range_size(), IntSize::Two);
    section.add(DebugEntry::new(2).with_range(DebugRange::new(0, 0x10000)));
    assert_eq!(section.range_size(), IntSize::Three);
    section.add(DebugEntry::new(3).with_range(DebugRange::new(16777215, 2)));
    assert_eq!(section.range_size(), IntSize::Three);
    section.add(DebugEntry::new(4).with_range(DebugRange::new(5, 16777216)));
    assert_eq!(section.range_size(), IntSize::Four);
    section.add(DebugEntry::new(5).with_range(DebugRange::new(1, 1)));
    assert_eq!(section.range_size(), IntSize::Four);
}

#[test]
fn ksm_parse_reads_from_the_buffer_start() {
    let mut buf = vec![0xaa, 0xbb];
    sample_ksm().write(&mut buf);
    let mut source = BufferIterator::new(&buf);
    source.next();
    source.next();
    let e = KSMFile::parse(&mut source).unwrap_err();
    assert!(matches!(e, KSMParseError::DecompressionError(_)));
}

#[test]
fn ksm_parse_drops_what_it_read() {
    let mut buf = Vec::new();
    sample_ksm().write(&mut buf);
    let mut source = BufferIterator::new(&buf);
    let read = KSMFile::parse(&mut source).unwrap();
    assert_eq!(read.arg_section.arguments().count(), 5);
    assert_eq!(source.current_index(), 0);
    assert_eq!(source.len(), 0);
    assert!(source.is_empty());
}

#[test]
fn data_section_add_checked_gives_last_copy() {
    let mut data = DataSection::new(SectionIdx::from(2u16));
    data.add(KOSValue::Int16(3));
    data.add(KOSValue::Int16(3));
    let i = data.add_checked(KOSValue::Int16(3));
    assert_eq!(i, DataIdx::from(1u32));
    assert_eq!(data.add_checked(KOSValue::Int16(3)), i);
    assert_eq!(data.data().count(), 2);
    assert_eq!(data.size(), 6);
}

#[test]
fn string_table_find_and_add_checked_last_copy() {
    let mut table = StringTable::new(SectionIdx::from(2u16));
    table.add("x");
    table.add("x");
    assert_eq!(table.add_checked("x"), StringIdx::from(2u32));
    assert_eq!(table.find("x").map(|s| s.as_str()), Some("x"));
    assert!(table.find("y").is_none());
    assert_eq!(table.size(), 5);
}

#[test]
fn section_size_is_bytes_written() {
    let mut func = FuncSection::new(SectionIdx::from(3u16));
    func.add(Instr::ZeroOp(Opcode::Add));
    func.add(Instr::OneOp(Opcode::Push, DataIdx::from(7u32)));
    func.add(Instr::TwoOp(Opcode::Call, DataIdx::from(1u32), DataIdx::from(2u32)));
    let mut buf = Vec::new();
    func.write(&mut buf);
    assert_eq!(buf.len() as u32, func.size());
    assert_eq!(func.size(), 1 + 5 + 9);
}

#[test]
fn ksm_code_sections_mut_edits_sections() {
    let mut ksm = sample_ksm();
    for section in ksm.code_sections_mut() {
        section.add(KSMInstr::ZeroOp(Opcode::Nop));
    }
    let counts: Vec<usize> = ksm.code_sections().map(|c| c.instructions().count()).collect();
    assert_eq!(counts, vec![1, 1, 7]);
}
