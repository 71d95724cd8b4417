use kerbalobjects::ko::sections::{
    DataIdx, DataSection, SectionHeader, SectionKind, StringIdx, StringTable, SymbolIdx,
    SymbolTable,
};
use kerbalobjects::ko::symbols::{KOSymbol, SymBind, SymType};
use kerbalobjects::ko::{Instr, SectionIdx};
use kerbalobjects::{BufferIterator, KOSValue, Opcode};

#[test]
fn instructions_parse_push() {
    let mnemonic = "push";
    let opcode: Opcode = mnemonic.into();

    assert_eq!(opcode, Opcode::Push);
}

#[test]
fn instructions_write_push() {
    let instr = Instr::OneOp(Opcode::Push, DataIdx::from(1u32));
    let mut buf = Vec::with_capacity(4);

    instr.write(&mut buf);

    assert_eq!(buf, vec![0x4e, 0x01, 0x00, 0x00, 0x00]);
}

#[test]
fn mod_strtab_insert() {
    let mut strtab = StringTable::with_capacity(8, SectionIdx::from(0u16));

    let index = strtab.add(".text");

    assert_eq!(index, StringIdx::from(1usize));
    assert_eq!(strtab.get(index).unwrap(), ".text");
}

#[test]
fn mod_strtab_get_null() {
    let strtab = StringTable::with_capacity(8, SectionIdx::from(0u16));

    assert_eq!(strtab.get(StringIdx::from(0u32)).unwrap(), "");
}

#[test]
fn mod_strtab_get_str() {
    let mut strtab = StringTable::with_capacity(8, SectionIdx::from(0u16));

    strtab.add("Hello");

    assert_eq!(strtab.get(StringIdx::from(1usize)).unwrap(), "Hello");
}

#[test]
fn mod_strtab_get_str_2() {
    let mut strtab = StringTable::with_capacity(16, SectionIdx::from(0u16));

    strtab.add("Hello");

    let index = strtab.add("world");

    assert_eq!(index, StringIdx::from(2usize));
    assert_eq!(strtab.get(index).unwrap(), "world");
}

#[test]
fn mod_strtab_strings() {
    let mut strtab = StringTable::with_capacity(16, SectionIdx::from(0u16));

    strtab.add("Hello");
    strtab.add("rust");
    strtab.add("world");

    let mut strs = strtab.strings();

    assert_eq!(strs.next().unwrap(), "");
    assert_eq!(strs.next().unwrap(), "Hello");
    assert_eq!(strs.next().unwrap(), "rust");
    assert_eq!(strs.next().unwrap(), "world");
}

#[test]
fn strtab_read_write() {
    let mut strtab = StringTable::with_capacity(2, SectionIdx::from(0u16));

    strtab.add("strings");
    strtab.add("in");
    strtab.add("rust");

    let mut buffer = Vec::new();

    strtab.write(&mut buffer);

    let mut iterator = BufferIterator::new(&buffer);

    let read_strtab =
        StringTable::parse(&mut iterator, strtab.size(), strtab.section_index()).unwrap();

    for (s1, s2) in strtab.strings().zip(read_strtab.strings()) {
        assert_eq!(s1, s2);
    }
}

#[test]
fn mod_symtab_insert() {
    let mut strtab = StringTable::with_capacity(8, SectionIdx::from(0u16));
    let mut symtab = SymbolTable::with_capacity(1, SectionIdx::from(0u16));

    let s_index = strtab.add("fn_add");

    let sym = KOSymbol::new(
        s_index,
        DataIdx::from(0u32),
        0,
        SymBind::Local,
        SymType::Func,
        SectionIdx::from(3u16),
    );

    let sym_index = symtab.add(sym);

    assert_eq!(sym_index, SymbolIdx::from(0u32));
}

#[test]
fn mod_symtab_get() {
    let mut strtab = StringTable::with_capacity(8, SectionIdx::from(0u16));
    let mut symtab = SymbolTable::with_capacity(1, SectionIdx::from(0u16));

    let s_index = strtab.add("fn_add");

    let sym = KOSymbol::new(
        s_index,
        DataIdx::from(0u32),
        0,
        SymBind::Local,
        SymType::Func,
        SectionIdx::from(3u16),
    );

    let sym_index = symtab.add(sym);

    assert_eq!(
        strtab.get(symtab.get(sym_index).unwrap().name_idx).unwrap(),
        "fn_add"
    );
}

#[test]
fn mod_data_insert() {
    let mut data_section = DataSection::with_capacity(1, SectionIdx::from(0u16));

    let index = data_section.add(KOSValue::Int32(365));

    assert_eq!(index, DataIdx::from(0u32));
}

#[test]
fn mod_data_insert_2() {
    let mut data_section = DataSection::with_capacity(2, SectionIdx::from(0u16));

    data_section.add(KOSValue::ArgMarker);

    let index = data_section.add(KOSValue::Bool(true));

    assert_eq!(index, DataIdx::from(1u32));
}

#[test]
fn read_write_data() {
    let mut buffer = Vec::new();

    let mut data_section = DataSection::new(SectionIdx::from(2u16));

    data_section.add_checked(KOSValue::ArgMarker);
    data_section.add_checked(KOSValue::Null);
    data_section.add_checked(KOSValue::ScalarInt(2));
    data_section.add_checked(KOSValue::ScalarInt(4));
    data_section.add_checked(KOSValue::String(String::from("test")));

    data_section.write(&mut buffer);

    let mut iter = BufferIterator::new(&buffer);

    let read = DataSection::parse(&mut iter, data_section.size(), SectionIdx::from(2u16)).unwrap();

    // Two data sections are equal when they hold the same values in the same order
    let read_values: Vec<&KOSValue> = read.data().collect();
    let values: Vec<&KOSValue> = data_section.data().collect();
    assert_eq!(read_values, values);
}

#[test]
fn mod_data_get() {
    let mut data_section = DataSection::with_capacity(1, SectionIdx::from(0u16));

    let index = data_section.add(KOSValue::Int16(657));

    assert_eq!(data_section.get(index).unwrap(), &KOSValue::Int16(657));
}

#[test]
fn mod_write_header() {
    let mut sh = SectionHeader::new(StringIdx::from(0usize), SectionKind::SymTab);
    sh.size = 42;

    let mut buf = Vec::new();

    sh.write(&mut buf);

    assert_eq!(
        buf,
        vec![0x00, 0x00, 0x00, 0x00, 0x01, 0x2a, 0x00, 0x00, 0x00]
    );
}

#[test]
fn sections_strtab_insert() {
    let mut strtab = StringTable::with_capacity(8, SectionIdx::from(0u16));

    let index = strtab.add(".text");

    assert_eq!(index, StringIdx::from(1usize));
    assert_eq!(strtab.get(index).unwrap(), ".text");
}

#[test]
fn sections_strtab_get_null() {
    let strtab = StringTable::with_capacity(8, SectionIdx::from(0u16));

    assert_eq!(strtab.get(StringIdx::from(0usize)).unwrap(), "");
}

#[test]
fn sections_strtab_get_str() {
    let mut strtab = StringTable::with_capacity(8, SectionIdx::from(0u16));

    strtab.add("Hello");

    assert_eq!(strtab.get(StringIdx::from(1usize)).unwrap(), "Hello");
}

#[test]
fn sections_strtab_get_str_2() {
    let mut strtab = StringTable::with_capacity(16, SectionIdx::from(0u16));

    strtab.add("Hello");

    let index = strtab.add("world");

    assert_eq!(index, StringIdx::from(2usize));
    assert_eq!(strtab.get(index).unwrap(), "world");
}

#[test]
fn sections_strtab_strings() {
    let mut strtab = StringTable::with_capacity(16, SectionIdx::from(0u16));

    strtab.add("Hello");
    strtab.add("rust");
    strtab.add("world");

    let mut strs = strtab.strings();

    assert_eq!(strs.next().unwrap(), "");
    assert_eq!(strs.next().unwrap(), "Hello");
    assert_eq!(strs.next().unwrap(), "rust");
    assert_eq!(strs.next().unwrap(), "world");
}

#[test]
fn sections_symtab_insert() {
    let mut strtab = StringTable::with_capacity(8, SectionIdx::from(0u16));
    let mut symtab = SymbolTable::with_capacity(1, SectionIdx::from(0u16));

    let s_index = strtab.add("fn_add");

    let sym = KOSymbol::new(
        s_index,
        DataIdx::from(0u32),
        0,
        SymBind::Local,
        SymType::Func,
        SectionIdx::from(3u16),
    );

    let sym_index = symtab.add(sym);

    assert_eq!(sym_index, SymbolIdx::from(0u32));
}

#[test]
fn sections_symtab_get() {
    let mut strtab = StringTable::with_capacity(8, SectionIdx::from(0u16));
    let mut symtab = SymbolTable::with_capacity(1, SectionIdx::from(0u16));

    let s_index = strtab.add("fn_add");

    let sym = KOSymbol::new(
        s_index,
        DataIdx::from(0u32),
        0,
        SymBind::Local,
        SymType::Func,
        SectionIdx::from(3u16),
    );

    let sym_index = symtab.add(sym);

    assert_eq!(
        strtab.get(symtab.get(sym_index).unwrap().name_idx).unwrap(),
        "fn_add"
    );
}

#[test]
fn sections_data_insert() {
    let mut data_section = DataSection::with_capacity(1, SectionIdx::from(0u16));

    let index = data_section.add(KOSValue::Int32(365));

    assert_eq!(index, DataIdx::from(0u32));
}

#[test]
fn sections_data_insert_2() {
    let mut data_section = DataSection::with_capacity(2, SectionIdx::from(0u16));

    data_section.add(KOSValue::ArgMarker);

    let index = data_section.add(KOSValue::Bool(true));

    assert_eq!(index, DataIdx::from(1u32));
}

#[test]
fn sections_data_get() {
    let mut data_section = DataSection::with_capacity(1, SectionIdx::from(0u16));

    let index = data_section.add(KOSValue::Int16(657));

    assert_eq!(data_section.get(index).unwrap(), &KOSValue::Int16(657));
}

#[test]
fn sections_write_header() {
    let mut sh = SectionHeader::new(StringIdx::from(0usize), SectionKind::SymTab);
    sh.size = 42;

    let mut buf = Vec::new();

    sh.write(&mut buf);

    assert_eq!(
        buf,
        vec![0x00, 0x00, 0x00, 0x00, 0x01, 0x2a, 0x00, 0x00, 0x00]
    );
}
