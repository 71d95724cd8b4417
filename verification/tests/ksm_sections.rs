use kerbalobjects::ksm::sections::{
    ArgIndex, DebugEntry, DebugRange, DebugSection, NumArgIndexBytes,
};
use kerbalobjects::ksm::{Instr, IntSize};
use kerbalobjects::{BufferIterator, Opcode};

#[test]
fn arg_index_read() {
    let data = vec![0x5, 0x4, 0x3];
    let mut source = BufferIterator::new(&data);

    let arg_index = ArgIndex::from_bytes(&mut source, NumArgIndexBytes::Three).unwrap();
    assert_eq!(arg_index, ArgIndex::from(0x00050403u32));

    let data = vec![0x1, 0x5, 0x4, 0x3];
    let mut source = BufferIterator::new(&data);

    let arg_index = ArgIndex::from_bytes(&mut source, NumArgIndexBytes::Four).unwrap();
    assert_eq!(arg_index, ArgIndex::from(0x01050403u32));

    let data = vec![0x4, 0x3];
    let mut source = BufferIterator::new(&data);

    let arg_index = ArgIndex::from_bytes(&mut source, NumArgIndexBytes::Two).unwrap();
    assert_eq!(arg_index, ArgIndex::from(0x0403u16));

    let data = vec![0x3];
    let mut source = BufferIterator::new(&data);

    let arg_index = ArgIndex::from_bytes(&mut source, NumArgIndexBytes::One).unwrap();
    assert_eq!(arg_index, ArgIndex::from(0x03u8));
}

#[test]
fn arg_index_write() {
    let arg_index = ArgIndex::from(0xffu8);
    let mut data = Vec::new();

    arg_index.to_bytes(&mut data, NumArgIndexBytes::One);
    assert_eq!(data, Vec::from([0xff]));

    let arg_index = ArgIndex::from(0x03ffu16);
    let mut data = Vec::new();

    arg_index.to_bytes(&mut data, NumArgIndexBytes::Two);
    assert_eq!(data, Vec::from([0x03, 0xff]));

    let arg_index = ArgIndex::from(0x0503ffu32);
    let mut data = Vec::new();

    arg_index.to_bytes(&mut data, NumArgIndexBytes::Three);
    assert_eq!(data, Vec::from([0x05, 0x03, 0xff]));

    let arg_index = ArgIndex::from(0x05ffefffu32);
    let mut data = Vec::new();

    arg_index.to_bytes(&mut data, NumArgIndexBytes::Four);
    assert_eq!(data, Vec::from([0x05, 0xff, 0xef, 0xff]));
}

#[test]
fn size() {
    let mut debug_section = DebugSection::new();

    let mut entry_1 = DebugEntry::new(1);
    entry_1.add(DebugRange::new(0x04, 0x16));

    let mut entry_2 = DebugEntry::new(2);
    entry_2.add(DebugRange::new(0x17, 0x19));
    entry_2.add(DebugRange::new(0x1a, 0x011f));

    debug_section.add(entry_1);
    debug_section.add(entry_2);

    let mut buffer = Vec::with_capacity(128);
    debug_section.write(&mut buffer);

    assert_eq!(debug_section.size_bytes(), buffer.len());
}

fn arg(i: usize) -> ArgIndex {
    ArgIndex::from(i)
}

#[test]
fn parse_wider_indices() {
    let bytes = &[
        0x4c, 0x00, 0x03, 0x00, 0x08, // call (2-byte index)
        0x58, 0x08, 0x01, 0x71, // stol (3-byte index)
        0x59, 0x21, 0x00, 0x00, 0x00, // stog (4-byte index)
    ];

    let instructions = &[
        Instr::TwoOp(Opcode::Call, arg(0x0003), arg(0x0008)),
        Instr::OneOp(Opcode::Stol, arg(0x080171)),
        Instr::OneOp(Opcode::Stog, arg(0x21000000)),
    ];

    let int_sizes = &[IntSize::Two, IntSize::Three, IntSize::Four];

    let mut iter = BufferIterator::new(bytes);

    for (true_instr, int_size) in instructions.iter().zip(int_sizes) {
        let read_instr = Instr::parse(&mut iter, *int_size).unwrap();

        assert_eq!(*true_instr, read_instr);
    }
}
