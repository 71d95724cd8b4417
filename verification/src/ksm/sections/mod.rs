//! A collection of the sections that can be contained within a KSM file
mod argument_section;
mod code_section;
mod debug_section;

pub use argument_section::{
    arg_index, arg_offset, arg_section_bytes, decode_arg_index, decode_arg_section,
    decode_arg_values, group_arg_index, lemma_arg_section_end, arg_section_round_trip, arg_section_size,
    arg_values_round_trip, lemma_arg_values_end, parsed_index_bytes, ArgIndex, ArgSectionReadError,
    ArgumentSection, NumArgIndexBytes,
};
pub use code_section::{
    code_section_bytes, code_type_byte, code_type_of_byte, decode_code_section, decode_instrs,
    instrs_bytes, instrs_size, lemma_code_section_end, code_section_round_trip, code_section_size,
    instrs_round_trip, lemma_instrs_bytes_len, lemma_instrs_prepend, lemma_instrs_end, lemma_instrs_forward, lemma_instrs_size_prefix, CodeSection, CodeType,
};
pub use debug_section::{
    decode_entry, decode_range, decode_ranges, entry_bytes, lemma_ranges_size_prefix,
    range_bytes, ranges_bytes, ranges_size, DebugEntry, DebugRange, DebugSection,
    debug_section_bytes, decode_debug_section, decode_entries, entries_bytes, entries_size,
    entry_view, flat_ranges, grown_range_size, debug_section_round_trip, debug_section_size, entries_round_trip,
    entry_round_trip, entry_round_trips, range_round_trip, ranges_round_trip,
};
