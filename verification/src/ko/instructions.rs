//! kOS instructions as stored in a KO file.
use vstd::prelude::*;

use crate::buffer::BufferIterator;
use crate::ko::errors::InstrParseError;
use crate::ko::sections::{data_idx, group_data_idx, DataIdx};
use crate::opcode::{decode_opcode, opcode_byte, opcode_byte_round_trip, operand_count, Opcode};
use crate::primitives::{le_u32, lemma_le_u32, lemma_u32_at, write_u32_le, FromBytes, ToBytes};

verus! {

/// An instruction in a KO file
#[derive(Debug, Copy, Clone, PartialEq, Eq, Structural)]
pub enum Instr {
    /// An instruction that takes no operands
    ZeroOp(Opcode),
    /// An instruction that takes one operand
    OneOp(Opcode, DataIdx),
    /// An instruction that takes two operands
    TwoOp(Opcode, DataIdx, DataIdx),
}

impl View for Instr {
    type V = Instr;

    open spec fn view(&self) -> Instr {
        *self
    }
}

/// The opcode of an instruction.
pub open spec fn ko_instr_opcode(i: Instr) -> Opcode {
    match i {
        Instr::ZeroOp(op) => op,
        Instr::OneOp(op, _) => op,
        Instr::TwoOp(op, _, _) => op,
    }
}

/// The bytes an instruction is written as: the opcode's byte, then each operand as 4
/// little-endian bytes.
pub open spec fn ko_instr_bytes(i: Instr) -> Seq<u8> {
    match i {
        Instr::ZeroOp(op) => seq![opcode_byte(op)],
        Instr::OneOp(op, a) => seq![opcode_byte(op)] + le_u32(a@),
        Instr::TwoOp(op, a, b) => seq![opcode_byte(op)] + le_u32(a@) + le_u32(b@),
    }
}

/// The size in bytes of an instruction: 1, 5 or 9.
pub open spec fn ko_instr_size(i: Instr) -> u32 {
    match i {
        Instr::ZeroOp(_) => 1,
        Instr::OneOp(_, _) => 5,
        Instr::TwoOp(_, _, _) => 9,
    }
}

/// What `Instr::parse` reads at `pos`: an opcode, then as many operands as it takes.
pub open spec fn decode_ko_instr(data: Seq<u8>, pos: int) -> (Result<Instr, InstrParseError>, int) {
    match decode_opcode(data, pos) {
        (Err(e), p) => (Err(InstrParseError::OpcodeParseError(p as usize, e)), p),
        (Ok(op), p) => if operand_count(op) == 0 {
            (Ok(Instr::ZeroOp(op)), p)
        } else if operand_count(op) == 1 {
            match <u32 as FromBytes>::decode(data, p) {
                (Ok(a), q) => (Ok(Instr::OneOp(op, data_idx(a))), q),
                (Err(_), q) => (Err(InstrParseError::MissingOperand(1)), q),
            }
        } else {
            match <u32 as FromBytes>::decode(data, p) {
                (Err(_), q) => (Err(InstrParseError::MissingOperand(1)), q),
                (Ok(a), q) => match <u32 as FromBytes>::decode(data, q) {
                    (Ok(b), r) => (Ok(Instr::TwoOp(op, data_idx(a), data_idx(b))), r),
                    (Err(_), r) => (Err(InstrParseError::MissingOperand(2)), r),
                },
            }
        },
    }
}

/// An instruction that is read back as itself: its opcode is a real one and it has as many
/// operands as its opcode takes.
pub open spec fn ko_instr_round_trips(i: Instr) -> bool {
    &&& ko_instr_opcode(i) != Opcode::Bogus
    &&& match i {
        Instr::ZeroOp(op) => operand_count(op) == 0,
        Instr::OneOp(op, _) => operand_count(op) == 1,
        Instr::TwoOp(op, _, _) => operand_count(op) == 2,
    }
}

impl Instr {
    /// Returns the size in bytes that this instruction would take up in a KO file
    pub fn size_bytes(&self) -> (r: u32)
        ensures
            r == ko_instr_size(*self),
    {
        match &self {
            Self::ZeroOp(_) => 1,
            Self::OneOp(_, _) => 5,
            Self::TwoOp(_, _, _) => 9,
        }
    }

    /// Returns the opcode of this instruction.
    pub fn opcode(&self) -> (r: Opcode)
        ensures
            r == ko_instr_opcode(*self),
    {
        match self {
            Self::ZeroOp(opcode) => *opcode,
            Self::OneOp(opcode, _) => *opcode,
            Self::TwoOp(opcode, _, _) => *opcode,
        }
    }

    /// Converts this instruction to its binary representation and appends it to the provided buffer
    pub fn write(&self, buf: &mut Vec<u8>)
        ensures
            final(buf)@ == old(buf)@ + ko_instr_bytes(*self),
    {
        let ghost start = buf@;
        match self {
            Self::ZeroOp(opcode) => {
                opcode.to_bytes(buf);
            },
            Self::OneOp(opcode, operand) => {
                opcode.to_bytes(buf);
                write_u32_le(u32::from(*operand), buf);
                assert(buf@ == start + ko_instr_bytes(*self));
            },
            Self::TwoOp(opcode, operand1, operand2) => {
                opcode.to_bytes(buf);
                write_u32_le(u32::from(*operand1), buf);
                write_u32_le(u32::from(*operand2), buf);
                assert(buf@ == start + ko_instr_bytes(*self));
            },
        }
    }

    /// Parses a KO file instruction from the provided buffer
    pub fn parse(source: &mut BufferIterator) -> (r: Result<Self, InstrParseError>)
        requires
            old(source).wf(),
        ensures
            final(source).wf(),
            final(source).data() == old(source).data(),
            (r, final(source).pos()) == decode_ko_instr(old(source).data(), old(source).pos()),
    {
        proof {
            broadcast use group_data_idx;
        }
        let opcode = match Opcode::from_bytes(source) {
            Ok(op) => op,
            Err(e) => {
                return Err(InstrParseError::OpcodeParseError(source.current_index(), e));
            },
        };
        let n = opcode.num_operands();
        if n == 0 {
            Ok(Instr::ZeroOp(opcode))
        } else if n == 1 {
            match u32::from_bytes(source) {
                Ok(a) => Ok(Instr::OneOp(opcode, DataIdx::from(a))),
                Err(_) => Err(InstrParseError::MissingOperand(1)),
            }
        } else {
            let a = match u32::from_bytes(source) {
                Ok(a) => a,
                Err(_) => {
                    return Err(InstrParseError::MissingOperand(1));
                },
            };
            match u32::from_bytes(source) {
                Ok(b) => Ok(Instr::TwoOp(opcode, DataIdx::from(a), DataIdx::from(b))),
                Err(_) => Err(InstrParseError::MissingOperand(2)),
            }
        }
    }
}

/// An instruction's size is the number of bytes it is written as.
pub proof fn lemma_ko_instr_size(i: Instr)
    ensures
        ko_instr_bytes(i).len() == ko_instr_size(i),
{
    match i {
        Instr::OneOp(_, a) => lemma_le_u32(a@),
        Instr::TwoOp(_, a, b) => {
            lemma_le_u32(a@);
            lemma_le_u32(b@);
        },
        _ => {},
    }
}

/// Writing an instruction and reading it back gives the same instruction, and the reader
/// moves past exactly its bytes, whatever stands before and after.
pub proof fn ko_instr_round_trip(i: Instr, prefix: Seq<u8>, rest: Seq<u8>)
    requires
        ko_instr_round_trips(i),
    ensures
        decode_ko_instr(prefix + ko_instr_bytes(i) + rest, prefix.len() as int) == (
            Ok::<Instr, InstrParseError>(i),
            prefix.len() + ko_instr_size(i),
        ),
{
    broadcast use group_data_idx;

    let op = ko_instr_opcode(i);
    let data = prefix + ko_instr_bytes(i) + rest;
    let n = prefix.len() as int;
    opcode_byte_round_trip(op);
    lemma_ko_instr_size(i);
    assert(data[n] == opcode_byte(op));
    match i {
        Instr::ZeroOp(_) => {},
        Instr::OneOp(_, a) => {
            assert(data.subrange(n + 1, n + 5) == le_u32(a@));
            lemma_u32_at(data, n + 1, a@);
        },
        Instr::TwoOp(_, a, b) => {
            assert(data.subrange(n + 1, n + 5) == le_u32(a@));
            assert(data.subrange(n + 5, n + 9) == le_u32(b@));
            lemma_u32_at(data, n + 1, a@);
            lemma_u32_at(data, n + 5, b@);
        },
    }
}

} // verus!
