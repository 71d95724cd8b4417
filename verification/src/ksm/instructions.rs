//! kOS instructions as stored in a KSM file.
use vstd::prelude::*;

use crate::buffer::BufferIterator;
use crate::ksm::errors::InstrParseError;
use crate::ksm::sections::{arg_index, decode_arg_index, group_arg_index, ArgIndex};
use crate::ksm::{int_size_max, var_int_bytes, var_int_round_trip, width, IntSize};
use crate::opcode::{decode_opcode, opcode_byte, opcode_byte_round_trip, operand_count, Opcode};
use crate::primitives::{lemma_take_middle, FromBytes, ToBytes};

verus! {

/// An instruction in a KSM file
#[derive(Debug, Copy, Clone, PartialEq, Eq, Hash, Structural)]
pub enum Instr {
    /// An instruction that takes no operands
    ZeroOp(Opcode),
    /// An instruction that takes one operand
    OneOp(Opcode, ArgIndex),
    /// An instruction that takes two operands
    TwoOp(Opcode, ArgIndex, ArgIndex),
}

impl View for Instr {
    type V = Instr;

    open spec fn view(&self) -> Instr {
        *self
    }
}

/// The opcode of an instruction.
pub open spec fn instr_opcode(i: Instr) -> Opcode {
    match i {
        Instr::ZeroOp(op) => op,
        Instr::OneOp(op, _) => op,
        Instr::TwoOp(op, _, _) => op,
    }
}

/// The bytes an instruction is written as when operands take `w` bytes: the opcode, then
/// each operand in big-endian order.
pub open spec fn instr_bytes(i: Instr, w: IntSize) -> Seq<u8> {
    match i {
        Instr::ZeroOp(op) => seq![opcode_byte(op)],
        Instr::OneOp(op, a) => seq![opcode_byte(op)] + var_int_bytes(a@ as u32, w),
        Instr::TwoOp(op, a, b) => seq![opcode_byte(op)] + var_int_bytes(a@ as u32, w)
            + var_int_bytes(b@ as u32, w),
    }
}

/// The size in bytes of an instruction whose operands take `w` bytes.
pub open spec fn instr_size(i: Instr, w: IntSize) -> nat {
    match i {
        Instr::ZeroOp(_) => 1,
        Instr::OneOp(_, _) => (1 + width(w)) as nat,
        Instr::TwoOp(_, _, _) => (1 + 2 * width(w)) as nat,
    }
}

/// What `Instr::parse` gives at `pos`: an opcode, then as many operands as it takes.
pub open spec fn decode_instr(data: Seq<u8>, pos: int, w: IntSize) -> (
    Result<Instr, InstrParseError>,
    int,
) {
    match decode_opcode(data, pos) {
        (Err(e), p) => (Err(InstrParseError::OpcodeParseError(p as usize, e)), p),
        (Ok(op), p) => if operand_count(op) == 0 {
            (Ok(Instr::ZeroOp(op)), p)
        } else if operand_count(op) == 1 {
            match decode_arg_index(data, p, w) {
                (Ok(a), q) => (Ok(Instr::OneOp(op, a)), q),
                (Err(_), q) => (Err(InstrParseError::MissingOperand(1)), q),
            }
        } else {
            match decode_arg_index(data, p, w) {
                (Err(_), q) => (Err(InstrParseError::MissingOperand(1)), q),
                (Ok(a), q) => match decode_arg_index(data, q, w) {
                    (Ok(b), r) => (Ok(Instr::TwoOp(op, a, b)), r),
                    (Err(_), r) => (Err(InstrParseError::MissingOperand(2)), r),
                },
            }
        },
    }
}

/// An instruction that is read back as itself when written with operands of `w` bytes:
/// its opcode is a real one, it has as many operands as its opcode takes, and each operand
/// fits in `w` bytes.
pub open spec fn instr_round_trips(i: Instr, w: IntSize) -> bool {
    &&& instr_opcode(i) != Opcode::Bogus
    &&& match i {
        Instr::ZeroOp(op) => operand_count(op) == 0,
        Instr::OneOp(op, a) => operand_count(op) == 1 && a@ <= int_size_max(w),
        Instr::TwoOp(op, a, b) => operand_count(op) == 2 && a@ <= int_size_max(w) && b@
            <= int_size_max(w),
    }
}

impl Instr {
    /// Appends this instruction to the provided byte buffer.
    ///
    /// Requires the current number of argument index bytes, so that operands can be
    /// written using the correct bit width.
    pub fn write(&self, buf: &mut Vec<u8>, index_bytes: IntSize)
        ensures
            final(buf)@ == old(buf)@ + instr_bytes(*self, index_bytes),
    {
        match self {
            Instr::ZeroOp(opcode) => {
                opcode.to_bytes(buf);
            },
            Instr::OneOp(opcode, op1) => {
                opcode.to_bytes(buf);
                op1.to_bytes(buf, index_bytes);
            },
            Instr::TwoOp(opcode, op1, op2) => {
                opcode.to_bytes(buf);
                op1.to_bytes(buf, index_bytes);
                op2.to_bytes(buf, index_bytes);
            },
        }
    }

    /// Parses bytes from the provided source, and converts them into an instruction
    ///
    /// Requires the number of argument index bytes that operands are expected to be.
    pub fn parse(source: &mut BufferIterator, index_bytes: IntSize) -> (r: Result<
        Self,
        InstrParseError,
    >)
        requires
            old(source).wf(),
        ensures
            final(source).wf(),
            final(source).data() == old(source).data(),
            (r, final(source).pos()) == decode_instr(
                old(source).data(),
                old(source).pos(),
                index_bytes,
            ),
    {
        let opcode = match Opcode::from_bytes(source) {
            Ok(op) => op,
            Err(e) => {
                return Err(InstrParseError::OpcodeParseError(source.current_index(), e));
            },
        };
        let n = opcode.num_operands();
        if n == 0 {
            Ok(Instr::ZeroOp(opcode))
        } else if n == 1 {
            match ArgIndex::from_bytes(source, index_bytes) {
                Ok(op1) => Ok(Instr::OneOp(opcode, op1)),
                Err(_) => Err(InstrParseError::MissingOperand(1)),
            }
        } else {
            let op1 = match ArgIndex::from_bytes(source, index_bytes) {
                Ok(a) => a,
                Err(_) => {
                    return Err(InstrParseError::MissingOperand(1));
                },
            };
            match ArgIndex::from_bytes(source, index_bytes) {
                Ok(op2) => Ok(Instr::TwoOp(opcode, op1, op2)),
                Err(_) => Err(InstrParseError::MissingOperand(2)),
            }
        }
    }

    /// Returns how large this instruction will be if it is written with the provided
    /// number of argument index bytes
    pub fn size_bytes(&self, index_bytes: IntSize) -> (r: usize)
        ensures
            r == instr_size(*self, index_bytes),
    {
        match self {
            Self::ZeroOp(_) => 1,
            Self::OneOp(_, _) => 1 + u8::from(index_bytes) as usize,
            Self::TwoOp(_, _, _) => 1 + 2 * (u8::from(index_bytes) as usize),
        }
    }

    /// Returns the opcode of this instruction.
    pub fn opcode(&self) -> (r: Opcode)
        ensures
            r == instr_opcode(*self),
    {
        match self {
            Self::ZeroOp(opcode) => *opcode,
            Self::OneOp(opcode, _) => *opcode,
            Self::TwoOp(opcode, _, _) => *opcode,
        }
    }
}

/// An instruction's size is the number of bytes it is written as.
pub proof fn lemma_instr_size(i: Instr, w: IntSize)
    ensures
        instr_bytes(i, w).len() == instr_size(i, w),
{
}

/// Writing an instruction and reading it back with the same operand width gives the same
/// instruction, and the reader moves past exactly its bytes, whatever stands before and after.
#[verifier::rlimit(40)]
pub proof fn instr_round_trip(i: Instr, w: IntSize, prefix: Seq<u8>, rest: Seq<u8>)
    requires
        instr_round_trips(i, w),
    ensures
        decode_instr(prefix + instr_bytes(i, w) + rest, prefix.len() as int, w) == (
            Ok::<Instr, InstrParseError>(i),
            (prefix.len() + instr_size(i, w)) as int,
        ),
{
    broadcast use group_arg_index;

    let op = instr_opcode(i);
    let data = prefix + instr_bytes(i, w) + rest;
    let p = prefix.len() as int;
    opcode_byte_round_trip(op);
    assert(data[p] == opcode_byte(op));
    let pre1 = prefix + seq![opcode_byte(op)];
    match i {
        Instr::ZeroOp(_) => {
            assert(instr_bytes(i, w).len() == 1);
            assert(decode_opcode(data, p) == (Ok::<Opcode, crate::errors::OpcodeParseError>(op), p + 1));
        },
        Instr::OneOp(_, a) => {
            assert((a@ as u32) as usize == a@);
            assert(arg_index(a@) == a);
            var_int_round_trip(a@ as u32, w);
            assert(data == pre1 + var_int_bytes(a@ as u32, w) + rest);
            lemma_take_middle(pre1, var_int_bytes(a@ as u32, w), rest);
        },
        Instr::TwoOp(_, a, b) => {
            assert((a@ as u32) as usize == a@);
            assert(arg_index(a@) == a);
            assert((b@ as u32) as usize == b@);
            assert(arg_index(b@) == b);
            var_int_round_trip(a@ as u32, w);
            var_int_round_trip(b@ as u32, w);
            let rest1 = var_int_bytes(b@ as u32, w) + rest;
            assert(data == pre1 + var_int_bytes(a@ as u32, w) + rest1);
            lemma_take_middle(pre1, var_int_bytes(a@ as u32, w), rest1);
            let pre2 = pre1 + var_int_bytes(a@ as u32, w);
            assert(data == pre2 + var_int_bytes(b@ as u32, w) + rest);
            lemma_take_middle(pre2, var_int_bytes(b@ as u32, w), rest);
        },
    }
}

} // verus!
