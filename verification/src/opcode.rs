//! The opcodes of kOS machine code instructions.
use vstd::prelude::*;
use vstd::utf8::{encode_utf8, encode_utf8_decode_utf8};

use crate::buffer::{byte_at, BufferIterator};
use crate::errors::OpcodeParseError;
use crate::primitives::{view_result, FromBytes, ToBytes};

verus! {

/// The opcode of a kOS machine code instruction.
///
/// Each instruction is made up of an opcode, and a series of zero or more operands.
/// This enum contains all currently supported kOS opcodes, and 2 additional ones.
///
/// Opcode::Bogus is the Opcode variant used to express that it is an unrecognized opcode.
/// This is inspired by the actual kOS C# code.
///
/// Opcode::Pushv is an internal value that is can be used by tools working with kOS machine code,
/// and it represents a normal Opcode::Push instruction, however specifying that the operand should be
/// stored as a KOSValue "Value" type (ScalarDouble, StringValue). This is mostly just useful for the
/// KASM assembler implementation.
#[derive(Debug, Copy, Clone, PartialEq, Eq, Hash, Structural)]
pub enum Opcode {
    /// Specified also in the kOS C# code, represents an unrecognized Opcode
    Bogus,
    /// Stop executing for this cycle.
    Eof,
    /// Aborts the current program and returns to the interpreter.
    Eop,
    /// No operation: does nothing.
    Nop,
    /// Consumes the top value of the stack and stores it in the variable named by the operand.
    Sto,
    /// Consumes the top value of the stack and unsets the variable that it names.
    Uns,
    /// Gets the suffix of a variable on the stack.
    Gmb,
    /// Sets the suffix of a variable on the stack.
    Smb,
    /// Gets the value of an index into a variable on the stack.
    Gidx,
    /// Sets the value of an index into a variable on the stack.
    Sidx,
    /// Branches to the provided location if the value on the stack is false.
    Bfa,
    /// Unconditionally branches to the provided location.
    Jmp,
    /// Adds two variables on the stack. Also used to concatenate strings.
    Add,
    /// Subtracts two variables on the stack.
    Sub,
    /// Multiplies two variables on the stack.
    Mul,
    /// Divides two variables on the stack.
    Div,
    /// Raises a value on the stack to another value on the stack.
    Pow,
    /// Compares two values on the stack. Pushes true if one is greater, false otherwise.
    ///
    /// See instruction docs for the order of values in the comparison.
    Cgt,
    /// Compares two values on the stack. Pushes true if one is less, false otherwise.
    ///
    /// See instruction docs for the order of values in the comparison.
    Clt,
    /// Compares two values on the stack. Pushes true if one is greater or equal, false otherwise.
    ///
    /// See instruction docs for the order of values in the comparison.
    Cge,
    /// Compares two values on the stack. Pushes true if one is less or equal, false otherwise.
    ///
    /// See instruction docs for the order of values in the comparison.
    Cle,
    /// Compares two values on the stack. Pushes true if both are equal, false otherwise.
    Ceq,
    /// Compares two values on the stack. Pushes true if both are not equal, false otherwise.
    Cne,
    /// Consumes a value on the stack, and pushes back the negative.
    Neg,
    /// Converts a value on the stack into a boolean.
    ///
    /// See instruction docs for how the conversion is performed.
    Bool,
    /// Converts a value on the stack into a boolean, and pushes the negated value.
    ///
    /// See instruction docs for how the conversion is performed.
    Not,
    /// Performs the logical AND operation between boolean values.
    And,
    /// Performs the logical OR operation between boolean values.
    Or,
    /// Calls a function.
    ///
    /// See instruction docs for call instruction format.
    Call,
    /// Returns from a function call.
    Ret,
    /// Pushes a value to the stack.
    Push,
    /// Pops a value off of the stack and discards it.
    Pop,
    /// Duplicates the value on the top of the stack.
    Dup,
    /// Swaps the top value of the stack with the value just below.
    Swap,
    /// "Evaluates" the top value of the stack. Usually this replaces a variable name with
    /// the variable's value.
    Eval,
    /// Adds a new kOS trigger.
    Addt,
    /// Removes a kOS trigger.
    Rmvt,
    /// Waits for a specified amount of time.
    Wait,
    /// Gets the suffixed method of a variable on the stack.
    Gmet,
    /// Consumes the top value of the stack and stores it in the variable named by the operand.
    /// If the variable of the provided name does not exist, a new local variable is created.
    Stol,
    /// Consumes the top value of the stack and stores it in the variable named by the operand.
    /// If the variable of the provided name does not exist, a new global variable is created.
    Stog,
    /// Begins a new variable scope
    Bscp,
    /// Ends a scope named by the provided id.
    Escp,
    /// Consumes the top value of the stack and stores it in the variable named by the operand.
    /// If the variable of the provided name does not exist, an error occurs.
    Stoe,
    /// Pushes a function delegate to the stack.
    Phdl,
    /// Branches to the provided location if the value on the stack is true.
    Btr,
    /// Checks if the provided variable name exists.
    Exst,
    /// Asserts that the top of the stack is a KOSValue::ArgMarker
    Argb,
    /// Pushes true if the top of the stack is a KOSValue::ArgMarker, false if not.
    Targ,
    /// Tests if the current trigger is requested to be cancelled. Pushes true if it is, false if not.
    Tcan,
    /// Pushes a value that is replaced with the correct value after the file is loaded.
    Prl,
    /// Pushes a function delegate that is replaced with the correct value after the file is loaded.
    Pdrl,
    /// Resets the current internal kOS label value.
    Lbrt,

    /// An internal value created for use by the Kerbal Assembler. This is not an opcode recognized
    /// by kOS, and should always be replaced with a regular Opcode::Push. This exists to be a
    /// special instruction that pushes the "Value" version of an argument.
    Pushv,
}

impl View for Opcode {
    type V = Opcode;

    open spec fn view(&self) -> Opcode {
        *self
    }
}

/// The number of operands that an instruction with this opcode has.
pub open spec fn operand_count(op: Opcode) -> usize {
    match op {
        Opcode::Bogus => 0,
        Opcode::Eof => 0,
        Opcode::Eop => 0,
        Opcode::Nop => 0,
        Opcode::Sto => 1,
        Opcode::Uns => 0,
        Opcode::Gmb => 1,
        Opcode::Smb => 1,
        Opcode::Gidx => 0,
        Opcode::Sidx => 0,
        Opcode::Bfa => 1,
        Opcode::Jmp => 1,
        Opcode::Add => 0,
        Opcode::Sub => 0,
        Opcode::Mul => 0,
        Opcode::Div => 0,
        Opcode::Pow => 0,
        Opcode::Cgt => 0,
        Opcode::Clt => 0,
        Opcode::Cge => 0,
        Opcode::Cle => 0,
        Opcode::Ceq => 0,
        Opcode::Cne => 0,
        Opcode::Neg => 0,
        Opcode::Bool => 0,
        Opcode::Not => 0,
        Opcode::And => 0,
        Opcode::Or => 0,
        Opcode::Call => 2,
        Opcode::Ret => 1,
        Opcode::Push => 1,
        Opcode::Pop => 0,
        Opcode::Dup => 0,
        Opcode::Swap => 0,
        Opcode::Eval => 0,
        Opcode::Addt => 2,
        Opcode::Rmvt => 0,
        Opcode::Wait => 0,
        Opcode::Gmet => 1,
        Opcode::Stol => 1,
        Opcode::Stog => 1,
        Opcode::Bscp => 2,
        Opcode::Escp => 1,
        Opcode::Stoe => 1,
        Opcode::Phdl => 2,
        Opcode::Btr => 1,
        Opcode::Exst => 0,
        Opcode::Argb => 0,
        Opcode::Targ => 0,
        Opcode::Tcan => 0,
        Opcode::Prl => 1,
        Opcode::Pdrl => 2,
        Opcode::Lbrt => 1,
        Opcode::Pushv => 1,
    }
}

/// The byte that an opcode is stored as.
pub open spec fn opcode_byte(op: Opcode) -> u8 {
    match op {
        Opcode::Bogus => 0x00,
        Opcode::Eof => 0x31,
        Opcode::Eop => 0x32,
        Opcode::Nop => 0x33,
        Opcode::Sto => 0x34,
        Opcode::Uns => 0x35,
        Opcode::Gmb => 0x36,
        Opcode::Smb => 0x37,
        Opcode::Gidx => 0x38,
        Opcode::Sidx => 0x39,
        Opcode::Bfa => 0x3a,
        Opcode::Jmp => 0x3b,
        Opcode::Add => 0x3c,
        Opcode::Sub => 0x3d,
        Opcode::Mul => 0x3e,
        Opcode::Div => 0x3f,
        Opcode::Pow => 0x40,
        Opcode::Cgt => 0x41,
        Opcode::Clt => 0x42,
        Opcode::Cge => 0x43,
        Opcode::Cle => 0x44,
        Opcode::Ceq => 0x45,
        Opcode::Cne => 0x46,
        Opcode::Neg => 0x47,
        Opcode::Bool => 0x48,
        Opcode::Not => 0x49,
        Opcode::And => 0x4a,
        Opcode::Or => 0x4b,
        Opcode::Call => 0x4c,
        Opcode::Ret => 0x4d,
        Opcode::Push => 0x4e,
        Opcode::Pop => 0x4f,
        Opcode::Dup => 0x50,
        Opcode::Swap => 0x51,
        Opcode::Eval => 0x52,
        Opcode::Addt => 0x53,
        Opcode::Rmvt => 0x54,
        Opcode::Wait => 0x55,
        Opcode::Gmet => 0x57,
        Opcode::Stol => 0x58,
        Opcode::Stog => 0x59,
        Opcode::Bscp => 0x5a,
        Opcode::Escp => 0x5b,
        Opcode::Stoe => 0x5c,
        Opcode::Phdl => 0x5d,
        Opcode::Btr => 0x5e,
        Opcode::Exst => 0x5f,
        Opcode::Argb => 0x60,
        Opcode::Targ => 0x61,
        Opcode::Tcan => 0x62,
        Opcode::Prl => 0xce,
        Opcode::Pdrl => 0xcd,
        Opcode::Lbrt => 0xf0,
        Opcode::Pushv => 0xfa,
    }
}

/// The opcode that the byte `b` stands for; Opcode::Bogus when it stands for none.
pub open spec fn opcode_of_byte(b: u8) -> Opcode {
    match b {
        0x31 => Opcode::Eof,
        0x32 => Opcode::Eop,
        0x33 => Opcode::Nop,
        0x34 => Opcode::Sto,
        0x35 => Opcode::Uns,
        0x36 => Opcode::Gmb,
        0x37 => Opcode::Smb,
        0x38 => Opcode::Gidx,
        0x39 => Opcode::Sidx,
        0x3a => Opcode::Bfa,
        0x3b => Opcode::Jmp,
        0x3c => Opcode::Add,
        0x3d => Opcode::Sub,
        0x3e => Opcode::Mul,
        0x3f => Opcode::Div,
        0x40 => Opcode::Pow,
        0x41 => Opcode::Cgt,
        0x42 => Opcode::Clt,
        0x43 => Opcode::Cge,
        0x44 => Opcode::Cle,
        0x45 => Opcode::Ceq,
        0x46 => Opcode::Cne,
        0x47 => Opcode::Neg,
        0x48 => Opcode::Bool,
        0x49 => Opcode::Not,
        0x4a => Opcode::And,
        0x4b => Opcode::Or,
        0x4c => Opcode::Call,
        0x4d => Opcode::Ret,
        0x4e => Opcode::Push,
        0x4f => Opcode::Pop,
        0x50 => Opcode::Dup,
        0x51 => Opcode::Swap,
        0x52 => Opcode::Eval,
        0x53 => Opcode::Addt,
        0x54 => Opcode::Rmvt,
        0x55 => Opcode::Wait,
        0x57 => Opcode::Gmet,
        0x58 => Opcode::Stol,
        0x59 => Opcode::Stog,
        0x5a => Opcode::Bscp,
        0x5b => Opcode::Escp,
        0x5c => Opcode::Stoe,
        0x5d => Opcode::Phdl,
        0x5e => Opcode::Btr,
        0x5f => Opcode::Exst,
        0x60 => Opcode::Argb,
        0x61 => Opcode::Targ,
        0x62 => Opcode::Tcan,
        0xce => Opcode::Prl,
        0xcd => Opcode::Pdrl,
        0xf0 => Opcode::Lbrt,
        0xfa => Opcode::Pushv,
        _ => Opcode::Bogus,
    }
}

/// The mnemonic of an opcode, as written in kOS assembly.
pub open spec fn mnemonic(op: Opcode) -> &'static str {
    match op {
        Opcode::Bogus => "bogus",
        Opcode::Eof => "eof",
        Opcode::Eop => "eop",
        Opcode::Nop => "nop",
        Opcode::Sto => "sto",
        Opcode::Uns => "uns",
        Opcode::Gmb => "gmb",
        Opcode::Smb => "smb",
        Opcode::Gidx => "gidx",
        Opcode::Sidx => "sidx",
        Opcode::Bfa => "bfa",
        Opcode::Jmp => "jmp",
        Opcode::Add => "add",
        Opcode::Sub => "sub",
        Opcode::Mul => "mul",
        Opcode::Div => "div",
        Opcode::Pow => "pow",
        Opcode::Cgt => "cgt",
        Opcode::Clt => "clt",
        Opcode::Cge => "cge",
        Opcode::Cle => "cle",
        Opcode::Ceq => "ceq",
        Opcode::Cne => "cne",
        Opcode::Neg => "neg",
        Opcode::Bool => "bool",
        Opcode::Not => "not",
        Opcode::And => "and",
        Opcode::Or => "or",
        Opcode::Call => "call",
        Opcode::Ret => "ret",
        Opcode::Push => "push",
        Opcode::Pop => "pop",
        Opcode::Dup => "dup",
        Opcode::Swap => "swap",
        Opcode::Eval => "eval",
        Opcode::Addt => "addt",
        Opcode::Rmvt => "rmvt",
        Opcode::Wait => "wait",
        Opcode::Gmet => "gmet",
        Opcode::Stol => "stol",
        Opcode::Stog => "stog",
        Opcode::Bscp => "bscp",
        Opcode::Escp => "escp",
        Opcode::Stoe => "stoe",
        Opcode::Phdl => "phdl",
        Opcode::Btr => "btr",
        Opcode::Exst => "exst",
        Opcode::Argb => "argb",
        Opcode::Targ => "targ",
        Opcode::Tcan => "tcan",
        Opcode::Prl => "prl",
        Opcode::Pdrl => "pdrl",
        Opcode::Lbrt => "lbrt",
        Opcode::Pushv => "pushv",
    }
}

/// The opcode that the mnemonic `s` names; Opcode::Bogus when it names none.
pub open spec fn opcode_of_mnemonic(s: Seq<char>) -> Opcode {
    if s == "eof"@ {
        Opcode::Eof
    } else if s == "eop"@ {
        Opcode::Eop
    } else if s == "nop"@ {
        Opcode::Nop
    } else if s == "sto"@ {
        Opcode::Sto
    } else if s == "uns"@ {
        Opcode::Uns
    } else if s == "gmb"@ {
        Opcode::Gmb
    } else if s == "smb"@ {
        Opcode::Smb
    } else if s == "gidx"@ {
        Opcode::Gidx
    } else if s == "sidx"@ {
        Opcode::Sidx
    } else if s == "bfa"@ {
        Opcode::Bfa
    } else if s == "jmp"@ {
        Opcode::Jmp
    } else if s == "add"@ {
        Opcode::Add
    } else if s == "sub"@ {
        Opcode::Sub
    } else if s == "mul"@ {
        Opcode::Mul
    } else if s == "div"@ {
        Opcode::Div
    } else if s == "pow"@ {
        Opcode::Pow
    } else if s == "cgt"@ {
        Opcode::Cgt
    } else if s == "clt"@ {
        Opcode::Clt
    } else if s == "cge"@ {
        Opcode::Cge
    } else if s == "cle"@ {
        Opcode::Cle
    } else if s == "ceq"@ {
        Opcode::Ceq
    } else if s == "cne"@ {
        Opcode::Cne
    } else if s == "neg"@ {
        Opcode::Neg
    } else if s == "bool"@ {
        Opcode::Bool
    } else if s == "not"@ {
        Opcode::Not
    } else if s == "and"@ {
        Opcode::And
    } else if s == "or"@ {
        Opcode::Or
    } else if s == "call"@ {
        Opcode::Call
    } else if s == "ret"@ {
        Opcode::Ret
    } else if s == "push"@ {
        Opcode::Push
    } else if s == "pop"@ {
        Opcode::Pop
    } else if s == "dup"@ {
        Opcode::Dup
    } else if s == "swap"@ {
        Opcode::Swap
    } else if s == "eval"@ {
        Opcode::Eval
    } else if s == "addt"@ {
        Opcode::Addt
    } else if s == "rmvt"@ {
        Opcode::Rmvt
    } else if s == "wait"@ {
        Opcode::Wait
    } else if s == "gmet"@ {
        Opcode::Gmet
    } else if s == "stol"@ {
        Opcode::Stol
    } else if s == "stog"@ {
        Opcode::Stog
    } else if s == "bscp"@ {
        Opcode::Bscp
    } else if s == "escp"@ {
        Opcode::Escp
    } else if s == "stoe"@ {
        Opcode::Stoe
    } else if s == "phdl"@ {
        Opcode::Phdl
    } else if s == "btr"@ {
        Opcode::Btr
    } else if s == "exst"@ {
        Opcode::Exst
    } else if s == "argb"@ {
        Opcode::Argb
    } else if s == "targ"@ {
        Opcode::Targ
    } else if s == "tcan"@ {
        Opcode::Tcan
    } else if s == "prl"@ {
        Opcode::Prl
    } else if s == "pdrl"@ {
        Opcode::Pdrl
    } else if s == "lbrt"@ {
        Opcode::Lbrt
    } else if s == "pushv"@ {
        Opcode::Pushv
    } else {
        Opcode::Bogus
    }
}

impl Opcode {
    /// Returns the number of operands that this instruction type should have.
    pub fn num_operands(&self) -> (r: usize)
        ensures
            r == operand_count(*self),
    {
        match self {
            Opcode::Bogus => 0,
            Opcode::Eof => 0,
            Opcode::Eop => 0,
            Opcode::Nop => 0,
            Opcode::Sto => 1,
            Opcode::Uns => 0,
            Opcode::Gmb => 1,
            Opcode::Smb => 1,
            Opcode::Gidx => 0,
            Opcode::Sidx => 0,
            Opcode::Bfa => 1,
            Opcode::Jmp => 1,
            Opcode::Add => 0,
            Opcode::Sub => 0,
            Opcode::Mul => 0,
            Opcode::Div => 0,
            Opcode::Pow => 0,
            Opcode::Cgt => 0,
            Opcode::Clt => 0,
            Opcode::Cge => 0,
            Opcode::Cle => 0,
            Opcode::Ceq => 0,
            Opcode::Cne => 0,
            Opcode::Neg => 0,
            Opcode::Bool => 0,
            Opcode::Not => 0,
            Opcode::And => 0,
            Opcode::Or => 0,
            Opcode::Call => 2,
            Opcode::Ret => 1,
            Opcode::Push => 1,
            Opcode::Pop => 0,
            Opcode::Dup => 0,
            Opcode::Swap => 0,
            Opcode::Eval => 0,
            Opcode::Addt => 2,
            Opcode::Rmvt => 0,
            Opcode::Wait => 0,
            Opcode::Gmet => 1,
            Opcode::Stol => 1,
            Opcode::Stog => 1,
            Opcode::Bscp => 2,
            Opcode::Escp => 1,
            Opcode::Stoe => 1,
            Opcode::Phdl => 2,
            Opcode::Btr => 1,
            Opcode::Exst => 0,
            Opcode::Argb => 0,
            Opcode::Targ => 0,
            Opcode::Tcan => 0,
            Opcode::Prl => 1,
            Opcode::Pdrl => 2,
            Opcode::Lbrt => 1,
            Opcode::Pushv => 1,
        }
    }
}

impl From<u8> for Opcode {
    fn from(byte: u8) -> (r: Self) {
        match byte {
            0x31 => Opcode::Eof,
            0x32 => Opcode::Eop,
            0x33 => Opcode::Nop,
            0x34 => Opcode::Sto,
            0x35 => Opcode::Uns,
            0x36 => Opcode::Gmb,
            0x37 => Opcode::Smb,
            0x38 => Opcode::Gidx,
            0x39 => Opcode::Sidx,
            0x3a => Opcode::Bfa,
            0x3b => Opcode::Jmp,
            0x3c => Opcode::Add,
            0x3d => Opcode::Sub,
            0x3e => Opcode::Mul,
            0x3f => Opcode::Div,
            0x40 => Opcode::Pow,
            0x41 => Opcode::Cgt,
            0x42 => Opcode::Clt,
            0x43 => Opcode::Cge,
            0x44 => Opcode::Cle,
            0x45 => Opcode::Ceq,
            0x46 => Opcode::Cne,
            0x47 => Opcode::Neg,
            0x48 => Opcode::Bool,
            0x49 => Opcode::Not,
            0x4a => Opcode::And,
            0x4b => Opcode::Or,
            0x4c => Opcode::Call,
            0x4d => Opcode::Ret,
            0x4e => Opcode::Push,
            0x4f => Opcode::Pop,
            0x50 => Opcode::Dup,
            0x51 => Opcode::Swap,
            0x52 => Opcode::Eval,
            0x53 => Opcode::Addt,
            0x54 => Opcode::Rmvt,
            0x55 => Opcode::Wait,
            0x57 => Opcode::Gmet,
            0x58 => Opcode::Stol,
            0x59 => Opcode::Stog,
            0x5a => Opcode::Bscp,
            0x5b => Opcode::Escp,
            0x5c => Opcode::Stoe,
            0x5d => Opcode::Phdl,
            0x5e => Opcode::Btr,
            0x5f => Opcode::Exst,
            0x60 => Opcode::Argb,
            0x61 => Opcode::Targ,
            0x62 => Opcode::Tcan,
            0xce => Opcode::Prl,
            0xcd => Opcode::Pdrl,
            0xf0 => Opcode::Lbrt,
            0xfa => Opcode::Pushv,
            _ => Opcode::Bogus,
        }
    }
}

impl vstd::std_specs::convert::FromSpecImpl<u8> for Opcode {
    open spec fn obeys_from_spec() -> bool {
        true
    }

    open spec fn from_spec(b: u8) -> Opcode {
        opcode_of_byte(b)
    }
}

impl From<Opcode> for u8 {
    fn from(opcode: Opcode) -> (r: Self) {
        match opcode {
            Opcode::Bogus => 0x00,
            Opcode::Eof => 0x31,
            Opcode::Eop => 0x32,
            Opcode::Nop => 0x33,
            Opcode::Sto => 0x34,
            Opcode::Uns => 0x35,
            Opcode::Gmb => 0x36,
            Opcode::Smb => 0x37,
            Opcode::Gidx => 0x38,
            Opcode::Sidx => 0x39,
            Opcode::Bfa => 0x3a,
            Opcode::Jmp => 0x3b,
            Opcode::Add => 0x3c,
            Opcode::Sub => 0x3d,
            Opcode::Mul => 0x3e,
            Opcode::Div => 0x3f,
            Opcode::Pow => 0x40,
            Opcode::Cgt => 0x41,
            Opcode::Clt => 0x42,
            Opcode::Cge => 0x43,
            Opcode::Cle => 0x44,
            Opcode::Ceq => 0x45,
            Opcode::Cne => 0x46,
            Opcode::Neg => 0x47,
            Opcode::Bool => 0x48,
            Opcode::Not => 0x49,
            Opcode::And => 0x4a,
            Opcode::Or => 0x4b,
            Opcode::Call => 0x4c,
            Opcode::Ret => 0x4d,
            Opcode::Push => 0x4e,
            Opcode::Pop => 0x4f,
            Opcode::Dup => 0x50,
            Opcode::Swap => 0x51,
            Opcode::Eval => 0x52,
            Opcode::Addt => 0x53,
            Opcode::Rmvt => 0x54,
            Opcode::Wait => 0x55,
            Opcode::Gmet => 0x57,
            Opcode::Stol => 0x58,
            Opcode::Stog => 0x59,
            Opcode::Bscp => 0x5a,
            Opcode::Escp => 0x5b,
            Opcode::Stoe => 0x5c,
            Opcode::Phdl => 0x5d,
            Opcode::Btr => 0x5e,
            Opcode::Exst => 0x5f,
            Opcode::Argb => 0x60,
            Opcode::Targ => 0x61,
            Opcode::Tcan => 0x62,
            Opcode::Prl => 0xce,
            Opcode::Pdrl => 0xcd,
            Opcode::Lbrt => 0xf0,
            Opcode::Pushv => 0xfa,
        }
    }
}

impl vstd::std_specs::convert::FromSpecImpl<Opcode> for u8 {
    open spec fn obeys_from_spec() -> bool {
        true
    }

    open spec fn from_spec(op: Opcode) -> u8 {
        opcode_byte(op)
    }
}

/// The code point of the char at `i` of `s`, or 0 past its end.
spec fn char_code(s: Seq<char>, i: int) -> int {
    if 0 <= i < s.len() {
        s[i] as int
    } else {
        0
    }
}

/// A number that tells apart sequences of at most five chars whose code points are below 128
/// (as all mnemonics are).
spec fn mnemonic_key(s: Seq<char>) -> int {
    s.len() + 8 * (char_code(s, 0) + 128 * (char_code(s, 1) + 128 * (char_code(s, 2) + 128 * (
    char_code(s, 3) + 128 * char_code(s, 4)))))
}

/// The keys of the mnemonics from `bogus` to `gidx`.
proof fn lemma_mnemonic_keys_0()
    ensures
        mnemonic_key("bogus"@) == 248937168661,
        mnemonic_key("eof"@) == 13483819,
        mnemonic_key("eop"@) == 14794539,
        mnemonic_key("nop"@) == 14794611,
        mnemonic_key("sto"@) == 14668699,
        mnemonic_key("uns"@) == 15186859,
        mnemonic_key("gmb"@) == 12957499,
        mnemonic_key("smb"@) == 12957595,
        mnemonic_key("gidx"@) == 2026481468,
{
    reveal_strlit("bogus");
    reveal_strlit("eof");
    reveal_strlit("eop");
    reveal_strlit("nop");
    reveal_strlit("sto");
    reveal_strlit("uns");
    reveal_strlit("gmb");
    reveal_strlit("smb");
    reveal_strlit("gidx");
}

/// The keys of the mnemonics from `sidx` to `cgt`.
proof fn lemma_mnemonic_keys_1()
    ensures
        mnemonic_key("sidx"@) == 2026481564,
        mnemonic_key("bfa"@) == 12819219,
        mnemonic_key("jmp"@) == 14792531,
        mnemonic_key("add"@) == 13210379,
        mnemonic_key("sub"@) == 12965787,
        mnemonic_key("mul"@) == 14276459,
        mnemonic_key("div"@) == 15574819,
        mnemonic_key("pow"@) == 15712131,
        mnemonic_key("cgt"@) == 15310619,
{
    reveal_strlit("sidx");
    reveal_strlit("bfa");
    reveal_strlit("jmp");
    reveal_strlit("add");
    reveal_strlit("sub");
    reveal_strlit("mul");
    reveal_strlit("div");
    reveal_strlit("pow");
    reveal_strlit("cgt");
}

/// The keys of the mnemonics from `clt` to `and`.
proof fn lemma_mnemonic_keys_2()
    ensures
        mnemonic_key("clt"@) == 15315739,
        mnemonic_key("cge"@) == 13344539,
        mnemonic_key("cle"@) == 13349659,
        mnemonic_key("ceq"@) == 14915355,
        mnemonic_key("cne"@) == 13351707,
        mnemonic_key("neg"@) == 13604723,
        mnemonic_key("bool"@) == 1826602772,
        mnemonic_key("not"@) == 15318899,
        mnemonic_key("and"@) == 13220619,
{
    reveal_strlit("clt");
    reveal_strlit("cge");
    reveal_strlit("cle");
    reveal_strlit("ceq");
    reveal_strlit("cne");
    reveal_strlit("neg");
    reveal_strlit("bool");
    reveal_strlit("not");
    reveal_strlit("and");
}

/// The keys of the mnemonics from `or` to `addt`.
proof fn lemma_mnemonic_keys_3()
    ensures
        mnemonic_key("or"@) == 117626,
        mnemonic_key("call"@) == 1826195228,
        mnemonic_key("ret"@) == 15308691,
        mnemonic_key("push"@) == 1760024452,
        mnemonic_key("pop"@) == 14794627,
        mnemonic_key("dup"@) == 14800675,
        mnemonic_key("swap"@) == 1891884956,
        mnemonic_key("eval"@) == 1824774956,
        mnemonic_key("addt"@) == 1959367436,
{
    reveal_strlit("or");
    reveal_strlit("call");
    reveal_strlit("ret");
    reveal_strlit("push");
    reveal_strlit("pop");
    reveal_strlit("dup");
    reveal_strlit("swap");
    reveal_strlit("eval");
    reveal_strlit("addt");
}

/// The keys of the mnemonics from `rmvt` to `phdl`.
proof fn lemma_mnemonic_keys_4()
    ensures
        mnemonic_key("rmvt"@) == 1961736084,
        mnemonic_key("wait"@) == 1960019900,
        mnemonic_key("gmet"@) == 1959507772,
        mnemonic_key("stol"@) == 1826608028,
        mnemonic_key("stog"@) == 1742721948,
        mnemonic_key("bscp"@) == 1892142868,
        mnemonic_key("escp"@) == 1892142892,
        mnemonic_key("stoe"@) == 1709167516,
        mnemonic_key("phdl"@) == 1825153924,
{
    reveal_strlit("rmvt");
    reveal_strlit("wait");
    reveal_strlit("gmet");
    reveal_strlit("stol");
    reveal_strlit("stog");
    reveal_strlit("bscp");
    reveal_strlit("escp");
    reveal_strlit("stoe");
    reveal_strlit("phdl");
}

/// The keys of the mnemonics from `btr` to `pushv`.
proof fn lemma_mnemonic_keys_5()
    ensures
        mnemonic_key("btr"@) == 15061779,
        mnemonic_key("exst"@) == 1961354028,
        mnemonic_key("argb"@) == 1657785100,
        mnemonic_key("targ"@) == 1743095716,
        mnemonic_key("tcan"@) == 1858310052,
        mnemonic_key("prl"@) == 14273411,
        mnemonic_key("pdrl"@) == 1826984836,
        mnemonic_key("lbrt"@) == 1961200484,
        mnemonic_key("pushv"@) == 255163094917,
{
    reveal_strlit("btr");
    reveal_strlit("exst");
    reveal_strlit("argb");
    reveal_strlit("targ");
    reveal_strlit("tcan");
    reveal_strlit("prl");
    reveal_strlit("pdrl");
    reveal_strlit("lbrt");
    reveal_strlit("pushv");
}

/// Reading back the mnemonic of an opcode gives that opcode.
#[verifier::rlimit(40)]
pub proof fn mnemonic_round_trip(op: Opcode)
    ensures
        opcode_of_mnemonic(mnemonic(op)@) == op,
{
    lemma_mnemonic_keys_0();
    lemma_mnemonic_keys_1();
    lemma_mnemonic_keys_2();
    lemma_mnemonic_keys_3();
    lemma_mnemonic_keys_4();
    lemma_mnemonic_keys_5();
    match op {
        Opcode::Bogus => {},
        Opcode::Eof => {},
        Opcode::Eop => {},
        Opcode::Nop => {},
        Opcode::Sto => {},
        Opcode::Uns => {},
        Opcode::Gmb => {},
        Opcode::Smb => {},
        Opcode::Gidx => {},
        Opcode::Sidx => {},
        Opcode::Bfa => {},
        Opcode::Jmp => {},
        Opcode::Add => {},
        Opcode::Sub => {},
        Opcode::Mul => {},
        Opcode::Div => {},
        Opcode::Pow => {},
        Opcode::Cgt => {},
        Opcode::Clt => {},
        Opcode::Cge => {},
        Opcode::Cle => {},
        Opcode::Ceq => {},
        Opcode::Cne => {},
        Opcode::Neg => {},
        Opcode::Bool => {},
        Opcode::Not => {},
        Opcode::And => {},
        Opcode::Or => {},
        Opcode::Call => {},
        Opcode::Ret => {},
        Opcode::Push => {},
        Opcode::Pop => {},
        Opcode::Dup => {},
        Opcode::Swap => {},
        Opcode::Eval => {},
        Opcode::Addt => {},
        Opcode::Rmvt => {},
        Opcode::Wait => {},
        Opcode::Gmet => {},
        Opcode::Stol => {},
        Opcode::Stog => {},
        Opcode::Bscp => {},
        Opcode::Escp => {},
        Opcode::Stoe => {},
        Opcode::Phdl => {},
        Opcode::Btr => {},
        Opcode::Exst => {},
        Opcode::Argb => {},
        Opcode::Targ => {},
        Opcode::Tcan => {},
        Opcode::Prl => {},
        Opcode::Pdrl => {},
        Opcode::Lbrt => {},
        Opcode::Pushv => {},
    }
}

/// A mnemonic that names an opcode is that opcode's mnemonic.
pub proof fn mnemonic_of_named_opcode(s: Seq<char>)
    ensures
        opcode_of_mnemonic(s) != Opcode::Bogus ==> mnemonic(opcode_of_mnemonic(s))@ == s,
{
}

/// Compares two strings by their bytes.
pub fn str_eq(a: &str, b: &str) -> (r: bool)
    ensures
        r == (a@ == b@),
{
    let x = a.as_bytes();
    let y = b.as_bytes();
    proof {
        encode_utf8_decode_utf8(a@);
        encode_utf8_decode_utf8(b@);
    }
    if x.len() != y.len() {
        return false;
    }
    let mut i: usize = 0;
    while i < x.len()
        invariant
            x@.len() == y@.len(),
            x@ == encode_utf8(a@),
            y@ == encode_utf8(b@),
            i <= x@.len(),
            forall|j: int| 0 <= j < i ==> x@[j] == y@[j],
        decreases x@.len() - i,
    {
        if x[i] != y[i] {
            return false;
        }
        i = i + 1;
    }
    assert(x@ =~= y@);
    true
}

impl<'a> From<&'a str> for Opcode {
    fn from(s: &'a str) -> (r: Self) {
        if str_eq(s, "eof") {
            Opcode::Eof
        } else if str_eq(s, "eop") {
            Opcode::Eop
        } else if str_eq(s, "nop") {
            Opcode::Nop
        } else if str_eq(s, "sto") {
            Opcode::Sto
        } else if str_eq(s, "uns") {
            Opcode::Uns
        } else if str_eq(s, "gmb") {
            Opcode::Gmb
        } else if str_eq(s, "smb") {
            Opcode::Smb
        } else if str_eq(s, "gidx") {
            Opcode::Gidx
        } else if str_eq(s, "sidx") {
            Opcode::Sidx
        } else if str_eq(s, "bfa") {
            Opcode::Bfa
        } else if str_eq(s, "jmp") {
            Opcode::Jmp
        } else if str_eq(s, "add") {
            Opcode::Add
        } else if str_eq(s, "sub") {
            Opcode::Sub
        } else if str_eq(s, "mul") {
            Opcode::Mul
        } else if str_eq(s, "div") {
            Opcode::Div
        } else if str_eq(s, "pow") {
            Opcode::Pow
        } else if str_eq(s, "cgt") {
            Opcode::Cgt
        } else if str_eq(s, "clt") {
            Opcode::Clt
        } else if str_eq(s, "cge") {
            Opcode::Cge
        } else if str_eq(s, "cle") {
            Opcode::Cle
        } else if str_eq(s, "ceq") {
            Opcode::Ceq
        } else if str_eq(s, "cne") {
            Opcode::Cne
        } else if str_eq(s, "neg") {
            Opcode::Neg
        } else if str_eq(s, "bool") {
            Opcode::Bool
        } else if str_eq(s, "not") {
            Opcode::Not
        } else if str_eq(s, "and") {
            Opcode::And
        } else if str_eq(s, "or") {
            Opcode::Or
        } else if str_eq(s, "call") {
            Opcode::Call
        } else if str_eq(s, "ret") {
            Opcode::Ret
        } else if str_eq(s, "push") {
            Opcode::Push
        } else if str_eq(s, "pop") {
            Opcode::Pop
        } else if str_eq(s, "dup") {
            Opcode::Dup
        } else if str_eq(s, "swap") {
            Opcode::Swap
        } else if str_eq(s, "eval") {
            Opcode::Eval
        } else if str_eq(s, "addt") {
            Opcode::Addt
        } else if str_eq(s, "rmvt") {
            Opcode::Rmvt
        } else if str_eq(s, "wait") {
            Opcode::Wait
        } else if str_eq(s, "gmet") {
            Opcode::Gmet
        } else if str_eq(s, "stol") {
            Opcode::Stol
        } else if str_eq(s, "stog") {
            Opcode::Stog
        } else if str_eq(s, "bscp") {
            Opcode::Bscp
        } else if str_eq(s, "escp") {
            Opcode::Escp
        } else if str_eq(s, "stoe") {
            Opcode::Stoe
        } else if str_eq(s, "phdl") {
            Opcode::Phdl
        } else if str_eq(s, "btr") {
            Opcode::Btr
        } else if str_eq(s, "exst") {
            Opcode::Exst
        } else if str_eq(s, "argb") {
            Opcode::Argb
        } else if str_eq(s, "targ") {
            Opcode::Targ
        } else if str_eq(s, "tcan") {
            Opcode::Tcan
        } else if str_eq(s, "prl") {
            Opcode::Prl
        } else if str_eq(s, "pdrl") {
            Opcode::Pdrl
        } else if str_eq(s, "lbrt") {
            Opcode::Lbrt
        } else if str_eq(s, "pushv") {
            Opcode::Pushv
        } else {
            Opcode::Bogus
        }
    }
}

impl<'a> vstd::std_specs::convert::FromSpecImpl<&'a str> for Opcode {
    open spec fn obeys_from_spec() -> bool {
        true
    }

    open spec fn from_spec(s: &'a str) -> Opcode {
        opcode_of_mnemonic(s@)
    }
}

impl<'a> From<Opcode> for &'a str {
    fn from(opcode: Opcode) -> (r: Self) {
        match opcode {
            Opcode::Bogus => "bogus",
            Opcode::Eof => "eof",
            Opcode::Eop => "eop",
            Opcode::Nop => "nop",
            Opcode::Sto => "sto",
            Opcode::Uns => "uns",
            Opcode::Gmb => "gmb",
            Opcode::Smb => "smb",
            Opcode::Gidx => "gidx",
            Opcode::Sidx => "sidx",
            Opcode::Bfa => "bfa",
            Opcode::Jmp => "jmp",
            Opcode::Add => "add",
            Opcode::Sub => "sub",
            Opcode::Mul => "mul",
            Opcode::Div => "div",
            Opcode::Pow => "pow",
            Opcode::Cgt => "cgt",
            Opcode::Clt => "clt",
            Opcode::Cge => "cge",
            Opcode::Cle => "cle",
            Opcode::Ceq => "ceq",
            Opcode::Cne => "cne",
            Opcode::Neg => "neg",
            Opcode::Bool => "bool",
            Opcode::Not => "not",
            Opcode::And => "and",
            Opcode::Or => "or",
            Opcode::Call => "call",
            Opcode::Ret => "ret",
            Opcode::Push => "push",
            Opcode::Pop => "pop",
            Opcode::Dup => "dup",
            Opcode::Swap => "swap",
            Opcode::Eval => "eval",
            Opcode::Addt => "addt",
            Opcode::Rmvt => "rmvt",
            Opcode::Wait => "wait",
            Opcode::Gmet => "gmet",
            Opcode::Stol => "stol",
            Opcode::Stog => "stog",
            Opcode::Bscp => "bscp",
            Opcode::Escp => "escp",
            Opcode::Stoe => "stoe",
            Opcode::Phdl => "phdl",
            Opcode::Btr => "btr",
            Opcode::Exst => "exst",
            Opcode::Argb => "argb",
            Opcode::Targ => "targ",
            Opcode::Tcan => "tcan",
            Opcode::Prl => "prl",
            Opcode::Pdrl => "pdrl",
            Opcode::Lbrt => "lbrt",
            Opcode::Pushv => "pushv",
        }
    }
}

impl<'a> vstd::std_specs::convert::FromSpecImpl<Opcode> for &'a str {
    open spec fn obeys_from_spec() -> bool {
        true
    }

    open spec fn from_spec(op: Opcode) -> &'a str {
        mnemonic(op)
    }
}

impl ToBytes for Opcode {
    open spec fn encoding(&self) -> Seq<u8> {
        seq![opcode_byte(*self)]
    }

    fn to_bytes(&self, buf: &mut Vec<u8>) {
        buf.push(u8::from(*self));
    }
}

/// What `Opcode::from_bytes` gives at `pos`: the opcode of the next byte, unless that byte
/// stands for no opcode.
pub open spec fn decode_opcode(data: Seq<u8>, pos: int) -> (Result<Opcode, OpcodeParseError>, int) {
    match byte_at(data, pos) {
        None => (Err(OpcodeParseError::EOF), pos),
        Some(b) => if opcode_of_byte(b) == Opcode::Bogus {
            (Err(OpcodeParseError::InvalidOpcode(b)), pos + 1)
        } else {
            (Ok(opcode_of_byte(b)), pos + 1)
        },
    }
}

impl FromBytes for Opcode {
    type Error = OpcodeParseError;

    open spec fn decode(data: Seq<u8>, pos: int) -> (Result<Opcode, OpcodeParseError>, int) {
        decode_opcode(data, pos)
    }

    fn from_bytes(source: &mut BufferIterator) -> (r: Result<Self, Self::Error>) {
        let value = match source.next() {
            Some(v) => v,
            None => {
                return Err(OpcodeParseError::EOF);
            },
        };
        let opcode = Opcode::from(value);
        match opcode {
            Opcode::Bogus => Err(OpcodeParseError::InvalidOpcode(value)),
            _ => Ok(opcode),
        }
    }
}

/// Every opcode is stored as kOS's fixed code for it: `eof` is 0x31, `add` 0x3c, `sub` 0x3d,
/// `call` 0x4c, `push` 0x4e and so on, and the unrecognized opcode as 0.
pub proof fn kos_opcode_bytes()
    ensures
        opcode_byte(Opcode::Bogus) == 0x00u8,
        opcode_byte(Opcode::Eof) == 0x31u8,
        opcode_byte(Opcode::Eop) == 0x32u8,
        opcode_byte(Opcode::Nop) == 0x33u8,
        opcode_byte(Opcode::Sto) == 0x34u8,
        opcode_byte(Opcode::Uns) == 0x35u8,
        opcode_byte(Opcode::Gmb) == 0x36u8,
        opcode_byte(Opcode::Smb) == 0x37u8,
        opcode_byte(Opcode::Gidx) == 0x38u8,
        opcode_byte(Opcode::Sidx) == 0x39u8,
        opcode_byte(Opcode::Bfa) == 0x3au8,
        opcode_byte(Opcode::Jmp) == 0x3bu8,
        opcode_byte(Opcode::Add) == 0x3cu8,
        opcode_byte(Opcode::Sub) == 0x3du8,
        opcode_byte(Opcode::Mul) == 0x3eu8,
        opcode_byte(Opcode::Div) == 0x3fu8,
        opcode_byte(Opcode::Pow) == 0x40u8,
        opcode_byte(Opcode::Cgt) == 0x41u8,
        opcode_byte(Opcode::Clt) == 0x42u8,
        opcode_byte(Opcode::Cge) == 0x43u8,
        opcode_byte(Opcode::Cle) == 0x44u8,
        opcode_byte(Opcode::Ceq) == 0x45u8,
        opcode_byte(Opcode::Cne) == 0x46u8,
        opcode_byte(Opcode::Neg) == 0x47u8,
        opcode_byte(Opcode::Bool) == 0x48u8,
        opcode_byte(Opcode::Not) == 0x49u8,
        opcode_byte(Opcode::And) == 0x4au8,
        opcode_byte(Opcode::Or) == 0x4bu8,
        opcode_byte(Opcode::Call) == 0x4cu8,
        opcode_byte(Opcode::Ret) == 0x4du8,
        opcode_byte(Opcode::Push) == 0x4eu8,
        opcode_byte(Opcode::Pop) == 0x4fu8,
        opcode_byte(Opcode::Dup) == 0x50u8,
        opcode_byte(Opcode::Swap) == 0x51u8,
        opcode_byte(Opcode::Eval) == 0x52u8,
        opcode_byte(Opcode::Addt) == 0x53u8,
        opcode_byte(Opcode::Rmvt) == 0x54u8,
        opcode_byte(Opcode::Wait) == 0x55u8,
        opcode_byte(Opcode::Gmet) == 0x57u8,
        opcode_byte(Opcode::Stol) == 0x58u8,
        opcode_byte(Opcode::Stog) == 0x59u8,
        opcode_byte(Opcode::Bscp) == 0x5au8,
        opcode_byte(Opcode::Escp) == 0x5bu8,
        opcode_byte(Opcode::Stoe) == 0x5cu8,
        opcode_byte(Opcode::Phdl) == 0x5du8,
        opcode_byte(Opcode::Btr) == 0x5eu8,
        opcode_byte(Opcode::Exst) == 0x5fu8,
        opcode_byte(Opcode::Argb) == 0x60u8,
        opcode_byte(Opcode::Targ) == 0x61u8,
        opcode_byte(Opcode::Tcan) == 0x62u8,
        opcode_byte(Opcode::Prl) == 0xceu8,
        opcode_byte(Opcode::Pdrl) == 0xcdu8,
        opcode_byte(Opcode::Lbrt) == 0xf0u8,
        opcode_byte(Opcode::Pushv) == 0xfau8,
{
}

/// Every opcode takes kOS's fixed number of operands: none for the arithmetic, comparison
/// and stack opcodes, one for `jmp`, `push`, `sto` and the like, two for `call`, `bscp`,
/// `addt`, `phdl` and `pdrl`.
pub proof fn kos_operand_counts()
    ensures
        operand_count(Opcode::Bogus) == 0,
        operand_count(Opcode::Eof) == 0,
        operand_count(Opcode::Eop) == 0,
        operand_count(Opcode::Nop) == 0,
        operand_count(Opcode::Sto) == 1,
        operand_count(Opcode::Uns) == 0,
        operand_count(Opcode::Gmb) == 1,
        operand_count(Opcode::Smb) == 1,
        operand_count(Opcode::Gidx) == 0,
        operand_count(Opcode::Sidx) == 0,
        operand_count(Opcode::Bfa) == 1,
        operand_count(Opcode::Jmp) == 1,
        operand_count(Opcode::Add) == 0,
        operand_count(Opcode::Sub) == 0,
        operand_count(Opcode::Mul) == 0,
        operand_count(Opcode::Div) == 0,
        operand_count(Opcode::Pow) == 0,
        operand_count(Opcode::Cgt) == 0,
        operand_count(Opcode::Clt) == 0,
        operand_count(Opcode::Cge) == 0,
        operand_count(Opcode::Cle) == 0,
        operand_count(Opcode::Ceq) == 0,
        operand_count(Opcode::Cne) == 0,
        operand_count(Opcode::Neg) == 0,
        operand_count(Opcode::Bool) == 0,
        operand_count(Opcode::Not) == 0,
        operand_count(Opcode::And) == 0,
        operand_count(Opcode::Or) == 0,
        operand_count(Opcode::Call) == 2,
        operand_count(Opcode::Ret) == 1,
        operand_count(Opcode::Push) == 1,
        operand_count(Opcode::Pop) == 0,
        operand_count(Opcode::Dup) == 0,
        operand_count(Opcode::Swap) == 0,
        operand_count(Opcode::Eval) == 0,
        operand_count(Opcode::Addt) == 2,
        operand_count(Opcode::Rmvt) == 0,
        operand_count(Opcode::Wait) == 0,
        operand_count(Opcode::Gmet) == 1,
        operand_count(Opcode::Stol) == 1,
        operand_count(Opcode::Stog) == 1,
        operand_count(Opcode::Bscp) == 2,
        operand_count(Opcode::Escp) == 1,
        operand_count(Opcode::Stoe) == 1,
        operand_count(Opcode::Phdl) == 2,
        operand_count(Opcode::Btr) == 1,
        operand_count(Opcode::Exst) == 0,
        operand_count(Opcode::Argb) == 0,
        operand_count(Opcode::Targ) == 0,
        operand_count(Opcode::Tcan) == 0,
        operand_count(Opcode::Prl) == 1,
        operand_count(Opcode::Pdrl) == 2,
        operand_count(Opcode::Lbrt) == 1,
        operand_count(Opcode::Pushv) == 1,
{
}

/// A byte that stands for an opcode is that opcode's byte, and no opcode takes more than two
/// operands.
pub proof fn opcode_of_byte_inverts(b: u8)
    ensures
        opcode_of_byte(b) != Opcode::Bogus ==> opcode_byte(opcode_of_byte(b)) == b,
        operand_count(opcode_of_byte(b)) <= 2,
{
}

/// Every opcode but Opcode::Bogus is read back as itself from the byte it is stored as.
pub proof fn opcode_byte_round_trip(op: Opcode)
    requires
        op != Opcode::Bogus,
    ensures
        opcode_of_byte(opcode_byte(op)) == op,
        decode_opcode(seq![opcode_byte(op)], 0) == (Ok::<Opcode, OpcodeParseError>(op), 1int),
{
}

/// Reading an opcode moves the reader forward whenever a byte is left.
pub proof fn lemma_decode_opcode_advances(data: Seq<u8>, pos: int)
    requires
        0 <= pos < data.len(),
    ensures
        decode_opcode(data, pos).1 == pos + 1,
{
}

} // verus!
