//! Reading and writing Kerbal Object (KO) files and Kerbal Machine Code (KSM) files, the
//! object and executable formats of the Kerbal Operating System (kOS).
#![allow(unused_imports)]

pub mod buffer;
pub mod errors;
pub mod ko;
pub mod ksm;
pub mod opcode;
pub mod primitives;
pub mod value;

pub use buffer::BufferIterator;
pub use opcode::Opcode;
pub use errors::{KOSValueParseError, OpcodeParseError};
pub use primitives::{FromBytes, ToBytes};
pub use value::{KOSType, KOSValue};
