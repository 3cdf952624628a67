//! Opcodes of the instructions that rasm sections hold.

use vstd::prelude::*;

verus! {

pub const PUSHU64_OPCODE: u16 = 19;
pub const LOCAL_OPCODE: u16 = 80;
pub const RETL_OPCODE: u16 = 81;
pub const LOADOS_OPCODE: u16 = 82;

} // verus!
