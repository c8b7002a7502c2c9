//! A functional simulator for a small 16-bit microprocessor: register file,
//! ALU with condition flags, gated memories, instruction decoding and the
//! fetch/decode/execute cycle, each with a verified contract.
use vstd::prelude::*;

pub mod components;
pub mod instruction;
pub mod processor;
pub mod program;

verus! {

} // verus!
