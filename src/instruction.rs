//! The 16-bit instruction format and its decoder.
use vstd::prelude::*;
use crate::components::{condition_holds, Flags};

verus! {

/// One decoded instruction word.
///
/// Layout, bit 15 first: `cond` in bits 15..14, `mem` is bit 14 (the low bit of
/// `cond`), bit 13 is unused, `opcode` in 12..10, `rn` in 9..7, `rd` in 6..4,
/// `i` is bit 3 and `src2` is in bits 2..0.
#[derive(Debug, Clone, Copy, PartialEq, Eq, Structural)]
pub struct Instruction {
    /// Condition code, 2 bits.
    pub cond: u8,
    /// 0 for data processing, 1 for a load or store.
    pub mem: u8,
    /// ALU or memory operation selector, 3 bits.
    pub opcode: u8,
    /// First source register.
    pub rn: u8,
    /// Destination register, or the register stored by a store.
    pub rd: u8,
    /// 1 when `src2` is a literal, 0 when it names a register.
    pub i: u8,
    /// Second operand: a register index or a 3-bit literal.
    pub src2: u8,
}

/// Every field fits its width, and `mem` is the low bit of `cond`, as the
/// layout forces.
pub open spec fn well_formed(ins: Instruction) -> bool {
    &&& ins.cond < 4
    &&& ins.mem == ins.cond % 2
    &&& ins.opcode < 8
    &&& ins.rn < 8
    &&& ins.rd < 8
    &&& ins.i < 2
    &&& ins.src2 < 8
}

/// The fields of a word, read by the layout.
pub open spec fn fields_of(word: u16) -> Instruction {
    Instruction {
        cond: (word >> 14u16) as u8,
        mem: ((word >> 14u16) & 1) as u8,
        opcode: ((word >> 10u16) & 7) as u8,
        rn: ((word >> 7u16) & 7) as u8,
        rd: ((word >> 4u16) & 7) as u8,
        i: ((word >> 3u16) & 1) as u8,
        src2: (word & 7) as u8,
    }
}

/// Decoding under flags `n`, `z`: the fields when the condition code holds, else nothing.
pub open spec fn decoded(word: u16, n: bool, z: bool) -> Option<Instruction> {
    if condition_holds((word >> 14u16) as u8, n, z) {
        Some(fields_of(word))
    } else {
        None
    }
}

/// The word that holds the fields of `ins` at their places in the layout.
pub open spec fn encoded(ins: Instruction) -> u16 {
    ((ins.cond as u16) << 14u16) | ((ins.opcode as u16) << 10u16) | ((ins.rn as u16) << 7u16)
        | ((ins.rd as u16) << 4u16) | ((ins.i as u16) << 3u16) | (ins.src2 as u16)
}

/// Decodes `word` against `flags`: `None` when its condition code does not hold.
pub fn decode(word: u16, flags: &Flags) -> (r: Option<Instruction>)
    ensures
        r == decoded(word, flags.n, flags.z),
        r is Some ==> well_formed(r->Some_0),
{
    let cond = word >> 14;
    assert(word >> 14u16 < 4) by (bit_vector);
    match flags.condex(cond as u8) {
        Ok(true) => {
            let ins = Instruction {
                cond: cond as u8,
                mem: ((word >> 14) & 0b1) as u8,
                opcode: ((word >> 10) & 0b111) as u8,
                rn: ((word >> 7) & 0b111) as u8,
                rd: ((word >> 4) & 0b111) as u8,
                i: ((word >> 3) & 0b1) as u8,
                src2: (word & 0b111) as u8,
            };
            proof {
                lemma_fields_well_formed(word);
            }
            Some(ins)
        },
        _ => None,
    }
}

/// The fields read from any word fit their widths.
pub proof fn lemma_fields_well_formed(word: u16)
    ensures
        well_formed(fields_of(word)),
{
    assert(word >> 14u16 < 4) by (bit_vector);
    assert((word >> 14u16) & 1 == (word >> 14u16) % 2) by (bit_vector);
    assert((word >> 10u16) & 7 < 8) by (bit_vector);
    assert((word >> 7u16) & 7 < 8) by (bit_vector);
    assert((word >> 4u16) & 7 < 8) by (bit_vector);
    assert((word >> 3u16) & 1 < 2) by (bit_vector);
    assert(word & 7 < 8) by (bit_vector);
}

impl Instruction {
    /// Packs the fields into a word by the layout.
    pub fn encode(&self) -> (r: u16)
        requires
            well_formed(*self),
        ensures
            r == encoded(*self),
    {
        ((self.cond as u16) << 14) | ((self.opcode as u16) << 10) | ((self.rn as u16) << 7)
            | ((self.rd as u16) << 4) | ((self.i as u16) << 3) | (self.src2 as u16)
    }
}

/// Decoding is a function of the word and the flags: equal inputs give equal
/// results, the empty one included.
pub proof fn lemma_decode_deterministic(w1: u16, n1: bool, z1: bool, w2: u16, n2: bool, z2: bool)
    requires
        w1 == w2,
        n1 == n2,
        z1 == z2,
    ensures
        decoded(w1, n1, z1) == decoded(w2, n2, z2),
{
}

/// Encoding the fields of a well-formed instruction and decoding the word,
/// under flags that satisfy its condition, gives back the same fields.
pub proof fn lemma_decode_encode(ins: Instruction, n: bool, z: bool)
    requires
        well_formed(ins),
        condition_holds(ins.cond, n, z),
    ensures
        decoded(encoded(ins), n, z) == Some(ins),
{
    let c = ins.cond as u16;
    let o = ins.opcode as u16;
    let a = ins.rn as u16;
    let d = ins.rd as u16;
    let i = ins.i as u16;
    let s = ins.src2 as u16;
    let w = encoded(ins);
    assert(w == (c << 14u16) | (o << 10u16) | (a << 7u16) | (d << 4u16) | (i << 3u16) | s);
    assert(c < 4 && o < 8 && a < 8 && d < 8 && i < 2 && s < 8 && w == (c << 14u16) | (o << 10u16)
        | (a << 7u16) | (d << 4u16) | (i << 3u16) | s ==> {
        &&& w >> 14u16 == c
        &&& (w >> 14u16) & 1 == c % 2
        &&& (w >> 10u16) & 7 == o
        &&& (w >> 7u16) & 7 == a
        &&& (w >> 4u16) & 7 == d
        &&& (w >> 3u16) & 1 == i
        &&& w & 7 == s
    }) by (bit_vector);
    assert(fields_of(w) == ins);
}

} // verus!
