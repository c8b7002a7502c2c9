//! The processor: one fetch/decode/execute cycle per call.
use vstd::prelude::*;
use crate::components::{
    alu_outcome, alu_value, negative_of, Fault, Memory, RegisterFile, ALU, NUM_REGISTERS,
};
use crate::instruction::{decode, decoded, well_formed, Instruction};

verus! {

/// Size in words of each memory of a processor built by `new`, and of its data memory.
pub const MEMORY_WORDS: usize = 256;

/// Register that holds the program counter.
pub const PC: usize = 7;

/// The architectural state that a cycle reads and changes: registers, flags and
/// data memory.
pub struct Machine {
    pub regs: Seq<u16>,
    pub n: bool,
    pub z: bool,
    pub dmem: Seq<u16>,
}

/// `m` with its flags set from the result `v`.
pub open spec fn flagged(m: Machine, v: u16) -> Machine {
    Machine { regs: m.regs, n: negative_of(v), z: v == 0, dmem: m.dmem }
}

/// The second operand: register `src2`, or the literal `src2` when `i` is set.
pub open spec fn operand_b(regs: Seq<u16>, ins: Instruction) -> u16 {
    if ins.i == 0 {
        regs[ins.src2 as int]
    } else {
        ins.src2 as u16
    }
}

/// A data-processing instruction: the ALU result goes to `rd`.
pub open spec fn data_processing_step(m: Machine, ins: Instruction) -> (Machine, Result<(), Fault>) {
    match alu_outcome(ins.opcode, m.regs[ins.rn as int], operand_b(m.regs, ins)) {
        Ok(v) => (
            flagged(Machine { regs: m.regs.update(ins.rd as int, v), n: m.n, z: m.z, dmem: m.dmem }, v),
            Ok(()),
        ),
        Err(f) => (m, Err(f)),
    }
}

/// The ALU opcode that computes a memory instruction's address: add when bit 0
/// of `opcode` is clear, subtract when it is set.
pub open spec fn address_op(opcode: u8) -> u8 {
    if opcode % 2 == 0 {
        2
    } else {
        3
    }
}

/// A load (bit 2 of `opcode` clear) or store (set) at `rn` plus or minus the
/// second operand, with the address written back to `rn` when bit 1 is set.
pub open spec fn memory_step(m: Machine, ins: Instruction) -> (Machine, Result<(), Fault>) {
    let addr = alu_value(address_op(ins.opcode), m.regs[ins.rn as int], operand_b(m.regs, ins));
    let regs = if (ins.opcode / 2) % 2 == 1 {
        m.regs.update(ins.rn as int, addr)
    } else {
        m.regs
    };
    let m1 = flagged(Machine { regs: regs, n: m.n, z: m.z, dmem: m.dmem }, addr);
    if addr >= m.dmem.len() {
        (m1, Err(Fault::AddressOutOfRange))
    } else if (ins.opcode / 4) % 2 == 0 {
        (Machine { regs: regs.update(ins.rd as int, m.dmem[addr as int]), n: m1.n, z: m1.z, dmem: m.dmem }, Ok(()))
    } else {
        (Machine { regs: regs, n: m1.n, z: m1.z, dmem: m.dmem.update(addr as int, regs[ins.rd as int]) }, Ok(()))
    }
}

/// Executes a decoded instruction by its `mem` field.
pub open spec fn process_step(m: Machine, ins: Instruction) -> (Machine, Result<(), Fault>) {
    if ins.mem == 0 {
        data_processing_step(m, ins)
    } else {
        memory_step(m, ins)
    }
}

/// One cycle from `m` with instruction store `imem`: the new state and what the
/// cycle returns, the executed instruction or `None` when its condition failed.
pub open spec fn cycle_step(m: Machine, imem: Seq<u16>) -> (Machine, Result<Option<Instruction>, Fault>) {
    let pc = m.regs[PC as int];
    if pc >= imem.len() {
        (m, Err(Fault::FetchOutOfRange))
    } else {
        let m1 = Machine {
            regs: m.regs.update(PC as int, ((pc + 1) % 0x10000) as u16),
            n: m.n,
            z: m.z,
            dmem: m.dmem,
        };
        match decoded(imem[pc as int], m.n, m.z) {
            None => (m1, Ok(None)),
            Some(ins) => {
                let (m2, r) = process_step(m1, ins);
                match r {
                    Ok(_) => (m2, Ok(Some(ins))),
                    Err(f) => (m2, Err(f)),
                }
            },
        }
    }
}

/// A register file, an ALU with its flags, an instruction store and a data memory.
pub struct Processor {
    pub rf: RegisterFile,
    pub alu: ALU,
    pub imem: Memory,
    pub dmem: Memory,
}

impl View for Processor {
    type V = Machine;

    open spec fn view(&self) -> Machine {
        Machine { regs: self.rf@, n: self.alu.flags().n, z: self.alu.flags().z, dmem: self.dmem@ }
    }
}

impl Processor {
    /// Neither write-enable latch is left set.
    pub open spec fn latches_low(&self) -> bool {
        !self.rf.write_enabled() && !self.dmem.write_enabled()
    }

    pub fn new() -> (r: Processor)
        ensures
            r.latches_low(),
            r@.regs == Seq::new(NUM_REGISTERS as nat, |i: int| 0u16),
            !r@.n && !r@.z,
            r@.dmem == Seq::new(MEMORY_WORDS as nat, |i: int| 0u16),
            r.imem@ == Seq::new(MEMORY_WORDS as nat, |i: int| 0u16),
            r.imem.wf() && r.imem.size_field() == MEMORY_WORDS,
            r.dmem.wf() && r.dmem.size_field() == MEMORY_WORDS,
    {
        Processor {
            rf: RegisterFile::new(),
            alu: ALU::new(),
            imem: Memory::new(MEMORY_WORDS),
            dmem: Memory::new(MEMORY_WORDS),
        }
    }

    /// A processor with a preloaded instruction store and everything else zeroed.
    pub fn from_imem(imem: Memory) -> (r: Processor)
        ensures
            !r.rf.write_enabled(),
            !r.dmem.write_enabled(),
            r@.regs == Seq::new(NUM_REGISTERS as nat, |i: int| 0u16),
            !r@.n && !r@.z,
            r@.dmem == Seq::new(MEMORY_WORDS as nat, |i: int| 0u16),
            r.dmem.wf() && r.dmem.size_field() == MEMORY_WORDS,
            r.imem == imem,
    {
        Processor { rf: RegisterFile::new(), alu: ALU::new(), imem, dmem: Memory::new(MEMORY_WORDS) }
    }

    /// Decodes `instr` against the current flags.
    pub fn decode(&self, instr: u16) -> (r: Option<Instruction>)
        ensures
            r == decoded(instr, self@.n, self@.z),
            r is Some ==> well_formed(r->Some_0),
    {
        decode(instr, self.alu.get_flags())
    }

    /// The second operand of `instr`.
    fn operand_b(&self, instr: &Instruction) -> (r: u16)
        requires
            well_formed(*instr),
        ensures
            r == operand_b(self@.regs, *instr),
    {
        if instr.i == 0 {
            self.rf.read(instr.src2 as usize)
        } else {
            instr.src2 as u16
        }
    }

    /// Writes one register inside a raise/lower bracket of the latch.
    fn write_register(&mut self, address: usize, value: u16)
        requires
            old(self).latches_low(),
            address < NUM_REGISTERS,
        ensures
            final(self)@ == (Machine { regs: old(self)@.regs.update(address as int, value), ..old(self)@ }),
            final(self).imem == old(self).imem,
            final(self).dmem.size_field() == old(self).dmem.size_field(),
            final(self).latches_low(),
    {
        self.rf.set_write_enable(true);
        self.rf.write(address, value);
        self.rf.set_write_enable(false);
    }

    fn data_processing(&mut self, instr: Instruction) -> (r: Result<(), Fault>)
        requires
            old(self).latches_low(),
            well_formed(instr),
        ensures
            (final(self)@, r) == data_processing_step(old(self)@, instr),
            final(self).imem == old(self).imem,
            final(self).dmem.size_field() == old(self).dmem.size_field(),
            final(self).latches_low(),
    {
        let src_a = self.rf.read(instr.rn as usize);
        let src_b = self.operand_b(&instr);
        let alu_result = match self.alu.execute(instr.opcode, src_a, src_b) {
            Ok(v) => v,
            Err(f) => {
                assert(self@ == old(self)@);
                return Err(f);
            },
        };
        self.write_register(instr.rd as usize, alu_result);
        Ok(())
    }

    fn memory_manip(&mut self, instr: Instruction) -> (r: Result<(), Fault>)
        requires
            old(self).latches_low(),
            well_formed(instr),
        ensures
            (final(self)@, r) == memory_step(old(self)@, instr),
            final(self).imem == old(self).imem,
            final(self).dmem.size_field() == old(self).dmem.size_field(),
            final(self).latches_low(),
    {
        let src_a = self.rf.read(instr.rn as usize);
        let src_b = self.operand_b(&instr);
        let opcode = instr.opcode;
        let write = (opcode >> 2) & 0b1;
        let write_back = (opcode >> 1) & 0b1;
        let operation = opcode & 0b1;
        assert(write == (opcode / 4) % 2 && write_back == (opcode / 2) % 2
            && (0b10u8 | operation) == address_op(opcode)) by (bit_vector)
            requires
                write == (opcode >> 2u8) & 1,
                write_back == (opcode >> 1u8) & 1,
                operation == opcode & 1,
                address_op(opcode) == if opcode % 2 == 0 { 2u8 } else { 3u8 },
        ;
        let address = match self.alu.execute(0b10 | operation, src_a, src_b) {
            Ok(v) => v,
            Err(f) => {
                return Err(f);
            },
        };
        if write_back == 1 {
            self.write_register(instr.rn as usize, address);
        }
        if address as usize >= self.dmem.len() {
            return Err(Fault::AddressOutOfRange);
        }
        if write == 0 {
            let value = self.dmem.read(address as usize);
            self.write_register(instr.rd as usize, value);
        } else {
            let value = self.rf.read(instr.rd as usize);
            self.dmem.set_write_enable(true);
            self.dmem.write(address as usize, value);
            self.dmem.set_write_enable(false);
        }
        Ok(())
    }

    /// Executes a decoded instruction: data processing or a load/store by its `mem` field.
    pub fn process(&mut self, instr: Instruction) -> (r: Result<(), Fault>)
        requires
            old(self).latches_low(),
            well_formed(instr),
        ensures
            (final(self)@, r) == process_step(old(self)@, instr),
            final(self).imem == old(self).imem,
            final(self).dmem.size_field() == old(self).dmem.size_field(),
            final(self).latches_low(),
    {
        if instr.mem == 0 {
            self.data_processing(instr)
        } else {
            self.memory_manip(instr)
        }
    }

    /// Runs one cycle: increments the program counter, fetches the word it
    /// pointed at, decodes it and, when its condition holds, executes it.
    /// Returns the executed instruction, or `None` when the condition failed.
    /// A fault stops the cycle where it arises and is returned; the state it
    /// leaves is the one `cycle_step` gives. Both write-enable latches are low
    /// afterwards whatever the outcome.
    pub fn cycle(&mut self) -> (r: Result<Option<Instruction>, Fault>)
        requires
        ensures
            (final(self)@, r) == cycle_step(old(self)@, old(self).imem@),
            final(self).imem == old(self).imem,
            final(self).dmem.size_field() == old(self).dmem.size_field(),
            final(self).latches_low(),
    {
        self.rf.set_write_enable(false);
        self.dmem.set_write_enable(false);
        let pc = self.rf.read(PC);
        if pc as usize >= self.imem.len() {
            return Err(Fault::FetchOutOfRange);
        }
        self.write_register(PC, pc.wrapping_add(1));
        let numeric_instr = self.imem.read(pc as usize);
        match self.decode(numeric_instr) {
            Some(instr) => {
                match self.process(instr) {
                    Ok(()) => Ok(Some(instr)),
                    Err(f) => Err(f),
                }
            },
            None => Ok(None),
        }
    }
}

} // verus!
