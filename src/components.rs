//! Storage cells, the register file, memories, condition flags and the ALU.
use vstd::prelude::*;

verus! {

/// Number of general-purpose registers. Register 7 holds the program counter.
pub const NUM_REGISTERS: usize = 8;

/// A condition that stops the simulated run.
#[derive(Debug, Clone, Copy, PartialEq, Eq, Structural)]
pub enum Fault {
    /// A condition code outside the four defined ones.
    InvalidCondition,
    /// An ALU opcode outside the eight defined ones.
    InvalidOpcode,
    /// Division or remainder by zero.
    DivideByZero,
    /// The program counter points outside the instruction store.
    FetchOutOfRange,
    /// A load or store address outside the data memory.
    AddressOutOfRange,
}

/// A single 16-bit storage cell.
pub struct Register {
    value: u16,
}

impl View for Register {
    type V = u16;

    closed spec fn view(&self) -> u16 {
        self.value
    }
}

impl Register {
    pub fn new() -> (r: Register)
        ensures
            r@ == 0,
    {
        Register { value: 0 }
    }

    pub fn read(&self) -> (r: u16)
        ensures
            r == self@,
    {
        self.value
    }

    pub fn write(&mut self, value: u16)
        ensures
            final(self)@ == value,
    {
        self.value = value;
    }
}

/// The register file: `NUM_REGISTERS` registers behind one shared write-enable latch.
pub struct RegisterFile {
    registers: Vec<Register>,
    write_enable: bool,
}

impl View for RegisterFile {
    type V = Seq<u16>;

    closed spec fn view(&self) -> Seq<u16> {
        self.registers@.map_values(|r: Register| r@)
    }
}

/// What a gated write leaves in storage `s`: the update when the latch is set, `s` otherwise.
pub open spec fn gated_write(s: Seq<u16>, enabled: bool, address: int, value: u16) -> Seq<u16> {
    if enabled {
        s.update(address, value)
    } else {
        s
    }
}

/// With the latch lowered a write leaves storage exactly as it was; raising the
/// latch and repeating the same write stores the value at its address and
/// changes nothing else.
pub proof fn lemma_write_gating(s: Seq<u16>, address: int, value: u16)
    requires
        0 <= address < s.len(),
    ensures
        gated_write(s, false, address, value) == s,
        gated_write(gated_write(s, false, address, value), true, address, value)[address] == value,
        gated_write(gated_write(s, false, address, value), true, address, value).len() == s.len(),
        forall|j: int|
            0 <= j < s.len() && j != address ==> #[trigger] gated_write(
                gated_write(s, false, address, value),
                true,
                address,
                value,
            )[j] == s[j],
{
}

impl RegisterFile {
    /// The file always holds `NUM_REGISTERS` registers.
    #[verifier::type_invariant]
    closed spec fn inv(&self) -> bool {
        self.registers@.len() == NUM_REGISTERS
    }

    /// Whether the write-enable latch is set.
    pub closed spec fn write_enabled(&self) -> bool {
        self.write_enable
    }

    pub fn new() -> (r: RegisterFile)
        ensures
            r@ == Seq::new(NUM_REGISTERS as nat, |i: int| 0u16),
            !r.write_enabled(),
    {
        let mut registers: Vec<Register> = Vec::new();
        let mut k: usize = 0;
        while k < NUM_REGISTERS
            invariant
                k <= NUM_REGISTERS,
                registers@.len() == k,
                forall|j: int| 0 <= j < k ==> #[trigger] registers@[j]@ == 0,
            decreases NUM_REGISTERS - k,
        {
            registers.push(Register::new());
            k = k + 1;
        }
        let r = RegisterFile { registers, write_enable: false };
        assert(r@ =~= Seq::new(NUM_REGISTERS as nat, |i: int| 0u16));
        r
    }

    pub fn read(&self, address: usize) -> (r: u16)
        requires
            address < NUM_REGISTERS,
        ensures
            r == self@[address as int],
            self@.len() == NUM_REGISTERS,
    {
        proof {
            use_type_invariant(self);
        }
        self.registers[address].read()
    }

    /// Writes `value` to register `address` if the latch is set; otherwise does nothing.
    pub fn write(&mut self, address: usize, value: u16)
        requires
            address < NUM_REGISTERS,
        ensures
            final(self)@ == gated_write(old(self)@, old(self).write_enabled(), address as int, value),
            final(self)@.len() == NUM_REGISTERS,
            final(self).write_enabled() == old(self).write_enabled(),
    {
        proof {
            use_type_invariant(&*self);
        }
        if self.write_enable {
            let mut registers: Vec<Register> = Vec::new();
            let mut k: usize = 0;
            while k < NUM_REGISTERS
                invariant
                    k <= NUM_REGISTERS,
                    self.registers@.len() == NUM_REGISTERS,
                    self@ == old(self)@,
                    old(self)@.len() == NUM_REGISTERS,
                    address < NUM_REGISTERS,
                    registers@.len() == k,
                    forall|j: int|
                        0 <= j < k ==> #[trigger] registers@[j]@ == old(self)@.update(
                            address as int,
                            value,
                        )[j],
                decreases NUM_REGISTERS - k,
            {
                let mut cell = Register::new();
                if k == address {
                    cell.write(value);
                } else {
                    cell.write(self.registers[k].read());
                }
                registers.push(cell);
                k = k + 1;
            }
            self.registers = registers;
            assert(self@ =~= old(self)@.update(address as int, value));
        }
    }

    pub fn set_write_enable(&mut self, write_enable: bool)
        ensures
            final(self)@ == old(self)@,
            final(self)@.len() == NUM_REGISTERS,
            final(self).write_enabled() == write_enable,
    {
        proof {
            use_type_invariant(&*self);
        }
        self.write_enable = write_enable;
    }
}

/// A word-addressed memory of `size` words behind a write-enable latch.
pub struct Memory {
    memory: Vec<u16>,
    pub size: usize,
    write_enable: bool,
}

impl View for Memory {
    type V = Seq<u16>;

    closed spec fn view(&self) -> Seq<u16> {
        self.memory@
    }
}

impl Memory {
    /// Whether the write-enable latch is set.
    pub closed spec fn write_enabled(&self) -> bool {
        self.write_enable
    }

    /// The value of the public `size` field.
    pub closed spec fn size_field(&self) -> usize {
        self.size
    }

    /// The `size` field gives the number of words held.
    pub open spec fn wf(&self) -> bool {
        self.size_field() == self@.len()
    }

    /// The number of words held.
    pub fn len(&self) -> (r: usize)
        ensures
            r == self@.len(),
    {
        self.memory.len()
    }

    pub fn new(size: usize) -> (r: Memory)
        ensures
            r.wf(),
            r.size_field() == size,
            r@ == Seq::new(size as nat, |i: int| 0u16),
            !r.write_enabled(),
    {
        let mut memory: Vec<u16> = Vec::new();
        let mut k: usize = 0;
        while k < size
            invariant
                k <= size,
                memory@ == Seq::new(k as nat, |i: int| 0u16),
            decreases size - k,
        {
            memory.push(0);
            k = k + 1;
            assert(memory@ =~= Seq::new(k as nat, |i: int| 0u16));
        }
        Memory { memory, size, write_enable: false }
    }

    /// Places `data` at the start of memory, word `i` at address `i`, regardless of the latch.
    pub fn load(&mut self, data: &[u16])
        requires
            data@.len() <= old(self)@.len(),
        ensures
            final(self)@ == data@ + old(self)@.subrange(data@.len() as int, old(self)@.len() as int),
            final(self).size_field() == old(self).size_field(),
            final(self).write_enabled() == old(self).write_enabled(),
    {
        let mut k: usize = 0;
        while k < data.len()
            invariant
                k <= data@.len(),
                data@.len() <= old(self)@.len(),
                self.write_enable == old(self).write_enable,
                self.size == old(self).size,
                self@ == data@.subrange(0, k as int) + old(self)@.subrange(k as int, old(self)@.len() as int),
            decreases data@.len() - k,
        {
            self.memory.set(k, data[k]);
            k = k + 1;
            assert(self@ =~= data@.subrange(0, k as int) + old(self)@.subrange(k as int, old(self)@.len() as int));
        }
        assert(data@.subrange(0, k as int) =~= data@);
    }

    pub fn read(&self, address: usize) -> (r: u16)
        requires
            address < self@.len(),
        ensures
            r == self@[address as int],
    {
        self.memory[address]
    }

    /// Writes `value` at `address` if the latch is set; otherwise does nothing.
    pub fn write(&mut self, address: usize, value: u16)
        requires
            address < old(self)@.len(),
        ensures
            final(self)@ == gated_write(old(self)@, old(self).write_enabled(), address as int, value),
            final(self).size_field() == old(self).size_field(),
            final(self).write_enabled() == old(self).write_enabled(),
    {
        if self.write_enable {
            self.memory.set(address, value);
        }
    }

    pub fn set_write_enable(&mut self, write_enable: bool)
        ensures
            final(self)@ == old(self)@,
            final(self).size_field() == old(self).size_field(),
            final(self).write_enabled() == write_enable,
    {
        self.write_enable = write_enable;
    }
}

/// Condition state left by the most recent ALU operation.
pub struct Flags {
    /// Negative: the sign bit of the last result.
    pub n: bool,
    /// Zero: the last result was zero.
    pub z: bool,
}

/// The truth table of the four condition codes.
pub open spec fn condition_holds(cond: u8, n: bool, z: bool) -> bool {
    if cond == 0 {
        true
    } else if cond == 1 {
        z
    } else if cond == 2 {
        n
    } else {
        !z && !n
    }
}

impl Flags {
    pub fn new() -> (r: Flags)
        ensures
            !r.n,
            !r.z,
    {
        Flags { n: false, z: false }
    }

    /// Evaluates a 2-bit condition code against the flags.
    pub fn condex(&self, cond: u8) -> (r: Result<bool, Fault>)
        ensures
            cond < 4 ==> r == Ok::<bool, Fault>(condition_holds(cond, self.n, self.z)),
            cond >= 4 ==> r == Err::<bool, Fault>(Fault::InvalidCondition),
    {
        match cond {
            0b00 => Ok(true),
            0b01 => Ok(self.z),
            0b10 => Ok(self.n),
            0b11 => Ok(!self.z && !self.n),
            _ => Err(Fault::InvalidCondition),
        }
    }
}

/// The result of ALU operation `op` on `a` and `b`, all arithmetic modulo 2^16.
pub open spec fn alu_value(op: u8, a: u16, b: u16) -> u16 {
    if op == 0 {
        a & b
    } else if op == 1 {
        a | b
    } else if op == 2 {
        ((a + b) % 0x10000) as u16
    } else if op == 3 {
        ((a - b) % 0x10000) as u16
    } else if op == 4 {
        ((a * b) % 0x10000) as u16
    } else if op == 5 {
        (a / b) as u16
    } else if op == 6 {
        (a % b) as u16
    } else {
        a ^ b
    }
}

/// What the ALU returns for `op`, `a`, `b`: the fault for an undefined opcode or
/// a zero divisor, else the value.
pub open spec fn alu_outcome(op: u8, a: u16, b: u16) -> Result<u16, Fault> {
    if op >= 8 {
        Err(Fault::InvalidOpcode)
    } else if (op == 5 || op == 6) && b == 0 {
        Err(Fault::DivideByZero)
    } else {
        Ok(alu_value(op, a, b))
    }
}

/// The negative flag for a result: its bit 15.
pub open spec fn negative_of(v: u16) -> bool {
    v >= 0x8000
}

/// The arithmetic/logic unit, which keeps the flags of its last operation.
pub struct ALU {
    flags: Flags,
}

impl ALU {
    /// The flags left by the last operation.
    pub closed spec fn flags(&self) -> Flags {
        self.flags
    }

    pub fn new() -> (r: ALU)
        ensures
            !r.flags().n,
            !r.flags().z,
    {
        ALU { flags: Flags::new() }
    }

    /// Computes `op` on `a` and `b` and sets the flags from the result. On a
    /// fault the flags are left as they were.
    pub fn execute(&mut self, op: u8, a: u16, b: u16) -> (r: Result<u16, Fault>)
        ensures
            r == alu_outcome(op, a, b),
            r is Ok ==> final(self).flags().n == negative_of(r->Ok_0)
                && final(self).flags().z == (r->Ok_0 == 0),
            r is Err ==> final(self).flags() == old(self).flags(),
    {
        let alu_result: u16 = match op {
            0 => a & b,
            1 => a | b,
            2 => a.wrapping_add(b),
            3 => a.wrapping_sub(b),
            4 => a.wrapping_mul(b),
            5 => {
                if b == 0 {
                    return Err(Fault::DivideByZero);
                }
                a / b
            },
            6 => {
                if b == 0 {
                    return Err(Fault::DivideByZero);
                }
                a % b
            },
            7 => a ^ b,
            _ => {
                return Err(Fault::InvalidOpcode);
            },
        };
        self.flags.n = (alu_result >> 15u16) == 1;
        self.flags.z = alu_result == 0;
        assert((alu_result >> 15u16 == 1) == (alu_result >= 0x8000)) by (bit_vector);
        Ok(alu_result)
    }

    pub fn get_flags(&self) -> (r: &Flags)
        ensures
            *r == self.flags(),
    {
        &self.flags
    }
}

} // verus!
