use microsim::components::{Fault, Flags, Memory};
use microsim::instruction::{decode, Instruction};
use microsim::processor::Processor;

fn with_program(words: &[u16]) -> Processor {
    let mut imem = Memory::new(words.len());
    imem.load(words);
    Processor::from_imem(imem)
}

fn set_register(cpu: &mut Processor, index: usize, value: u16) {
    cpu.rf.set_write_enable(true);
    cpu.rf.write(index, value);
    cpu.rf.set_write_enable(false);
}

#[test]
fn new_processor_is_zeroed() {
    let cpu = Processor::new();
    assert_eq!(cpu.imem.len(), 256);
    assert_eq!(cpu.dmem.len(), 256);
    assert_eq!(cpu.imem.size, 256);
    assert_eq!(cpu.dmem.size, 256);
    for i in 0..8 {
        assert_eq!(cpu.rf.read(i), 0);
    }
}

#[test]
fn decode_reads_every_field() {
    let f = Flags { n: false, z: false };
    let ins = decode(0b11_0_101_110_011_1_010, &f).unwrap();
    assert_eq!(
        ins,
        Instruction { cond: 3, mem: 1, opcode: 5, rn: 6, rd: 3, i: 1, src2: 2 }
    );
}

#[test]
fn decode_is_a_function_of_word_and_flags() {
    let f = Flags { n: true, z: false };
    for &w in &[0u16, 0b01_0_010_000_001_1_101, 0b10_0_111_111_111_1_111, 0xFFFF] {
        assert_eq!(decode(w, &f), decode(w, &f));
    }
    assert_eq!(decode(0b01_0_010_000_001_1_101, &f), None);
    assert_eq!(decode(0b01_0_010_000_001_1_101, &f), None);
    assert!(decode(0b10_0_010_000_001_1_101, &f).is_some());
}

#[test]
fn encode_then_decode_gives_the_fields_back() {
    let f = Flags { n: false, z: false };
    let ins = Instruction { cond: 3, mem: 1, opcode: 6, rn: 5, rd: 4, i: 0, src2: 7 };
    let w = ins.encode();
    assert_eq!(w, 0b11_0_110_101_100_0_111);
    assert_eq!(decode(w, &f), Some(ins));
    let plain = Instruction { cond: 0, mem: 0, opcode: 2, rn: 0, rd: 1, i: 1, src2: 5 };
    assert_eq!(decode(plain.encode(), &f), Some(plain));
}

#[test]
fn add_literal_into_register() {
    let mut cpu = with_program(&[0b00_0_010_000_001_1_101]);
    let r = cpu.cycle();
    assert_eq!(r, Ok(Some(Instruction { cond: 0, mem: 0, opcode: 2, rn: 0, rd: 1, i: 1, src2: 5 })));
    assert_eq!(cpu.rf.read(1), 5);
    assert_eq!(cpu.rf.read(7), 1);
    assert_eq!(cpu.rf.read(0), 0);
}

#[test]
fn add_with_src2_as_register() {
    // i is 0, so src2 = 5 names R5, which still holds 0
    let mut cpu = with_program(&[0b00_0_010_000_001_0_101]);
    assert!(cpu.cycle().is_ok());
    assert_eq!(cpu.rf.read(1), 0);
    assert_eq!(cpu.rf.read(7), 1);
}

#[test]
fn add_register_operand() {
    let mut cpu = with_program(&[0b00_0_010_000_101_1_101, 0b00_0_010_000_001_0_101]);
    assert!(cpu.cycle().is_ok());
    assert_eq!(cpu.rf.read(5), 5);
    assert!(cpu.cycle().is_ok());
    assert_eq!(cpu.rf.read(1), 5);
    assert_eq!(cpu.rf.read(7), 2);
}

#[test]
fn store_without_write_back() {
    let mut cpu = with_program(&[0b11_0_100_010_011_1_000]);
    set_register(&mut cpu, 2, 10);
    set_register(&mut cpu, 3, 0x1234);
    assert!(cpu.cycle().is_ok());
    assert_eq!(cpu.dmem.read(10), 0x1234);
    assert_eq!(cpu.rf.read(2), 10);
    assert_eq!(cpu.rf.read(3), 0x1234);
    assert_eq!(cpu.rf.read(7), 1);
}

#[test]
fn failed_condition_only_advances_pc() {
    let mut cpu = with_program(&[0b01_0_010_000_001_1_101]);
    assert_eq!(cpu.cycle(), Ok(None));
    for i in 0..7 {
        assert_eq!(cpu.rf.read(i), 0);
    }
    assert_eq!(cpu.rf.read(7), 1);
    for a in 0..256 {
        assert_eq!(cpu.dmem.read(a), 0);
    }
}

#[test]
fn load_with_subtract_and_write_back() {
    // store R3 at R2 - 1, writing the address back into R2, then load it into R4
    let mut cpu = with_program(&[0b11_0_111_010_011_1_001, 0b11_0_000_010_100_1_000]);
    set_register(&mut cpu, 2, 11);
    set_register(&mut cpu, 3, 0xABCD);
    assert!(cpu.cycle().is_ok());
    assert_eq!(cpu.rf.read(2), 10);
    assert_eq!(cpu.dmem.read(10), 0xABCD);
    assert!(cpu.cycle().is_ok());
    assert_eq!(cpu.rf.read(4), 0xABCD);
    assert_eq!(cpu.rf.read(2), 10);
}

#[test]
fn condition_follows_flags_of_previous_result() {
    // R1 = R0 - R0 sets zero; the next instruction runs only when zero is set
    let mut cpu = with_program(&[
        0b00_0_011_000_001_0_000,
        0b01_0_000_001_010_1_000,
        0b10_0_010_000_011_1_111,
    ]);
    assert!(cpu.cycle().is_ok());
    assert!(cpu.alu.get_flags().z);
    let second = cpu.cycle().unwrap();
    assert!(second.is_some());
    assert!(!cpu.alu.get_flags().n);
    assert_eq!(cpu.cycle(), Ok(None));
    assert_eq!(cpu.rf.read(3), 0);
    assert_eq!(cpu.rf.read(7), 3);
}

#[test]
fn divide_by_zero_stops_the_cycle() {
    let mut cpu = with_program(&[0b00_0_101_000_001_1_000]);
    assert_eq!(cpu.cycle(), Err(Fault::DivideByZero));
    assert_eq!(cpu.rf.read(1), 0);
    assert_eq!(cpu.rf.read(7), 1);
}

#[test]
fn address_outside_data_memory_is_a_fault() {
    let mut cpu = with_program(&[0b11_0_000_010_011_1_000]);
    set_register(&mut cpu, 2, 256);
    assert_eq!(cpu.cycle(), Err(Fault::AddressOutOfRange));
    assert_eq!(cpu.rf.read(3), 0);
}

#[test]
fn fetch_past_the_program_is_a_fault() {
    let mut cpu = with_program(&[0]);
    assert!(cpu.cycle().is_ok());
    assert_eq!(cpu.cycle(), Err(Fault::FetchOutOfRange));
    assert_eq!(cpu.rf.read(7), 1);
}

#[test]
fn write_to_pc_jumps() {
    // R7 = R0 + 3
    let mut cpu = with_program(&[0b00_0_010_000_111_1_011, 0, 0, 0b00_0_010_000_001_1_001]);
    assert!(cpu.cycle().is_ok());
    assert_eq!(cpu.rf.read(7), 3);
    assert!(cpu.cycle().is_ok());
    assert_eq!(cpu.rf.read(1), 1);
}
