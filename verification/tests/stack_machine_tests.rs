use mos6502::bus::Bus;
use mos6502::memory::RandomAccessMemory;
use mos6502::stack_cpu::ScottCPU;
use mos6502::stack_cpu::StackFault;
use mos6502::stack_cpu::ADD8;
use mos6502::stack_cpu::HALT;
use mos6502::stack_cpu::NOT;
use mos6502::stack_cpu::SPO8;
use mos6502::stack_cpu::SPU8;
use mos6502::stack_cpu::SUB8;

fn machine() -> (ScottCPU, Bus<RandomAccessMemory>) {
    let cpu = ScottCPU::new(0x0800, 0x0100);
    let memory = RandomAccessMemory::new(0x0000);
    let bus = Bus::new(memory);
    (cpu, bus)
}

#[test]
fn push_add_sub_program() {
    // The demo program: push 1, push 1, add (= 2), push 1, sub (= 1),
    // halt.  The result sits at the bottom of the stack; the popped
    // cell above it was cleared.
    let (mut cpu, mut bus) = machine();
    bus.write(0x0800, SPU8);
    bus.write(0x0801, 0x01);
    bus.write(0x0802, SPU8);
    bus.write(0x0803, 0x01);
    bus.write(0x0804, ADD8);
    bus.write(0x0805, SPU8);
    bus.write(0x0806, 0x01);
    bus.write(0x0807, SUB8);
    bus.write(0x0808, HALT);

    for _ in 0..255 {
        if cpu.is_halted() {
            break;
        }
        cpu.tick(&mut bus).unwrap();
    }

    assert!(cpu.is_halted());
    assert_eq!(bus.read(0x0100), 1);
    assert_eq!(bus.read(0x0101), 0);
    assert_eq!(cpu.stack_top, 0x0101);
}

#[test]
fn push_and_pop_clear_cells() {
    let (mut cpu, mut bus) = machine();
    bus.write(0x0800, SPU8);
    bus.write(0x0801, 0xAB);
    bus.write(0x0802, SPO8);
    cpu.tick(&mut bus).unwrap();
    assert_eq!(bus.read(0x0100), 0xAB);
    assert_eq!(cpu.stack_top, 0x0101);
    assert_eq!(cpu.code_pointer, 0x0802);
    cpu.tick(&mut bus).unwrap();
    assert_eq!(bus.read(0x0100), 0); // popped cell is cleared
    assert_eq!(cpu.stack_top, 0x0100);
}

#[test]
fn add_wraps_modulo_256() {
    let (mut cpu, mut bus) = machine();
    bus.write(0x0800, SPU8);
    bus.write(0x0801, 200);
    bus.write(0x0802, SPU8);
    bus.write(0x0803, 100);
    bus.write(0x0804, ADD8);
    for _ in 0..3 {
        cpu.tick(&mut bus).unwrap();
    }
    assert_eq!(bus.read(0x0100), 44); // (200 + 100) mod 256
}

#[test]
fn not_complements_cell_above_top() {
    // NOT works on the cell the stack pointer names, one above the
    // topmost pushed byte.
    let (mut cpu, mut bus) = machine();
    bus.write(0x0800, SPU8);
    bus.write(0x0801, 0b10101010);
    bus.write(0x0802, NOT);
    cpu.tick(&mut bus).unwrap();
    cpu.tick(&mut bus).unwrap();
    assert_eq!(bus.read(0x0101), 0xFF); // the empty cell was 0
    assert_eq!(bus.read(0x0100), 0b10101010);
}

#[test]
fn unknown_opcode_is_a_nop() {
    let (mut cpu, mut bus) = machine();
    bus.write(0x0800, 0x77);
    cpu.tick(&mut bus).unwrap();
    assert_eq!(cpu.code_pointer, 0x0801);
    assert!(!cpu.is_halted());
    assert_eq!(cpu.stack_top, 0x0100);
}

#[test]
fn pop_from_empty_stack_underflows() {
    let (mut cpu, mut bus) = machine();
    bus.write(0x0800, SPO8);
    let fault = cpu.tick(&mut bus).unwrap_err();
    assert_eq!(fault, StackFault::StackUnderflow);
    assert_eq!(cpu.code_pointer, 0x0800); // machine left untouched
    assert_eq!(cpu.stack_top, 0x0100);
}

#[test]
fn add_with_single_operand_underflows() {
    let (mut cpu, mut bus) = machine();
    bus.write(0x0800, SPU8);
    bus.write(0x0801, 0x01);
    bus.write(0x0802, ADD8);
    cpu.tick(&mut bus).unwrap();
    let fault = cpu.tick(&mut bus).unwrap_err();
    assert_eq!(fault, StackFault::StackUnderflow);
    assert_eq!(bus.read(0x0100), 0x01);
}

#[test]
fn push_at_top_of_address_space_overflows() {
    let (mut cpu, mut bus) = machine();
    cpu.stack_top = 0xFFFF;
    bus.write(0x0800, SPU8);
    bus.write(0x0801, 0x01);
    let fault = cpu.tick(&mut bus).unwrap_err();
    assert_eq!(fault, StackFault::StackOverflow);
    assert_eq!(cpu.stack_top, 0xFFFF);
}

#[test]
fn new_machine_state() {
    let cpu = ScottCPU::new(0x0800, 0x0100);
    assert!(!cpu.is_halted());
    assert_eq!(cpu.stack_base, 0x0100);
    assert_eq!(cpu.stack_top, 0x0100);
    assert_eq!(cpu.code_base, 0x0800);
    assert_eq!(cpu.code_base_top, 0x0900);
    assert_eq!(cpu.code_pointer, 0x0800);
}
