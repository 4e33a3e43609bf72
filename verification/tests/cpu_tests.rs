use mos6502::bus::Bus;
use mos6502::cpu6502::CPU6502;
use mos6502::cpu6502::Fault;
use mos6502::cpu6502::Flags;
use mos6502::cpu6502::IAM;
use mos6502::cpu6502::IAMSubMode;
use mos6502::cpu6502::Instruction;
use mos6502::cpu6502::Registers;
use mos6502::memory::RandomAccessMemory;

fn setup() -> (CPU6502, Bus<RandomAccessMemory>) {
    let cpu: CPU6502 = CPU6502::new();
    let memory: RandomAccessMemory = RandomAccessMemory::new(0x0000);
    let bus: Bus<RandomAccessMemory> = Bus::new(memory);

    (cpu, bus)
}

#[test]
fn test_absolute_addressing() {
    let address: u16 = 0x0100;

    let (mut cpu, mut bus) = setup();
    bus.write(address, 0b00000010);
    bus.write(0x0000, 0x0E); // ASL Absolute
    bus.write(0x0001, address.to_be_bytes()[0]);
    bus.write(0x0002, address.to_be_bytes()[1]);
    let _ = cpu.tick(&mut bus);

    println!("{}", bus.read(address));
    assert_eq!(0b00000100, bus.read(address));
}

#[test]
fn test_adc() {
    let (mut cpu, mut bus) = setup();
    bus.write(0x0000, 0x69); // ADC Immediate Mode
    bus.write(0x0001, 0x01); // Value '0x01'
    let _ = cpu.tick(&mut bus);
}

#[test]
fn bus_round_trip() {
    let memory = RandomAccessMemory::new(0x0000);
    let mut bus = Bus::new(memory);
    assert!(bus.write(0x0000, 0x12));
    assert!(bus.write(0x7FFE, 0x34));
    assert!(bus.write(0x0100, 0xAB));
    assert_eq!(bus.read(0x0000), 0x12);
    assert_eq!(bus.read(0x7FFE), 0x34);
    assert_eq!(bus.read(0x0100), 0xAB);
}

#[test]
fn bus_unmapped_address() {
    let memory = RandomAccessMemory::new(0x0000);
    let mut bus = Bus::new(memory);
    // The single device covers [0x0000, 0x7FFF): everything above is
    // unmapped.  A write there is a reported no-op; a read returns the
    // defined unmapped value.
    assert!(!bus.write(0x7FFF, 0x55));
    assert_eq!(bus.read(0x7FFF), 0xFF);
    assert_eq!(bus.read(0xFFFF), 0xFF);
}

#[test]
fn memory_at_nonzero_base() {
    let memory = RandomAccessMemory::new(0x1000);
    let mut bus = Bus::new(memory);
    assert!(bus.write(0x1000, 0x42));
    assert!(bus.write(0x1234, 0x43));
    assert_eq!(bus.read(0x1000), 0x42);
    assert_eq!(bus.read(0x1234), 0x43);
    // Below the device's base nothing is mapped.
    assert!(!bus.write(0x0FFF, 0x99));
    assert_eq!(bus.read(0x0FFF), 0xFF);
}

#[test]
fn decode_populated_and_empty_slots() {
    let adc = CPU6502::decode(0x69).unwrap();
    assert_eq!(adc.instruction, Instruction::ADC);
    assert_eq!(adc.mode, IAM::Immediate);
    assert_eq!(adc.bytes, 2);
    assert_eq!(adc.cycles, 2);

    let asl = CPU6502::decode(0x1E).unwrap();
    assert_eq!(asl.instruction, Instruction::ASL);
    assert_eq!(asl.mode, IAM::Absolute(IAMSubMode::X));
    assert_eq!(asl.bytes, 3);
    assert_eq!(asl.cycles, 7);

    assert!(CPU6502::decode(0xEA).is_none());
    assert!(CPU6502::decode(0xFF).is_none());
}

#[test]
fn registers_flag_accessors() {
    let mut regs = Registers::new();
    assert_eq!(regs.status_flags, 0);
    regs.set_flag(Flags::Carry, true);
    regs.set_flag(Flags::Negative, true);
    assert!(regs.get_flag(Flags::Carry));
    assert!(regs.get_flag(Flags::Negative));
    assert!(!regs.get_flag(Flags::Zero));
    assert_eq!(regs.status_flags, 0x41);
    regs.set_flag(Flags::Carry, false);
    assert!(!regs.get_flag(Flags::Carry));
    assert_eq!(regs.status_flags, 0x40);
}

#[test]
fn adc_immediate_from_zero() {
    // Accumulator starts at 0; ADC Immediate with operand 1 leaves 1 and
    // every flag clear.
    let (mut cpu, mut bus) = setup();
    bus.write(0x0000, 0x69);
    bus.write(0x0001, 0x01);
    cpu.tick(&mut bus).unwrap();
    assert_eq!(cpu.registers.accumulator, 1);
    assert_eq!(cpu.registers.status_flags, 0x00);
    assert_eq!(cpu.registers.program_counter, 2);
}

#[test]
fn adc_immediate_uses_operand_byte_itself() {
    // The immediate operand is the instruction byte itself, not a cell it
    // would point at: memory at address 5 holds 99, but ADC #5 adds 5.
    let (mut cpu, mut bus) = setup();
    bus.write(0x0005, 99);
    bus.write(0x0000, 0x69);
    bus.write(0x0001, 0x05);
    cpu.tick(&mut bus).unwrap();
    assert_eq!(cpu.registers.accumulator, 5);
}

#[test]
fn adc_carry_out_and_modulo() {
    let (mut cpu, mut bus) = setup();
    cpu.registers.accumulator = 200;
    bus.write(0x0000, 0x69);
    bus.write(0x0001, 100);
    cpu.tick(&mut bus).unwrap();
    assert_eq!(cpu.registers.accumulator, 44); // (200 + 100) mod 256
    assert_eq!(cpu.registers.status_flags, 0x01); // carry only
}

#[test]
fn adc_carry_in_is_added() {
    let (mut cpu, mut bus) = setup();
    cpu.registers.status_flags = 0x01; // carry in
    bus.write(0x0000, 0x69);
    bus.write(0x0001, 0x00);
    cpu.tick(&mut bus).unwrap();
    assert_eq!(cpu.registers.accumulator, 1); // 0 + 0 + 1
    assert_eq!(cpu.registers.status_flags, 0x00);
}

#[test]
fn adc_signed_overflow() {
    // 0x50 + 0x50: two positives summing to a negative byte set Overflow
    // and Negative.
    let (mut cpu, mut bus) = setup();
    cpu.registers.accumulator = 0x50;
    bus.write(0x0000, 0x69);
    bus.write(0x0001, 0x50);
    cpu.tick(&mut bus).unwrap();
    assert_eq!(cpu.registers.accumulator, 0xA0);
    assert_eq!(cpu.registers.status_flags, 0x60); // overflow | negative
}

#[test]
fn adc_zero_result() {
    let (mut cpu, mut bus) = setup();
    cpu.registers.accumulator = 0x80;
    bus.write(0x0000, 0x69);
    bus.write(0x0001, 0x80);
    cpu.tick(&mut bus).unwrap();
    assert_eq!(cpu.registers.accumulator, 0x00);
    // carry | zero | overflow
    assert_eq!(cpu.registers.status_flags, 0x23);
}

#[test]
fn adc_zero_page_and_indexed() {
    let (mut cpu, mut bus) = setup();
    cpu.registers.accumulator = 1;
    bus.write(0x0042, 7);
    bus.write(0x0000, 0x65); // ADC ZeroPage
    bus.write(0x0001, 0x42);
    cpu.tick(&mut bus).unwrap();
    assert_eq!(cpu.registers.accumulator, 8);
    assert_eq!(cpu.registers.program_counter, 2);

    let (mut cpu, mut bus) = setup();
    cpu.registers.idx_x = 2;
    bus.write(0x0044, 9);
    bus.write(0x0000, 0x75); // ADC ZeroPage,X
    bus.write(0x0001, 0x42);
    cpu.tick(&mut bus).unwrap();
    assert_eq!(cpu.registers.accumulator, 9);
}

#[test]
fn adc_absolute_indexed() {
    // Absolute operands are encoded high byte first; the Y register is
    // added to the assembled address.
    let (mut cpu, mut bus) = setup();
    cpu.registers.idx_y = 3;
    bus.write(0x0203, 11);
    bus.write(0x0000, 0x79); // ADC Absolute,Y
    bus.write(0x0001, 0x02);
    bus.write(0x0002, 0x00);
    cpu.tick(&mut bus).unwrap();
    assert_eq!(cpu.registers.accumulator, 11);
    assert_eq!(cpu.registers.program_counter, 3);
}

#[test]
fn and_updates_zero_negative_only() {
    let (mut cpu, mut bus) = setup();
    cpu.registers.accumulator = 0b11001100;
    cpu.registers.status_flags = 0x21; // carry and overflow preset
    bus.write(0x0000, 0x29); // AND Immediate
    bus.write(0x0001, 0b10101010);
    cpu.tick(&mut bus).unwrap();
    assert_eq!(cpu.registers.accumulator, 0b10001000);
    // negative set from bit 7; carry and overflow untouched
    assert_eq!(cpu.registers.status_flags, 0x61);

    let (mut cpu, mut bus) = setup();
    cpu.registers.accumulator = 0b01010101;
    bus.write(0x0000, 0x29);
    bus.write(0x0001, 0b10101010);
    cpu.tick(&mut bus).unwrap();
    assert_eq!(cpu.registers.accumulator, 0);
    assert_eq!(cpu.registers.status_flags, 0x02); // zero
}

#[test]
fn asl_accumulator() {
    // Accumulator 0b00000010 shifts to 0b00000100 with Carry clear.
    let (mut cpu, mut bus) = setup();
    cpu.registers.accumulator = 0b00000010;
    bus.write(0x0000, 0x0A); // ASL Accumulator
    cpu.tick(&mut bus).unwrap();
    assert_eq!(cpu.registers.accumulator, 0b00000100);
    assert!(!cpu.registers.get_flag(Flags::Carry));
    assert_eq!(cpu.registers.program_counter, 1);
}

#[test]
fn asl_accumulator_carry_out() {
    let (mut cpu, mut bus) = setup();
    cpu.registers.accumulator = 0b10000001;
    bus.write(0x0000, 0x0A);
    cpu.tick(&mut bus).unwrap();
    assert_eq!(cpu.registers.accumulator, 0b00000010);
    assert!(cpu.registers.get_flag(Flags::Carry));
}

#[test]
fn asl_zero_page_writes_back() {
    let (mut cpu, mut bus) = setup();
    bus.write(0x0030, 0b01000001);
    bus.write(0x0000, 0x06); // ASL ZeroPage
    bus.write(0x0001, 0x30);
    cpu.tick(&mut bus).unwrap();
    assert_eq!(bus.read(0x0030), 0b10000010);
    assert_eq!(cpu.registers.accumulator, 0);
    assert!(!cpu.registers.get_flag(Flags::Carry));
}

#[test]
fn beq_taken_and_not_taken() {
    // Taken: the Zero flag is set, so the program counter moves to the
    // natural next instruction plus the offset.
    let (mut cpu, mut bus) = setup();
    cpu.registers.set_flag(Flags::Zero, true);
    bus.write(0x0000, 0xF0); // BEQ
    bus.write(0x0001, 0x05);
    cpu.tick(&mut bus).unwrap();
    assert_eq!(cpu.registers.program_counter, 7);

    // Not taken: the Zero flag is clear, so it lands on the natural next
    // instruction.
    let (mut cpu, mut bus) = setup();
    bus.write(0x0000, 0xF0);
    bus.write(0x0001, 0x05);
    cpu.tick(&mut bus).unwrap();
    assert_eq!(cpu.registers.program_counter, 2);
}

#[test]
fn beq_negative_offset() {
    let (mut cpu, mut bus) = setup();
    cpu.registers.program_counter = 0x0010;
    cpu.registers.set_flag(Flags::Zero, true);
    bus.write(0x0010, 0xF0); // BEQ
    bus.write(0x0011, 0xFE); // -2
    cpu.tick(&mut bus).unwrap();
    assert_eq!(cpu.registers.program_counter, 0x0010);
}

#[test]
fn branch_variants_follow_their_flags() {
    // BNE with Zero clear is taken.
    let (mut cpu, mut bus) = setup();
    bus.write(0x0000, 0xD0); // BNE
    bus.write(0x0001, 0x03);
    cpu.tick(&mut bus).unwrap();
    assert_eq!(cpu.registers.program_counter, 5);

    // BCS with Carry set is taken.
    let (mut cpu, mut bus) = setup();
    cpu.registers.set_flag(Flags::Carry, true);
    bus.write(0x0000, 0xB0); // BCS
    bus.write(0x0001, 0x02);
    cpu.tick(&mut bus).unwrap();
    assert_eq!(cpu.registers.program_counter, 4);

    // BMI with Negative clear falls through.
    let (mut cpu, mut bus) = setup();
    bus.write(0x0000, 0x30); // BMI
    bus.write(0x0001, 0x7F);
    cpu.tick(&mut bus).unwrap();
    assert_eq!(cpu.registers.program_counter, 2);
}

#[test]
fn unknown_opcode_reports_address_and_byte() {
    let (mut cpu, mut bus) = setup();
    cpu.registers.program_counter = 0x0123;
    bus.write(0x0123, 0xEA); // empty table slot
    let before = cpu.registers;
    let fault = cpu.tick(&mut bus).unwrap_err();
    assert_eq!(fault, Fault::UnknownOpcode { address: 0x0123, opcode: 0xEA });
    assert_eq!(cpu.registers, before);
}

#[test]
fn unsupported_mode_reports_address_and_byte() {
    let (mut cpu, mut bus) = setup();
    bus.write(0x0000, 0x61); // ADC (Indirect,X): mode not resolved
    let fault = cpu.tick(&mut bus).unwrap_err();
    assert_eq!(fault, Fault::UnsupportedMode { address: 0x0000, opcode: 0x61 });
    assert_eq!(cpu.registers.program_counter, 0);
}

#[test]
fn brk_reports_unsupported_instruction() {
    let (mut cpu, mut bus) = setup();
    bus.write(0x0000, 0x00); // BRK is in the table but not implemented
    let fault = cpu.tick(&mut bus).unwrap_err();
    assert_eq!(fault, Fault::UnsupportedInstruction { address: 0x0000, opcode: 0x00 });
    assert_eq!(cpu.registers.program_counter, 0);
}

#[test]
fn flag_clears_touch_only_their_bit() {
    // For a fully set status byte, each clear instruction removes exactly
    // its own bit.
    let cases: [(u8, u8); 4] = [
        (0x18, 0x01), // CLC clears Carry
        (0xD8, 0x08), // CLD clears DecimalMode
        (0x58, 0x04), // CLI clears InterruptDisable
        (0xB8, 0x20), // CLV clears Overflow
    ];
    for (opcode, mask) in cases {
        let (mut cpu, mut bus) = setup();
        cpu.registers.status_flags = 0xFF;
        bus.write(0x0000, opcode);
        cpu.tick(&mut bus).unwrap();
        assert_eq!(cpu.registers.status_flags, 0xFF & !mask);
        assert_eq!(cpu.registers.program_counter, 1);
    }
}

#[test]
fn flag_clears_leave_clear_bits_clear() {
    let (mut cpu, mut bus) = setup();
    cpu.registers.status_flags = 0x42;
    bus.write(0x0000, 0x18); // CLC on a byte whose Carry is already clear
    cpu.tick(&mut bus).unwrap();
    assert_eq!(cpu.registers.status_flags, 0x42);
}

#[test]
fn cmp_sets_carry_zero_negative() {
    let (mut cpu, mut bus) = setup();
    cpu.registers.accumulator = 5;
    bus.write(0x0000, 0xC9); // CMP Immediate
    bus.write(0x0001, 3);
    cpu.tick(&mut bus).unwrap();
    assert_eq!(cpu.registers.status_flags, 0x01); // carry: 5 >= 3
    assert_eq!(cpu.registers.accumulator, 5);

    let (mut cpu, mut bus) = setup();
    cpu.registers.accumulator = 3;
    bus.write(0x0000, 0xC9);
    bus.write(0x0001, 5);
    cpu.tick(&mut bus).unwrap();
    assert_eq!(cpu.registers.status_flags, 0x40); // negative: 3 - 5 = 0xFE

    let (mut cpu, mut bus) = setup();
    cpu.registers.accumulator = 5;
    bus.write(0x0000, 0xC9);
    bus.write(0x0001, 5);
    cpu.tick(&mut bus).unwrap();
    assert_eq!(cpu.registers.status_flags, 0x03); // carry | zero
}

#[test]
fn bit_copies_operand_bits() {
    let (mut cpu, mut bus) = setup();
    cpu.registers.accumulator = 0x0F;
    bus.write(0x0010, 0xC0);
    bus.write(0x0000, 0x24); // BIT ZeroPage
    bus.write(0x0001, 0x10);
    cpu.tick(&mut bus).unwrap();
    // zero (0x0F & 0xC0 == 0), overflow from bit 6, negative from bit 7
    assert_eq!(cpu.registers.status_flags, 0x62);
    assert_eq!(cpu.registers.accumulator, 0x0F);
}
